use llmpad::chat::{chat_completion, chat_request, first_choice, Exchange, Method};
use llmpad::text::strip_suffixes;
use llmpad::status::{status_is_success, status_text};
use llmpad::error::{AppError, Service};
use llmpad::models::{ChatChoice, ChatMessage, ChatMessageResponse, ChatRequest, ChatResponse};

fn choice(content: &str) -> ChatChoice {
    ChatChoice { message: ChatMessageResponse { content: content.to_string() } }
}

#[test]
fn request_goes_to_chat_completions_below_the_address() {
    let messages = vec![ChatMessage { role: "user".to_string(), content: "Hello".to_string() }];
    let call = chat_request(
        messages.clone(),
        "http://localhost:11434/v1",
        "",
        "llama3.2".to_string(),
    );
    assert_eq!(call.method, Method::Post);
    assert_eq!(call.url, "http://localhost:11434/v1/chat/completions");
    assert_eq!(call.authorization, None);
    assert_eq!(
        call.body,
        Some(ChatRequest { model: "llama3.2".to_string(), messages, stream: false })
    );
}

#[test]
fn slashes_at_the_end_of_the_address_are_dropped() {
    let call = chat_request(Vec::new(), "https://api.example.com/v1///", "", "m".to_string());
    assert_eq!(call.url, "https://api.example.com/v1/chat/completions");
    let call = chat_request(Vec::new(), "/", "", "m".to_string());
    assert_eq!(call.url, "/chat/completions");
    let call = chat_request(Vec::new(), "", "", "m".to_string());
    assert_eq!(call.url, "/chat/completions");
}

#[test]
fn key_is_sent_as_bearer_only_where_there_is_one() {
    let call = chat_request(Vec::new(), "http://h", "abc", "m".to_string());
    assert_eq!(call.authorization, Some("Bearer abc".to_string()));
    let call = chat_request(Vec::new(), "http://h", " ", "m".to_string());
    assert_eq!(call.authorization, Some("Bearer  ".to_string()));
    let call = chat_request(Vec::new(), "http://h", "", "m".to_string());
    assert_eq!(call.authorization, None);
}

#[test]
fn suffix_is_stripped_as_often_as_it_stands() {
    assert_eq!(strip_suffixes("a/v1/v1", "/v1"), "a");
    assert_eq!(strip_suffixes("a/v1/", "/v1"), "a/v1/");
    assert_eq!(strip_suffixes("/v1", "/v1"), "");
    assert_eq!(strip_suffixes("v1", "/v1"), "v1");
    assert_eq!(strip_suffixes("abc", ""), "abc");
    assert_eq!(strip_suffixes("é//", "/"), "é");
}

#[test]
fn status_of_success_is_200_to_299() {
    assert!(!status_is_success(199));
    assert!(status_is_success(200));
    assert!(status_is_success(204));
    assert!(status_is_success(299));
    assert!(!status_is_success(300));
    assert!(!status_is_success(404));
    assert!(!status_is_success(500));
    assert!(!status_is_success(0));
}

#[test]
fn first_choice_is_the_reply() {
    let exchange = Exchange::Answered {
        status: 200,
        body: "{}".to_string(),
        decoded: Ok(ChatResponse { choices: vec![choice("Hi there"), choice("Or this")] }),
    };
    assert_eq!(chat_completion(exchange), Ok("Hi there".to_string()));
}

#[test]
fn no_choice_gives_the_fixed_reply_and_no_failure() {
    let exchange = Exchange::Answered {
        status: 200,
        body: "{\"choices\":[]}".to_string(),
        decoded: Ok(ChatResponse { choices: Vec::new() }),
    };
    assert_eq!(chat_completion(exchange), Ok("No response".to_string()));
    assert_eq!(first_choice(&ChatResponse { choices: Vec::new() }), "No response");
}

#[test]
fn status_500_is_an_upstream_failure_with_status_and_body() {
    let exchange: Exchange<ChatResponse> = Exchange::Answered {
        status: 500,
        body: "server error".to_string(),
        decoded: Ok(ChatResponse { choices: vec![choice("ignored")] }),
    };
    let e = chat_completion(exchange).unwrap_err();
    assert_eq!(
        e,
        AppError::Upstream {
            service: Service::Completion,
            status: 500,
            body: "server error".to_string(),
        }
    );
    assert_eq!(e.message(), "API retornou erro 500 Internal Server Error: server error");
}

#[test]
fn unreachable_endpoint_is_a_transport_failure() {
    let exchange: Exchange<ChatResponse> =
        Exchange::Unreachable { cause: "connection refused".to_string() };
    let e = chat_completion(exchange).unwrap_err();
    assert_eq!(
        e,
        AppError::Transport {
            service: Service::Completion,
            cause: "connection refused".to_string(),
        }
    );
    assert_eq!(e.message(), "Erro na requisição: connection refused");
}

#[test]
fn unreadable_body_is_a_decode_failure() {
    let exchange: Exchange<ChatResponse> = Exchange::Answered {
        status: 200,
        body: "not json".to_string(),
        decoded: Err("expected value at line 1".to_string()),
    };
    let e = chat_completion(exchange).unwrap_err();
    assert_eq!(
        e,
        AppError::Decode {
            service: Service::Completion,
            cause: "expected value at line 1".to_string(),
        }
    );
    assert_eq!(e.message(), "Erro ao parsear resposta: expected value at line 1");
}

#[test]
fn status_is_shown_with_its_reason() {
    assert_eq!(status_text(200), "200 OK");
    assert_eq!(status_text(404), "404 Not Found");
    assert_eq!(status_text(500), "500 Internal Server Error");
    assert_eq!(status_text(799), "799 <unknown status code>");
}

#[test]
fn number_that_is_no_status_is_shown_bare() {
    assert_eq!(status_text(0), "0");
    assert_eq!(status_text(99), "99");
    assert_eq!(status_text(1000), "1000");
    assert_eq!(status_text(65535), "65535");
    assert!(!status_is_success(1200));
}

#[test]
fn upstream_failure_of_a_number_that_is_no_status_shows_the_number() {
    let exchange: Exchange<ChatResponse> =
        Exchange::Answered { status: 42, body: "odd".to_string(), decoded: Err(String::new()) };
    let e = chat_completion(exchange).unwrap_err();
    assert_eq!(e.message(), "API retornou erro 42: odd");
}
