use llmpad::chat::{Exchange, Method};
use llmpad::error::{AppError, Command, Service};
use llmpad::models::{OllamaListResponse, OllamaModel};
use llmpad::ollama::{
    check_base_model, create_arguments, create_ollama_model, list_ollama_models, modelfile_name,
    program, pull_arguments, pull_ollama_model, run_outcome, tags_request, ProcessEnd,
};

fn listing(names: &[&str]) -> OllamaListResponse {
    OllamaListResponse {
        models: names.iter().map(|n| OllamaModel { name: n.to_string() }).collect(),
    }
}

fn tags_url(api_url: &str) -> String {
    tags_request(api_url).url
}

#[test]
fn tags_are_asked_by_get_without_key_or_body() {
    let call = tags_request("http://localhost:11434/v1");
    assert_eq!(call.method, Method::Get);
    assert_eq!(call.url, "http://localhost:11434/api/tags");
    assert_eq!(call.authorization, None);
    assert_eq!(call.body, None);
}

#[test]
fn tags_are_asked_below_the_address_without_v1() {
    assert_eq!(tags_url("http://localhost:11434/v1"), "http://localhost:11434/api/tags");
    assert_eq!(tags_url("http://localhost:11434"), "http://localhost:11434/api/tags");
    assert_eq!(tags_url("http://localhost:11434/"), "http://localhost:11434/api/tags");
    assert_eq!(tags_url("http://localhost:11434//v1"), "http://localhost:11434/api/tags");
    assert_eq!(tags_url("http://localhost:11434/v1/v1"), "http://localhost:11434/api/tags");
    assert_eq!(tags_url("http://localhost:11434/v1/"), "http://localhost:11434/v1/api/tags");
    assert_eq!(tags_url(""), "/api/tags");
}

#[test]
fn listed_models_are_the_names_in_order() {
    let exchange = Exchange::Answered {
        status: 200,
        body: String::new(),
        decoded: Ok(listing(&["llama3.2:latest", "mistral"])),
    };
    assert_eq!(
        list_ollama_models(exchange),
        Ok(vec!["llama3.2:latest".to_string(), "mistral".to_string()])
    );
    let exchange =
        Exchange::Answered { status: 200, body: String::new(), decoded: Ok(listing(&[])) };
    assert_eq!(list_ollama_models(exchange), Ok(Vec::new()));
}

#[test]
fn listing_fails_as_the_exchange_failed() {
    let exchange: Exchange<OllamaListResponse> =
        Exchange::Unreachable { cause: "refused".to_string() };
    let e = list_ollama_models(exchange).unwrap_err();
    assert_eq!(e, AppError::Transport { service: Service::Tags, cause: "refused".to_string() });
    assert_eq!(e.message(), "Erro ao conectar com Ollama: refused");

    let exchange = Exchange::Answered {
        status: 404,
        body: "nothing here".to_string(),
        decoded: Ok(listing(&["x"])),
    };
    let e = list_ollama_models(exchange).unwrap_err();
    assert_eq!(
        e,
        AppError::Upstream {
            service: Service::Tags,
            status: 404,
            body: "nothing here".to_string(),
        }
    );
    assert_eq!(e.message(), "Ollama retornou erro 404 Not Found: nothing here");

    let exchange: Exchange<OllamaListResponse> = Exchange::Answered {
        status: 200,
        body: "<html>".to_string(),
        decoded: Err("expected value".to_string()),
    };
    let e = list_ollama_models(exchange).unwrap_err();
    assert_eq!(e, AppError::Decode { service: Service::Tags, cause: "expected value".to_string() });
    assert_eq!(e.message(), "Erro ao parsear resposta do Ollama: expected value");
}

#[test]
fn base_model_is_looked_up_by_its_whole_name() {
    let models = vec!["llama3.2:latest".to_string(), "mistral".to_string()];
    assert!(check_base_model(&models, "mistral"));
    assert!(check_base_model(&models, "llama3.2:latest"));
    assert!(!check_base_model(&models, "llama3.2"));
    assert!(!check_base_model(&models, "Mistral"));
    assert!(!check_base_model(&models, ""));
    assert!(!check_base_model(&Vec::new(), "mistral"));
}

#[test]
fn tool_is_started_with_subcommand_and_model() {
    assert_eq!(program(), "ollama");
    assert_eq!(pull_arguments("llama3.2"), vec!["pull".to_string(), "llama3.2".to_string()]);
    assert_eq!(
        create_arguments("mine", "/tmp/mine.Modelfile"),
        vec![
            "create".to_string(),
            "mine".to_string(),
            "-f".to_string(),
            "/tmp/mine.Modelfile".to_string()
        ]
    );
    assert_eq!(modelfile_name("mine"), "mine.Modelfile");
}

#[test]
fn pull_that_ends_well_reports_the_model() {
    let end = ProcessEnd::Exited { success: true, stderr: String::new(), stdout: String::new() };
    assert_eq!(
        pull_ollama_model("llama3.2", end),
        Ok("Modelo 'llama3.2' baixado com sucesso!".to_string())
    );
}

#[test]
fn pull_that_ends_badly_is_a_process_failure() {
    let end = ProcessEnd::Exited { success: false, stderr: String::new(), stdout: String::new() };
    let e = pull_ollama_model("llama3.2", end).unwrap_err();
    assert_eq!(
        e,
        AppError::Process {
            command: Command::Pull,
            target: "llama3.2".to_string(),
            stderr: String::new(),
            stdout: String::new(),
        }
    );
    assert_eq!(e.message(), "Erro ao baixar modelo 'llama3.2'");
}

#[test]
fn tool_that_cannot_be_started_is_a_launch_failure() {
    let end = ProcessEnd::NotStarted { cause: "No such file or directory".to_string() };
    let e = pull_ollama_model("llama3.2", end).unwrap_err();
    assert_eq!(e, AppError::Launch { cause: "No such file or directory".to_string() });
    assert_eq!(
        e.message(),
        "Erro ao executar comando ollama: No such file or directory. Certifique-se de que o Ollama está instalado."
    );
    let end = ProcessEnd::NotStarted { cause: "denied".to_string() };
    assert_eq!(
        create_ollama_model("mine", end),
        Err(AppError::Launch { cause: "denied".to_string() })
    );
}

#[test]
fn create_reports_what_the_tool_wrote_when_it_fails() {
    let end = ProcessEnd::Exited {
        success: false,
        stderr: "bad file".to_string(),
        stdout: "reading".to_string(),
    };
    let e = create_ollama_model("mine", end).unwrap_err();
    assert_eq!(
        e,
        AppError::Process {
            command: Command::Create,
            target: "mine".to_string(),
            stderr: "bad file".to_string(),
            stdout: "reading".to_string(),
        }
    );
    assert_eq!(e.message(), "Erro ao criar modelo:\nbad file\nreading");
    let end = ProcessEnd::Exited { success: true, stderr: "warn".to_string(), stdout: String::new() };
    assert_eq!(create_ollama_model("mine", end), Ok("Modelo 'mine' criado com sucesso!".to_string()));
}

#[test]
fn outcome_follows_the_task() {
    let end = ProcessEnd::Exited { success: true, stderr: String::new(), stdout: String::new() };
    assert_eq!(
        run_outcome(Command::Pull, "m", end),
        Ok("Modelo 'm' baixado com sucesso!".to_string())
    );
    let end = ProcessEnd::Exited { success: true, stderr: String::new(), stdout: String::new() };
    assert_eq!(
        run_outcome(Command::Create, "m", end),
        Ok("Modelo 'm' criado com sucesso!".to_string())
    );
}
