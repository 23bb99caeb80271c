//! The failures that the library reports, and the text that shows each of
//! them to the user.

use vstd::prelude::*;
use crate::status::{status_shown, status_text};
use crate::text::decimal;

verus! {

/// The two requests that go to the model endpoint.
#[derive(Debug, Clone, Copy, PartialEq, Eq, Structural)]
pub enum Service {
    /// A chat completion.
    Completion,
    /// The list of the models that are installed.
    Tags,
}

/// The two tasks that the external tool is started for.
#[derive(Debug, Clone, Copy, PartialEq, Eq, Structural)]
pub enum Command {
    /// Build a model from a model description file.
    Create,
    /// Download a model.
    Pull,
}

/// Why an operation failed.
#[derive(Debug, PartialEq, Eq)]
pub enum AppError {
    /// The store could not carry out the operation.
    Store { cause: String },
    /// No conversation or message has the id that was given.
    NotFound,
    /// The endpoint could not be reached.
    Transport { service: Service, cause: String },
    /// The endpoint answered with a status outside 200 to 299.
    Upstream { service: Service, status: u16, body: String },
    /// The endpoint's answer could not be read.
    Decode { service: Service, cause: String },
    /// The external tool could not be started.
    Launch { cause: String },
    /// The external tool ran and reported failure.
    Process { command: Command, target: String, stderr: String, stdout: String },
}

/// What an [`AppError`] holds.
pub enum AppErrorView {
    Store { cause: Seq<char> },
    NotFound,
    Transport { service: Service, cause: Seq<char> },
    Upstream { service: Service, status: u16, body: Seq<char> },
    Decode { service: Service, cause: Seq<char> },
    Launch { cause: Seq<char> },
    Process { command: Command, target: Seq<char>, stderr: Seq<char>, stdout: Seq<char> },
}

impl View for AppError {
    type V = AppErrorView;

    open spec fn view(&self) -> AppErrorView {
        match self {
            AppError::Store { cause } => AppErrorView::Store { cause: cause@ },
            AppError::NotFound => AppErrorView::NotFound,
            AppError::Transport { service, cause } => AppErrorView::Transport {
                service: *service,
                cause: cause@,
            },
            AppError::Upstream { service, status, body } => AppErrorView::Upstream {
                service: *service,
                status: *status,
                body: body@,
            },
            AppError::Decode { service, cause } => AppErrorView::Decode {
                service: *service,
                cause: cause@,
            },
            AppError::Launch { cause } => AppErrorView::Launch { cause: cause@ },
            AppError::Process { command, target, stderr, stdout } => AppErrorView::Process {
                command: *command,
                target: target@,
                stderr: stderr@,
                stdout: stdout@,
            },
        }
    }
}

/// `part` stands somewhere in `text`.
pub open spec fn holds_text(text: Seq<char>, part: Seq<char>) -> bool {
    exists|i: int| 0 <= i && i + part.len() <= text.len() && #[trigger] text.subrange(
        i,
        i + part.len(),
    ) == part
}

/// The text that shows that a service answered with a status that is shown
/// as `shown`, and with this body.
pub open spec fn upstream_text(service: Service, shown: Seq<char>, body: Seq<char>) -> Seq<char> {
    match service {
        Service::Completion => "API retornou erro "@ + shown + ": "@ + body,
        Service::Tags => "Ollama retornou erro "@ + shown + ": "@ + body,
    }
}

/// The text that shows `e` to the user.
pub open spec fn message_text(e: AppErrorView) -> Seq<char> {
    match e {
        AppErrorView::Store { cause } => cause,
        AppErrorView::NotFound => "Query returned no rows"@,
        AppErrorView::Transport { service, cause } => match service {
            Service::Completion => "Erro na requisição: "@ + cause,
            Service::Tags => "Erro ao conectar com Ollama: "@ + cause,
        },
        AppErrorView::Upstream { service, status, body } => upstream_text(
            service,
            status_shown(status),
            body,
        ),
        AppErrorView::Decode { service, cause } => match service {
            Service::Completion => "Erro ao parsear resposta: "@ + cause,
            Service::Tags => "Erro ao parsear resposta do Ollama: "@ + cause,
        },
        AppErrorView::Launch { cause } => "Erro ao executar comando ollama: "@ + cause
            + ". Certifique-se de que o Ollama está instalado."@,
        AppErrorView::Process { command, target, stderr, stdout } => match command {
            Command::Create => "Erro ao criar modelo:\n"@ + stderr + "\n"@ + stdout,
            Command::Pull => "Erro ao baixar modelo '"@ + target + "'"@,
        },
    }
}

/// The text that shows that a service answered with a status that is shown
/// as `shown`, and with this body.
pub fn upstream_message(service: Service, shown: &str, body: &str) -> (r: String)
    ensures
        r@ == upstream_text(service, shown@, body@),
{
    let head = match service {
        Service::Completion => "API retornou erro ",
        Service::Tags => "Ollama retornou erro ",
    };
    head.to_owned().concat(shown).concat(": ").concat(body)
}

/// The text that shows a status outside 200 to 299 holds the status as it is
/// shown, and ends with the body.
pub proof fn lemma_upstream_text(service: Service, shown: Seq<char>, body: Seq<char>)
    ensures
        holds_text(upstream_text(service, shown, body), shown),
        body.is_suffix_of(upstream_text(service, shown, body)),
{
    let text = upstream_text(service, shown, body);
    let head = match service {
        Service::Completion => "API retornou erro "@,
        Service::Tags => "Ollama retornou erro "@,
    };
    assert(text.subrange(head.len() as int, (head.len() + shown.len()) as int) =~= shown);
    assert(text.skip(text.len() - body.len()) =~= body);
}

impl AppError {
    /// The text that shows this failure to the user. For a status outside
    /// 200 to 299 it holds the number of the status in decimal and ends with
    /// the body.
    pub fn message(&self) -> (r: String)
        ensures
            r@ == message_text(self@),
            self@ matches AppErrorView::Upstream { status, body, .. } ==> {
                &&& holds_text(r@, decimal(status as nat))
                &&& body.is_suffix_of(r@)
            },
    {
        match self {
            AppError::Store { cause } => cause.clone(),
            AppError::NotFound => "Query returned no rows".to_owned(),
            AppError::Transport { service, cause } => {
                let head = match service {
                    Service::Completion => "Erro na requisição: ",
                    Service::Tags => "Erro ao conectar com Ollama: ",
                };
                head.to_owned().concat(cause.as_str())
            },
            AppError::Upstream { service, status, body } => {
                let shown = status_text(*status);
                let r = upstream_message(*service, shown.as_str(), body.as_str());
                proof {
                    lemma_upstream_text(*service, shown@, body@);
                    let number = decimal(*status as nat);
                    let i = choose|i: int|
                        0 <= i && i + shown@.len() <= r@.len() && #[trigger] r@.subrange(
                            i,
                            i + shown@.len(),
                        ) == shown@;
                    assert(r@.subrange(i, i + number.len()) =~= shown@.subrange(
                        0,
                        number.len() as int,
                    ));
                }
                r
            },
            AppError::Decode { service, cause } => {
                let head = match service {
                    Service::Completion => "Erro ao parsear resposta: ",
                    Service::Tags => "Erro ao parsear resposta do Ollama: ",
                };
                head.to_owned().concat(cause.as_str())
            },
            AppError::Launch { cause } => "Erro ao executar comando ollama: ".to_owned().concat(
                cause.as_str(),
            ).concat(". Certifique-se de que o Ollama está instalado."),
            AppError::Process { command, target, stderr, stdout } => match command {
                Command::Create => "Erro ao criar modelo:\n".to_owned().concat(
                    stderr.as_str(),
                ).concat("\n").concat(stdout.as_str()),
                Command::Pull => "Erro ao baixar modelo '".to_owned().concat(
                    target.as_str(),
                ).concat("'"),
            },
        }
    }
}

} // verus!
