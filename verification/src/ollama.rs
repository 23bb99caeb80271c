//! The rules around the external model tool: which models the endpoint
//! lists, how the tool is started, and what its end means.
//!
//! The library starts nothing itself. It says how to start the tool, and it
//! takes a description of how the run ended.

use vstd::prelude::*;
use crate::chat::{Call, Exchange, Method};
use crate::error::{AppError, AppErrorView, Command, Service};
use crate::models::{OllamaListResponse, views};
use crate::status::{is_success, status_is_success};
use crate::text::{same_text, strip_suffixes, without_suffix};

verus! {

/// Where the list of models is asked for: the endpoint's address without
/// `/v1` at its end and then without the slashes at its end, then
/// `/api/tags`.
pub open spec fn tags_url_of(api_url: Seq<char>) -> Seq<char> {
    without_suffix(without_suffix(api_url, "/v1"@), "/"@) + "/api/tags"@
}

/// The name under which the tool is looked up.
pub open spec fn program_name() -> Seq<char> {
    "ollama"@
}

/// The name of the tool's subcommand for a task.
pub open spec fn command_name(command: Command) -> Seq<char> {
    match command {
        Command::Create => "create"@,
        Command::Pull => "pull"@,
    }
}

/// The arguments of the run that builds `model_name` from the description
/// file at `path`.
pub open spec fn create_arguments_of(model_name: Seq<char>, path: Seq<char>) -> Seq<Seq<char>> {
    seq![command_name(Command::Create), model_name, "-f"@, path]
}

/// The arguments of the run that downloads `model_name`.
pub open spec fn pull_arguments_of(model_name: Seq<char>) -> Seq<Seq<char>> {
    seq![command_name(Command::Pull), model_name]
}

/// The name of the file that holds the description of `model_name` while
/// the model is built.
pub open spec fn modelfile_name_of(model_name: Seq<char>) -> Seq<char> {
    model_name + ".Modelfile"@
}

/// What is reported when `model_name` was built.
pub open spec fn created_text(model_name: Seq<char>) -> Seq<char> {
    "Modelo '"@ + model_name + "' criado com sucesso!"@
}

/// What is reported when `model_name` was downloaded.
pub open spec fn pulled_text(model_name: Seq<char>) -> Seq<char> {
    "Modelo '"@ + model_name + "' baixado com sucesso!"@
}

/// What is reported when a run for `model_name` ended well.
pub open spec fn done_text(command: Command, model_name: Seq<char>) -> Seq<char> {
    match command {
        Command::Create => created_text(model_name),
        Command::Pull => pulled_text(model_name),
    }
}

/// How a run of the tool ended.
#[derive(Debug)]
pub enum ProcessEnd {
    /// The tool could not be started.
    NotStarted { cause: String },
    /// The tool ran to its end. `success` says whether it reported success;
    /// `stderr` and `stdout` hold what it wrote, as far as that was kept.
    Exited { success: bool, stderr: String, stdout: String },
}

/// Says what to send for the list of models: a `GET` to the address of the
/// tags, with no header of its own and no body.
pub fn tags_request(api_url: &str) -> (r: Call)
    ensures
        r.method == Method::Get,
        r.url@ == tags_url_of(api_url@),
        r.authorization is None,
        r.body is None,
{
    Call {
        method: Method::Get,
        url: strip_suffixes(strip_suffixes(api_url, "/v1"), "/").to_owned().concat("/api/tags"),
        authorization: None,
        body: None,
    }
}

/// The names of the models that the endpoint lists, from what came back
/// from it.
///
/// An endpoint that could not be reached is a `Transport` failure. A status
/// outside 200 to 299 is an `Upstream` failure with the status and the body
/// as they came. A body that could not be read is a `Decode` failure.
pub fn list_ollama_models(exchange: Exchange<OllamaListResponse>) -> (r: Result<
    Vec<String>,
    AppError,
>)
    ensures
        match exchange {
            Exchange::Unreachable { cause } => r is Err && r->Err_0@ == (AppErrorView::Transport {
                service: Service::Tags,
                cause: cause@,
            }),
            Exchange::Answered { status, body, decoded } => if !is_success(status) {
                r is Err && r->Err_0@ == (AppErrorView::Upstream {
                    service: Service::Tags,
                    status,
                    body: body@,
                })
            } else {
                match decoded {
                    Err(cause) => r is Err && r->Err_0@ == (AppErrorView::Decode {
                        service: Service::Tags,
                        cause: cause@,
                    }),
                    Ok(response) => r is Ok && views(r->Ok_0@) == response@,
                }
            },
        },
{
    match exchange {
        Exchange::Unreachable { cause } => Err(AppError::Transport { service: Service::Tags, cause }),
        Exchange::Answered { status, body, decoded } => {
            if !status_is_success(status) {
                Err(AppError::Upstream { service: Service::Tags, status, body })
            } else {
                match decoded {
                    Err(cause) => Err(AppError::Decode { service: Service::Tags, cause }),
                    Ok(response) => {
                        let n = response.models.len();
                        let mut names: Vec<String> = Vec::new();
                        let mut i: usize = 0;
                        while i < n
                            invariant
                                n == response.models.len(),
                                i <= n,
                                names.len() == i,
                                forall|k: int|
                                    0 <= k < i ==> (#[trigger] names[k])@ == response.models[k].name@,
                            decreases n - i,
                        {
                            names.push(response.models[i].name.clone());
                            i += 1;
                        }
                        assert(views(names@) =~= response@);
                        Ok(names)
                    },
                }
            }
        },
    }
}

/// Tells whether `model_name` is among the models that the endpoint lists.
pub fn check_base_model(models: &Vec<String>, model_name: &str) -> (r: bool)
    ensures
        r == views(models@).contains(model_name@),
{
    let n = models.len();
    let mut i: usize = 0;
    while i < n
        invariant
            n == models.len(),
            i <= n,
            forall|k: int| 0 <= k < i ==> (#[trigger] models[k])@ != model_name@,
        decreases n - i,
    {
        if same_text(models[i].as_str(), model_name) {
            assert(views(models@)[i as int] == model_name@);
            return true;
        }
        i += 1;
    }
    false
}

/// The name under which the tool is looked up.
pub fn program() -> (r: &'static str)
    ensures
        r@ == program_name(),
{
    "ollama"
}

/// The arguments of the run that builds `model_name` from the description
/// file at `path`.
pub fn create_arguments(model_name: &str, path: &str) -> (r: Vec<String>)
    ensures
        views(r@) == create_arguments_of(model_name@, path@),
{
    let mut r: Vec<String> = Vec::new();
    r.push("create".to_owned());
    r.push(model_name.to_owned());
    r.push("-f".to_owned());
    r.push(path.to_owned());
    assert(views(r@) =~= create_arguments_of(model_name@, path@));
    r
}

/// The arguments of the run that downloads `model_name`.
pub fn pull_arguments(model_name: &str) -> (r: Vec<String>)
    ensures
        views(r@) == pull_arguments_of(model_name@),
{
    let mut r: Vec<String> = Vec::new();
    r.push("pull".to_owned());
    r.push(model_name.to_owned());
    assert(views(r@) =~= pull_arguments_of(model_name@));
    r
}

/// The name of the file that holds the description of `model_name` while
/// the model is built.
pub fn modelfile_name(model_name: &str) -> (r: String)
    ensures
        r@ == modelfile_name_of(model_name@),
{
    model_name.to_owned().concat(".Modelfile")
}

/// What a run of the tool for `model_name` gives, from how it ended.
///
/// A tool that could not be started is a `Launch` failure. One that ran and
/// did not report success is a `Process` failure that names the task and the
/// model and holds what the tool wrote. Else the result is the report that
/// the task was done.
pub fn run_outcome(command: Command, model_name: &str, end: ProcessEnd) -> (r: Result<
    String,
    AppError,
>)
    ensures
        match end {
            ProcessEnd::NotStarted { cause } => r is Err && r->Err_0@ == (AppErrorView::Launch {
                cause: cause@,
            }),
            ProcessEnd::Exited { success, stderr, stdout } => if success {
                r is Ok && r->Ok_0@ == done_text(command, model_name@)
            } else {
                r is Err && r->Err_0@ == (AppErrorView::Process {
                    command,
                    target: model_name@,
                    stderr: stderr@,
                    stdout: stdout@,
                })
            },
        },
{
    match end {
        ProcessEnd::NotStarted { cause } => Err(AppError::Launch { cause }),
        ProcessEnd::Exited { success, stderr, stdout } => {
            if success {
                let tail = match command {
                    Command::Create => "' criado com sucesso!",
                    Command::Pull => "' baixado com sucesso!",
                };
                Ok("Modelo '".to_owned().concat(model_name).concat(tail))
            } else {
                Err(AppError::Process { command, target: model_name.to_owned(), stderr, stdout })
            }
        },
    }
}

/// What building `model_name` gives, from how the run ended.
pub fn create_ollama_model(model_name: &str, end: ProcessEnd) -> (r: Result<String, AppError>)
    ensures
        match end {
            ProcessEnd::NotStarted { cause } => r is Err && r->Err_0@ == (AppErrorView::Launch {
                cause: cause@,
            }),
            ProcessEnd::Exited { success, stderr, stdout } => if success {
                r is Ok && r->Ok_0@ == created_text(model_name@)
            } else {
                r is Err && r->Err_0@ == (AppErrorView::Process {
                    command: Command::Create,
                    target: model_name@,
                    stderr: stderr@,
                    stdout: stdout@,
                })
            },
        },
{
    run_outcome(Command::Create, model_name, end)
}

/// What downloading `model_name` gives, from how the run ended.
pub fn pull_ollama_model(model_name: &str, end: ProcessEnd) -> (r: Result<String, AppError>)
    ensures
        match end {
            ProcessEnd::NotStarted { cause } => r is Err && r->Err_0@ == (AppErrorView::Launch {
                cause: cause@,
            }),
            ProcessEnd::Exited { success, stderr, stdout } => if success {
                r is Ok && r->Ok_0@ == pulled_text(model_name@)
            } else {
                r is Err && r->Err_0@ == (AppErrorView::Process {
                    command: Command::Pull,
                    target: model_name@,
                    stderr: stderr@,
                    stdout: stdout@,
                })
            },
        },
{
    run_outcome(Command::Pull, model_name, end)
}

} // verus!
