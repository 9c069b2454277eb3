//! The command-line client: which ALME request each command sends, and what
//! it prints for the reply.
use vstd::prelude::*;

use crate::arcella_types::alme::{
    log_lines, log_lines_of, texts_view, AlmeCommand, AlmeRequest, AlmeResponse,
};
use crate::paths::{home_dir_text, path_join, spec_path_join};

verus! {

/// The commands of the client.
#[derive(Debug, Clone, PartialEq, Eq)]
pub enum Commands {
    /// Check that ALME answers.
    Ping,
    /// Print the last `n` log lines.
    LogTail { n: usize },
    /// Print the runtime status.
    Status,
    /// List the installed modules.
    ModuleList,
    /// Install a module from a `.wasm` file or a component directory.
    ModuleInstall { path: String },
    /// Deploy a module from a `.deployment.toml` file.
    ModuleDeploy { file: String },
    /// Start a deployment.
    ModuleStart { deployment_id: String },
    /// Stop a deployment.
    ModuleStop { deployment_id: String },
    /// Interactive console.
    Shell,
}

/// What the client prints, and whether it then exits with status 1.
#[derive(Debug, Clone, PartialEq, Eq)]
pub struct CliOutput {
    /// Lines for standard output, in order.
    pub stdout: Vec<String>,
    /// Lines for standard error, in order.
    pub stderr: Vec<String>,
    /// Whether the process exits with status 1 afterwards.
    pub exit_failure: bool,
}

/// The ALME command that `cmd` sends; none for the interactive console.
pub open spec fn spec_command_for(cmd: Commands) -> Option<AlmeCommand> {
    match cmd {
        Commands::Ping => Some(AlmeCommand::Ping),
        Commands::LogTail { n } => Some(AlmeCommand::LogTail { n }),
        Commands::Status => Some(AlmeCommand::Status { deployment_id: None }),
        Commands::ModuleList => Some(AlmeCommand::ModuleList),
        Commands::ModuleInstall { path } => Some(AlmeCommand::ModuleInstall { path }),
        Commands::ModuleDeploy { file } => Some(AlmeCommand::ModuleDeploy { file }),
        Commands::ModuleStart { deployment_id } => Some(AlmeCommand::ModuleStart { deployment_id }),
        Commands::ModuleStop { deployment_id } => Some(AlmeCommand::ModuleStop { deployment_id }),
        Commands::Shell => None,
    }
}

/// The request that `cmd` sends to the daemon; `None` for [`Commands::Shell`],
/// which sends nothing.
pub fn request_for(cmd: &Commands) -> (r: Option<AlmeRequest>)
    ensures
        match r {
            Some(req) => spec_command_for(*cmd) == Some(req.command),
            None => spec_command_for(*cmd) is None,
        },
{
    let command = match cmd {
        Commands::Ping => AlmeCommand::Ping,
        Commands::LogTail { n } => AlmeCommand::LogTail { n: *n },
        Commands::Status => AlmeCommand::Status { deployment_id: None },
        Commands::ModuleList => AlmeCommand::ModuleList,
        Commands::ModuleInstall { path } => AlmeCommand::ModuleInstall { path: path.clone() },
        Commands::ModuleDeploy { file } => AlmeCommand::ModuleDeploy { file: file.clone() },
        Commands::ModuleStart { deployment_id } => AlmeCommand::ModuleStart {
            deployment_id: deployment_id.clone(),
        },
        Commands::ModuleStop { deployment_id } => AlmeCommand::ModuleStop {
            deployment_id: deployment_id.clone(),
        },
        Commands::Shell => {
            return None;
        },
    };
    Some(AlmeRequest { command })
}

/// The line printed for a failed reply.
pub open spec fn error_line(message: Seq<char>) -> Seq<char> {
    "Error: "@ + message
}

/// What a generic command prints for `resp` (see [`exec_reply`]).
pub open spec fn spec_exec_stdout(
    resp: AlmeResponse,
    success_msg: Seq<char>,
    details: Option<String>,
) -> Seq<Seq<char>> {
    let a: Seq<Seq<char>> = if success_msg.len() > 0 { seq![success_msg] } else { Seq::empty() };
    let b: Seq<Seq<char>> = if resp.message@.len() > 0 { seq![resp.message@] } else { Seq::empty() };
    let c: Seq<Seq<char>> = match (resp.data, details) {
        (Some(_), Some(d)) => seq!["Details: "@ + d@],
        _ => Seq::empty(),
    };
    a + b + c
}

/// A string holding `prefix` followed by `rest`.
fn concat(prefix: &str, rest: &str) -> (r: String)
    ensures
        r@ == prefix@ + rest@,
{
    let mut r = String::from_str(prefix);
    r.append(rest);
    r
}

/// The output of a failed reply: `Error: <message>` on standard error, and
/// exit status 1.
pub fn failure_output(message: &str) -> (r: CliOutput)
    ensures
        r.stdout@.len() == 0,
        texts_view(r.stderr@) == seq![error_line(message@)],
        r.exit_failure,
{
    let mut stderr: Vec<String> = Vec::new();
    stderr.push(concat("Error: ", message));
    let r = CliOutput { stdout: Vec::new(), stderr, exit_failure: true };
    assert(texts_view(r.stderr@) =~= seq![error_line(message@)]);
    r
}

/// What a command that prints the reply prints: on success the success
/// message (when not empty), the reply's message (when not empty) and
/// `Details: <details>` when the reply carries data (`details` is that data
/// pretty-printed); on failure, `Error: <message>` and exit status 1.
pub fn exec_reply(resp: &AlmeResponse, success_msg: &str, details: Option<String>) -> (r: CliOutput)
    ensures
        resp.success ==> {
            &&& texts_view(r.stdout@) == spec_exec_stdout(*resp, success_msg@, details)
            &&& r.stderr@.len() == 0
            &&& !r.exit_failure
        },
        !resp.success ==> {
            &&& r.stdout@.len() == 0
            &&& texts_view(r.stderr@) == seq![error_line(resp.message@)]
            &&& r.exit_failure
        },
{
    if !resp.success {
        return failure_output(resp.message.as_str());
    }
    let mut stdout: Vec<String> = Vec::new();
    let ghost a: Seq<Seq<char>> = if success_msg@.len() > 0 { seq![success_msg@] } else { Seq::empty() };
    let ghost b: Seq<Seq<char>> = if resp.message@.len() > 0 { seq![resp.message@] } else { Seq::empty() };
    if success_msg.unicode_len() > 0 {
        stdout.push(success_msg.to_string());
    }
    assert(texts_view(stdout@) =~= a);
    if resp.message.unicode_len() > 0 {
        stdout.push(resp.message.clone());
    }
    assert(texts_view(stdout@) =~= a + b);
    match (&resp.data, details) {
        (Some(_), Some(d)) => {
            stdout.push(concat("Details: ", d.as_str()));
        },
        _ => {},
    }
    let r = CliOutput { stdout, stderr: Vec::new(), exit_failure: false };
    assert(texts_view(r.stdout@) =~= spec_exec_stdout(*resp, success_msg@, details));
    r
}

/// What `log:tail` prints: on success each log line of the reply, in order;
/// on failure `Error: <message>` and exit status 1.
pub fn log_tail_reply(resp: &AlmeResponse) -> (r: CliOutput)
    ensures
        resp.success ==> {
            &&& texts_view(r.stdout@) == log_lines_of(resp.data)
            &&& r.stderr@.len() == 0
            &&& !r.exit_failure
        },
        !resp.success ==> {
            &&& r.stdout@.len() == 0
            &&& texts_view(r.stderr@) == seq![error_line(resp.message@)]
            &&& r.exit_failure
        },
{
    if !resp.success {
        return failure_output(resp.message.as_str());
    }
    CliOutput { stdout: log_lines(&resp.data), stderr: Vec::new(), exit_failure: false }
}

/// The line printed by the interactive console, which is not available.
pub open spec fn shell_message() -> Seq<char> {
    "Interactive shell not implemented yet (use single commands)"@
}

/// What the interactive console prints: that it is not available, on
/// standard error, and exit status 1.
pub fn shell_output() -> (r: CliOutput)
    ensures
        r.stdout@.len() == 0,
        texts_view(r.stderr@) == seq![shell_message()],
        r.exit_failure,
{
    let mut stderr: Vec<String> = Vec::new();
    stderr.push("Interactive shell not implemented yet (use single commands)".to_string());
    let r = CliOutput { stdout: Vec::new(), stderr, exit_failure: true };
    assert(texts_view(r.stderr@) =~= seq![shell_message()]);
    r
}

/// What the client prints for command `cmd` once the daemon answered
/// `resp` (`details`: the reply's data pretty-printed): `log:tail` prints
/// the log lines, every other command prints the reply with no success
/// message of its own.
pub fn command_output(cmd: &Commands, resp: &AlmeResponse, details: Option<String>) -> (r: CliOutput)
    ensures
        *cmd is LogTail ==> {
            &&& resp.success ==> texts_view(r.stdout@) == log_lines_of(resp.data)
                && r.stderr@.len() == 0 && !r.exit_failure
            &&& !resp.success ==> r.stdout@.len() == 0
                && texts_view(r.stderr@) == seq![error_line(resp.message@)] && r.exit_failure
        },
        *cmd is Shell ==> {
            &&& r.stdout@.len() == 0
            &&& texts_view(r.stderr@) == seq![shell_message()]
            &&& r.exit_failure
        },
        !(*cmd is LogTail) && !(*cmd is Shell) ==> {
            &&& resp.success ==> texts_view(r.stdout@) == spec_exec_stdout(*resp, Seq::empty(), details)
                && r.stderr@.len() == 0 && !r.exit_failure
            &&& !resp.success ==> r.stdout@.len() == 0
                && texts_view(r.stderr@) == seq![error_line(resp.message@)] && r.exit_failure
        },
{
    match cmd {
        Commands::LogTail { .. } => log_tail_reply(resp),
        Commands::Shell => shell_output(),
        _ => {
            let r = exec_reply(resp, "", details);
            proof {
                reveal_strlit("");
            }
            r
        },
    }
}

/// Where the ALME socket lives under the home directory `home`:
/// `<home>/.arcella/alme`.
pub fn default_socket_path(home: &str) -> (r: String)
    ensures
        r@ == spec_path_join(spec_path_join(home@, ".arcella"@), "alme"@),
{
    let base = path_join(home, ".arcella");
    path_join(base.as_str(), "alme")
}

/// The default ALME socket of the current user: `.arcella/alme` under the
/// home directory; `None` when the home directory is unknown.
pub fn get_default_socket_path() -> (r: Option<String>)
    ensures
        r matches Some(p) ==> exists|h: Seq<char>|
            p@ == #[trigger] spec_path_join(spec_path_join(h, ".arcella"@), "alme"@),
{
    match home_dir_text() {
        Some(h) => Some(default_socket_path(h.as_str())),
        None => None,
    }
}

} // verus!
