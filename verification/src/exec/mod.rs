use crate::config::Config;
use crate::errors::{VibeError, VibeErrorView};
use crate::safety::pathguard::{dir_under, law_dir_lies_under_root, lies_under, resolve_dir};
use crate::safety::{command_admitted, command_is_allowed};
use crate::text::strings_view;
use crate::wire::{clone_opt, opt_view};
use vstd::prelude::*;

verus! {

/// What one executed command left behind.
#[derive(Debug)]
pub struct CmdResult {
    pub command: String,
    pub cwd: Option<String>,
    pub status_code: i32,
    pub stdout: String,
    pub stderr: String,
    pub duration_ms: u64,
    pub via_shell_fallback: bool,
}

/// A command result as plain data.
pub struct CmdResultView {
    pub command: Seq<char>,
    pub cwd: Option<Seq<char>>,
    pub status_code: i32,
    pub stdout: Seq<char>,
    pub stderr: Seq<char>,
    pub duration_ms: u64,
    pub via_shell_fallback: bool,
}

impl View for CmdResult {
    type V = CmdResultView;

    open spec fn view(&self) -> CmdResultView {
        CmdResultView {
            command: self.command@,
            cwd: opt_view(self.cwd),
            status_code: self.status_code,
            stdout: self.stdout@,
            stderr: self.stderr@,
            duration_ms: self.duration_ms,
            via_shell_fallback: self.via_shell_fallback,
        }
    }
}

impl Clone for CmdResult {
    fn clone(&self) -> (r: Self)
        ensures
            r == *self,
    {
        CmdResult {
            command: self.command.clone(),
            cwd: clone_opt(&self.cwd),
            status_code: self.status_code,
            stdout: self.stdout.clone(),
            stderr: self.stderr.clone(),
            duration_ms: self.duration_ms,
            via_shell_fallback: self.via_shell_fallback,
        }
    }
}

impl Default for CmdResult {
    fn default() -> (r: Self)
        ensures
            r@ == (CmdResultView {
                command: Seq::empty(),
                cwd: None,
                status_code: 0,
                stdout: Seq::empty(),
                stderr: Seq::empty(),
                duration_ms: 0,
                via_shell_fallback: false,
            }),
    {
        CmdResult {
            command: String::new(),
            cwd: None,
            status_code: 0,
            stdout: String::new(),
            stderr: String::new(),
            duration_ms: 0,
            via_shell_fallback: false,
        }
    }
}

/// Where the run of one command stands.
#[derive(Debug, Clone, Copy, PartialEq, Eq, Structural)]
pub enum ExecState {
    /// Nothing was started yet.
    Start,
    /// The program was started directly.
    Direct,
    /// The command line was handed to the shell.
    Shell,
    /// The run is over.
    Done,
}

/// What the caller saw happen.
#[derive(Debug)]
pub enum ExecEvent {
    /// The caller asks for the first action.
    Begin,
    /// The program could not be started because it was not found.
    NotFound,
    /// The program could not be started for another reason.
    SpawnFailed(String),
    /// The process ended.
    Exited { status: i32, stdout: String, stderr: String, duration_ms: u64 },
    /// The process did not end within the time given.
    TimedOut,
}

/// An event as plain data.
pub enum ExecEventView {
    Begin,
    NotFound,
    SpawnFailed(Seq<char>),
    Exited { status: i32, stdout: Seq<char>, stderr: Seq<char>, duration_ms: u64 },
    TimedOut,
}

impl View for ExecEvent {
    type V = ExecEventView;

    open spec fn view(&self) -> ExecEventView {
        match *self {
            ExecEvent::Begin => ExecEventView::Begin,
            ExecEvent::NotFound => ExecEventView::NotFound,
            ExecEvent::SpawnFailed(c) => ExecEventView::SpawnFailed(c@),
            ExecEvent::Exited { status, stdout, stderr, duration_ms } => ExecEventView::Exited {
                status,
                stdout: stdout@,
                stderr: stderr@,
                duration_ms,
            },
            ExecEvent::TimedOut => ExecEventView::TimedOut,
        }
    }
}

/// What the caller is to do next.
#[derive(Debug)]
pub enum ExecAction {
    /// Start the program with these arguments, output captured.
    Spawn { program: String, args: Vec<String>, cwd: Option<String>, timeout_secs: u64 },
    /// Hand the whole command line to the platform's shell, output captured.
    SpawnShell { command: String, cwd: Option<String>, timeout_secs: u64 },
    /// Nothing more: this is how the run ended.
    Finish(Result<CmdResult, VibeError>),
}

/// An action as plain data.
pub enum ExecActionView {
    Spawn { program: Seq<char>, args: Seq<Seq<char>>, cwd: Option<Seq<char>>, timeout_secs: u64 },
    SpawnShell { command: Seq<char>, cwd: Option<Seq<char>>, timeout_secs: u64 },
    Finish(Result<CmdResultView, VibeErrorView>),
}

impl View for ExecAction {
    type V = ExecActionView;

    open spec fn view(&self) -> ExecActionView {
        match *self {
            ExecAction::Spawn { program, args, cwd, timeout_secs } => ExecActionView::Spawn {
                program: program@,
                args: strings_view(args@),
                cwd: opt_view(cwd),
                timeout_secs,
            },
            ExecAction::SpawnShell { command, cwd, timeout_secs } => ExecActionView::SpawnShell {
                command: command@,
                cwd: opt_view(cwd),
                timeout_secs,
            },
            ExecAction::Finish(r) => ExecActionView::Finish(
                match r {
                    Ok(c) => Ok(c@),
                    Err(e) => Err(e@),
                },
            ),
        }
    }
}

/// The words that `shlex::Shlex` yields for a command line, by the quoting
/// rules of the POSIX shell.
pub uninterp spec fn shell_words(line: Seq<char>) -> Seq<Seq<char>>;

/// Splits a command line with `shlex::Shlex`, collecting every word that the
/// iterator yields. The words depend on the line alone.
#[verifier::external_body]
fn shell_split(line: &str) -> (words: Vec<String>)
    ensures
        strings_view(words@) == shell_words(line@),
{
    shlex::Shlex::new(line).collect()
}

/// The cause given where a program was not found.
pub open spec fn not_found_text() -> Seq<char> {
    "program not found"@
}

/// The cause given where an event came that the state does not wait for.
pub open spec fn unexpected_text() -> Seq<char> {
    "unexpected event"@
}

/// How a run ends on an event: a zero exit gives the result, another exit
/// status an error with the output, a timeout its own error, and a failure
/// to start the cause.
pub open spec fn outcome(
    cmd: Seq<char>,
    cwd: Option<Seq<char>>,
    via_shell: bool,
    event: ExecEventView,
) -> Result<CmdResultView, VibeErrorView> {
    match event {
        ExecEventView::Exited { status, stdout, stderr, duration_ms } => if status == 0 {
            Ok(
                CmdResultView {
                    command: cmd,
                    cwd,
                    status_code: 0,
                    stdout,
                    stderr,
                    duration_ms,
                    via_shell_fallback: via_shell,
                },
            )
        } else {
            Err(VibeErrorView::CommandFailed { command: cmd, status, stdout, stderr })
        },
        ExecEventView::TimedOut => Err(VibeErrorView::TimedOut(cmd)),
        ExecEventView::NotFound => Err(VibeErrorView::IoFailure(cmd, not_found_text())),
        ExecEventView::SpawnFailed(cause) => Err(VibeErrorView::IoFailure(cmd, cause)),
        ExecEventView::Begin => Err(VibeErrorView::IoFailure(cmd, unexpected_text())),
    }
}

/// The first action for an admitted command: its first word is the program
/// and the others are its arguments; a line without words goes to the shell.
pub open spec fn first_action(
    cmd: Seq<char>,
    words: Seq<Seq<char>>,
    dir: Option<Seq<char>>,
    timeout_secs: u64,
) -> (ExecState, ExecActionView) {
    if words.len() == 0 {
        (ExecState::Shell, ExecActionView::SpawnShell { command: cmd, cwd: dir, timeout_secs })
    } else {
        (
            ExecState::Direct,
            ExecActionView::Spawn { program: words[0], args: words.skip(1), cwd: dir, timeout_secs },
        )
    }
}

/// The working directory as it is handed to the process: the directory
/// given, resolved under the root; none where none was given.
pub open spec fn working_dir(root: Seq<char>, cwd: Option<Seq<char>>) -> Option<Seq<char>> {
    match cwd {
        Some(d) => dir_under(root, d),
        None => None,
    }
}

/// One step of the run of a command. A command that the allowlist does not
/// admit, and a working directory that leaves the root, end the run at once.
/// At the start the program is started directly; if it is not found, the
/// shell gets the command line, once; any other event ends the run.
pub open spec fn exec_step(
    cmd: Seq<char>,
    allowed: bool,
    words: Seq<Seq<char>>,
    root: Seq<char>,
    cwd: Option<Seq<char>>,
    timeout_secs: u64,
    state: ExecState,
    event: ExecEventView,
) -> (ExecState, ExecActionView) {
    let dir = working_dir(root, cwd);
    if !allowed {
        (ExecState::Done, ExecActionView::Finish(Err(VibeErrorView::CommandRejected(cmd))))
    } else if cwd is Some && dir is None {
        (ExecState::Done, ExecActionView::Finish(Err(VibeErrorView::PathRejected(cwd->0))))
    } else {
        match (state, event) {
            (ExecState::Start, ExecEventView::Begin) => first_action(cmd, words, dir, timeout_secs),
            (ExecState::Direct, ExecEventView::NotFound) => (
                ExecState::Shell,
                ExecActionView::SpawnShell { command: cmd, cwd: dir, timeout_secs },
            ),
            (ExecState::Direct, e) => (
                ExecState::Done,
                ExecActionView::Finish(outcome(cmd, cwd, false, e)),
            ),
            (ExecState::Shell, e) => (ExecState::Done, ExecActionView::Finish(outcome(cmd, cwd, true, e))),
            _ => (
                ExecState::Done,
                ExecActionView::Finish(Err(VibeErrorView::IoFailure(cmd, unexpected_text()))),
            ),
        }
    }
}

fn owned_opt(o: Option<&str>) -> (r: Option<String>)
    ensures
        opt_view(r) == match o {
            Some(s) => Some(s@),
            None => None,
        },
{
    match o {
        Some(s) => Some(s.to_owned()),
        None => None,
    }
}

/// The first action for an admitted command, given its words.
pub fn launch(cmd: &str, words: &[String], dir: Option<String>, timeout_secs: u64) -> (r: (
    ExecState,
    ExecAction,
))
    ensures
        (r.0, r.1@) == first_action(cmd@, strings_view(words@), opt_view(dir), timeout_secs),
{
    if words.len() == 0 {
        (ExecState::Shell, ExecAction::SpawnShell { command: cmd.to_owned(), cwd: dir, timeout_secs })
    } else {
        let ghost all = strings_view(words@);
        let mut args: Vec<String> = Vec::new();
        let mut i: usize = 1;
        assert(strings_view(args@) == all.subrange(1, 1));
        while i < words.len()
            invariant
                1 <= i <= words.len(),
                all == strings_view(words@),
                strings_view(args@) == all.subrange(1, i as int),
            decreases words.len() - i,
        {
            let w = words[i].clone();
            assert(strings_view(args@.push(w)) == strings_view(args@).push(w@));
            assert(all.subrange(1, i + 1) == all.subrange(1, i as int).push(all[i as int]));
            args.push(w);
            i += 1;
        }
        assert(all.subrange(1, words.len() as int) == all.skip(1));
        assert(all[0] == words@[0]@);
        (
            ExecState::Direct,
            ExecAction::Spawn { program: words[0].clone(), args, cwd: dir, timeout_secs },
        )
    }
}

/// How a run ends on an event.
pub fn conclude(cmd: &str, cwd: Option<&str>, via_shell: bool, event: ExecEvent) -> (r: Result<
    CmdResult,
    VibeError,
>)
    ensures
        (match r {
            Ok(c) => Ok(c@),
            Err(e) => Err(e@),
        }) == outcome(
            cmd@,
            match cwd {
                Some(d) => Some(d@),
                None => None,
            },
            via_shell,
            event@,
        ),
{
    match event {
        ExecEvent::Exited { status, stdout, stderr, duration_ms } => {
            if status == 0 {
                Ok(
                    CmdResult {
                        command: cmd.to_owned(),
                        cwd: owned_opt(cwd),
                        status_code: 0,
                        stdout,
                        stderr,
                        duration_ms,
                        via_shell_fallback: via_shell,
                    },
                )
            } else {
                Err(VibeError::CommandFailed { command: cmd.to_owned(), status, stdout, stderr })
            }
        },
        ExecEvent::TimedOut => Err(VibeError::TimedOut(cmd.to_owned())),
        ExecEvent::NotFound => Err(
            VibeError::IoFailure(cmd.to_owned(), "program not found".to_owned()),
        ),
        ExecEvent::SpawnFailed(cause) => Err(VibeError::IoFailure(cmd.to_owned(), cause)),
        ExecEvent::Begin => Err(VibeError::IoFailure(cmd.to_owned(), "unexpected event".to_owned())),
    }
}

/// One step of the run of a command, given its words.
pub fn run_step(
    cmd: &str,
    allowed: bool,
    words: &[String],
    root: &str,
    cwd: Option<&str>,
    timeout_secs: u64,
    state: ExecState,
    event: ExecEvent,
) -> (r: (ExecState, ExecAction))
    ensures
        (r.0, r.1@) == exec_step(
            cmd@,
            allowed,
            strings_view(words@),
            root@,
            match cwd {
                Some(d) => Some(d@),
                None => None,
            },
            timeout_secs,
            state,
            event@,
        ),
{
    if !allowed {
        return (
            ExecState::Done,
            ExecAction::Finish(Err(VibeError::CommandRejected(cmd.to_owned()))),
        );
    }
    let dir: Option<String> = match cwd {
        Some(d) => match resolve_dir(root, d) {
            Ok(p) => Some(p),
            Err(e) => {
                return (ExecState::Done, ExecAction::Finish(Err(e)));
            },
        },
        None => None,
    };
    match state {
        ExecState::Start => match event {
            ExecEvent::Begin => launch(cmd, words, dir, timeout_secs),
            _ => (
                ExecState::Done,
                ExecAction::Finish(
                    Err(VibeError::IoFailure(cmd.to_owned(), "unexpected event".to_owned())),
                ),
            ),
        },
        ExecState::Direct => match event {
            ExecEvent::NotFound => (
                ExecState::Shell,
                ExecAction::SpawnShell { command: cmd.to_owned(), cwd: dir, timeout_secs },
            ),
            e => (ExecState::Done, ExecAction::Finish(conclude(cmd, cwd, false, e))),
        },
        ExecState::Shell => (ExecState::Done, ExecAction::Finish(conclude(cmd, cwd, true, event))),
        ExecState::Done => (
            ExecState::Done,
            ExecAction::Finish(
                Err(VibeError::IoFailure(cmd.to_owned(), "unexpected event".to_owned())),
            ),
        ),
    }
}

/// One step of the run of an allowlisted command. The caller starts with
/// `ExecState::Start` and `ExecEvent::Begin`, does what the action says,
/// and comes back with the state returned and the event it saw, until the
/// action is `Finish`.
pub fn run_command_allowlisted(
    cmd: &str,
    cfg: &Config,
    cwd: Option<&str>,
    timeout_secs: u64,
    state: ExecState,
    event: ExecEvent,
) -> (r: (ExecState, ExecAction))
    ensures
        (r.0, r.1@) == exec_step(
            cmd@,
            command_admitted(cmd@, strings_view(cfg.command_allowlist@)),
            shell_words(cmd@),
            cfg.root@,
            match cwd {
                Some(d) => Some(d@),
                None => None,
            },
            timeout_secs,
            state,
            event@,
        ),
{
    let allowed = command_is_allowed(cmd, &cfg.command_allowlist);
    let words = shell_split(cmd);
    run_step(cmd, allowed, &words, cfg.root.as_str(), cwd, timeout_secs, state, event)
}


/// An action that starts a process.
pub open spec fn starts_process(a: ExecActionView) -> bool {
    a is Spawn || a is SpawnShell
}

/// The working directory that an action hands to the process, if any.
pub open spec fn dir_of_action(a: ExecActionView) -> Option<Seq<char>> {
    match a {
        ExecActionView::Spawn { cwd, .. } => cwd,
        ExecActionView::SpawnShell { cwd, .. } => cwd,
        ExecActionView::Finish(_) => None,
    }
}

/// No process is started for a command that the allowlist does not admit,
/// in whatever state and on whatever event.
pub proof fn law_only_admitted_commands_start(
    cmd: Seq<char>,
    words: Seq<Seq<char>>,
    root: Seq<char>,
    cwd: Option<Seq<char>>,
    timeout_secs: u64,
    state: ExecState,
    event: ExecEventView,
)
    ensures
        exec_step(cmd, false, words, root, cwd, timeout_secs, state, event) == (
            ExecState::Done,
            ExecActionView::Finish(Err(VibeErrorView::CommandRejected(cmd))),
        ),
{
}

/// Every process is started in a directory under the root, where a
/// directory is given at all.
pub proof fn law_processes_start_under_root(
    cmd: Seq<char>,
    allowed: bool,
    words: Seq<Seq<char>>,
    root: Seq<char>,
    cwd: Option<Seq<char>>,
    timeout_secs: u64,
    state: ExecState,
    event: ExecEventView,
)
    ensures
        ({
            let action = exec_step(cmd, allowed, words, root, cwd, timeout_secs, state, event).1;
            dir_of_action(action) is Some ==> lies_under(root, dir_of_action(action)->0)
        }),
{
    match cwd {
        Some(d) => {
            law_dir_lies_under_root(root, d);
        },
        None => {},
    }
}

/// The shell is tried at most once: after it, whatever happens ends the run.
pub proof fn law_shell_is_the_last_resort(
    cmd: Seq<char>,
    allowed: bool,
    words: Seq<Seq<char>>,
    root: Seq<char>,
    cwd: Option<Seq<char>>,
    timeout_secs: u64,
    event: ExecEventView,
)
    ensures
        ({
            let r = exec_step(cmd, allowed, words, root, cwd, timeout_secs, ExecState::Shell, event);
            r.0 is Done && r.1 is Finish
        }),
{
}

} // verus!
