use crate::config::Config;
use crate::errors::{VibeError, VibeErrorView};
use crate::exec::{unexpected_text, CmdResult, CmdResultView};
use crate::merge::{final_content, final_text};
use crate::patch::{preview_of, FileState, FileStateView};
use crate::safety::pathguard::{law_resolved_lies_under_root, lies_under, resolved, safe_join};
use crate::safety::{command_is_listed, command_listed};
use crate::text::{append_chars, byte_len, byte_len_of, chars_of, lowercase, string_of, strings_view};
use crate::wire::{clone_opt, opt_view, Step, StepView};
use vstd::prelude::*;

verus! {

/// What applying a plan did, counted.
#[derive(Debug)]
pub struct ApplySummary {
    pub created: usize,
    pub updated: usize,
    pub deleted: usize,
    pub commands: usize,
    pub tests: usize,
    pub skipped: usize,
    /// The bytes written, over all files.
    pub bytes: usize,
    /// The results of the commands and tests, in the order they ran.
    pub command_outputs: Vec<CmdResult>,
}

/// A summary as plain data.
pub struct ApplySummaryView {
    pub created: usize,
    pub updated: usize,
    pub deleted: usize,
    pub commands: usize,
    pub tests: usize,
    pub skipped: usize,
    pub bytes: usize,
    pub command_outputs: Seq<CmdResultView>,
}

/// The results as plain data.
pub open spec fn results_view(v: Seq<CmdResult>) -> Seq<CmdResultView> {
    v.map_values(|c: CmdResult| c@)
}

impl View for ApplySummary {
    type V = ApplySummaryView;

    open spec fn view(&self) -> ApplySummaryView {
        ApplySummaryView {
            created: self.created,
            updated: self.updated,
            deleted: self.deleted,
            commands: self.commands,
            tests: self.tests,
            skipped: self.skipped,
            bytes: self.bytes,
            command_outputs: results_view(self.command_outputs@),
        }
    }
}

impl Default for ApplySummary {
    fn default() -> (r: Self)
        ensures
            r@ == (ApplySummaryView {
                created: 0,
                updated: 0,
                deleted: 0,
                commands: 0,
                tests: 0,
                skipped: 0,
                bytes: 0,
                command_outputs: Seq::empty(),
            }),
    {
        let r = ApplySummary {
            created: 0,
            updated: 0,
            deleted: 0,
            commands: 0,
            tests: 0,
            skipped: 0,
            bytes: 0,
            command_outputs: Vec::new(),
        };
        assert(results_view(r.command_outputs@) == Seq::<CmdResultView>::empty());
        r
    }
}

/// Where the application of one step stands.
#[derive(Debug, Clone, Copy, PartialEq, Eq, Structural)]
pub enum ApplyPhase {
    /// Nothing was done for the step yet.
    Pending,
    /// The caller is looking at what is on disk where the step points.
    Probing,
    /// The caller is writing a file that was not there: so many bytes.
    Creating { bytes: usize },
    /// The caller is replacing a file: so many bytes.
    Updating { bytes: usize },
    /// The caller is removing a file.
    Deleting,
    /// The caller is running a command.
    Running,
    /// The step is in the summary, or it ended the plan.
    Recorded,
}

/// What the caller saw happen.
#[derive(Debug)]
pub enum ApplyEvent {
    /// The caller asks for the first action of the step.
    Begin,
    /// What is on disk where the step points.
    Probed(FileState),
    /// The write or the removal was done.
    Done,
    /// The write or the removal failed, for this cause.
    Failed(String),
    /// How the run of the command ended.
    Ran(Result<CmdResult, VibeError>),
}

/// An event as plain data.
pub enum ApplyEventView {
    Begin,
    Probed(FileStateView),
    Done,
    Failed(Seq<char>),
    Ran(Result<CmdResultView, VibeErrorView>),
}

impl View for ApplyEvent {
    type V = ApplyEventView;

    open spec fn view(&self) -> ApplyEventView {
        match *self {
            ApplyEvent::Begin => ApplyEventView::Begin,
            ApplyEvent::Probed(s) => ApplyEventView::Probed(s@),
            ApplyEvent::Done => ApplyEventView::Done,
            ApplyEvent::Failed(c) => ApplyEventView::Failed(c@),
            ApplyEvent::Ran(r) => ApplyEventView::Ran(
                match r {
                    Ok(c) => Ok(c@),
                    Err(e) => Err(e@),
                },
            ),
        }
    }
}

/// What the caller is to do next.
#[derive(Debug)]
pub enum ApplyAction {
    /// Look at what is on disk at this path, and come back with it.
    Probe { path: String },
    /// Write these contents to this path, whole or not at all.
    Write { path: String, contents: String },
    /// Remove the file at this path.
    Remove { path: String },
    /// Run this command, in this working directory if one is given.
    Run { command: String, cwd: Option<String> },
    /// The step is done: go on with the next one.
    Next,
    /// The plan ends here, with this error.
    Halt(VibeError),
}

/// An action as plain data.
pub enum ApplyActionView {
    Probe { path: Seq<char> },
    Write { path: Seq<char>, contents: Seq<char> },
    Remove { path: Seq<char> },
    Run { command: Seq<char>, cwd: Option<Seq<char>> },
    Next,
    Halt(VibeErrorView),
}

impl View for ApplyAction {
    type V = ApplyActionView;

    open spec fn view(&self) -> ApplyActionView {
        match *self {
            ApplyAction::Probe { path } => ApplyActionView::Probe { path: path@ },
            ApplyAction::Write { path, contents } => ApplyActionView::Write {
                path: path@,
                contents: contents@,
            },
            ApplyAction::Remove { path } => ApplyActionView::Remove { path: path@ },
            ApplyAction::Run { command, cwd } => ApplyActionView::Run {
                command: command@,
                cwd: opt_view(cwd),
            },
            ApplyAction::Next => ApplyActionView::Next,
            ApplyAction::Halt(e) => ApplyActionView::Halt(e@),
        }
    }
}

/// A count raised by `by`, stopping at the largest number there is.
pub open spec fn raised(n: usize, by: nat) -> usize {
    if n + by > usize::MAX {
        usize::MAX
    } else {
        (n + by) as usize
    }
}

/// The result that stands for a command that was not run.
pub open spec fn placeholder(command: Seq<char>, cwd: Seq<char>) -> CmdResultView {
    CmdResultView {
        command,
        cwd: Some(cwd),
        status_code: 0,
        stdout: Seq::empty(),
        stderr: Seq::empty(),
        duration_ms: 0,
        via_shell_fallback: false,
    }
}

/// The working directory named where a step names none.
pub open spec fn here() -> Seq<char> {
    "."@
}

/// What is put before a test that is passed over because the allowlist does
/// not hold it.
pub open spec fn not_listed_mark() -> Seq<char> {
    "(skipped-not-allowlisted) "@
}

/// The path or command that a step is about.
pub open spec fn subject(step: StepView) -> Seq<char> {
    match step {
        StepView::Create { path, .. } => path,
        StepView::Update { path, .. } => path,
        StepView::Delete { path, .. } => path,
        StepView::Command { command, .. } => command,
        StepView::Test { command, .. } => command,
    }
}

/// The end of a plan on an event that the phase does not wait for.
pub open spec fn misuse(s: ApplySummaryView, step: StepView) -> (
    ApplySummaryView,
    ApplyPhase,
    ApplyActionView,
) {
    (
        s,
        ApplyPhase::Recorded,
        ApplyActionView::Halt(VibeErrorView::IoFailure(subject(step), unexpected_text())),
    )
}

/// The first move on a step. A step on a file has its path resolved, and a
/// path that is rejected ends the plan; a create without content ends it
/// too; an update without content is passed over; otherwise the caller is
/// sent to look at the disk. A command or test is counted, and run unless
/// this is a dry run; a test that the allowlist does not hold is passed over.
pub open spec fn on_begin(
    s: ApplySummaryView,
    step: StepView,
    root: Seq<char>,
    paths: Seq<Seq<char>>,
    commands: Seq<Seq<char>>,
    dry_run: bool,
) -> (ApplySummaryView, ApplyPhase, ApplyActionView) {
    match step {
        StepView::Create { path, content, .. } => match resolved(root, path, paths) {
            None => (s, ApplyPhase::Recorded, ApplyActionView::Halt(VibeErrorView::PathRejected(path))),
            Some(abs) => if content is None {
                (
                    s,
                    ApplyPhase::Recorded,
                    ApplyActionView::Halt(VibeErrorView::MalformedStep(path)),
                )
            } else {
                (s, ApplyPhase::Probing, ApplyActionView::Probe { path: abs })
            },
        },
        StepView::Update { path, content, .. } => match resolved(root, path, paths) {
            None => (s, ApplyPhase::Recorded, ApplyActionView::Halt(VibeErrorView::PathRejected(path))),
            Some(abs) => if content is None {
                (
                    ApplySummaryView { skipped: raised(s.skipped, 1), ..s },
                    ApplyPhase::Recorded,
                    ApplyActionView::Next,
                )
            } else {
                (s, ApplyPhase::Probing, ApplyActionView::Probe { path: abs })
            },
        },
        StepView::Delete { path, .. } => match resolved(root, path, paths) {
            None => (s, ApplyPhase::Recorded, ApplyActionView::Halt(VibeErrorView::PathRejected(path))),
            Some(abs) => (s, ApplyPhase::Probing, ApplyActionView::Probe { path: abs }),
        },
        StepView::Command { command, cwd, .. } => if dry_run {
            (
                ApplySummaryView {
                    commands: raised(s.commands, 1),
                    command_outputs: s.command_outputs.push(
                        placeholder(
                            command,
                            match cwd {
                                Some(d) => d,
                                None => here(),
                            },
                        ),
                    ),
                    ..s
                },
                ApplyPhase::Recorded,
                ApplyActionView::Next,
            )
        } else {
            (
                ApplySummaryView { commands: raised(s.commands, 1), ..s },
                ApplyPhase::Running,
                ApplyActionView::Run { command, cwd },
            )
        },
        StepView::Test { command, .. } => if dry_run {
            (
                ApplySummaryView {
                    tests: raised(s.tests, 1),
                    command_outputs: s.command_outputs.push(placeholder(command, here())),
                    ..s
                },
                ApplyPhase::Recorded,
                ApplyActionView::Next,
            )
        } else if command_listed(command, commands) {
            (
                ApplySummaryView { tests: raised(s.tests, 1), ..s },
                ApplyPhase::Running,
                ApplyActionView::Run { command, cwd: None },
            )
        } else {
            (
                ApplySummaryView {
                    tests: raised(s.tests, 1),
                    skipped: raised(s.skipped, 1),
                    command_outputs: s.command_outputs.push(
                        placeholder(not_listed_mark() + command, here()),
                    ),
                    ..s
                },
                ApplyPhase::Recorded,
                ApplyActionView::Next,
            )
        },
    }
}

/// The move on a write, once the disk is known: the contents are what the
/// merge rules give; a file that is not there is created and one that is
/// there is updated, whichever of create and update the step is. In a dry
/// run the write is counted and not made.
pub open spec fn on_probe_write(
    s: ApplySummaryView,
    is_update: bool,
    abs: Seq<char>,
    content: Seq<char>,
    state: FileStateView,
    dry_run: bool,
    lowered_task: Seq<char>,
) -> (ApplySummaryView, ApplyPhase, ApplyActionView) {
    let contents = final_text(is_update, state.text(), content, lowered_task);
    let bytes = raised(0, byte_len(contents));
    let fresh = state is Absent;
    if dry_run {
        (
            if fresh {
                ApplySummaryView {
                    created: raised(s.created, 1),
                    bytes: raised(s.bytes, bytes as nat),
                    ..s
                }
            } else {
                ApplySummaryView {
                    updated: raised(s.updated, 1),
                    bytes: raised(s.bytes, bytes as nat),
                    ..s
                }
            },
            ApplyPhase::Recorded,
            ApplyActionView::Next,
        )
    } else {
        (
            s,
            if fresh {
                ApplyPhase::Creating { bytes }
            } else {
                ApplyPhase::Updating { bytes }
            },
            ApplyActionView::Write { path: abs, contents },
        )
    }
}

/// The move on a step once the disk is known.
pub open spec fn on_probe(
    s: ApplySummaryView,
    step: StepView,
    root: Seq<char>,
    paths: Seq<Seq<char>>,
    dry_run: bool,
    lowered_task: Seq<char>,
    state: FileStateView,
) -> (ApplySummaryView, ApplyPhase, ApplyActionView) {
    match step {
        StepView::Create { path, content: Some(c), .. } => match resolved(root, path, paths) {
            None => (s, ApplyPhase::Recorded, ApplyActionView::Halt(VibeErrorView::PathRejected(path))),
            Some(abs) => on_probe_write(s, false, abs, c, state, dry_run, lowered_task),
        },
        StepView::Update { path, content: Some(c), .. } => match resolved(root, path, paths) {
            None => (s, ApplyPhase::Recorded, ApplyActionView::Halt(VibeErrorView::PathRejected(path))),
            Some(abs) => on_probe_write(s, true, abs, c, state, dry_run, lowered_task),
        },
        StepView::Delete { path, .. } => match resolved(root, path, paths) {
            None => (s, ApplyPhase::Recorded, ApplyActionView::Halt(VibeErrorView::PathRejected(path))),
            Some(abs) => if state is Absent {
                (
                    ApplySummaryView { skipped: raised(s.skipped, 1), ..s },
                    ApplyPhase::Recorded,
                    ApplyActionView::Next,
                )
            } else if dry_run {
                (
                    ApplySummaryView { deleted: raised(s.deleted, 1), ..s },
                    ApplyPhase::Recorded,
                    ApplyActionView::Next,
                )
            } else {
                (s, ApplyPhase::Deleting, ApplyActionView::Remove { path: abs })
            },
        },
        _ => misuse(s, step),
    }
}

/// One move of the application of a step: from the summary so far, the
/// phase and what the caller saw, to the summary, the phase and what the
/// caller is to do. A step starts in `Pending` with `Begin` and is over when
/// the action is `Next` or `Halt`.
pub open spec fn transition(
    s: ApplySummaryView,
    step: StepView,
    root: Seq<char>,
    paths: Seq<Seq<char>>,
    commands: Seq<Seq<char>>,
    dry_run: bool,
    lowered_task: Seq<char>,
    phase: ApplyPhase,
    event: ApplyEventView,
) -> (ApplySummaryView, ApplyPhase, ApplyActionView) {
    match (phase, event) {
        (ApplyPhase::Pending, ApplyEventView::Begin) => on_begin(
            s,
            step,
            root,
            paths,
            commands,
            dry_run,
        ),
        (ApplyPhase::Probing, ApplyEventView::Probed(state)) => on_probe(
            s,
            step,
            root,
            paths,
            dry_run,
            lowered_task,
            state,
        ),
        (ApplyPhase::Creating { bytes }, ApplyEventView::Done) => (
            ApplySummaryView {
                created: raised(s.created, 1),
                bytes: raised(s.bytes, bytes as nat),
                ..s
            },
            ApplyPhase::Recorded,
            ApplyActionView::Next,
        ),
        (ApplyPhase::Updating { bytes }, ApplyEventView::Done) => (
            ApplySummaryView {
                updated: raised(s.updated, 1),
                bytes: raised(s.bytes, bytes as nat),
                ..s
            },
            ApplyPhase::Recorded,
            ApplyActionView::Next,
        ),
        (ApplyPhase::Deleting, ApplyEventView::Done) => (
            ApplySummaryView { deleted: raised(s.deleted, 1), ..s },
            ApplyPhase::Recorded,
            ApplyActionView::Next,
        ),
        (ApplyPhase::Creating { .. }, ApplyEventView::Failed(cause)) => (
            s,
            ApplyPhase::Recorded,
            ApplyActionView::Halt(VibeErrorView::IoFailure(subject(step), cause)),
        ),
        (ApplyPhase::Updating { .. }, ApplyEventView::Failed(cause)) => (
            s,
            ApplyPhase::Recorded,
            ApplyActionView::Halt(VibeErrorView::IoFailure(subject(step), cause)),
        ),
        (ApplyPhase::Deleting, ApplyEventView::Failed(cause)) => (
            s,
            ApplyPhase::Recorded,
            ApplyActionView::Halt(VibeErrorView::IoFailure(subject(step), cause)),
        ),
        (ApplyPhase::Running, ApplyEventView::Ran(Ok(result))) => (
            ApplySummaryView { command_outputs: s.command_outputs.push(result), ..s },
            ApplyPhase::Recorded,
            ApplyActionView::Next,
        ),
        (ApplyPhase::Running, ApplyEventView::Ran(Err(e))) => (
            s,
            ApplyPhase::Recorded,
            ApplyActionView::Halt(e),
        ),
        _ => misuse(s, step),
    }
}

fn raise(n: usize, by: usize) -> (r: usize)
    ensures
        r == raised(n, by as nat),
{
    if by > usize::MAX - n {
        usize::MAX
    } else {
        n + by
    }
}

fn subject_text(step: &Step) -> (r: String)
    ensures
        r@ == subject(step@),
{
    match step {
        Step::Create { path, .. } => path.clone(),
        Step::Update { path, .. } => path.clone(),
        Step::Delete { path, .. } => path.clone(),
        Step::Command { command, .. } => command.clone(),
        Step::Test { command, .. } => command.clone(),
    }
}

fn misused(summary: ApplySummary, step: &Step) -> (r: (ApplySummary, ApplyPhase, ApplyAction))
    ensures
        (r.0@, r.1, r.2@) == misuse(summary@, step@),
{
    (
        summary,
        ApplyPhase::Recorded,
        ApplyAction::Halt(VibeError::IoFailure(subject_text(step), "unexpected event".to_owned())),
    )
}

fn stand_in(command: String, cwd: String) -> (r: CmdResult)
    ensures
        r@ == placeholder(command@, cwd@),
{
    CmdResult {
        command,
        cwd: Some(cwd),
        status_code: 0,
        stdout: String::new(),
        stderr: String::new(),
        duration_ms: 0,
        via_shell_fallback: false,
    }
}

fn with_output(summary: ApplySummary, result: CmdResult) -> (r: ApplySummary)
    ensures
        r@ == (ApplySummaryView {
            command_outputs: summary@.command_outputs.push(result@),
            ..summary@
        }),
{
    let mut s = summary;
    assert(results_view(s.command_outputs@.push(result)) == results_view(s.command_outputs@).push(
        result@,
    ));
    s.command_outputs.push(result);
    s
}

fn begin(summary: ApplySummary, step: &Step, cfg: &Config, dry_run: bool) -> (r: (
    ApplySummary,
    ApplyPhase,
    ApplyAction,
))
    ensures
        (r.0@, r.1, r.2@) == on_begin(
            summary@,
            step@,
            cfg.root@,
            strings_view(cfg.path_allowlist@),
            strings_view(cfg.command_allowlist@),
            dry_run,
        ),
{
    let mut s = summary;
    match step {
        Step::Create { path, content, .. } => match safe_join(
            cfg.root.as_str(),
            path.as_str(),
            &cfg.path_allowlist,
        ) {
            Err(e) => (s, ApplyPhase::Recorded, ApplyAction::Halt(e)),
            Ok(abs) => if content.is_none() {
                (s, ApplyPhase::Recorded, ApplyAction::Halt(VibeError::MalformedStep(path.clone())))
            } else {
                (s, ApplyPhase::Probing, ApplyAction::Probe { path: abs })
            },
        },
        Step::Update { path, content, .. } => match safe_join(
            cfg.root.as_str(),
            path.as_str(),
            &cfg.path_allowlist,
        ) {
            Err(e) => (s, ApplyPhase::Recorded, ApplyAction::Halt(e)),
            Ok(abs) => if content.is_none() {
                s.skipped = raise(s.skipped, 1);
                (s, ApplyPhase::Recorded, ApplyAction::Next)
            } else {
                (s, ApplyPhase::Probing, ApplyAction::Probe { path: abs })
            },
        },
        Step::Delete { path, .. } => match safe_join(
            cfg.root.as_str(),
            path.as_str(),
            &cfg.path_allowlist,
        ) {
            Err(e) => (s, ApplyPhase::Recorded, ApplyAction::Halt(e)),
            Ok(abs) => (s, ApplyPhase::Probing, ApplyAction::Probe { path: abs }),
        },
        Step::Command { command, cwd, .. } => {
            s.commands = raise(s.commands, 1);
            if dry_run {
                let dir = match cwd {
                    Some(d) => d.clone(),
                    None => ".".to_owned(),
                };
                let s = with_output(s, stand_in(command.clone(), dir));
                (s, ApplyPhase::Recorded, ApplyAction::Next)
            } else {
                (
                    s,
                    ApplyPhase::Running,
                    ApplyAction::Run { command: command.clone(), cwd: clone_opt(cwd) },
                )
            }
        },
        Step::Test { command, .. } => {
            s.tests = raise(s.tests, 1);
            if dry_run {
                let s = with_output(s, stand_in(command.clone(), ".".to_owned()));
                (s, ApplyPhase::Recorded, ApplyAction::Next)
            } else if command_is_listed(command.as_str(), &cfg.command_allowlist) {
                (s, ApplyPhase::Running, ApplyAction::Run { command: command.clone(), cwd: None })
            } else {
                s.skipped = raise(s.skipped, 1);
                let mut marked = chars_of("(skipped-not-allowlisted) ");
                append_chars(&mut marked, &chars_of(command.as_str()));
                let s = with_output(s, stand_in(string_of(&marked), ".".to_owned()));
                (s, ApplyPhase::Recorded, ApplyAction::Next)
            }
        },
    }
}

fn probe_write(
    summary: ApplySummary,
    is_update: bool,
    abs: String,
    content: &str,
    state: &FileState,
    dry_run: bool,
    lowered_task: &str,
) -> (r: (ApplySummary, ApplyPhase, ApplyAction))
    ensures
        (r.0@, r.1, r.2@) == on_probe_write(
            summary@,
            is_update,
            abs@,
            content@,
            state@,
            dry_run,
            lowered_task@,
        ),
{
    let mut s = summary;
    let contents = final_content(is_update, state.text(), content, lowered_task);
    let bytes = byte_len_of(contents.as_str());
    let fresh = match state {
        FileState::Absent => true,
        _ => false,
    };
    if dry_run {
        if fresh {
            s.created = raise(s.created, 1);
        } else {
            s.updated = raise(s.updated, 1);
        }
        s.bytes = raise(s.bytes, bytes);
        (s, ApplyPhase::Recorded, ApplyAction::Next)
    } else {
        (
            s,
            if fresh {
                ApplyPhase::Creating { bytes }
            } else {
                ApplyPhase::Updating { bytes }
            },
            ApplyAction::Write { path: abs, contents },
        )
    }
}

fn probed(
    summary: ApplySummary,
    step: &Step,
    cfg: &Config,
    dry_run: bool,
    lowered_task: &str,
    state: &FileState,
) -> (r: (ApplySummary, ApplyPhase, ApplyAction))
    ensures
        (r.0@, r.1, r.2@) == on_probe(
            summary@,
            step@,
            cfg.root@,
            strings_view(cfg.path_allowlist@),
            dry_run,
            lowered_task@,
            state@,
        ),
{
    let mut s = summary;
    match step {
        Step::Create { path, content: Some(c), .. } => match safe_join(
            cfg.root.as_str(),
            path.as_str(),
            &cfg.path_allowlist,
        ) {
            Err(e) => (s, ApplyPhase::Recorded, ApplyAction::Halt(e)),
            Ok(abs) => probe_write(s, false, abs, c.as_str(), state, dry_run, lowered_task),
        },
        Step::Update { path, content: Some(c), .. } => match safe_join(
            cfg.root.as_str(),
            path.as_str(),
            &cfg.path_allowlist,
        ) {
            Err(e) => (s, ApplyPhase::Recorded, ApplyAction::Halt(e)),
            Ok(abs) => probe_write(s, true, abs, c.as_str(), state, dry_run, lowered_task),
        },
        Step::Delete { path, .. } => match safe_join(
            cfg.root.as_str(),
            path.as_str(),
            &cfg.path_allowlist,
        ) {
            Err(e) => (s, ApplyPhase::Recorded, ApplyAction::Halt(e)),
            Ok(abs) => match state {
                FileState::Absent => {
                    s.skipped = raise(s.skipped, 1);
                    (s, ApplyPhase::Recorded, ApplyAction::Next)
                },
                _ => if dry_run {
                    s.deleted = raise(s.deleted, 1);
                    (s, ApplyPhase::Recorded, ApplyAction::Next)
                } else {
                    (s, ApplyPhase::Deleting, ApplyAction::Remove { path: abs })
                },
            },
        },
        _ => misused(s, step),
    }
}

/// One move of the application of a step, with the task in lower case.
pub fn apply_step_lowered(
    summary: ApplySummary,
    step: &Step,
    cfg: &Config,
    dry_run: bool,
    lowered_task: &str,
    phase: ApplyPhase,
    event: ApplyEvent,
) -> (r: (ApplySummary, ApplyPhase, ApplyAction))
    ensures
        (r.0@, r.1, r.2@) == transition(
            summary@,
            step@,
            cfg.root@,
            strings_view(cfg.path_allowlist@),
            strings_view(cfg.command_allowlist@),
            dry_run,
            lowered_task@,
            phase,
            event@,
        ),
{
    let mut s = summary;
    match phase {
        ApplyPhase::Pending => match event {
            ApplyEvent::Begin => begin(s, step, cfg, dry_run),
            _ => misused(s, step),
        },
        ApplyPhase::Probing => match event {
            ApplyEvent::Probed(state) => probed(s, step, cfg, dry_run, lowered_task, &state),
            _ => misused(s, step),
        },
        ApplyPhase::Creating { bytes } => match event {
            ApplyEvent::Done => {
                s.created = raise(s.created, 1);
                s.bytes = raise(s.bytes, bytes);
                (s, ApplyPhase::Recorded, ApplyAction::Next)
            },
            ApplyEvent::Failed(cause) => (
                s,
                ApplyPhase::Recorded,
                ApplyAction::Halt(VibeError::IoFailure(subject_text(step), cause)),
            ),
            _ => misused(s, step),
        },
        ApplyPhase::Updating { bytes } => match event {
            ApplyEvent::Done => {
                s.updated = raise(s.updated, 1);
                s.bytes = raise(s.bytes, bytes);
                (s, ApplyPhase::Recorded, ApplyAction::Next)
            },
            ApplyEvent::Failed(cause) => (
                s,
                ApplyPhase::Recorded,
                ApplyAction::Halt(VibeError::IoFailure(subject_text(step), cause)),
            ),
            _ => misused(s, step),
        },
        ApplyPhase::Deleting => match event {
            ApplyEvent::Done => {
                s.deleted = raise(s.deleted, 1);
                (s, ApplyPhase::Recorded, ApplyAction::Next)
            },
            ApplyEvent::Failed(cause) => (
                s,
                ApplyPhase::Recorded,
                ApplyAction::Halt(VibeError::IoFailure(subject_text(step), cause)),
            ),
            _ => misused(s, step),
        },
        ApplyPhase::Running => match event {
            ApplyEvent::Ran(Ok(result)) => {
                let s = with_output(s, result);
                (s, ApplyPhase::Recorded, ApplyAction::Next)
            },
            ApplyEvent::Ran(Err(e)) => (s, ApplyPhase::Recorded, ApplyAction::Halt(e)),
            _ => misused(s, step),
        },
        ApplyPhase::Recorded => misused(s, step),
    }
}

/// One move of the application of a step. The caller takes the steps in
/// plan order, one at a time; for each it starts in `Pending` with `Begin`,
/// does what the action says, and comes back with the phase returned and
/// what it saw, until the action is `Next` or `Halt`.
pub fn apply_step(
    summary: ApplySummary,
    step: &Step,
    cfg: &Config,
    dry_run: bool,
    task: &str,
    phase: ApplyPhase,
    event: ApplyEvent,
) -> (r: (ApplySummary, ApplyPhase, ApplyAction))
    ensures
        (r.0@, r.1, r.2@) == transition(
            summary@,
            step@,
            cfg.root@,
            strings_view(cfg.path_allowlist@),
            strings_view(cfg.command_allowlist@),
            dry_run,
            lowercase(task@),
            phase,
            event@,
        ),
{
    let t = task.to_lowercase();
    apply_step_lowered(summary, step, cfg, dry_run, t.as_str(), phase, event)
}


/// The path that an action names, if it names one.
pub open spec fn path_of_action(a: ApplyActionView) -> Option<Seq<char>> {
    match a {
        ApplyActionView::Probe { path } => Some(path),
        ApplyActionView::Write { path, .. } => Some(path),
        ApplyActionView::Remove { path } => Some(path),
        _ => None,
    }
}

/// An action that changes the disk or starts a process.
pub open spec fn has_effect(a: ApplyActionView) -> bool {
    a is Write || a is Remove || a is Run
}

/// Whatever the plan holds, every path that the caller is sent to look at,
/// to write or to remove lies under the root.
pub proof fn law_actions_stay_under_root(
    s: ApplySummaryView,
    step: StepView,
    root: Seq<char>,
    paths: Seq<Seq<char>>,
    commands: Seq<Seq<char>>,
    dry_run: bool,
    lowered_task: Seq<char>,
    phase: ApplyPhase,
    event: ApplyEventView,
)
    ensures
        ({
            let action = transition(
                s,
                step,
                root,
                paths,
                commands,
                dry_run,
                lowered_task,
                phase,
                event,
            ).2;
            path_of_action(action) is Some ==> lies_under(root, path_of_action(action)->0)
        }),
{
    match step.path() {
        Some(p) => {
            law_resolved_lies_under_root(root, p, paths);
        },
        None => {},
    }
}

/// In a dry run nothing is written, nothing is removed and nothing is run.
pub proof fn law_dry_run_has_no_effect(
    s: ApplySummaryView,
    step: StepView,
    root: Seq<char>,
    paths: Seq<Seq<char>>,
    commands: Seq<Seq<char>>,
    lowered_task: Seq<char>,
    phase: ApplyPhase,
    event: ApplyEventView,
)
    ensures
        !has_effect(
            transition(s, step, root, paths, commands, true, lowered_task, phase, event).2,
        ),
{
}

/// An update that carries no content changes no file: it is passed over,
/// or its path ends the plan.
pub proof fn law_update_without_content_writes_nothing(
    s: ApplySummaryView,
    step: StepView,
    root: Seq<char>,
    paths: Seq<Seq<char>>,
    commands: Seq<Seq<char>>,
    dry_run: bool,
    lowered_task: Seq<char>,
    phase: ApplyPhase,
    event: ApplyEventView,
)
    requires
        step is Update,
        step->Update_content is None,
        phase is Pending || phase is Probing,
    ensures
        ({
            let r = transition(s, step, root, paths, commands, dry_run, lowered_task, phase, event);
            r.1 is Recorded && (r.2 is Next || r.2 is Halt)
        }),
{
}


/// The preview shows what is written: for a step that carries content and
/// whose path resolves, the size that the preview announces is the size of
/// the contents that the caller is handed to write.
pub proof fn law_preview_shows_what_is_written(
    s: ApplySummaryView,
    step: StepView,
    root: Seq<char>,
    paths: Seq<Seq<char>>,
    commands: Seq<Seq<char>>,
    lowered_task: Seq<char>,
    state: FileStateView,
)
    requires
        (step is Create && step->Create_content is Some) || (step is Update
            && step->Update_content is Some),
        resolved(root, step.path()->0, paths) is Some,
    ensures
        ({
            let action = transition(
                s,
                step,
                root,
                paths,
                commands,
                false,
                lowered_task,
                ApplyPhase::Probing,
                ApplyEventView::Probed(state),
            ).2;
            &&& action is Write
            &&& action->Write_path == resolved(root, step.path()->0, paths)->0
            &&& preview_of(root, step, state, lowered_task).bytes_after == Some(
                byte_len(action->Write_contents) as u64,
            )
        }),
{
}

} // verus!
