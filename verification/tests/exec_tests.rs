use vibe_codegen::config::Config;
use vibe_codegen::errors::VibeError;
use vibe_codegen::exec::{
    conclude, launch, run_command_allowlisted, run_step, CmdResult, ExecAction, ExecEvent,
    ExecState,
};

fn cfg() -> Config {
    let mut c = Config::default();
    c.root = "/project".into();
    c.command_allowlist = vec!["npm install".into(), "echo".into()];
    c
}

fn exited(status: i32) -> ExecEvent {
    ExecEvent::Exited { status, stdout: "out".into(), stderr: "err".into(), duration_ms: 12 }
}

#[test]
fn run_starts_the_program_with_its_arguments() {
    let (state, action) = run_command_allowlisted(
        "npm install \"left pad\" 'a b' c\\ d",
        &cfg(),
        Some("web"),
        30,
        ExecState::Start,
        ExecEvent::Begin,
    );
    assert_eq!(state, ExecState::Direct);
    match action {
        ExecAction::Spawn { program, args, cwd, timeout_secs } => {
            assert_eq!(program, "npm");
            assert_eq!(args, vec!["install", "left pad", "a b", "c d"]);
            assert_eq!(cwd.as_deref(), Some("/project/web"));
            assert_eq!(timeout_secs, 30);
        }
        other => panic!("{other:?}"),
    }
}

#[test]
fn run_rejects_a_command_that_is_not_allowed() {
    for state in [ExecState::Start, ExecState::Direct, ExecState::Shell, ExecState::Done] {
        let (next, action) = run_command_allowlisted("rm -rf /", &cfg(), None, 30, state, ExecEvent::Begin);
        assert_eq!(next, ExecState::Done);
        assert!(matches!(action, ExecAction::Finish(Err(VibeError::CommandRejected(c))) if c == "rm -rf /"));
    }
}

#[test]
fn run_rejects_a_working_directory_outside_the_root() {
    let (next, action) =
        run_command_allowlisted("npm install", &cfg(), Some("../other"), 30, ExecState::Start, ExecEvent::Begin);
    assert_eq!(next, ExecState::Done);
    assert!(matches!(action, ExecAction::Finish(Err(VibeError::PathRejected(p))) if p == "../other"));
}

#[test]
fn run_falls_back_to_the_shell_once() {
    let (state, action) =
        run_command_allowlisted("npm install x", &cfg(), None, 30, ExecState::Direct, ExecEvent::NotFound);
    assert_eq!(state, ExecState::Shell);
    match action {
        ExecAction::SpawnShell { command, cwd, timeout_secs } => {
            assert_eq!(command, "npm install x");
            assert_eq!(cwd, None);
            assert_eq!(timeout_secs, 30);
        }
        other => panic!("{other:?}"),
    }
    let (state, action) =
        run_command_allowlisted("npm install x", &cfg(), None, 30, ExecState::Shell, ExecEvent::NotFound);
    assert_eq!(state, ExecState::Done);
    assert!(matches!(
        action,
        ExecAction::Finish(Err(VibeError::IoFailure(c, cause))) if c == "npm install x" && cause == "program not found"
    ));
}

#[test]
fn run_ends_with_the_result_on_a_zero_exit() {
    let (state, action) =
        run_command_allowlisted("npm install", &cfg(), Some("web"), 30, ExecState::Direct, exited(0));
    assert_eq!(state, ExecState::Done);
    match action {
        ExecAction::Finish(Ok(CmdResult {
            command,
            cwd,
            status_code,
            stdout,
            stderr,
            duration_ms,
            via_shell_fallback,
        })) => {
            assert_eq!(command, "npm install");
            assert_eq!(cwd.as_deref(), Some("web"));
            assert_eq!(status_code, 0);
            assert_eq!(stdout, "out");
            assert_eq!(stderr, "err");
            assert_eq!(duration_ms, 12);
            assert!(!via_shell_fallback);
        }
        other => panic!("{other:?}"),
    }
    let (_, action) = run_command_allowlisted("npm install", &cfg(), None, 30, ExecState::Shell, exited(0));
    assert!(matches!(action, ExecAction::Finish(Ok(r)) if r.via_shell_fallback));
}

#[test]
fn run_ends_with_an_error_on_another_exit() {
    let (state, action) =
        run_command_allowlisted("npm install", &cfg(), None, 30, ExecState::Direct, exited(2));
    assert_eq!(state, ExecState::Done);
    match action {
        ExecAction::Finish(Err(VibeError::CommandFailed { command, status, stdout, stderr })) => {
            assert_eq!(command, "npm install");
            assert_eq!(status, 2);
            assert_eq!(stdout, "out");
            assert_eq!(stderr, "err");
        }
        other => panic!("{other:?}"),
    }
}

#[test]
fn run_tells_a_timeout_from_a_failure() {
    for state in [ExecState::Direct, ExecState::Shell] {
        let (next, action) =
            run_command_allowlisted("npm install", &cfg(), None, 30, state, ExecEvent::TimedOut);
        assert_eq!(next, ExecState::Done);
        assert!(matches!(action, ExecAction::Finish(Err(VibeError::TimedOut(c))) if c == "npm install"));
    }
    let (_, action) = run_command_allowlisted(
        "npm install",
        &cfg(),
        None,
        30,
        ExecState::Direct,
        ExecEvent::SpawnFailed("permission denied".into()),
    );
    assert!(matches!(
        action,
        ExecAction::Finish(Err(VibeError::IoFailure(c, cause))) if c == "npm install" && cause == "permission denied"
    ));
}

#[test]
fn run_ends_on_an_event_out_of_turn() {
    for (state, event) in [
        (ExecState::Start, ExecEvent::TimedOut),
        (ExecState::Start, exited(0)),
        (ExecState::Direct, ExecEvent::Begin),
        (ExecState::Shell, ExecEvent::Begin),
        (ExecState::Done, ExecEvent::Begin),
        (ExecState::Done, exited(0)),
    ] {
        let (next, action) = run_command_allowlisted("npm install", &cfg(), None, 30, state, event);
        assert_eq!(next, ExecState::Done);
        assert!(matches!(
            action,
            ExecAction::Finish(Err(VibeError::IoFailure(c, cause))) if c == "npm install" && cause == "unexpected event"
        ));
    }
}

#[test]
fn launch_hands_a_line_without_words_to_the_shell() {
    let (state, action) = launch("  ", &vec![], None, 5);
    assert_eq!(state, ExecState::Shell);
    assert!(matches!(action, ExecAction::SpawnShell { command, cwd: None, timeout_secs: 5 } if command == "  "));
    let (state, action) = launch("echo", &vec!["echo".to_string()], Some("/d".into()), 5);
    assert_eq!(state, ExecState::Direct);
    assert!(matches!(
        action,
        ExecAction::Spawn { program, args, cwd: Some(d), timeout_secs: 5 } if program == "echo" && args.is_empty() && d == "/d"
    ));
}

#[test]
fn run_step_takes_the_words_as_given() {
    let words = vec!["a".to_string(), "b".to_string()];
    let (state, action) =
        run_step("whatever", true, &words, "/r", None, 1, ExecState::Start, ExecEvent::Begin);
    assert_eq!(state, ExecState::Direct);
    assert!(matches!(action, ExecAction::Spawn { program, args, .. } if program == "a" && args == vec!["b"]));
    let (_, action) = run_step("whatever", false, &words, "/r", None, 1, ExecState::Start, ExecEvent::Begin);
    assert!(matches!(action, ExecAction::Finish(Err(VibeError::CommandRejected(c))) if c == "whatever"));
}

#[test]
fn conclude_maps_each_event() {
    assert!(matches!(conclude("c", None, false, exited(0)), Ok(r) if r.command == "c" && r.cwd.is_none()));
    assert!(matches!(conclude("c", None, false, exited(-1)), Err(VibeError::CommandFailed { status: -1, .. })));
    assert!(matches!(conclude("c", None, true, ExecEvent::TimedOut), Err(VibeError::TimedOut(c)) if c == "c"));
    assert!(matches!(conclude("c", None, true, ExecEvent::Begin), Err(VibeError::IoFailure(_, m)) if m == "unexpected event"));
}

#[test]
fn default_result_is_empty() {
    let r = CmdResult::default();
    assert_eq!(r.command, "");
    assert_eq!(r.cwd, None);
    assert_eq!(r.status_code, 0);
    assert_eq!(r.duration_ms, 0);
    assert!(!r.via_shell_fallback);
    let copy = r.clone();
    assert_eq!(copy.stdout, "");
}
