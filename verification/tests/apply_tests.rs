use std::collections::HashMap;
use vibe_codegen::apply::{
    apply_step, apply_step_lowered, ApplyAction, ApplyEvent, ApplyPhase, ApplySummary,
};
use vibe_codegen::config::Config;
use vibe_codegen::errors::VibeError;
use vibe_codegen::exec::CmdResult;
use vibe_codegen::patch::FileState;
use vibe_codegen::plan::sanitize;
use vibe_codegen::wire::{Plan, Step};

fn cfg() -> Config {
    let mut c = Config::default();
    c.root = "/root".into();
    c.path_allowlist = vec!["a.txt".into(), "src".into()];
    c.command_allowlist = vec!["npm install".into(), "npm test".into()];
    c
}

fn create(path: &str, content: Option<&str>) -> Step {
    Step::Create {
        id: "1".into(),
        title: "t".into(),
        path: path.into(),
        language: None,
        content: content.map(|s| s.to_string()),
    }
}

fn update(path: &str, content: Option<&str>, patch: Option<&str>) -> Step {
    Step::Update {
        id: "1".into(),
        title: "t".into(),
        path: path.into(),
        patch: patch.map(|s| s.to_string()),
        content: content.map(|s| s.to_string()),
    }
}

fn delete(path: &str) -> Step {
    Step::Delete { id: "1".into(), title: "t".into(), path: path.into() }
}

fn command(cmd: &str, cwd: Option<&str>) -> Step {
    Step::Command { id: "1".into(), title: "t".into(), command: cmd.into(), cwd: cwd.map(|s| s.to_string()) }
}

fn test(cmd: &str) -> Step {
    Step::Test { id: "1".into(), title: "t".into(), command: cmd.into() }
}

/// Runs a plan against a disk held in memory, as a caller would against the real one.
fn run(
    disk: &mut HashMap<String, String>,
    steps: &[Step],
    cfg: &Config,
    dry_run: bool,
    task: &str,
) -> Result<ApplySummary, VibeError> {
    let mut summary = ApplySummary::default();
    for step in steps {
        let mut phase = ApplyPhase::Pending;
        let mut event = ApplyEvent::Begin;
        loop {
            let (s, p, action) = apply_step(summary, step, cfg, dry_run, task, phase, event);
            summary = s;
            phase = p;
            event = match action {
                ApplyAction::Probe { path } => ApplyEvent::Probed(match disk.get(&path) {
                    Some(text) => FileState::Present { size: text.len() as u64, text: Some(text.clone()) },
                    None => FileState::Absent,
                }),
                ApplyAction::Write { path, contents } => {
                    assert!(!dry_run);
                    disk.insert(path, contents);
                    ApplyEvent::Done
                }
                ApplyAction::Remove { path } => {
                    assert!(!dry_run);
                    disk.remove(&path);
                    ApplyEvent::Done
                }
                ApplyAction::Run { command, cwd } => {
                    assert!(!dry_run);
                    ApplyEvent::Ran(Ok(CmdResult {
                        command,
                        cwd,
                        status_code: 0,
                        stdout: "ran".into(),
                        stderr: String::new(),
                        duration_ms: 5,
                        via_shell_fallback: false,
                    }))
                }
                ApplyAction::Next => {
                    assert_eq!(phase, ApplyPhase::Recorded);
                    break;
                }
                ApplyAction::Halt(e) => return Err(e),
            };
        }
    }
    Ok(summary)
}

#[test]
fn scenario_create_then_update() {
    let plan = Plan {
        summary: "s".into(),
        steps: vec![create("a.txt", Some("hi")), update("a.txt", Some("hello"), None)],
    };
    let (clean, warnings) = sanitize(plan);
    assert_eq!(clean.steps.len(), 2);
    assert!(warnings.is_empty());
    let mut disk = HashMap::new();
    let after_first = run(&mut disk, &clean.steps[..1], &cfg(), false, "write a greeting").unwrap();
    assert_eq!(disk["/root/a.txt"], "hi\n");
    assert_eq!((after_first.created, after_first.updated, after_first.bytes), (1, 0, 3));
    let mut disk = HashMap::new();
    let summary = run(&mut disk, &clean.steps, &cfg(), false, "write a greeting").unwrap();
    assert_eq!(disk["/root/a.txt"], "hello\n");
    assert_eq!(summary.created, 1);
    assert_eq!(summary.updated, 1);
    assert_eq!(summary.bytes - after_first.bytes, 6);
    assert_eq!(summary.bytes, 9);
    assert_eq!(summary.skipped, 0);
}

#[test]
fn create_over_a_file_counts_as_an_update_and_replaces() {
    let mut disk = HashMap::from([("/root/a.txt".to_string(), "one\ntwo\n".to_string())]);
    let summary = run(&mut disk, &[create("a.txt", Some("three"))], &cfg(), false, "add a line").unwrap();
    assert_eq!(disk["/root/a.txt"], "three\n");
    assert_eq!((summary.created, summary.updated, summary.bytes), (0, 1, 6));
}

#[test]
fn update_merges_under_an_additive_task() {
    let mut disk = HashMap::from([("/root/src/a.ts".to_string(), "one\ntwo\n".to_string())]);
    let step = update("src/a.ts", Some("two\nthree"), None);
    let summary = run(&mut disk, &[step], &cfg(), false, "Add a third line").unwrap();
    assert_eq!(disk["/root/src/a.ts"], "one\ntwo\nthree\n");
    assert_eq!((summary.created, summary.updated, summary.bytes), (0, 1, 14));
}

#[test]
fn update_of_a_missing_file_creates_it() {
    let mut disk = HashMap::new();
    let summary = run(&mut disk, &[update("src/a.ts", Some("x"), None)], &cfg(), false, "change").unwrap();
    assert_eq!(disk["/root/src/a.ts"], "x\n");
    assert_eq!((summary.created, summary.updated, summary.bytes), (1, 0, 2));
}

#[test]
fn update_keeps_the_directive() {
    let mut disk = HashMap::from([("/root/src/a.ts".to_string(), "'use client'\nold\n".to_string())]);
    run(&mut disk, &[update("src/a.ts", Some("new"), None)], &cfg(), false, "change it").unwrap();
    assert_eq!(disk["/root/src/a.ts"], "'use client'\n\nnew\n");
}

#[test]
fn update_without_content_is_skipped() {
    let mut disk = HashMap::from([("/root/src/a.ts".to_string(), "old\n".to_string())]);
    let steps = [update("src/a.ts", None, Some("patch")), update("src/a.ts", None, None)];
    let summary = run(&mut disk, &steps, &cfg(), false, "change").unwrap();
    assert_eq!(disk["/root/src/a.ts"], "old\n");
    assert_eq!((summary.updated, summary.skipped, summary.bytes), (0, 2, 0));
}

#[test]
fn delete_removes_or_skips() {
    let mut disk = HashMap::from([("/root/src/a.ts".to_string(), "old\n".to_string())]);
    let summary = run(&mut disk, &[delete("src/a.ts"), delete("src/a.ts")], &cfg(), false, "").unwrap();
    assert!(disk.is_empty());
    assert_eq!((summary.deleted, summary.skipped), (1, 1));
}

#[test]
fn commands_and_tests_are_counted_and_recorded() {
    let mut disk = HashMap::new();
    let steps = [command("npm install", Some("web")), test("npm test"), test("npm run lint")];
    let summary = run(&mut disk, &steps, &cfg(), false, "").unwrap();
    assert_eq!((summary.commands, summary.tests, summary.skipped), (1, 2, 1));
    assert_eq!(summary.command_outputs.len(), 3);
    assert_eq!(summary.command_outputs[0].command, "npm install");
    assert_eq!(summary.command_outputs[0].cwd.as_deref(), Some("web"));
    assert_eq!(summary.command_outputs[0].stdout, "ran");
    assert_eq!(summary.command_outputs[1].command, "npm test");
    assert_eq!(summary.command_outputs[1].cwd, None);
    assert_eq!(summary.command_outputs[2].command, "(skipped-not-allowlisted) npm run lint");
    assert_eq!(summary.command_outputs[2].cwd.as_deref(), Some("."));
    assert_eq!(summary.command_outputs[2].duration_ms, 0);
}

#[test]
fn dry_run_counts_and_changes_nothing() {
    let mut disk = HashMap::from([("/root/src/a.ts".to_string(), "old\n".to_string())]);
    let steps = [
        create("src/new.ts", Some("12345")),
        update("src/a.ts", Some("new"), None),
        delete("src/a.ts"),
        delete("src/none.ts"),
        command("npm install", None),
        command("npm install", Some("web")),
        test("anything at all"),
    ];
    let summary = run(&mut disk, &steps, &cfg(), true, "change").unwrap();
    assert_eq!(disk.len(), 1);
    assert_eq!(disk["/root/src/a.ts"], "old\n");
    assert_eq!((summary.created, summary.updated, summary.deleted, summary.skipped), (1, 1, 1, 1));
    assert_eq!((summary.commands, summary.tests, summary.bytes), (2, 1, 10));
    let dirs: Vec<_> = summary.command_outputs.iter().map(|r| r.cwd.clone().unwrap()).collect();
    assert_eq!(dirs, vec![".", "web", "."]);
    assert_eq!(summary.command_outputs[2].command, "anything at all");
    assert!(summary.command_outputs.iter().all(|r| r.status_code == 0 && r.stdout.is_empty()));
}

#[test]
fn a_rejected_path_ends_the_plan() {
    let mut disk = HashMap::new();
    let steps = [create("src/a.ts", Some("x")), create("../b.ts", Some("y")), create("src/c.ts", Some("z"))];
    let got = run(&mut disk, &steps, &cfg(), false, "");
    assert!(matches!(got, Err(VibeError::PathRejected(p)) if p == "../b.ts"));
    assert_eq!(disk.len(), 1);
    for step in [update("/etc/passwd", Some("x"), None), delete("src/../../x")] {
        assert!(matches!(run(&mut disk, &[step], &cfg(), false, ""), Err(VibeError::PathRejected(_))));
    }
}

#[test]
fn a_create_without_content_ends_the_plan() {
    let mut disk = HashMap::new();
    let got = run(&mut disk, &[create("src/a.ts", None)], &cfg(), false, "");
    assert!(matches!(got, Err(VibeError::MalformedStep(p)) if p == "src/a.ts"));
}

#[test]
fn a_failed_write_or_command_ends_the_plan() {
    let step = create("src/a.ts", Some("x"));
    let (s, phase, action) =
        apply_step(ApplySummary::default(), &step, &cfg(), false, "", ApplyPhase::Pending, ApplyEvent::Begin);
    assert!(matches!(action, ApplyAction::Probe { path } if path == "/root/src/a.ts"));
    let (s, phase, action) =
        apply_step(s, &step, &cfg(), false, "", phase, ApplyEvent::Probed(FileState::Absent));
    assert_eq!(phase, ApplyPhase::Creating { bytes: 2 });
    assert!(matches!(action, ApplyAction::Write { path, contents } if path == "/root/src/a.ts" && contents == "x\n"));
    let (s, phase, action) =
        apply_step(s, &step, &cfg(), false, "", phase, ApplyEvent::Failed("disk full".into()));
    assert_eq!(phase, ApplyPhase::Recorded);
    assert!(matches!(action, ApplyAction::Halt(VibeError::IoFailure(p, c)) if p == "src/a.ts" && c == "disk full"));
    assert_eq!((s.created, s.bytes), (0, 0));

    let cmd = command("npm install", None);
    let (s, phase, action) =
        apply_step(ApplySummary::default(), &cmd, &cfg(), false, "", ApplyPhase::Pending, ApplyEvent::Begin);
    assert_eq!(phase, ApplyPhase::Running);
    assert!(matches!(action, ApplyAction::Run { command, cwd: None } if command == "npm install"));
    let (s, _, action) = apply_step(
        s,
        &cmd,
        &cfg(),
        false,
        "",
        phase,
        ApplyEvent::Ran(Err(VibeError::TimedOut("npm install".into()))),
    );
    assert!(matches!(action, ApplyAction::Halt(VibeError::TimedOut(c)) if c == "npm install"));
    assert_eq!(s.commands, 1);
    assert!(s.command_outputs.is_empty());
}

#[test]
fn an_event_out_of_turn_ends_the_plan() {
    let step = delete("src/a.ts");
    for (phase, event) in [
        (ApplyPhase::Pending, ApplyEvent::Done),
        (ApplyPhase::Probing, ApplyEvent::Begin),
        (ApplyPhase::Deleting, ApplyEvent::Begin),
        (ApplyPhase::Running, ApplyEvent::Done),
        (ApplyPhase::Recorded, ApplyEvent::Begin),
        (ApplyPhase::Creating { bytes: 1 }, ApplyEvent::Probed(FileState::Absent)),
    ] {
        let (s, next, action) =
            apply_step_lowered(ApplySummary::default(), &step, &cfg(), false, "", phase, event);
        assert_eq!(next, ApplyPhase::Recorded);
        assert!(matches!(
            action,
            ApplyAction::Halt(VibeError::IoFailure(p, c)) if p == "src/a.ts" && c == "unexpected event"
        ));
        assert_eq!(s.deleted, 0);
    }
}

#[test]
fn counts_stop_at_the_largest_number() {
    let mut s = ApplySummary::default();
    s.bytes = usize::MAX - 1;
    s.created = usize::MAX;
    let step = create("src/a.ts", Some("xyz"));
    let (s, _, _) = apply_step(s, &step, &cfg(), false, "", ApplyPhase::Creating { bytes: 4 }, ApplyEvent::Done);
    assert_eq!(s.bytes, usize::MAX);
    assert_eq!(s.created, usize::MAX);
}

#[test]
fn a_file_that_could_not_be_read_counts_as_empty() {
    let step = update("src/a.ts", Some("x"), None);
    let state = FileState::Present { size: 9, text: None };
    let (_, phase, action) = apply_step(
        ApplySummary::default(),
        &step,
        &cfg(),
        false,
        "add x",
        ApplyPhase::Probing,
        ApplyEvent::Probed(state),
    );
    assert_eq!(phase, ApplyPhase::Updating { bytes: 2 });
    assert!(matches!(action, ApplyAction::Write { contents, .. } if contents == "x\n"));
}
