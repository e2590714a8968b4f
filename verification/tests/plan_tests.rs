use vibe_codegen::errors::VibeError;
use vibe_codegen::plan::{coerce, sanitize, validate_and_extract};
use vibe_codegen::wire::{Plan, Step};

fn create(id: &str, path: &str, content: &str) -> Step {
    Step::Create {
        id: id.into(),
        title: "t".into(),
        path: path.into(),
        language: None,
        content: Some(content.into()),
    }
}

fn update(id: &str, path: &str, content: Option<&str>, patch: Option<&str>) -> Step {
    Step::Update {
        id: id.into(),
        title: "t".into(),
        path: path.into(),
        patch: patch.map(|s| s.to_string()),
        content: content.map(|s| s.to_string()),
    }
}

fn delete(id: &str, path: &str) -> Step {
    Step::Delete { id: id.into(), title: "t".into(), path: path.into() }
}

fn command(id: &str, cmd: &str) -> Step {
    Step::Command { id: id.into(), title: "t".into(), command: cmd.into(), cwd: None }
}

fn test(id: &str, cmd: &str) -> Step {
    Step::Test { id: id.into(), title: "t".into(), command: cmd.into() }
}

fn id_of(s: &Step) -> &str {
    match s {
        Step::Create { id, .. }
        | Step::Update { id, .. }
        | Step::Delete { id, .. }
        | Step::Command { id, .. }
        | Step::Test { id, .. } => id,
    }
}

fn ids(p: &Plan) -> Vec<&str> {
    p.steps.iter().map(id_of).collect()
}

fn plan(steps: Vec<Step>) -> Plan {
    Plan { summary: "the summary".into(), steps }
}

#[test]
fn sanitizer_determinism() {
    let p = plan(vec![update("1", "a.ts", None, Some("patch")), update("2", "a.ts", Some("text"), None)]);
    let (clean, warnings) = sanitize(p);
    assert_eq!(ids(&clean), vec!["2"]);
    assert_eq!(warnings, vec!["dropped duplicate update for a.ts"]);
}

#[test]
fn sanitizer_drops_an_update_without_content_and_patch() {
    let p = plan(vec![update("1", "a.ts", None, None), update("2", "a.ts", Some("text"), None)]);
    let (clean, warnings) = sanitize(p);
    assert_eq!(ids(&clean), vec!["2"]);
    assert_eq!(warnings, vec!["dropped update for a.ts (no content or patch)"]);
}

#[test]
fn sanitizer_prefers_content_and_then_the_later_update() {
    let p = plan(vec![
        update("1", "a.ts", Some("one"), None),
        update("2", "a.ts", None, Some("p")),
        update("3", "a.ts", Some("three"), None),
        update("4", "a.ts", None, Some("q")),
        update("5", "b.ts", None, Some("r")),
        update("6", "b.ts", None, Some("s")),
    ]);
    let (clean, warnings) = sanitize(p);
    assert_eq!(ids(&clean), vec!["3", "6"]);
    assert_eq!(
        warnings,
        vec![
            "dropped duplicate update for a.ts",
            "dropped duplicate update for a.ts",
            "dropped duplicate update for a.ts",
            "dropped duplicate update for b.ts",
        ]
    );
}

#[test]
fn sanitizer_keeps_the_first_create_and_the_first_delete() {
    let p = plan(vec![
        create("1", "a.ts", "x"),
        delete("2", "a.ts"),
        create("3", "a.ts", "y"),
        delete("4", "a.ts"),
        create("5", "b.ts", "z"),
    ]);
    let (clean, warnings) = sanitize(p);
    assert_eq!(ids(&clean), vec!["1", "2", "5"]);
    assert_eq!(
        warnings,
        vec!["dropped duplicate create for a.ts", "dropped duplicate delete for a.ts"]
    );
}

#[test]
fn sanitizer_keeps_commands_and_tests_and_the_order() {
    let p = plan(vec![
        command("1", "npm install"),
        update("2", "a.ts", None, None),
        command("3", "npm install"),
        test("4", "npm test"),
        create("5", "a.ts", "x"),
        test("6", "npm test"),
    ]);
    let (clean, warnings) = sanitize(p);
    assert_eq!(ids(&clean), vec!["1", "3", "4", "5", "6"]);
    assert_eq!(clean.summary, "the summary");
    assert_eq!(warnings.len(), 1);
}

#[test]
fn sanitizer_lists_malformed_updates_first() {
    let p = plan(vec![
        create("1", "a.ts", "x"),
        create("2", "a.ts", "y"),
        update("3", "b.ts", None, None),
    ]);
    let (clean, warnings) = sanitize(p);
    assert_eq!(ids(&clean), vec!["1"]);
    assert_eq!(
        warnings,
        vec!["dropped update for b.ts (no content or patch)", "dropped duplicate create for a.ts"]
    );
}

#[test]
fn sanitizer_gives_one_warning_for_each_dropped_step() {
    let steps = vec![
        update("1", "a.ts", None, None),
        update("2", "a.ts", None, Some("p")),
        update("3", "a.ts", Some("c"), None),
        create("4", "a.ts", "x"),
        create("5", "a.ts", "x"),
        delete("6", "b.ts"),
        delete("7", "b.ts"),
        command("8", "ls"),
    ];
    let n = steps.len();
    let (clean, warnings) = sanitize(plan(steps));
    assert_eq!(clean.steps.len() + warnings.len(), n);
    assert_eq!(ids(&clean), vec!["3", "4", "6", "8"]);
}

#[test]
fn create_and_update_of_one_path_both_stay() {
    let p = plan(vec![create("1", "a.txt", "hi"), update("2", "a.txt", Some("hello"), None)]);
    let (clean, warnings) = sanitize(p);
    assert_eq!(ids(&clean), vec!["1", "2"]);
    assert!(warnings.is_empty());
}

#[test]
fn sanitizer_on_an_empty_plan() {
    let (clean, warnings) = sanitize(plan(vec![]));
    assert!(clean.steps.is_empty());
    assert!(warnings.is_empty());
}

#[test]
fn extract_gives_the_plan_or_says_that_it_is_missing() {
    let p = plan(vec![command("1", "ls")]);
    let got = validate_and_extract(Some(&p)).unwrap();
    assert_eq!(got.summary, "the summary");
    assert_eq!(ids(&got), vec!["1"]);
    assert!(matches!(validate_and_extract(None), Err(VibeError::Schema(m)) if m == "missing plan"));
    assert_eq!(ids(&coerce(Some(&p)).unwrap()), vec!["1"]);
    assert!(matches!(coerce(None), Err(VibeError::Schema(m)) if m == "missing plan"));
}

#[test]
fn sanitizing_twice_changes_nothing_more() {
    let steps = vec![
        update("1", "a.ts", None, None),
        update("2", "a.ts", None, Some("p")),
        update("3", "a.ts", Some("c"), None),
        create("4", "a.ts", "x"),
        create("5", "a.ts", "x"),
        delete("6", "b.ts"),
        command("7", "ls"),
        delete("8", "b.ts"),
        update("9", "a.ts", Some("d"), None),
    ];
    let (once, _) = sanitize(plan(steps));
    let first: Vec<String> = ids(&once).iter().map(|s| s.to_string()).collect();
    assert_eq!(first, vec!["4", "6", "7", "9"]);
    let (twice, warnings) = sanitize(once);
    assert_eq!(ids(&twice), first);
    assert!(warnings.is_empty());
}
