use vibe_codegen::config::Config;
use vibe_codegen::errors::{Limit, VibeError};
use vibe_codegen::safety::pathguard::{allowlist_admits_path, is_admissible, resolve_dir, safe_join};
use vibe_codegen::safety::{command_is_allowed, command_is_listed, path_is_allowed, validate};
use vibe_codegen::wire::{Plan, Step};

fn list(items: &[&str]) -> Vec<String> {
    items.iter().map(|s| s.to_string()).collect()
}

fn create(path: &str, content: &str) -> Step {
    Step::Create {
        id: "1".into(),
        title: "t".into(),
        path: path.into(),
        language: None,
        content: Some(content.into()),
    }
}

fn update(path: &str, content: Option<&str>, patch: Option<&str>) -> Step {
    Step::Update {
        id: "1".into(),
        title: "t".into(),
        path: path.into(),
        patch: patch.map(|s| s.to_string()),
        content: content.map(|s| s.to_string()),
    }
}

fn command(cmd: &str) -> Step {
    Step::Command { id: "1".into(), title: "t".into(), command: cmd.into(), cwd: None }
}

fn plan(steps: Vec<Step>) -> Plan {
    Plan { summary: "s".into(), steps }
}

#[test]
fn allowlist_prefix() {
    let allow = list(&["npm install"]);
    assert!(command_is_allowed("npm install foo", &allow));
    assert!(!command_is_allowed("npm installer", &allow));
}

#[test]
fn command_guard_rules() {
    let allow = list(&["npm install", "yarn"]);
    assert!(command_is_allowed("npm install", &allow));
    assert!(command_is_allowed("  npm install  ", &allow));
    assert!(command_is_allowed("npm install left-pad", &allow));
    assert!(command_is_allowed("yarn add x", &allow));
    assert!(!command_is_allowed("npm installx", &allow));
    assert!(!command_is_allowed("npm", &allow));
    assert!(!command_is_allowed("npm install\tfoo", &allow));
    assert!(!command_is_allowed("Npm install", &allow));
    assert!(!command_is_allowed("", &allow));
    assert!(!command_is_allowed("npm install", &list(&[])));
}

#[test]
fn command_listing_is_exact() {
    let allow = list(&["npm install"]);
    assert!(command_is_listed("npm install", &allow));
    assert!(!command_is_listed("npm install foo", &allow));
    assert!(!command_is_listed(" npm install", &allow));
}

#[test]
fn path_sandbox() {
    let allow = list(&["src"]);
    for p in [
        "src/../../etc/passwd",
        "src/../..",
        "src/a/../../../x",
        "src/..",
        "src\\..\\..\\x",
    ] {
        if let Ok(out) = safe_join("/project", p, &allow) {
            assert!(out == "/project" || out.starts_with("/project/"), "{p} gave {out}");
            assert!(!out.split('/').any(|s| s == ".."), "{p} gave {out}");
        }
    }
    assert!(safe_join("/project", "src/../../etc/passwd", &allow).is_err());
    assert!(safe_join("/project", "src/a/../../../x", &allow).is_err());
    assert!(safe_join("/no/such/root/anywhere", "src/../../x", &allow).is_err());
    assert_eq!(safe_join("/project", "src/..", &allow).unwrap(), "/project");
}

#[test]
fn safe_join_gives_the_path_under_the_root() {
    let allow = list(&["src", "package.json"]);
    assert_eq!(safe_join("/project", "src/app/page.tsx", &allow).unwrap(), "/project/src/app/page.tsx");
    assert_eq!(safe_join("/project/", "src/a", &allow).unwrap(), "/project/src/a");
    assert_eq!(safe_join("/project", "src/./a//b/../c", &allow).unwrap(), "/project/src/a/c");
    assert_eq!(safe_join("/project", "src\\a\\b", &allow).unwrap(), "/project/src/a/b");
    assert_eq!(safe_join("/project", "package.json", &allow).unwrap(), "/project/package.json");
    assert_eq!(safe_join("rel/root", "src/x", &allow).unwrap(), "rel/root/src/x");
    assert_eq!(safe_join("", "src/x", &allow).unwrap(), "src/x");
}

#[test]
fn safe_join_rejects_with_the_path_given() {
    let allow = list(&["src"]);
    for p in ["", "lib/a", "/src/a", "\\src\\a", "C:/src", "c:src", "src/../../x", "src-evil/a", "srcx"] {
        match safe_join("/project", p, &allow) {
            Err(VibeError::PathRejected(q)) => assert_eq!(q, p),
            other => panic!("{p:?} gave {other:?}"),
        }
    }
}

#[test]
fn allowlist_match_ends_where_a_segment_ends() {
    let allow = list(&["src", "app/", "docs\\", "package.json"]);
    assert!(allowlist_admits_path(&allow, "src"));
    assert!(allowlist_admits_path(&allow, "src/a"));
    assert!(allowlist_admits_path(&allow, "src\\a"));
    assert!(allowlist_admits_path(&allow, "app/x"));
    assert!(allowlist_admits_path(&allow, "app"));
    assert!(allowlist_admits_path(&allow, "docs/readme.md"));
    assert!(allowlist_admits_path(&allow, "package.json"));
    assert!(!allowlist_admits_path(&allow, "src-evil"));
    assert!(!allowlist_admits_path(&allow, "package.json.bak"));
    assert!(!allowlist_admits_path(&allow, "Src/a"));
    assert!(!allowlist_admits_path(&list(&[]), "src"));
}

#[test]
fn path_is_allowed_is_admissibility() {
    let allow = list(&["src"]);
    assert!(path_is_allowed("src/a.ts", &allow));
    assert!(is_admissible("src/a/../b.ts", &allow));
    assert!(!path_is_allowed("src/../../a.ts", &allow));
    assert!(!path_is_allowed("/src/a.ts", &allow));
    assert!(!path_is_allowed("other/a.ts", &allow));
    assert!(!path_is_allowed("", &allow));
}

#[test]
fn working_directory_stays_under_the_root() {
    assert_eq!(resolve_dir("/project", ".").unwrap(), "/project");
    assert_eq!(resolve_dir("/project", "web/app").unwrap(), "/project/web/app");
    assert_eq!(resolve_dir("/project", "").unwrap(), "/project");
    assert!(matches!(resolve_dir("/project", ".."), Err(VibeError::PathRejected(p)) if p == ".."));
    assert!(matches!(resolve_dir("/project", "/tmp"), Err(VibeError::PathRejected(p)) if p == "/tmp"));
}

fn policy(max_actions: usize, max_patch_bytes: usize) -> Config {
    let mut cfg = Config::default();
    cfg.path_allowlist = list(&["src"]);
    cfg.command_allowlist = list(&["npm install"]);
    cfg.max_actions = max_actions;
    cfg.max_patch_bytes = max_patch_bytes;
    cfg
}

#[test]
fn validate_accepts_a_plan_within_the_policy() {
    let p = plan(vec![create("src/a.ts", "12345"), update("src/b.ts", Some("123"), Some("12")), command("npm install")]);
    assert!(validate(&p, &policy(3, 10)).is_ok());
    assert!(validate(&plan(vec![]), &policy(0, 0)).is_ok());
}

#[test]
fn validate_rejects_too_many_steps() {
    let p = plan(vec![create("src/a.ts", "x"), create("src/b.ts", "y")]);
    assert!(matches!(validate(&p, &policy(1, 10)), Err(VibeError::LimitExceeded(Limit::Actions))));
}

#[test]
fn validate_rejects_a_path_outside_the_allowlist() {
    let p = plan(vec![create("src/a.ts", "x"), update("lib/b.ts", Some("y"), None), create("../c", "z")]);
    assert!(matches!(validate(&p, &policy(5, 10)), Err(VibeError::PathRejected(q)) if q == "lib/b.ts"));
    let escaping = plan(vec![create("src/../../a.ts", "x")]);
    assert!(matches!(validate(&escaping, &policy(5, 10)), Err(VibeError::PathRejected(q)) if q == "src/../../a.ts"));
}

#[test]
fn validate_rejects_a_command_that_is_not_listed_exactly() {
    let p = plan(vec![command("npm install"), command("npm install left-pad")]);
    assert!(matches!(
        validate(&p, &policy(5, 10)),
        Err(VibeError::CommandRejected(c)) if c == "npm install left-pad"
    ));
    let test_step = plan(vec![Step::Test { id: "1".into(), title: "t".into(), command: "npm test".into() }]);
    assert!(matches!(validate(&test_step, &policy(5, 10)), Err(VibeError::CommandRejected(c)) if c == "npm test"));
}

#[test]
fn validate_rejects_too_many_bytes() {
    let p = plan(vec![create("src/a.ts", "12345"), update("src/b.ts", Some("123"), Some("123"))]);
    assert!(validate(&p, &policy(5, 11)).is_ok());
    assert!(matches!(validate(&p, &policy(5, 10)), Err(VibeError::LimitExceeded(Limit::PatchBytes))));
    let wide = plan(vec![create("src/a.ts", "héllo")]);
    assert!(validate(&wide, &policy(5, 6)).is_ok());
    assert!(matches!(validate(&wide, &policy(5, 5)), Err(VibeError::LimitExceeded(Limit::PatchBytes))));
}

#[test]
fn validate_reports_the_first_check_that_fails() {
    let p = plan(vec![command("rm -rf /"), create("etc/passwd", "0123456789")]);
    assert!(matches!(validate(&p, &policy(1, 1)), Err(VibeError::LimitExceeded(Limit::Actions))));
    assert!(matches!(validate(&p, &policy(2, 1)), Err(VibeError::PathRejected(q)) if q == "etc/passwd"));
    let q = plan(vec![command("rm -rf /"), create("src/passwd", "0123456789")]);
    assert!(matches!(validate(&q, &policy(2, 1)), Err(VibeError::CommandRejected(c)) if c == "rm -rf /"));
}
