use vibe_codegen::cli::ProviderKind;
use vibe_codegen::config::{default_command_allowlist, default_path_allowlist, Config};
use vibe_codegen::context::embeddings::{count_hits, keyword_hits, normalize_path, tokenize};
use vibe_codegen::context::{baseline, select_relevant_files, shown_len};
use vibe_codegen::provider::{extract_first_json_object, split_instruction};
use vibe_codegen::session::{
    classify, is_code_action, is_code_action_lowered, needs_strict_plan, Reply,
};
use vibe_codegen::text::split_words;
use vibe_codegen::ux::{edit, parse_number, uniq, EditOutcome};
use vibe_codegen::errors::{Limit, VibeError};
use vibe_codegen::wire::{
    Answer, FileBlob, Instruction, Kind, Limits, LlmResponse, Plan, Safety, Step,
};

fn step(id: &str) -> Step {
    Step::Delete { id: id.into(), title: format!("title {id}"), path: format!("src/{id}") }
}

fn plan(n: usize) -> Plan {
    Plan { summary: "s".into(), steps: (1..=n).map(|i| step(&i.to_string())).collect() }
}

fn ids(p: &Plan) -> Vec<String> {
    p.steps
        .iter()
        .map(|s| match s {
            Step::Delete { id, .. } => id.clone(),
            _ => unreachable!(),
        })
        .collect()
}

fn title(s: &Step) -> &str {
    match s {
        Step::Create { title, .. }
        | Step::Update { title, .. }
        | Step::Delete { title, .. }
        | Step::Command { title, .. }
        | Step::Test { title, .. } => title,
    }
}

#[test]
fn default_configuration() {
    let c = Config::default();
    assert_eq!(c.root, ".");
    assert_eq!(c.vibe_out, ".vibe/out");
    assert_eq!(c.provider, ProviderKind::OpenAI);
    assert_eq!(c.model, "gpt-4o-mini");
    assert_eq!(c.task, "");
    assert_eq!(c.timeout_secs, 2400);
    assert!(c.save_request && c.save_response);
    assert!(!c.dry_run && !c.auto_approve && !c.debug);
    assert_eq!(c.path_allowlist, default_path_allowlist());
    assert_eq!(c.command_allowlist, default_command_allowlist());
    assert_eq!(c.max_actions, 64);
    assert_eq!(c.max_patch_bytes, 1048576);
}

#[test]
fn default_allowlists() {
    let paths = default_path_allowlist();
    assert_eq!(paths.len(), 15);
    assert_eq!(paths[0], "src");
    assert_eq!(paths[5], "package.json");
    assert_eq!(paths[14], "eslint.config.mjs");
    let commands = default_command_allowlist();
    assert_eq!(commands.len(), 15);
    assert_eq!(commands[0], "npm ci");
    assert_eq!(commands[10], "yarn");
    assert_eq!(commands[14], "yarn add");
}

#[test]
fn default_plan_is_empty() {
    let p = Plan::default();
    assert_eq!(p.summary, "");
    assert!(p.steps.is_empty());
    let q = plan(2).clone();
    assert_eq!(ids(&q), vec!["1", "2"]);
}

#[test]
fn relevant_files_are_the_baseline_and_the_new_hits() {
    assert_eq!(
        baseline(),
        vec!["src/app/page.tsx", "src/app/layout.tsx", "src/app/components/InteractiveButton.tsx", "package.json"]
    );
    let hits = vec![
        "src/a.ts".to_string(),
        "package.json".to_string(),
        "src/b.ts".to_string(),
        "src/a.ts".to_string(),
    ];
    assert_eq!(
        select_relevant_files(&hits),
        vec![
            "src/app/page.tsx",
            "src/app/layout.tsx",
            "src/app/components/InteractiveButton.tsx",
            "package.json",
            "src/a.ts",
            "src/b.ts"
        ]
    );
    assert_eq!(select_relevant_files(&vec![]), baseline());
}

#[test]
fn tokens_are_runs_of_letters_and_numbers_in_lower_case() {
    assert_eq!(tokenize("Hello, World! x2"), vec!["hello", "world", "x2"]);
    assert_eq!(tokenize("  --  "), Vec::<String>::new());
    assert_eq!(tokenize("naïve Übung"), vec!["naïve", "Übung"]);
    assert_eq!(tokenize("a_b-c.d"), vec!["a", "b", "c", "d"]);
}

#[test]
fn hits_count_the_query_tokens_found() {
    let query = vec!["button".to_string(), "theme".to_string(), "button".to_string(), "none".to_string()];
    assert_eq!(keyword_hits("A Button for the theme; a BUTTON.", &query), (3, 7));
    assert_eq!(keyword_hits("", &query), (0, 0));
    assert_eq!(keyword_hits("nothing here", &vec![]), (0, 2));
    assert_eq!(count_hits(&vec!["a".to_string(), "b".to_string()], &query), 0);
    assert_eq!(count_hits(&vec!["theme".to_string()], &query), 1);
}

#[test]
fn paths_are_normalized_to_slashes() {
    assert_eq!(normalize_path("src\\app\\page.tsx"), "src/app/page.tsx");
    assert_eq!(normalize_path("src/app"), "src/app");
}

#[test]
fn first_json_object_is_cut_out() {
    assert_eq!(extract_first_json_object("say {\"a\": {\"b\": 1}} and {2}").as_deref(), Some("{\"a\": {\"b\": 1}}"));
    assert_eq!(extract_first_json_object("} {x} ").as_deref(), Some("{x}"));
    assert_eq!(extract_first_json_object("{}").as_deref(), Some("{}"));
    assert_eq!(extract_first_json_object("é{é}é").as_deref(), Some("{é}"));
    assert_eq!(extract_first_json_object("{ {} "), None);
    assert_eq!(extract_first_json_object("no braces"), None);
    assert_eq!(extract_first_json_object(""), None);
}

#[test]
fn instruction_is_split_into_system_and_user() {
    let with = Instruction { system: "sys".into(), user: "usr".into(), developer: Some("dev".into()) };
    assert_eq!(split_instruction(&with), ("sys\n\nDeveloper notes:\ndev".to_string(), "usr".to_string()));
    let without = Instruction { system: "sys".into(), user: "usr".into(), developer: None };
    assert_eq!(split_instruction(&without), ("sys".to_string(), "usr".to_string()));
}

#[test]
fn code_actions_are_told_by_verbs_and_file_hints() {
    assert!(is_code_action("Please FIX the header"));
    assert!(is_code_action("what is in page.tsx"));
    assert!(is_code_action("look at styles.CSS"));
    assert!(!is_code_action("what does this project do"));
    assert!(is_code_action_lowered("rename it"));
    assert!(!is_code_action_lowered("RENAME IT"));
}

fn response(kind: Kind, plan: Option<Plan>, answer: bool) -> LlmResponse {
    LlmResponse {
        schema_version: "v1".into(),
        kind,
        plan,
        answer: answer.then_some(Answer { title: "t".into(), content: "c".into() }),
    }
}

#[test]
fn strict_plan_is_needed_where_the_response_is_no_plain_plan() {
    assert!(!needs_strict_plan(&response(Kind::Plan, Some(plan(1)), false), true));
    assert!(!needs_strict_plan(&response(Kind::Plan, Some(plan(1)), true), false));
    assert!(needs_strict_plan(&response(Kind::Plan, Some(plan(1)), true), true));
    assert!(needs_strict_plan(&response(Kind::Plan, Some(plan(0)), false), false));
    assert!(needs_strict_plan(&response(Kind::Plan, None, false), false));
    assert!(needs_strict_plan(&response(Kind::Answer, Some(plan(1)), false), false));
}

#[test]
fn responses_are_classified() {
    assert!(matches!(classify(response(Kind::Answer, Some(plan(1)), true)), Reply::Answered(Some(a)) if a.title == "t"));
    assert!(matches!(classify(response(Kind::Answer, None, false)), Reply::Answered(None)));
    assert!(matches!(classify(response(Kind::Plan, Some(plan(2)), true)), Reply::Planned(p) if p.steps.len() == 2));
    assert!(matches!(classify(response(Kind::Plan, Some(plan(0)), false)), Reply::Unusable));
    assert!(matches!(classify(response(Kind::Plan, None, true)), Reply::Unusable));
}

#[test]
fn words_and_numbers_of_an_edit_line() {
    let words: Vec<String> =
        split_words(&" order  2\t1 \n".chars().collect()).iter().map(|w| w.iter().collect()).collect();
    assert_eq!(words, vec!["order", "2", "1"]);
    for (text, want) in [
        ("0", Some(0usize)),
        ("7", Some(7)),
        ("+7", Some(7)),
        ("007", Some(7)),
        ("18446744073709551615", "18446744073709551615".parse().ok()),
        ("18446744073709551616", "18446744073709551616".parse().ok()),
        ("99999999999999999999999", None),
        ("", None),
        ("+", None),
        ("-1", None),
        ("1a", None),
        ("٣", None),
        ("++1", None),
    ] {
        assert_eq!(parse_number(&text.chars().collect()), want, "for {text:?}");
        assert_eq!(parse_number(&text.chars().collect()), text.parse::<usize>().ok(), "for {text:?}");
    }
    assert!(uniq(&vec![]));
    assert!(uniq(&vec![3, 1, 2]));
    assert!(!uniq(&vec![3, 1, 3]));
}

#[test]
fn edit_reorders() {
    let (p, did) = edit(plan(3), "order 3 1 2");
    assert_eq!(did, EditOutcome::Reordered);
    assert_eq!(ids(&p), vec!["3", "1", "2"]);
    for line in ["order 1 2", "order 1 1 2", "order 1 2 4", "order", "order 1 2 3 3", "order 0 1 2"] {
        let (p, did) = edit(plan(3), line);
        assert_eq!(did, EditOutcome::InvalidOrder, "for {line:?}");
        assert_eq!(ids(&p), vec!["1", "2", "3"]);
    }
    let (p, did) = edit(plan(3), "  order 2 x 3 9 1  ");
    assert_eq!(did, EditOutcome::Reordered);
    assert_eq!(ids(&p), vec!["2", "3", "1"]);
}

#[test]
fn edit_drops() {
    let (p, did) = edit(plan(4), "drop 4 2 2");
    assert_eq!(did, EditOutcome::Dropped(2));
    assert_eq!(ids(&p), vec!["1", "3"]);
    for line in ["drop", "drop 0", "drop 5 x"] {
        let (p, did) = edit(plan(4), line);
        assert_eq!(did, EditOutcome::NothingToDrop, "for {line:?}");
        assert_eq!(p.steps.len(), 4);
    }
}

#[test]
fn edit_retitles() {
    let (p, did) = edit(plan(3), "title 2   A new  title ");
    assert_eq!(did, EditOutcome::Retitled(1));
    assert_eq!(title(&p.steps[1]), "A new  title");
    assert_eq!(title(&p.steps[0]), "title 1");
    assert_eq!(ids(&p), vec!["1", "2", "3"]);
    assert_eq!(edit(plan(3), "title 2").1, EditOutcome::TitleMissing);
    assert_eq!(edit(plan(3), "title 2   ").1, EditOutcome::TitleMissing);
    assert_eq!(edit(plan(3), "title 4 x").1, EditOutcome::OutOfRange);
    assert_eq!(edit(plan(3), "title 0 x").1, EditOutcome::OutOfRange);
    assert_eq!(edit(plan(3), "title x y").1, EditOutcome::Ignored);
    assert_eq!(edit(plan(3), "title").1, EditOutcome::Ignored);
}

#[test]
fn edit_reads_the_other_commands() {
    assert_eq!(edit(plan(1), "").1, EditOutcome::Blank);
    assert_eq!(edit(plan(1), " \t ").1, EditOutcome::Blank);
    assert_eq!(edit(plan(1), "show").1, EditOutcome::Show);
    assert_eq!(edit(plan(1), " done ").1, EditOutcome::Done);
    assert_eq!(edit(plan(1), "Done").1, EditOutcome::Unknown);
    assert_eq!(edit(plan(1), "help me").1, EditOutcome::Unknown);
    let (p, _) = edit(plan(2), "nothing");
    assert_eq!(p.summary, "s");
    assert_eq!(ids(&p), vec!["1", "2"]);
}

#[test]
fn errors_say_what_went_wrong() {
    let cases = [
        (VibeError::PathRejected("../x".into()), "safety violation: path rejected: ../x"),
        (VibeError::CommandRejected("rm".into()), "safety violation: command not allowed: rm"),
        (VibeError::LimitExceeded(Limit::Actions), "safety violation: the plan has too many steps"),
        (VibeError::LimitExceeded(Limit::PatchBytes), "safety violation: the plan carries too many bytes"),
        (VibeError::IoFailure("src/a".into(), "disk full".into()), "apply failed: src/a: disk full"),
        (VibeError::TimedOut("npm ci".into()), "apply failed: command timed out: npm ci"),
        (VibeError::MalformedStep("src/a".into()), "schema error: malformed step for src/a"),
        (
            VibeError::CommandFailed {
                command: "npm ci".into(),
                status: 1,
                stdout: "out".into(),
                stderr: "err".into(),
            },
            "command failed (npm ci):\nSTDOUT:\nout\nSTDERR:\nerr",
        ),
        (VibeError::Schema("missing plan".into()), "schema error: missing plan"),
    ];
    for (e, want) in cases {
        assert_eq!(e.message(), want);
    }
}

#[test]
fn diagnosis_names_the_allowlist() {
    let paths = vec!["src".to_string(), "app".to_string()];
    let commands = vec!["npm ci".to_string()];
    assert_eq!(
        VibeError::PathRejected("lib/x".into()).diagnosis(&paths, &commands),
        "safety violation: path rejected: lib/x (allowlist: src, app)"
    );
    assert_eq!(
        VibeError::CommandRejected("rm".into()).diagnosis(&paths, &commands),
        "safety violation: command not allowed: rm (allowlist: npm ci)"
    );
    assert_eq!(
        VibeError::CommandRejected("rm".into()).diagnosis(&paths, &vec![]),
        "safety violation: command not allowed: rm (allowlist: )"
    );
    assert_eq!(
        VibeError::TimedOut("npm ci".into()).diagnosis(&paths, &commands),
        "apply failed: command timed out: npm ci"
    );
}

#[test]
fn request_parts_are_built_from_the_policy() {
    let commands = vec!["npm ci".to_string()];
    let paths = vec!["src".to_string()];
    let l = Limits::new(3, 100, &commands);
    assert_eq!((l.max_actions, l.max_patch_bytes, l.allowed_commands), (3, 100, commands.clone()));
    let s = Safety::new(&paths, &commands);
    assert_eq!((s.path_allowlist, s.command_allowlist), (paths, commands));
    let cut = FileBlob::snapshot("src/a.ts", 10, 4, "abcd".into());
    assert_eq!((cut.path.as_str(), cut.bytes, cut.truncated, cut.content.as_str()), ("src/a.ts", 10, true, "abcd"));
    assert_eq!(cut.hash, None);
    let whole = FileBlob::snapshot("src/a.ts", 4, 4, "abcd".into());
    assert!(!whole.truncated);
}

#[test]
fn a_snapshot_shows_the_file_up_to_the_cap() {
    assert_eq!(shown_len(10, 4), 4);
    assert_eq!(shown_len(4, 4), 4);
    assert_eq!(shown_len(3, 4), 3);
    assert_eq!(shown_len(0, 0), 0);
    assert_eq!(shown_len(5, 0), 0);
}
