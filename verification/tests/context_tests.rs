use vibe_codegen::context::embeddings::{chunk_from, fields_in, parse_chunks, RawChunk};
use vibe_codegen::prompt::{
    file_list, step_list, system_prompt_codegen, system_prompt_plan, system_prompt_plan_strict,
    user_prompt_codegen, user_prompt_plan, ARCHITECTURE_POLICY, CODEGEN_SYSTEM_OPENING,
    CODEGEN_USER_CLOSING, CONVENTIONS, PLAN_SYSTEM_OPENING, PLAN_SYSTEM_RULES,
    PLAN_USER_CLOSING, PROVIDER_REQUIREMENTS, STRICT_SYSTEM_OPENING,
};
use vibe_codegen::wire::{Plan, Step};

#[test]
fn chunks_are_read_line_by_line() {
    let lines = [
        "{\"id\":\"1\",\"path\":\"src\\\\app\\\\page.tsx\",\"start\":3,\"end\":9,\"text\":\"hello\",\"lang\":\"tsx\",\"sha1\":\"abc\"}\n",
        "\n",
        "   \n",
        "not json\n",
        "{\"path\":\"src/b.ts\",\"text\":\"\"}\r\n",
        "{\"path\":\"\",\"text\":\"x\"}\n",
        "{\"text\":\"only text\"}\n",
        "[1, 2]\n",
        "\"a string\"\n",
        "{\"path\":\"src/c.ts\",\"text\":\"bye\",\"start\":-1,\"end\":2.5,\"id\":7}",
    ];
    let content = lines.join("");
    let chunks = parse_chunks(&content);
    assert_eq!(chunks.len(), 2);
    assert_eq!(chunks[0].id, "1");
    assert_eq!(chunks[0].path, "src/app/page.tsx");
    assert_eq!((chunks[0].start, chunks[0].end), (Some(3), Some(9)));
    assert_eq!(chunks[0].text, "hello");
    assert_eq!(chunks[0].lang.as_deref(), Some("tsx"));
    assert_eq!(chunks[0].sha1.as_deref(), Some("abc"));
    assert_eq!(chunks[1].id, "");
    assert_eq!(chunks[1].path, "src/c.ts");
    assert_eq!((chunks[1].start, chunks[1].end), (None, None));
    assert_eq!(chunks[1].text, "bye");
    assert_eq!(chunks[1].lang, None);
    assert!(parse_chunks("").is_empty());
}

#[test]
fn a_chunk_needs_a_path_and_a_text() {
    let raw = |path: Option<&str>, text: Option<&str>| RawChunk {
        id: None,
        path: path.map(|s| s.to_string()),
        start: Some(4),
        end: None,
        text: text.map(|s| s.to_string()),
        lang: None,
        sha1: Some("s".into()),
    };
    assert!(chunk_from(raw(None, Some("t"))).is_none());
    assert!(chunk_from(raw(Some("p"), None)).is_none());
    assert!(chunk_from(raw(Some(""), Some("t"))).is_none());
    assert!(chunk_from(raw(Some("p"), Some(""))).is_none());
    let c = chunk_from(raw(Some("a\\b"), Some("t"))).unwrap();
    assert_eq!((c.id.as_str(), c.path.as_str(), c.text.as_str()), ("", "a/b", "t"));
    assert_eq!((c.start, c.end, c.sha1.as_deref()), (Some(4), None, Some("s")));
}

#[test]
fn files_are_listed_for_a_prompt() {
    assert_eq!(file_list(&vec![]), "No preselected files were provided.");
    assert_eq!(file_list(&vec!["a.ts".to_string(), "b.ts".to_string()]), " - a.ts\n - b.ts\n");
}

#[test]
fn steps_are_listed_for_a_prompt() {
    let plan = Plan {
        summary: "s".into(),
        steps: vec![
            Step::Create { id: "1".into(), title: "make".into(), path: "a.ts".into(), language: None, content: None },
            Step::Update { id: "2".into(), title: "change".into(), path: "b.ts".into(), patch: None, content: None },
            Step::Delete { id: "3".into(), title: "drop".into(), path: "c.ts".into() },
            Step::Command { id: "4".into(), title: "install".into(), command: "npm i".into(), cwd: None },
            Step::Test { id: "5".into(), title: "try".into(), command: "npm test".into() },
        ],
    };
    assert_eq!(
        step_list(&plan),
        " - CREATE a.ts — make\n - UPDATE b.ts — change\n - DELETE c.ts — drop\n - COMMAND \"npm i\" — install\n - TEST \"npm test\" — try\n"
    );
    assert_eq!(step_list(&Plan::default()), "");
}

#[test]
fn system_prompts_hold_their_parts_in_order() {
    for (text, opening) in [
        (system_prompt_plan(), PLAN_SYSTEM_OPENING),
        (system_prompt_plan_strict(), STRICT_SYSTEM_OPENING),
        (system_prompt_codegen(), CODEGEN_SYSTEM_OPENING),
    ] {
        assert!(text.starts_with(opening));
        let policy = text.find(ARCHITECTURE_POLICY).unwrap();
        let requirements = text.find(PROVIDER_REQUIREMENTS).unwrap();
        assert_eq!(policy, opening.len());
        assert!(policy + ARCHITECTURE_POLICY.len() < requirements);
    }
    assert!(system_prompt_plan().starts_with("You are a senior software planner and code-change specifier.\n"));
    assert!(system_prompt_plan().contains("\n{\n  \"schema_version\": \"v1\",\n  \"kind\": \"plan\" | \"answer\",\n"));
    assert!(system_prompt_plan().ends_with(PLAN_SYSTEM_RULES));
    assert!(system_prompt_plan_strict().starts_with("STRICT MODE"));
    assert!(system_prompt_plan_strict().ends_with("Still no code."));
    assert!(system_prompt_codegen().ends_with(CONVENTIONS));
    assert_eq!(
        system_prompt_plan().len(),
        PLAN_SYSTEM_OPENING.len()
            + ARCHITECTURE_POLICY.len()
            + "\n\nProvider Requirements:\n".len()
            + PROVIDER_REQUIREMENTS.len()
            + PLAN_SYSTEM_RULES.len()
    );
}

#[test]
fn user_prompt_of_the_planning_phase() {
    let files = vec!["a.ts".to_string(), "b.ts".to_string()];
    let text = user_prompt_plan("add a page", &files);
    let head = format!("User intent:\nadd a page\n\nFiles of interest:\n - a.ts\n - b.ts\n\n{ARCHITECTURE_POLICY}\n\n{PROVIDER_REQUIREMENTS}\n\n{CONVENTIONS}");
    assert!(text.starts_with(&head));
    assert_eq!(text, format!("{head}{PLAN_USER_CLOSING}"));
    assert!(text.ends_with("(Plan only; still no code.)"));
    let none = user_prompt_plan("x", &[]);
    assert!(none.starts_with("User intent:\nx\n\nFiles of interest:\nNo preselected files were provided.\nArchitecture & Scope Policy:"));
}

#[test]
fn user_prompt_of_the_code_phase() {
    let plan = Plan {
        summary: "mode=augment".into(),
        steps: vec![Step::Delete { id: "3".into(), title: "drop".into(), path: "c.ts".into() }],
    };
    let files = vec!["a.ts".to_string()];
    let text = user_prompt_codegen("the job", &plan, &files, "SYS", "USR", None, "{\"steps\": []}");
    let head = format!(
        "Original user task:\nthe job\n\nApproved plan summary:\nmode=augment\n\nApproved steps:\n - DELETE c.ts — drop\n\n\nFiles of interest:\n - a.ts\n\n{ARCHITECTURE_POLICY}\n\nPrior PLAN instructions (for continuity):\n[SYSTEM]\nSYS\n\n[USER]\nUSR\n\n[DEVELOPER]\n(none)\n\n{PROVIDER_REQUIREMENTS}\n\n{CONVENTIONS}"
    );
    assert_eq!(text, format!("{head}{CODEGEN_USER_CLOSING}{{\"steps\": []}}"));
    assert!(text.contains("set `darkMode` ≠ \"class\"") || text.contains("`darkMode` ≠ \"class\""));
    let with_dev = user_prompt_codegen("the job", &plan, &files, "SYS", "USR", Some("DEV"), "{}");
    assert!(with_dev.contains("\n\n[DEVELOPER]\nDEV\n\n"));
    assert!(with_dev.ends_with("Approved PLAN (JSON copy for reference):\n{}"));
}

#[test]
fn fields_are_read_member_by_member() {
    let raw = fields_in("{\"id\":\"7\",\"path\":3,\"start\":12,\"end\":\"x\",\"text\":\"t\"}");
    assert_eq!(raw.id.as_deref(), Some("7"));
    assert_eq!(raw.path, None);
    assert_eq!((raw.start, raw.end), (Some(12), None));
    assert_eq!(raw.text.as_deref(), Some("t"));
    assert_eq!((raw.lang, raw.sha1), (None, None));
    let none = fields_in("not json");
    assert!(none.id.is_none() && none.path.is_none() && none.text.is_none() && none.start.is_none());
}
