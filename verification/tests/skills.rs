use gray_matter::engine::YAML;
use gray_matter::{Matter, Pod};

use oxydra::skills::{
    discover_skills, evaluate_activation, format_skills_prompt, is_skill_file, is_tool_ready,
    load_and_render_skills, parse_skill_file, render_skill, replace, ParsedSkill, RenderedSkill,
    Skill, SkillActivation, SkillLoadError, SkillMetadata, ToolAvailability, CHARS_PER_TOKEN,
    MAX_SKILL_TOKENS,
};
use oxydra::text_map::TextMap;

const BASIC_SKILL: &str = r#"---
name: test-skill
description: A test skill
activation: auto
requires:
  - shell_exec
env:
  - MY_URL
priority: 50
---

## Test Skill

Use `curl {{MY_URL}}/api` to do things.
"#;

const ALWAYS_SKILL: &str = r#"---
name: always-skill
description: Always active
activation: always
priority: 10
---

## Always Active

This is always injected.
"#;

const MANUAL_SKILL: &str = r#"---
name: manual-skill
description: Manually activated
activation: manual
priority: 20
---

## Manual Skill

This is never auto-injected.
"#;

const BROWSER_SKILL: &str = r#"---
name: browser-automation
description: Browser skill
activation: auto
requires:
  - shell_exec
env:
  - PINCHTAB_URL
priority: 50
---

Use curl {{PINCHTAB_URL}}/api.
"#;

fn texts(pod: Option<&Pod>) -> Vec<String> {
    match pod {
        Some(Pod::Array(items)) => {
            items.iter().map(|item| item.as_string().expect("item should be text")).collect()
        }
        _ => Vec::new(),
    }
}

fn read(text: &str) -> ParsedSkill {
    let parsed = Matter::<YAML>::new().parse::<Pod>(text).expect("front matter should parse");
    let metadata = parsed.data.and_then(|data| data.as_hashmap().ok()).map(|data| SkillMetadata {
        name: data["name"].as_string().expect("name should be text"),
        description: data["description"].as_string().expect("description should be text"),
        activation: match data.get("activation").and_then(|word| word.as_string().ok()).as_deref() {
            Some("always") => SkillActivation::Always,
            Some("manual") => SkillActivation::Manual,
            _ => SkillActivation::Auto,
        },
        requires: texts(data.get("requires")),
        env_vars: texts(data.get("env")),
        priority: match data.get("priority") {
            Some(number) => number.as_i64().expect("priority should be a number") as i32,
            None => 100,
        },
    });
    ParsedSkill { metadata, content: parsed.content }
}

fn skill_at(path: &str, text: &str) -> Skill {
    parse_skill_file(path, read(text)).expect("should parse")
}

fn skill(text: &str) -> Skill {
    skill_at("skills/s.md", text)
}

fn ready_availability() -> ToolAvailability {
    ToolAvailability { shell: true, browser: true }
}

fn unavailable_availability() -> ToolAvailability {
    ToolAvailability { shell: false, browser: false }
}

fn shell_only_availability() -> ToolAvailability {
    ToolAvailability { shell: true, browser: false }
}

fn env(entries: &[(&str, &str)]) -> TextMap<String> {
    let mut map = TextMap::new();
    for (name, value) in entries {
        map.insert((*name).to_owned(), (*value).to_owned());
    }
    map
}

#[test]
fn parse_skill_file_extracts_metadata_and_content() {
    let skill = skill_at("skills/test.md", BASIC_SKILL);
    assert_eq!(skill.metadata.name, "test-skill");
    assert_eq!(skill.metadata.description, "A test skill");
    assert_eq!(skill.metadata.activation, SkillActivation::Auto);
    assert_eq!(skill.metadata.requires, vec!["shell_exec"]);
    assert_eq!(skill.metadata.env_vars, vec!["MY_URL"]);
    assert_eq!(skill.metadata.priority, 50);
    assert!(skill.content.contains("curl {{MY_URL}}/api"));
    assert_eq!(skill.source_path, "skills/test.md");
}

#[test]
fn parse_skill_file_uses_defaults_for_optional_fields() {
    let skill = skill("---\nname: minimal\ndescription: Minimal skill\n---\n\nBody text.\n");
    assert_eq!(skill.metadata.activation, SkillActivation::Auto);
    assert!(skill.metadata.requires.is_empty());
    assert!(skill.metadata.env_vars.is_empty());
    assert_eq!(skill.metadata.priority, 100);
}

#[test]
fn parse_skill_file_rejects_missing_frontmatter() {
    let err = parse_skill_file("skills/nofm.md", read("# Just markdown\n\nNo frontmatter."))
        .unwrap_err();
    assert!(err.to_text().contains("missing YAML frontmatter"), "got: {err:?}");
    assert_eq!(
        err,
        SkillLoadError::Parse {
            path: "skills/nofm.md".to_owned(),
            message: "missing YAML frontmatter".to_owned(),
        }
    );
}

#[test]
fn parse_skill_file_enforces_token_cap() {
    let body = "x".repeat(MAX_SKILL_TOKENS * CHARS_PER_TOKEN + CHARS_PER_TOKEN);
    let content = format!("---\nname: big\ndescription: Too big\n---\n\n{body}");
    let err = parse_skill_file("skills/big.md", read(&content)).unwrap_err();
    assert!(err.to_text().contains("token cap"), "expected token cap error, got: {err:?}");
}

#[test]
fn parse_skill_file_allows_body_at_token_cap() {
    let body = "x".repeat(MAX_SKILL_TOKENS * CHARS_PER_TOKEN);
    let content = format!("---\nname: exact\ndescription: Exactly at cap\n---\n\n{body}");
    assert!(parse_skill_file("skills/exact.md", read(&content)).is_ok());
}

#[test]
fn the_token_cap_counts_characters() {
    let most = MAX_SKILL_TOKENS * CHARS_PER_TOKEN;
    let fits = format!("---\nname: big\ndescription: d\n---\n\n{}", "é".repeat(most));
    let taken = parse_skill_file("big.md", read(&fits)).expect("12000 characters fit");
    assert_eq!(taken.metadata.name, "big");

    let over = "é".repeat(most + CHARS_PER_TOKEN);
    let content = format!("---\nname: wide\ndescription: Wide\n---\n\n{over}");
    assert_eq!(
        parse_skill_file("w.md", read(&content)),
        Err(SkillLoadError::TokenCap { path: "w.md".to_owned(), estimated: 3001, max: 3000 })
    );
}

#[test]
fn discover_skills_finds_files_in_system_dir() {
    let skills = discover_skills(vec![skill(BASIC_SKILL)], vec![], vec![]);
    assert_eq!(skills.len(), 1);
    assert_eq!(skills[0].metadata.name, "test-skill");
}

#[test]
fn discover_skills_ignores_non_md_files() {
    assert!(!is_skill_file(true, "readme.txt"));
    assert!(!is_skill_file(true, "notes.json"));
    assert!(!is_skill_file(false, "folder.md"));
    assert!(!is_skill_file(true, ".md"));
    assert!(is_skill_file(true, "a.md"));
}

#[test]
fn discover_skills_workspace_overrides_system() {
    let ws_version = BASIC_SKILL.replace("A test skill", "Workspace override");
    let skills = discover_skills(vec![skill(BASIC_SKILL)], vec![], vec![skill(&ws_version)]);
    assert_eq!(skills.len(), 1);
    assert_eq!(skills[0].metadata.description, "Workspace override");
}

#[test]
fn discover_skills_workspace_overrides_user_overrides_system() {
    let skills = discover_skills(
        vec![skill(BASIC_SKILL)],
        vec![skill(&BASIC_SKILL.replace("A test skill", "User version"))],
        vec![skill(&BASIC_SKILL.replace("A test skill", "Workspace version"))],
    );
    assert_eq!(skills.len(), 1);
    assert_eq!(skills[0].metadata.description, "Workspace version");
}

#[test]
fn discover_skills_sorts_by_priority() {
    let skills = discover_skills(vec![skill(BASIC_SKILL), skill(ALWAYS_SKILL)], vec![], vec![]);
    assert_eq!(skills.len(), 2);
    assert_eq!(skills[0].metadata.name, "always-skill");
    assert_eq!(skills[1].metadata.name, "test-skill");
}

#[test]
fn evaluate_activation_always_skill_is_active_regardless() {
    let skills = discover_skills(vec![skill(ALWAYS_SKILL)], vec![], vec![]);
    let active = evaluate_activation(&skills, &unavailable_availability(), &env(&[]));
    assert_eq!(active.len(), 1);
    assert_eq!(active[0].metadata.name, "always-skill");
}

#[test]
fn evaluate_activation_manual_skill_is_never_auto_active() {
    let skills = discover_skills(vec![skill(MANUAL_SKILL)], vec![], vec![]);
    let active = evaluate_activation(&skills, &ready_availability(), &env(&[]));
    assert!(active.is_empty());
}

#[test]
fn evaluate_activation_auto_skill_activates_when_conditions_met() {
    let skills = discover_skills(vec![skill(BASIC_SKILL)], vec![], vec![]);
    let env = env(&[("MY_URL", "http://localhost:9867")]);
    let active = evaluate_activation(&skills, &ready_availability(), &env);
    assert_eq!(active.len(), 1);
}

#[test]
fn evaluate_activation_auto_skill_inactive_when_tool_not_ready() {
    let skills = discover_skills(vec![skill(BASIC_SKILL)], vec![], vec![]);
    let env = env(&[("MY_URL", "http://localhost:9867")]);
    let active = evaluate_activation(&skills, &unavailable_availability(), &env);
    assert!(active.is_empty());
}

#[test]
fn evaluate_activation_auto_skill_inactive_when_env_missing() {
    let skills = discover_skills(vec![skill(BASIC_SKILL)], vec![], vec![]);
    let active = evaluate_activation(&skills, &ready_availability(), &env(&[]));
    assert!(active.is_empty());
}

#[test]
fn evaluate_activation_does_not_activate_when_shell_registered_but_unavailable() {
    let skills = discover_skills(vec![skill(BASIC_SKILL)], vec![], vec![]);
    let env = env(&[("MY_URL", "http://localhost:9867")]);
    let active = evaluate_activation(&skills, &unavailable_availability(), &env);
    assert!(active.is_empty(), "skill should not activate when shell is unavailable");
}

#[test]
fn evaluate_activation_shell_ready_but_browser_required_and_unavailable() {
    let content = r#"---
name: browser-skill
description: Needs browser
activation: auto
requires:
  - browser
env: []
---

Browser content.
"#;
    let skills = discover_skills(vec![skill(content)], vec![], vec![]);
    let active = evaluate_activation(&skills, &shell_only_availability(), &env(&[]));
    assert!(active.is_empty());
    assert!(is_tool_ready("shell_exec", &shell_only_availability()));
    assert!(!is_tool_ready("browser", &shell_only_availability()));
}

#[test]
fn render_skill_substitutes_env_vars() {
    let skills = discover_skills(vec![skill(BASIC_SKILL)], vec![], vec![]);
    let env = env(&[("MY_URL", "http://localhost:9867")]);
    let rendered = render_skill(&skills[0], &env);
    assert!(rendered.content.contains("http://localhost:9867/api"));
    assert!(!rendered.content.contains("{{MY_URL}}"));
    assert_eq!(rendered.name, "test-skill");
    assert_eq!(rendered.priority, 50);
}

#[test]
fn render_skill_leaves_unknown_placeholders_intact() {
    let skills = discover_skills(vec![skill(BASIC_SKILL)], vec![], vec![]);
    let rendered = render_skill(&skills[0], &env(&[]));
    assert!(rendered.content.contains("{{MY_URL}}"));
}

#[test]
fn replacement_goes_from_left_to_right() {
    assert_eq!(replace("aaaa", "aa", "b"), "bb");
    assert_eq!(replace("aXbX", "X", "XX"), "aXXbXX");
    assert_eq!(replace("none", "X", "y"), "none");
}

#[test]
fn format_skills_prompt_empty_when_no_skills() {
    let result = format_skills_prompt(&vec![]);
    assert!(result.is_empty());
}

fn rendered(name: &str, content: &str, priority: i32) -> RenderedSkill {
    RenderedSkill { name: name.to_owned(), content: content.to_owned(), priority }
}

#[test]
fn format_skills_prompt_contains_header_and_content() {
    let result = format_skills_prompt(&vec![rendered("test", "## Test\n\nDo something.", 50)]);
    assert!(result.contains("## Active Skills"));
    assert!(result.contains("## Test"));
    assert!(result.contains("Do something."));
}

#[test]
fn format_skills_prompt_includes_multiple_skills() {
    let result = format_skills_prompt(&vec![
        rendered("a", "Skill A content", 10),
        rendered("b", "Skill B content", 50),
    ]);
    assert!(result.contains("Skill A content"));
    assert!(result.contains("Skill B content"));
}

#[test]
fn load_and_render_skills_end_to_end() {
    let env = env(&[("MY_URL", "http://localhost:9867")]);
    let result = load_and_render_skills(
        vec![skill(BASIC_SKILL), skill(ALWAYS_SKILL), skill(MANUAL_SKILL)],
        vec![],
        vec![],
        &ready_availability(),
        &env,
    );
    assert!(result.contains("Always Active"));
    assert!(result.contains("http://localhost:9867/api"));
    assert!(!result.contains("Manual Skill"));
}

#[test]
fn load_and_render_skills_returns_empty_when_no_skills_found() {
    let result =
        load_and_render_skills(vec![], vec![], vec![], &ready_availability(), &env(&[]));
    assert!(result.is_empty());
}

#[test]
fn parse_skill_file_supports_env_alias() {
    let skill =
        skill("---\nname: env-alias\ndescription: Uses env alias\nenv:\n  - FOO\n---\n\nBody.\n");
    assert_eq!(skill.metadata.env_vars, vec!["FOO"]);
}

#[test]
fn browser_skill_activates_when_shell_ready_and_pinchtab_url_set() {
    let skills = discover_skills(vec![skill(BROWSER_SKILL)], vec![], vec![]);
    let env = env(&[("PINCHTAB_URL", "http://127.0.0.1:9867")]);
    let active = evaluate_activation(&skills, &ready_availability(), &env);
    assert_eq!(active.len(), 1);
    assert_eq!(active[0].metadata.name, "browser-automation");
}

#[test]
fn browser_skill_inactive_when_pinchtab_url_missing() {
    let skills = discover_skills(vec![skill(BROWSER_SKILL)], vec![], vec![]);
    let active = evaluate_activation(&skills, &ready_availability(), &env(&[]));
    assert!(active.is_empty(), "browser skill should not activate without PINCHTAB_URL");
}

#[test]
fn browser_skill_inactive_when_shell_unavailable() {
    let skills = discover_skills(vec![skill(BROWSER_SKILL)], vec![], vec![]);
    let env = env(&[("PINCHTAB_URL", "http://127.0.0.1:9867")]);
    let active = evaluate_activation(&skills, &unavailable_availability(), &env);
    assert!(active.is_empty(), "browser skill should not activate when shell is unavailable");
}

#[test]
fn browser_skill_renders_pinchtab_url() {
    let content = BROWSER_SKILL
        .replace("Use curl {{PINCHTAB_URL}}/api.", "Navigate: `curl {{PINCHTAB_URL}}/navigate`");
    let skills = discover_skills(vec![skill(&content)], vec![], vec![]);
    let env = env(&[("PINCHTAB_URL", "http://127.0.0.1:9867")]);
    let rendered = render_skill(&skills[0], &env);
    assert!(
        rendered.content.contains("http://127.0.0.1:9867/navigate"),
        "PINCHTAB_URL should be substituted"
    );
    assert!(!rendered.content.contains("{{PINCHTAB_URL}}"), "placeholder should be replaced");
}

#[test]
fn discover_skills_finds_folder_based_skill() {
    let skills =
        discover_skills(vec![skill_at("skills/MySkill/SKILL.md", BASIC_SKILL)], vec![], vec![]);
    assert_eq!(skills.len(), 1);
    assert_eq!(skills[0].metadata.name, "test-skill");
    assert!(
        skills[0].source_path.contains("MySkill/SKILL.md"),
        "source_path should reference the SKILL.md inside the folder"
    );
}

#[test]
fn discover_skills_mixes_folder_and_bare_file_skills() {
    let skills = discover_skills(
        vec![
            skill_at("skills/FolderSkill/SKILL.md", ALWAYS_SKILL),
            skill_at("skills/bare.md", BASIC_SKILL),
        ],
        vec![],
        vec![],
    );
    assert_eq!(skills.len(), 2);
    let names: Vec<&str> = skills.iter().map(|s| s.metadata.name.as_str()).collect();
    assert!(names.contains(&"always-skill"));
    assert!(names.contains(&"test-skill"));
}

#[test]
fn discover_skills_folder_in_workspace_overrides_folder_in_system() {
    let ws_version = BASIC_SKILL.replace("A test skill", "Workspace folder override");
    let skills = discover_skills(
        vec![skill_at("sys/BrowserAutomation/SKILL.md", BASIC_SKILL)],
        vec![],
        vec![skill_at("ws/BrowserAutomation/SKILL.md", &ws_version)],
    );
    assert_eq!(skills.len(), 1);
    assert_eq!(skills[0].metadata.description, "Workspace folder override");
}

#[test]
fn discover_skills_folder_skill_overrides_bare_file_with_same_name() {
    let ws_version = BASIC_SKILL.replace("A test skill", "Folder wins");
    let skills = discover_skills(
        vec![skill_at("sys/test.md", BASIC_SKILL)],
        vec![],
        vec![skill_at("ws/TestSkill/SKILL.md", &ws_version)],
    );
    assert_eq!(skills.len(), 1);
    assert_eq!(skills[0].metadata.description, "Folder wins");
}
