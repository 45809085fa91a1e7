use aghub_core::models::Skill;
use aghub_core::skill_doc::{format_skill, frontmatter_fields, is_modeled_key, relink_shortfall};

fn pairs(v: &[(&str, &str)]) -> Vec<(String, String)> {
    v.iter().map(|(a, b)| (a.to_string(), b.to_string())).collect()
}

#[test]
fn only_the_modeled_keys_belong_to_the_model() {
    for key in ["name", "description", "author", "version", "allowed-tools"] {
        assert!(is_modeled_key(key));
    }
    for key in ["license", "compatibility", "Name", "tools", ""] {
        assert!(!is_modeled_key(key));
    }
}

#[test]
fn a_bare_skill_writes_its_name_and_an_empty_description() {
    let skill = Skill::new("demo");
    assert_eq!(frontmatter_fields(&skill), pairs(&[("name", "demo"), ("description", "")]));
}

#[test]
fn every_set_field_is_written_and_the_description_on_one_line() {
    let mut skill = Skill::new("demo");
    skill.description = Some("first\nsecond\n".to_string());
    skill.author = Some("true".to_string());
    skill.version = Some("1.2".to_string());
    skill.tools = vec!["Read".to_string(), "Bash".to_string()];
    assert_eq!(
        frontmatter_fields(&skill),
        pairs(&[
            ("name", "demo"),
            ("description", "first second "),
            ("author", "true"),
            ("version", "1.2"),
            ("allowed-tools", "Read,Bash"),
        ])
    );
}

#[test]
fn the_body_is_the_skills_own_then_the_existing_then_a_heading() {
    let mut skill = Skill::new("demo");
    assert_eq!(format_skill("name: demo\n", &skill, None), "---\nname: demo\n---\n\n# demo\n\n");
    assert_eq!(format_skill("name: demo\n", &skill, Some("old body\n")), "---\nname: demo\n---\nold body\n");
    skill.content = Some("new body\n".to_string());
    assert_eq!(format_skill("name: demo\n", &skill, Some("old body\n")), "---\nname: demo\n---\nnew body\n");
}

#[test]
fn a_clean_relink_has_no_shortfall() {
    assert_eq!(relink_shortfall(&vec![], &vec![]), None);
}

#[test]
fn a_shortfall_counts_and_names_every_blocked_referrer() {
    let conflicts = vec!["/a/skills/demo".to_string()];
    let failed = pairs(&[("/b/skills/demo", "permission denied"), ("/c/skills/demo", "busy")]);
    assert_eq!(
        relink_shortfall(&conflicts, &failed).unwrap(),
        "could not re-point 3 skill referrer(s) at the renamed master: /a/skills/demo (occupied), \
         /b/skills/demo (permission denied), /c/skills/demo (busy)"
    );
    let many: Vec<String> = (0..12).map(|i| format!("/d{i}")).collect();
    assert!(relink_shortfall(&many, &vec![]).unwrap().starts_with("could not re-point 12 skill referrer(s)"));
}

/// The skill's frontmatter as YAML, the way a writer serializes it.
fn yaml_of(skill: &Skill) -> String {
    let map: std::collections::BTreeMap<String, serde_yaml::Value> =
        frontmatter_fields(skill).into_iter().map(|(k, v)| (k, serde_yaml::Value::String(v))).collect();
    serde_yaml::to_string(&map).unwrap()
}

fn reparsed(output: &str) -> std::collections::BTreeMap<String, String> {
    serde_yaml::from_str(output.trim_start_matches("---\n").split("---\n").next().unwrap())
        .expect("Should produce valid YAML")
}

#[test]
fn test_format_skill_preserves_body() {
    let mut skill = Skill::new("test-skill");
    skill.description = Some("A test".to_string());
    let body = "\n# Original Title\n\nInstruction content.\n";
    let output = format_skill(&yaml_of(&skill), &skill, Some(body));
    assert!(output.contains("# Original Title"));
    assert!(output.contains("Instruction content."));
    assert!(output.starts_with("---\n"));
    assert!(output.contains("---\n\n# Original Title"));
}

#[test]
fn test_format_skill_generates_placeholder_without_body() {
    let skill = Skill::new("test-skill");
    let output = format_skill(&yaml_of(&skill), &skill, None);
    assert!(output.contains("# test-skill"));
}

#[test]
fn test_format_skill_quotes_colon_in_description() {
    let mut skill = Skill::new("test");
    skill.description = Some("Source: https://example.com".to_string());
    let output = format_skill(&yaml_of(&skill), &skill, None);
    assert_eq!(reparsed(&output)["description"], "Source: https://example.com");
}

#[test]
fn test_format_skill_quotes_numeric_values() {
    let mut skill = Skill::new("test");
    skill.version = Some("123".to_string());
    skill.author = Some("true".to_string());
    let output = format_skill(&yaml_of(&skill), &skill, None);
    let map = reparsed(&output);
    assert_eq!(map["version"], "123");
    assert_eq!(map["author"], "true");
}
