use std::path::Path;

use symphony_rust::workflow::{
    load_workflow, split_front_matter, workflow_of, PolicySettings, Split, WorkflowError,
};
use symphony_rust::yaml::Yaml;

#[test]
fn parses_optional_front_matter() {
    let path = Path::new("/srv/WORKFLOW.md");

    let workflow =
        load_workflow(path, Some("---\ntracker:\n  kind: linear\n---\nHello")).unwrap();

    assert_eq!(workflow.prompt_template, "Hello");
    assert!(workflow.config.get("tracker").is_some());
}

#[test]
fn rejects_non_map_front_matter() {
    let path = Path::new("/srv/WORKFLOW.md");

    assert!(matches!(
        load_workflow(path, Some("---\n- nope\n---\nHello")),
        Err(WorkflowError::FrontMatterNotMap(_))
    ));
}

#[test]
fn a_file_without_front_matter_is_all_prompt() {
    let path = Path::new("W.md");
    let workflow = load_workflow(path, Some("  Do it\r\n---\n ")).unwrap();
    assert_eq!(workflow.prompt_template, "Do it\r\n---");
    assert!(matches!(workflow.config, Yaml::Mapping(ref entries) if entries.is_empty()));
    let workflow = load_workflow(path, Some("----\nx\n---\n")).unwrap();
    assert_eq!(workflow.prompt_template, "----\nx\n---");
    assert_eq!(load_workflow(path, Some("")).unwrap().prompt_template, "");
}

#[test]
fn fences_may_have_trailing_space() {
    match split_front_matter("--- \t\r\na: 1\r\n---  \nb\n---\nc") {
        Split::Fenced { yaml, body } => {
            assert_eq!(yaml, "a: 1\n");
            assert_eq!(body, "b\n---\nc\n");
        }
        _ => panic!("no front matter"),
    }
    assert!(matches!(split_front_matter("---\na: 1\n"), Split::Unterminated));
    assert!(matches!(split_front_matter("a\n---\n---\n"), Split::Absent));
}

#[test]
fn workflow_errors_have_messages() {
    let path = Path::new("/w/W.md");
    assert_eq!(
        load_workflow(path, None).unwrap_err().to_text(),
        "missing_workflow_file path=/w/W.md"
    );
    assert_eq!(
        load_workflow(path, Some("---\na")).unwrap_err().to_text(),
        "workflow_parse_error path=/w/W.md reason=unterminated YAML front matter"
    );
    assert_eq!(
        load_workflow(path, Some("---\n1\n---\n")).unwrap_err().to_text(),
        "workflow_front_matter_not_a_map path=/w/W.md"
    );
    let e = load_workflow(path, Some("---\na: [\n---\n")).unwrap_err();
    assert!(matches!(e, WorkflowError::ParseError { .. }));
    assert!(e.to_text().len() > "workflow_parse_error path=/w/W.md reason=".len());
}

#[test]
fn tagged_front_matter_counts_as_what_it_holds() {
    let policies =
        PolicySettings { approval_policy: None, thread_sandbox: None, turn_sandbox_policy: None };
    let inner = Yaml::Mapping(vec![(Yaml::Str("a".to_string()), Yaml::NegInt(-1))]);
    let tagged = Yaml::Tagged("!x".to_string(), Box::new(inner));
    let workflow = workflow_of(Path::new("W.md"), tagged, policies, " p ").unwrap();
    assert_eq!(workflow.prompt_template, "p");
    assert_eq!(workflow.config.get("a").unwrap().as_i64(), Some(-1));

    let workflow = load_workflow(Path::new("W.md"), Some("---\n!x\na: !y b\n---\n")).unwrap();
    assert_eq!(workflow.config.get("a").unwrap().as_str(), Some("b"));
}

#[test]
fn yaml_values_are_told_apart() {
    let text = "---\na: null\nb: true\nc: 18446744073709551615\nd: -3\ne: 1.5\nf: [x]\ng: {h: i}\n---\n";
    let workflow = load_workflow(Path::new("W.md"), Some(text)).unwrap();
    let config = &workflow.config;
    assert!(matches!(config.get("a"), Some(Yaml::Null)));
    assert!(matches!(config.get("b"), Some(Yaml::Bool(true))));
    assert!(matches!(config.get("c"), Some(Yaml::PosInt(u64::MAX))));
    assert_eq!(config.get("c").unwrap().as_i64(), None);
    assert_eq!(config.get("d").unwrap().as_i64(), Some(-3));
    assert!(matches!(config.get("e"), Some(Yaml::Float(_))));
    assert_eq!(config.get("f").unwrap().as_sequence().unwrap().len(), 1);
    assert_eq!(config.get("g").unwrap().get("h").unwrap().as_str(), Some("i"));
    assert!(config.get("z").is_none());
}
