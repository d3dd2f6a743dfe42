use symphony_rust::model::{BlockerRef, Issue, Timestamp};
use symphony_rust::prompt::{prompt_context, prompt_source, render_prompt, PromptError};
use symphony_rust::template::is_plain_template;

fn issue() -> Issue {
    Issue {
        id: "id".to_string(),
        identifier: "ABC-1".to_string(),
        title: "Fix it".to_string(),
        description: None,
        priority: Some(1),
        state: "Todo".to_string(),
        branch_name: None,
        url: None,
        labels: vec!["bug".to_string()],
        blocked_by: Vec::new(),
        created_at: None,
        updated_at: None,
    }
}

#[test]
fn renders_issue_fields_strictly() {
    let rendered = render_prompt(
        "Work on {{ issue.identifier }}: {{ issue.title }}",
        &issue(),
        None,
    )
    .unwrap();

    assert_eq!(rendered, "Work on ABC-1: Fix it");
}

#[test]
fn fails_unknown_variables() {
    let err = render_prompt("{{ issue.nope }}", &issue(), None).unwrap_err();

    assert!(matches!(err, PromptError::Render(_)));
    assert!(err.to_text().starts_with("template_render_error reason="));
}

#[test]
fn broken_templates_are_refused() {
    let err = render_prompt("{{ issue title }}", &issue(), None).unwrap_err();
    assert!(matches!(err, PromptError::Parse(_)));
    assert!(err.to_text().starts_with("template_parse_error reason="));
}

#[test]
fn a_blank_template_gives_way_to_the_default() {
    assert_eq!(prompt_source(" \n"), "You are working on an issue from Linear.");
    assert_eq!(prompt_source(" x "), " x ");
    assert_eq!(
        render_prompt("\t", &issue(), None).unwrap(),
        "You are working on an issue from Linear."
    );
}

#[test]
fn templates_see_all_of_the_issue() {
    let mut full = issue();
    full.priority = Some(-2);
    full.blocked_by = vec![BlockerRef {
        id: Some("b".to_string()),
        identifier: None,
        state: Some("Done".to_string()),
    }];
    full.created_at = Some(Timestamp { seconds: 1_767_225_600, nanos: 500_000_000 });
    assert_eq!(
        prompt_context(&full, Some(3)).to_text(),
        r#"{"attempt":3,"issue":{"blocked_by":[{"id":"b","identifier":null,"state":"Done"}],"branch_name":null,"created_at":"2026-01-01T00:00:00.500Z","description":null,"id":"id","identifier":"ABC-1","labels":["bug"],"priority":-2,"state":"Todo","title":"Fix it","updated_at":null,"url":null}}"#
    );
    assert_eq!(
        render_prompt("{{ attempt }} {{ issue.labels }} {{ issue.description }}", &full, Some(3))
            .unwrap(),
        "3 [\"bug\"] None"
    );
}

/// Renders a template that is plain.
fn plainly(template: &str) -> String {
    assert!(is_plain_template(template), "{template}");
    render_prompt(template, &issue(), Some(2)).unwrap()
}

#[test]
fn plain_templates_are_rendered() {
    assert_eq!(plainly("{ {x} }} %} #}"), "{ {x} }} %} #}");
    assert_eq!(plainly("a {# not {{ this }} #}b"), "a b");
    assert_eq!(plainly("a {{- ' b ' -}} c"), "a b c");
    assert_eq!(plainly("{{ issue.title | upper }}"), "FIX IT");
    assert_eq!(plainly("{{ issue.title|lower|capitalize }}"), "Fix it");
    assert_eq!(plainly("{{ issue.labels | join(\", \") }}"), "bug");
    assert_eq!(plainly("{{ issue.labels | first }} {{ issue.labels|length }}"), "bug 1");
    assert_eq!(plainly("{{ issue.url or 'no url' }}"), "no url");
    assert_eq!(plainly("{{ issue.nothing | default('-') }}"), "-");
    assert_eq!(
        plainly("{% if attempt %}again{% else %}first{% endif %}"),
        "again"
    );
    assert_eq!(
        plainly("{% if issue.state == \"Todo\" and not issue.branch_name %}new{% endif %}"),
        "new"
    );
    assert_eq!(
        plainly("{% for label in issue.labels %}- {{ label }}{{ loop.index }}{% endfor %}"),
        "- bug1"
    );
    assert_eq!(plainly("{{ 'bug' in issue.labels }}"), "True");
    assert_eq!(plainly("{{ issue.identifier ~ ': ' ~ issue.title }}"), "ABC-1: Fix it");
    assert_eq!(plainly("{% if attempt > 1 and attempt <= 999999999 %}again{% endif %}"), "again");
    assert_eq!(
        plainly("{% if attempt is none %}a{% elif issue.nope is not defined %}b{% endif %}"),
        "b"
    );
}

#[test]
fn the_template_of_the_example_is_plain() {
    let template = "You are working on Linear issue {{ issue.identifier }}: {{ issue.title }}.\n\nDescription:\n{{ issue.description }}\n\nLabels: {{ issue.labels }}\n\nFollow the repository workflow.";
    assert_eq!(
        plainly(template),
        "You are working on Linear issue ABC-1: Fix it.\n\nDescription:\nNone\n\nLabels: [\"bug\"]\n\nFollow the repository workflow."
    );
}

#[test]
fn plain_templates_may_be_wrong() {
    for template in ["{{ issue.nope }}", "{{ nope }}", "{% for x in attempt %}{% endfor %}"] {
        assert!(is_plain_template(template), "{template}");
        let err = render_prompt(template, &issue(), Some(2)).unwrap_err();
        assert!(matches!(err, PromptError::Render(_)), "{template}");
    }
    for template in ["{{ }}", "{{ issue. }}", "{% if attempt %}", "{% if attempt %}{% endfor %}"] {
        assert!(is_plain_template(template), "{template}");
        let err = render_prompt(template, &issue(), Some(2)).unwrap_err();
        assert!(matches!(err, PromptError::Parse(_)), "{template}");
    }
}

#[test]
fn other_templates_are_not_plain() {
    for template in [
        "{{ issue.title[::-1] }}",
        "{{ issue.labels[0] }}",
        "{{ range(3) }}",
        "{{ range }}",
        "{{ 'a' * 3 }}",
        "{{ attempt + 1 }}",
        "{{ 1234567890 }}",
        "{{ 1.5 }}",
        "{{ 1e5 }}",
        "{{ issue.labels.0 }}",
        "{{ issue is mapping }}",
        "{{ issue is defined.x }}",
        "{{ issue is }}",
        "{{ '%65536d' | format(1) }}",
        "{{ issue.title | indent }}",
        "{{ issue.labels | sort }}",
        "{{ issue.title | upper.lower }}",
        "{{ issue.title | join('a') | join('b') }}",
        "{{ issue.title | join(issue.state) }}",
        "{{ issue.title | default('a', true) }}",
        "{{ 'a\\n' }}",
        "{{ '{' }}",
        "{{ issue",
        "{# no end",
        "{% set x = issue %}",
        "{% raw %}x{% endraw %}",
        "{% endif %}",
        "{% %}",
        "{% for x in issue.labels recursive %}{% endfor %}",
        "{% for x in issue.labels %}{% for y in issue.labels %}{% endfor %}{% endfor %}",
    ] {
        assert!(!is_plain_template(template), "{template}");
    }
    let long = format!("{{{{ {} }}}}", "a".repeat(300));
    assert!(!is_plain_template(&long));
    let deep = "{% if attempt %}".repeat(17) + &"{% endif %}".repeat(17);
    assert!(!is_plain_template(&deep));
    let others = "{% if attempt %}".to_string() + &"{% elif attempt %}".repeat(33) + "{% endif %}";
    assert!(!is_plain_template(&others));
    let less = "{% if attempt %}".repeat(16) + "x" + &"{% endif %}".repeat(16);
    assert_eq!(plainly(&less), "x");
}
