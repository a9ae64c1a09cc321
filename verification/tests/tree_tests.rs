use jaime::tree::Action;
use jaime::tree::Config;
use jaime::tree::Entry;
use jaime::tree::find_label;
use jaime::tree::join_labels;
use jaime::tree::select_candidates;

fn command(description: Option<&str>, template: &str) -> Action {
    Action::Command {
        description: description.map(|s| s.to_string()),
        command: template.to_string(),
        widgets: Vec::new(),
    }
}

fn entry(label: &str, action: Action) -> Entry {
    Entry { label: label.to_string(), action }
}

#[test]
fn candidates_keep_order_and_append_descriptions() {
    let options = vec![
        entry("A", command(Some("desc1"), "x")),
        entry("B", command(None, "y")),
    ];
    assert_eq!(select_candidates(&options), vec!["A: desc1", "B"]);
}

#[test]
fn empty_description_gets_no_suffix() {
    let options = vec![entry("A", command(Some(""), "x"))];
    assert_eq!(select_candidates(&options), vec!["A"]);
}

#[test]
fn select_child_description_is_used() {
    let options = vec![entry(
        "menu",
        Action::Select { description: Some("sub".to_string()), options: Vec::new() },
    )];
    assert_eq!(select_candidates(&options), vec!["menu: sub"]);
}

#[test]
fn labels_join_with_comma_space() {
    let options = vec![
        entry("build", command(None, "x")),
        entry("test", command(None, "y")),
    ];
    assert_eq!(join_labels(&options), "build, test");
}

#[test]
fn single_label_joins_bare() {
    let options = vec![entry("only", command(None, "x"))];
    assert_eq!(join_labels(&options), "only");
}

#[test]
fn find_label_is_first_exact_match() {
    let options = vec![
        entry("build", command(None, "x")),
        entry("test", command(None, "y")),
    ];
    assert_eq!(find_label(&options, "test"), Some(1));
    assert_eq!(find_label(&options, "deploy"), None);
    assert_eq!(find_label(&options, "buil"), None);
}

#[test]
fn config_root_is_a_select() {
    let config = Config {
        options: vec![entry("a", command(None, "x"))],
        shell: None,
        description: Some("top".to_string()),
    };
    match config.into_action() {
        Action::Select { description, options } => {
            assert_eq!(description, Some("top".to_string()));
            assert_eq!(options.len(), 1);
            assert_eq!(options[0].label, "a");
        },
        Action::Command { .. } => panic!("root must be a menu"),
    }
}
