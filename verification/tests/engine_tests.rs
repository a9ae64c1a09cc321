use jaime::engine::CANCEL_EXIT_CODE;
use jaime::engine::EngineError;
use jaime::engine::Outcome;
use jaime::engine::Request;
use jaime::engine::Session;
use jaime::engine::ShellFailure;
use jaime::engine::exit_code;
use jaime::tree::Action;
use jaime::tree::Config;
use jaime::tree::Entry;
use jaime::tree::Widget;

fn command_node(template: &str, widgets: Vec<Widget>) -> Action {
    Action::Command { description: None, command: template.to_string(), widgets: widgets }
}

fn from_command(template: &str, preview: Option<&str>) -> Widget {
    Widget::FromCommand {
        command: template.to_string(),
        preview: preview.map(|s| s.to_string()),
    }
}

fn entry(label: &str, action: Action) -> Entry {
    Entry { label: label.to_string(), action }
}

fn expect_pick(req: Request) -> (Vec<String>, Option<String>) {
    match req {
        Request::Pick { candidates, preview } => (candidates, preview),
        _ => panic!("expected a picker request"),
    }
}

fn expect_finished(req: Request) -> Outcome {
    match req {
        Request::Finished { outcome } => outcome,
        _ => panic!("expected the session to be over"),
    }
}

#[test]
fn end_to_end_preselected_deploy() {
    // a configuration with one option: deploy, echoing a picked value
    let config = Config {
        options: vec![entry(
            "deploy",
            command_node("echo {0}", vec![from_command("printf 'x\ny\n'", None)]),
        )],
        shell: None,
        description: None,
    };
    let session = Session::new(config.into_action(), Some("deploy".to_string()));
    let (session, req) = session.start(false);
    match req {
        Request::RunCaptured { command } => assert_eq!(command, "printf 'x\ny\n'"),
        _ => panic!("expected a captured run"),
    }
    let (session, req) = session.on_output(false, Ok("x\ny\n".to_string()));
    let (candidates, preview) = expect_pick(req);
    assert_eq!(candidates, vec!["x", "y"]);
    assert_eq!(preview, None);
    let (session, req) = session.on_picked(false, Some("y".to_string()));
    match req {
        Request::RunInteractive { command } => assert_eq!(command, "echo y"),
        _ => panic!("expected the final interactive run"),
    }
    let (_, req) = session.on_ran(false, true);
    let outcome = expect_finished(req);
    assert!(matches!(outcome, Outcome::Completed));
    assert_eq!(exit_code(&outcome), 0);
}

#[test]
fn free_text_and_widget_flow() {
    // step 0's own placeholder stays literal; both collected values land in
    // the final template
    let node = command_node(
        "run {0} {1}",
        vec![from_command("echo {0}", None), Widget::FreeText],
    );
    let session = Session::new(node, None);
    let (session, req) = session.start(false);
    match req {
        Request::RunCaptured { command } => assert_eq!(command, "echo {0}"),
        _ => panic!("expected a captured run"),
    }
    let (session, req) = session.on_output(false, Ok("foo\n".to_string()));
    let (candidates, _) = expect_pick(req);
    assert_eq!(candidates, vec!["foo"]);
    let (session, req) = session.on_picked(false, Some("foo".to_string()));
    assert!(matches!(req, Request::ReadLine));
    let (session, req) = session.on_line(false, Some("bar".to_string()));
    match req {
        Request::RunInteractive { command } => assert_eq!(command, "run foo bar"),
        _ => panic!("expected the final interactive run"),
    }
    let (_, req) = session.on_ran(false, true);
    assert!(matches!(expect_finished(req), Outcome::Completed));
}

#[test]
fn widget_cancel_ends_command_quietly() {
    let node = command_node("echo {0}", vec![from_command("ls", None)]);
    let session = Session::new(node, None);
    let (session, req) = session.start(false);
    assert!(matches!(req, Request::RunCaptured { .. }));
    let (session, req) = session.on_output(false, Ok("a\nb\n".to_string()));
    assert!(matches!(req, Request::Pick { .. }));
    let (_, req) = session.on_picked(false, None);
    let outcome = expect_finished(req);
    assert!(matches!(outcome, Outcome::Cancelled));
    assert_eq!(exit_code(&outcome), 0);
}

#[test]
fn select_cancel_ends_quietly() {
    let node = Action::Select {
        description: None,
        options: vec![entry("a", command_node("x", Vec::new()))],
    };
    let session = Session::new(node, None);
    let (session, req) = session.start(false);
    assert!(matches!(req, Request::Pick { .. }));
    let (_, req) = session.on_picked(false, None);
    assert!(matches!(expect_finished(req), Outcome::Cancelled));
}

#[test]
fn cancellation_flag_aborts_before_any_picker() {
    let node = Action::Select {
        description: None,
        options: vec![entry("a", command_node("x", Vec::new()))],
    };
    let session = Session::new(node, None);
    let (_, req) = session.start(true);
    let outcome = expect_finished(req);
    assert!(matches!(outcome, Outcome::Aborted));
    assert_eq!(exit_code(&outcome), CANCEL_EXIT_CODE);
    assert_ne!(exit_code(&outcome), 0);
}

#[test]
fn cancellation_flag_aborts_mid_command() {
    let node = command_node("echo {0}", vec![from_command("ls", None)]);
    let session = Session::new(node, None);
    let (session, _) = session.start(false);
    let (_, req) = session.on_output(true, Ok("a\n".to_string()));
    assert!(matches!(expect_finished(req), Outcome::Aborted));
}

#[test]
fn invalid_preselection_lists_labels() {
    let node = Action::Select {
        description: None,
        options: vec![
            entry("build", command_node("b", Vec::new())),
            entry("test", command_node("t", Vec::new())),
        ],
    };
    let session = Session::new(node, Some("deploy".to_string()));
    let (_, req) = session.start(false);
    let outcome = expect_finished(req);
    match outcome {
        Outcome::Failed { error: EngineError::InvalidPreselection { ref available } } => {
            assert_eq!(available, "build, test");
        },
        _ => panic!("expected the invalid-preselection failure"),
    }
    assert_ne!(exit_code(&outcome), 0);
}

#[test]
fn valid_preselection_skips_the_picker() {
    let node = Action::Select {
        description: None,
        options: vec![
            entry("build", command_node("make", Vec::new())),
            entry("test", command_node("make test", Vec::new())),
        ],
    };
    let session = Session::new(node, Some("test".to_string()));
    let (_, req) = session.start(false);
    match req {
        Request::RunInteractive { command } => assert_eq!(command, "make test"),
        _ => panic!("expected the preselected command to run at once"),
    }
}

#[test]
fn preselection_is_consumed_once() {
    // the preselected child is itself a menu: its picker must open rather
    // than the preselection applying again
    let inner = Action::Select {
        description: None,
        options: vec![entry("menu", command_node("x", Vec::new()))],
    };
    let node = Action::Select { description: None, options: vec![entry("menu", inner)] };
    let session = Session::new(node, Some("menu".to_string()));
    let (_, req) = session.start(false);
    let (candidates, _) = expect_pick(req);
    assert_eq!(candidates, vec!["menu"]);
}

#[test]
fn selection_with_description_suffix_finds_child() {
    let node = Action::Select {
        description: None,
        options: vec![entry(
            "A",
            Action::Command {
                description: Some("x: y".to_string()),
                command: "pwd".to_string(),
                widgets: Vec::new(),
            },
        )],
    };
    let session = Session::new(node, None);
    let (session, req) = session.start(false);
    let (candidates, _) = expect_pick(req);
    assert_eq!(candidates, vec!["A: x: y"]);
    let (_, req) = session.on_picked(false, Some("A: x: y".to_string()));
    match req {
        Request::RunInteractive { command } => assert_eq!(command, "pwd"),
        _ => panic!("expected the child command to run"),
    }
}

#[test]
fn unknown_selection_is_child_not_found() {
    let node = Action::Select {
        description: None,
        options: vec![entry("a", command_node("x", Vec::new()))],
    };
    let session = Session::new(node, None);
    let (session, _) = session.start(false);
    let (_, req) = session.on_picked(false, Some("nonsense".to_string()));
    let outcome = expect_finished(req);
    assert!(matches!(outcome, Outcome::Failed { error: EngineError::ChildNotFound }));
    assert_ne!(exit_code(&outcome), 0);
}

#[test]
fn aborted_prompt_fails_the_command() {
    let node = command_node("greet {0}", vec![Widget::FreeText]);
    let session = Session::new(node, None);
    let (session, req) = session.start(false);
    assert!(matches!(req, Request::ReadLine));
    let (_, req) = session.on_line(false, None);
    let outcome = expect_finished(req);
    assert!(matches!(outcome, Outcome::Failed { error: EngineError::InputAborted }));
}

#[test]
fn shell_failures_propagate() {
    let node = command_node("echo {0}", vec![from_command("ls", None)]);
    let session = Session::new(node, None);
    let (session, _) = session.start(false);
    let (_, req) = session.on_output(false, Err(ShellFailure::Spawn));
    assert!(matches!(
        expect_finished(req),
        Outcome::Failed { error: EngineError::ShellSpawnFailure }
    ));

    let node = command_node("echo {0}", vec![from_command("ls", None)]);
    let session = Session::new(node, None);
    let (session, _) = session.start(false);
    let (_, req) = session.on_output(false, Err(ShellFailure::Decode));
    assert!(matches!(
        expect_finished(req),
        Outcome::Failed { error: EngineError::ShellCaptureDecodeFailure }
    ));
}

#[test]
fn final_spawn_failure_is_reported() {
    let node = command_node("doesnotexist", Vec::new());
    let session = Session::new(node, None);
    let (session, req) = session.start(false);
    assert!(matches!(req, Request::RunInteractive { .. }));
    let (_, req) = session.on_ran(false, false);
    assert!(matches!(
        expect_finished(req),
        Outcome::Failed { error: EngineError::ShellSpawnFailure }
    ));
}

#[test]
fn widget_preview_is_handed_to_the_picker() {
    let node = command_node("echo {0}", vec![from_command("ls", Some("cat {}"))]);
    let session = Session::new(node, None);
    let (session, _) = session.start(false);
    let (_, req) = session.on_output(false, Ok("a\n".to_string()));
    let (_, preview) = expect_pick(req);
    assert_eq!(preview, Some("cat {}".to_string()));
}

#[test]
fn preselection_matches_labels_exactly_without_splitting() {
    // a pre-supplied selection is checked against the raw labels: it
    // carries no display suffix, so no colon split applies to it
    let node = Action::Select {
        description: None,
        options: vec![entry("a:b", command_node("pwd", Vec::new()))],
    };
    let session = Session::new(node, Some("a:b".to_string()));
    let (_, req) = session.start(false);
    match req {
        Request::RunInteractive { command } => assert_eq!(command, "pwd"),
        _ => panic!("expected the preselected command to run"),
    }
}

#[test]
fn widget_template_sees_earlier_arguments() {
    let node = command_node(
        "final {1}",
        vec![Widget::FreeText, from_command("echo {0} {1}", None)],
    );
    let session = Session::new(node, None);
    let (session, req) = session.start(false);
    assert!(matches!(req, Request::ReadLine));
    let (session, req) = session.on_line(false, Some("foo".to_string()));
    match req {
        // step 1 substitutes only index 0; its own index stays literal
        Request::RunCaptured { command } => assert_eq!(command, "echo foo {1}"),
        _ => panic!("expected a captured run"),
    }
    let (session, req) = session.on_output(false, Ok("pick\n".to_string()));
    assert!(matches!(req, Request::Pick { .. }));
    let (_, req) = session.on_picked(false, Some("pick".to_string()));
    match req {
        Request::RunInteractive { command } => assert_eq!(command, "final pick"),
        _ => panic!("expected the final interactive run"),
    }
}

#[test]
fn empty_output_gives_empty_candidates() {
    let node = command_node("echo {0}", vec![from_command("true", None)]);
    let session = Session::new(node, None);
    let (session, _) = session.start(false);
    let (_, req) = session.on_output(false, Ok(String::new()));
    let (candidates, _) = expect_pick(req);
    assert_eq!(candidates, Vec::<String>::new());
}
