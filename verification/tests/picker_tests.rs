use jaime::picker::picker_options;
use jaime::shell::effective_shell;
use jaime::shell::shell_invocation;

const DEFAULT_THEME: &str = "matched:108,matched_bg:0,current:254,current_bg:236,current_match:151,current_match_bg:236,spinner:148,info:144,prompt:110,cursor:161,selected:168,header:109,border:59";

#[test]
fn absent_option_string_gives_defaults() {
    let opts = picker_options(None);
    assert_eq!(opts.height, "50%");
    assert_eq!(opts.margin, "0%");
    assert_eq!(opts.layout, "default");
    assert_eq!(opts.color, DEFAULT_THEME);
    assert!(opts.bind.is_empty());
    assert!(!opts.reverse);
    assert!(!opts.tac);
    assert!(!opts.no_sort);
    assert!(!opts.inline_info);
}

#[test]
fn separate_value_token_is_taken() {
    let opts = picker_options(Some("--height 75% --reverse"));
    assert_eq!(opts.height, "75%");
    assert!(opts.reverse);
    assert_eq!(opts.margin, "0%");
}

#[test]
fn inline_value_token_is_taken_whole() {
    let opts = picker_options(Some("--height=75%"));
    assert_eq!(opts.height, "--height=75%");
}

#[test]
fn quoted_tokens_are_lexed() {
    let opts = picker_options(Some("--margin '5%' --layout reverse-list"));
    assert_eq!(opts.margin, "5%");
    assert_eq!(opts.layout, "reverse-list");
}

#[test]
fn erroneous_option_string_gives_defaults() {
    let opts = picker_options(Some("--height 'unclosed"));
    assert_eq!(opts.height, "50%");
}

#[test]
fn bare_flag_at_the_end_falls_back() {
    let opts = picker_options(Some("--margin"));
    assert_eq!(opts.margin, "0%");
}

#[test]
fn bind_tokens_are_collected_in_order() {
    let opts = picker_options(Some("--bind=a:b --height 10% --bind=c:d"));
    assert_eq!(opts.bind, vec!["--bind=a:b", "--bind=c:d"]);
}

#[test]
fn toggles_are_detected() {
    let opts = picker_options(Some("--tac --no-sort --inline-info"));
    assert!(opts.tac);
    assert!(opts.no_sort);
    assert!(opts.inline_info);
    assert!(!opts.reverse);
}

#[test]
fn color_with_cursor_placeholder_is_skipped() {
    let opts = picker_options(Some("--color={}x --tac"));
    // the only color mention carries a cursor placeholder, so it is no
    // theme of its own; the bare-mention fallback takes the next token
    assert_eq!(opts.color, "--tac");
}

#[test]
fn color_value_is_taken() {
    let opts = picker_options(Some("--color=light"));
    assert_eq!(opts.color, "--color=light");
}

#[test]
fn zsh_gets_strict_mode_flags() {
    let argv = shell_invocation("zsh", "ls -l");
    assert_eq!(argv, vec!["--shwordsplit", "--no-unset", "--errexit", "-c", "ls -l"]);
}

#[test]
fn bash_gets_strict_mode_flags() {
    let argv = shell_invocation("bash", "pwd");
    assert_eq!(argv, vec!["-e", "-u", "-c", "pwd"]);
}

#[test]
fn unknown_shell_gets_no_extra_flags() {
    let argv = shell_invocation("fish", "pwd");
    assert_eq!(argv, vec!["-c", "pwd"]);
}

#[test]
fn shell_choice_prefers_configuration() {
    let configured = Some("zsh".to_string());
    let env = Some("bash".to_string());
    assert_eq!(effective_shell(&configured, &env), "zsh");
    assert_eq!(effective_shell(&None, &env), "bash");
    assert_eq!(effective_shell(&None, &None), "sh");
}
