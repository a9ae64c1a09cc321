use jaime::template::substitute;

fn subst(t: &str, args: &[&str]) -> String {
    let v: Vec<String> = args.iter().map(|s| s.to_string()).collect();
    substitute(t, &v)
}

#[test]
fn final_template_two_args() {
    assert_eq!(subst("run {0} {1}", &["foo", "bar"]), "run foo bar");
}

#[test]
fn higher_indices_stay() {
    assert_eq!(subst("run {0} {1} {2}", &["foo", "bar"]), "run foo bar {2}");
}

#[test]
fn no_args_is_identity() {
    assert_eq!(subst("echo {0}", &[]), "echo {0}");
}

#[test]
fn leading_zero_is_no_placeholder() {
    assert_eq!(subst("{00}", &["x"]), "{00}");
    assert_eq!(subst("{01}", &["x", "y"]), "{01}");
}

#[test]
fn zero_alone_is_a_placeholder() {
    assert_eq!(subst("{0}", &["x"]), "x");
}

#[test]
fn empty_braces_stay() {
    assert_eq!(subst("a {} b", &["x"]), "a {} b");
}

#[test]
fn nested_brace_prefix() {
    assert_eq!(subst("{{0}", &["a"]), "{a");
}

#[test]
fn unclosed_placeholder_stays() {
    assert_eq!(subst("echo {0", &["a"]), "echo {0");
}

#[test]
fn huge_index_stays() {
    assert_eq!(
        subst("{99999999999999999999999999}", &["a"]),
        "{99999999999999999999999999}"
    );
}

#[test]
fn repeated_placeholder() {
    assert_eq!(subst("{0}-{0}", &["x"]), "x-x");
}

#[test]
fn argument_text_is_not_rescanned() {
    assert_eq!(subst("{0} {1}", &["{1}", "b"]), "{1} b");
}

#[test]
fn multi_digit_index() {
    let args: Vec<String> = (0..12).map(|i| format!("a{}", i)).collect();
    assert_eq!(substitute("{10}/{11}", &args), "a10/a11");
}

#[test]
fn empty_template() {
    assert_eq!(subst("", &["x"]), "");
}
