use adguardian::setup::{
    default_for, flag_assignments, is_secret_field, prompt_text, resolve_answer, shown_value, KeyPress, KeyResult,
    MaskedLine, PromptAnswer,
};

#[test]
fn field_defaults() {
    assert_eq!(default_for("ADGUARD_IP"), Some("127.0.0.1"));
    assert_eq!(default_for("ADGUARD_PORT"), Some("3000"));
    assert_eq!(default_for("ADGUARD_USERNAME"), None);
    assert_eq!(default_for("ADGUARD_PASSWORD"), None);
}

#[test]
fn secrets() {
    assert!(is_secret_field("ADGUARD_PASSWORD"));
    assert!(!is_secret_field("ADGUARD_USERNAME"));
    assert_eq!(shown_value("ADGUARD_PASSWORD", "hunter2"), "******");
    assert_eq!(shown_value("ADGUARD_IP", "10.0.0.1"), "10.0.0.1");
}

#[test]
fn prompts() {
    assert_eq!(prompt_text("ADGUARD_IP"), "\u{203a} Enter a value for ADGUARD_IP [127.0.0.1]: ");
    assert_eq!(prompt_text("ADGUARD_PORT"), "\u{203a} Enter a value for ADGUARD_PORT [3000]: ");
    assert_eq!(prompt_text("ADGUARD_USERNAME"), "\u{203a} Enter a value for ADGUARD_USERNAME: ");
}

#[test]
fn answers() {
    assert_eq!(resolve_answer("ADGUARD_PORT", "  \n"), PromptAnswer::Accept("3000".to_string()));
    assert_eq!(resolve_answer("ADGUARD_IP", "\n"), PromptAnswer::Accept("127.0.0.1".to_string()));
    assert_eq!(resolve_answer("ADGUARD_USERNAME", "\n"), PromptAnswer::Accept(String::new()));
    assert_eq!(resolve_answer("ADGUARD_USERNAME", "  bob \n"), PromptAnswer::Accept("bob".to_string()));
    assert_eq!(resolve_answer("ADGUARD_PORT", "8080\n"), PromptAnswer::Accept("8080".to_string()));
    assert_eq!(resolve_answer("ADGUARD_PORT", "abc\n"), PromptAnswer::InvalidPort);
    assert_eq!(resolve_answer("ADGUARD_PORT", "70000"), PromptAnswer::InvalidPort);
    assert_eq!(resolve_answer("ADGUARD_PORT", "-1"), PromptAnswer::InvalidPort);
    assert_eq!(resolve_answer("ADGUARD_IP", "abc"), PromptAnswer::Accept("abc".to_string()));
}

#[test]
fn masked_reading() {
    let mut line = MaskedLine::new();
    assert_eq!(line.press(KeyPress::Char { c: 'a', ctrl: false }), KeyResult::Continue);
    assert_eq!(line.press(KeyPress::Char { c: 'b', ctrl: false }), KeyResult::Continue);
    assert_eq!(line.press(KeyPress::Backspace), KeyResult::Continue);
    assert_eq!(line.press(KeyPress::Char { c: 'x', ctrl: true }), KeyResult::Continue);
    assert_eq!(line.press(KeyPress::Other), KeyResult::Continue);
    assert_eq!(line.press(KeyPress::Char { c: 'c', ctrl: false }), KeyResult::Continue);
    assert_eq!(line.press(KeyPress::Enter), KeyResult::Done);
    assert_eq!(line.value(), "ac");
}

#[test]
fn masked_reading_edges() {
    let mut line = MaskedLine::new();
    assert_eq!(line.press(KeyPress::Backspace), KeyResult::Continue);
    assert_eq!(line.value(), "");
    line.press(KeyPress::Char { c: 'q', ctrl: false });
    line.press(KeyPress::Backspace);
    assert_eq!(line.value(), "");
    line.press(KeyPress::Char { c: 'z', ctrl: false });
    assert_eq!(line.press(KeyPress::Char { c: 'c', ctrl: true }), KeyResult::Interrupted);
    assert_eq!(line.value(), "z");
}

fn strings(v: &[&str]) -> Vec<String> {
    v.iter().map(|s| s.to_string()).collect()
}

fn pairs(v: &[(&str, &str)]) -> Vec<(String, String)> {
    v.iter().map(|(a, b)| (a.to_string(), b.to_string())).collect()
}

#[test]
fn command_line_flags() {
    let args = strings(&[
        "adguardian", "--adguard-ip", "10.0.0.1", "--adguard-port", "--adguard-username", "bob",
        "--adguard-password", "pw", "--other", "x",
    ]);
    assert_eq!(
        flag_assignments(&args),
        pairs(&[("ADGUARD_IP", "10.0.0.1"), ("ADGUARD_USERNAME", "bob"), ("ADGUARD_PASSWORD", "pw")])
    );
    assert_eq!(flag_assignments(&strings(&["adguardian"])), pairs(&[]));
    assert_eq!(flag_assignments(&strings(&["--adguard-port"])), pairs(&[]));
    assert_eq!(flag_assignments(&strings(&["--adguard-port", "--5"])), pairs(&[]));
    assert_eq!(flag_assignments(&strings(&["--adguard-port", "-5"])), pairs(&[("ADGUARD_PORT", "-5")]));
    assert_eq!(
        flag_assignments(&strings(&["--adguard-ip", "--adguard-ip", "1.1.1.1"])),
        pairs(&[("ADGUARD_IP", "1.1.1.1")])
    );
}
