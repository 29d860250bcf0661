//! First-run setup: the command-line flags, the prompts for missing settings, the
//! masked reading of a secret, and what the connection check concludes.
use vstd::prelude::*;
use vstd::string::*;
use crate::text::{
    contains_text, has_infix, has_prefix, parse_unsigned, parse_unsigned_text, same_text, starts_with,
    string_of_chars, trim, trimmed,
};

verus! {

broadcast use vstd::string::group_string_axioms;

// -------------------------------------------------------------------- fields

/// The value offered when a field's prompt is answered with nothing.
pub open spec fn default_value(key: Seq<char>) -> Option<Seq<char>> {
    if key == "ADGUARD_IP"@ {
        Some("127.0.0.1"@)
    } else if key == "ADGUARD_PORT"@ {
        Some("3000"@)
    } else {
        None
    }
}

/// The value to pre-fill for a field's interactive prompt, where a sensible one exists.
pub fn default_for(key: &str) -> (r: Option<&'static str>)
    ensures
        match default_value(key@) {
            Some(d) => r matches Some(v) && v@ == d,
            None => r is None,
        },
{
    if same_text(key, "ADGUARD_IP") {
        Some("127.0.0.1")
    } else if same_text(key, "ADGUARD_PORT") {
        Some("3000")
    } else {
        None
    }
}

/// Only the address and the port have defaults: `127.0.0.1` and `3000`.
pub proof fn law_field_defaults(key: Seq<char>)
    ensures
        default_value("ADGUARD_IP"@) == Some("127.0.0.1"@),
        default_value("ADGUARD_PORT"@) == Some("3000"@),
        key != "ADGUARD_IP"@ && key != "ADGUARD_PORT"@ ==> default_value(key) is None,
{
    reveal_strlit("ADGUARD_IP");
    reveal_strlit("ADGUARD_PORT");
    assert("ADGUARD_IP"@.len() != "ADGUARD_PORT"@.len());
}

/// A field is secret when its name contains `PASSWORD`.
pub open spec fn secret_field(key: Seq<char>) -> bool {
    has_infix(key, "PASSWORD"@)
}

/// Whether the field `key` holds a secret, which is masked when read and shown.
pub fn is_secret_field(key: &str) -> (r: bool)
    ensures
        r == secret_field(key@),
{
    contains_text(key, "PASSWORD")
}

/// How a setting is shown once set: secrets as `******`, anything else as it is.
pub fn shown_value(key: &str, value: &str) -> (r: String)
    ensures
        r@ == if secret_field(key@) { "******"@ } else { value@ },
{
    if is_secret_field(key) {
        "******".to_owned()
    } else {
        value.to_owned()
    }
}

/// The prompt for the field `key`: `› Enter a value for KEY [default]: `, the part
/// in brackets only where the field has a default.
pub fn prompt_text(key: &str) -> (r: String)
    ensures
        r@ == "\u{203a} Enter a value for "@ + key@ + match default_value(key@) {
            Some(d) => " ["@ + d + "]"@,
            None => Seq::<char>::empty(),
        } + ": "@,
{
    let mut r = "\u{203a} Enter a value for ".to_owned();
    r.append(key);
    match default_for(key) {
        Some(d) => {
            r.append(" [");
            r.append(d);
            r.append("]");
        },
        None => {},
    }
    r.append(": ");
    r
}

/// What an answer to a prompt leads to.
#[derive(Debug, PartialEq, Eq)]
pub enum PromptAnswer {
    /// The value to set.
    Accept(String),
    /// The field is the port and the value is not a port number: ask again.
    InvalidPort,
}

/// The value an answer stands for: the answer without surrounding white space, or the
/// field's default (or nothing) when that is empty.
pub open spec fn answer_value(key: Seq<char>, input: Seq<char>) -> Seq<char> {
    let t = trimmed(input);
    if t.len() == 0 {
        match default_value(key) {
            Some(d) => d,
            None => Seq::<char>::empty(),
        }
    } else {
        t
    }
}

/// Only the port is checked: it must parse as a `u16`.
pub open spec fn answer_accepted(key: Seq<char>, value: Seq<char>) -> bool {
    key == "ADGUARD_PORT"@ ==> parse_unsigned(value, 65535) is Some
}

/// Turns the line typed at the prompt for `key` into the value to set, or asks for
/// the port again when the port is not a number in `0..=65535`.
pub fn resolve_answer(key: &str, input: &str) -> (r: PromptAnswer)
    ensures
        trimmed(input@).len() > 0 && key@ != "ADGUARD_PORT"@ ==> (r matches PromptAnswer::Accept(v) && v@
            == trimmed(input@)),
        answer_accepted(key@, answer_value(key@, input@)) ==> (r matches PromptAnswer::Accept(v) && v@
            == answer_value(key@, input@)),
        !answer_accepted(key@, answer_value(key@, input@)) ==> r is InvalidPort,
{
    let t = trim(input);
    let value = if t.as_str().is_empty() {
        match default_for(key) {
            Some(d) => d.to_owned(),
            None => String::new(),
        }
    } else {
        t
    };
    if same_text(key, "ADGUARD_PORT") && parse_unsigned_text(value.as_str(), 65535).is_none() {
        PromptAnswer::InvalidPort
    } else {
        PromptAnswer::Accept(value)
    }
}

/// An empty (or all white-space) answer stands for the field's default, or for
/// nothing when there is none; any other answer is taken without its surrounding
/// white space, and so neither starts nor ends with white space.
pub proof fn law_answer_value(key: Seq<char>, input: Seq<char>)
    ensures
        trimmed(input).len() == 0 ==> answer_value(key, input) == match default_value(key) {
            Some(d) => d,
            None => Seq::<char>::empty(),
        },
        trimmed(input).len() > 0 ==> trimmed(answer_value(key, input)) == answer_value(key, input),
{
    crate::text::law_trim_idempotent(input);
}

/// A non-blank answer is taken as typed, only without its surrounding white space,
/// whatever the field (secret or not); only a blank answer falls back to a default.
pub proof fn law_answer_is_what_was_typed(key: Seq<char>, input: Seq<char>)
    ensures
        trimmed(input).len() > 0 ==> answer_value(key, input) == trimmed(input),
        trimmed(input).len() > 0 && secret_field(key) ==> answer_value(key, input) == trimmed(input),
        trimmed(input).len() == 0 && default_value(key) is None ==> answer_value(key, input).len() == 0,
{
}

/// An accepted answer for the port is a number in `0..=65535`; answers for other
/// fields are always accepted.
pub proof fn law_only_port_is_checked(key: Seq<char>, value: Seq<char>)
    ensures
        key == "ADGUARD_PORT"@ ==> (answer_accepted(key, value) <==> parse_unsigned(value, 65535) is Some),
        key != "ADGUARD_PORT"@ ==> answer_accepted(key, value),
{
}

// ------------------------------------------------------------ masked reading

/// A key press, as far as the masked reader tells them apart.
#[derive(Debug, Clone, Copy, PartialEq, Eq, Structural)]
pub enum KeyPress {
    Enter,
    Backspace,
    Char { c: char, ctrl: bool },
    Other,
}

/// What a key press does to the masked reading.
#[derive(Debug, Clone, Copy, PartialEq, Eq, Structural)]
pub enum KeyResult {
    /// Keep reading.
    Continue,
    /// The line is complete.
    Done,
    /// Ctrl-C: the user cancelled.
    Interrupted,
}

/// The effect of a key press on the line typed so far.
pub open spec fn key_effect(line: Seq<char>, key: KeyPress) -> (Seq<char>, KeyResult) {
    match key {
        KeyPress::Enter => (line, KeyResult::Done),
        KeyPress::Char { c, ctrl } => if c == 'c' && ctrl {
            (line, KeyResult::Interrupted)
        } else if !ctrl {
            (line.push(c), KeyResult::Continue)
        } else {
            (line, KeyResult::Continue)
        },
        KeyPress::Backspace => if line.len() > 0 {
            (line.drop_last(), KeyResult::Continue)
        } else {
            (line, KeyResult::Continue)
        },
        KeyPress::Other => (line, KeyResult::Continue),
    }
}

/// A line read without echo, one key press at a time.
pub struct MaskedLine {
    chars: Vec<char>,
}

impl View for MaskedLine {
    type V = Seq<char>;

    closed spec fn view(&self) -> Seq<char> {
        self.chars@
    }
}

impl MaskedLine {
    /// An empty line.
    pub fn new() -> (m: MaskedLine)
        ensures
            m@ == Seq::<char>::empty(),
    {
        MaskedLine { chars: Vec::new() }
    }

    /// Applies a key press: Enter ends the line, Ctrl-C cancels, a character typed
    /// without Ctrl is added, Backspace removes the last character, and anything
    /// else is ignored.
    pub fn press(&mut self, key: KeyPress) -> (r: KeyResult)
        ensures
            (final(self)@, r) == key_effect(old(self)@, key),
    {
        match key {
            KeyPress::Enter => KeyResult::Done,
            KeyPress::Char { c, ctrl } => {
                if c == 'c' && ctrl {
                    KeyResult::Interrupted
                } else if !ctrl {
                    self.chars.push(c);
                    KeyResult::Continue
                } else {
                    KeyResult::Continue
                }
            },
            KeyPress::Backspace => {
                if self.chars.len() > 0 {
                    self.chars.pop();
                    assert(self.chars@ =~= old(self)@.drop_last());
                }
                KeyResult::Continue
            },
            KeyPress::Other => KeyResult::Continue,
        }
    }

    /// The line typed so far.
    pub fn value(&self) -> (s: String)
        ensures
            s@ == self@,
    {
        string_of_chars(&self.chars)
    }
}

/// Typing a character and then Backspace leaves the line as it was.
pub proof fn law_backspace_undoes_typing(line: Seq<char>, c: char)
    ensures
        key_effect(key_effect(line, KeyPress::Char { c, ctrl: false }).0, KeyPress::Backspace).0 == line,
{
    assert(line.push(c).drop_last() =~= line);
}

/// A character typed without Ctrl is appended to the line exactly as typed, and the
/// reading goes on; a character typed with Ctrl other than `c` changes nothing.
pub proof fn law_typing_appends_unchanged(line: Seq<char>, c: char)
    ensures
        key_effect(line, KeyPress::Char { c, ctrl: false }) == (line.push(c), KeyResult::Continue),
        key_effect(line, KeyPress::Char { c, ctrl: false }).0.len() == line.len() + 1,
        key_effect(line, KeyPress::Char { c, ctrl: false }).0.last() == c,
        key_effect(line, KeyPress::Char { c, ctrl: false }).0.drop_last() == line,
        c != 'c' ==> key_effect(line, KeyPress::Char { c, ctrl: true }) == (line, KeyResult::Continue),
{
    assert(line.push(c).drop_last() =~= line);
}

/// Enter and Ctrl-C never change the line, and Enter always completes it.
pub proof fn law_enter_keeps_line(line: Seq<char>)
    ensures
        key_effect(line, KeyPress::Enter) == (line, KeyResult::Done),
        key_effect(line, KeyPress::Char { c: 'c', ctrl: true }) == (line, KeyResult::Interrupted),
{
}

// ------------------------------------------------------------ command line

/// The setting that a command-line flag sets.
pub open spec fn flag_setting(arg: Seq<char>) -> Option<Seq<char>> {
    if arg == "--adguard-ip"@ {
        Some("ADGUARD_IP"@)
    } else if arg == "--adguard-port"@ {
        Some("ADGUARD_PORT"@)
    } else if arg == "--adguard-username"@ {
        Some("ADGUARD_USERNAME"@)
    } else if arg == "--adguard-password"@ {
        Some("ADGUARD_PASSWORD"@)
    } else {
        None
    }
}

/// The settings that the command line `args` gives, in order: a flag followed by an
/// argument that does not start with `--` sets the flag's setting to that argument,
/// which is then consumed; anything else is skipped.
pub open spec fn flag_settings(args: Seq<Seq<char>>) -> Seq<(Seq<char>, Seq<char>)>
    decreases args.len(),
{
    if args.len() == 0 {
        Seq::empty()
    } else if flag_setting(args[0]) is Some && args.len() > 1 && !has_prefix(args[1], "--"@) {
        seq![(flag_setting(args[0])->0, args[1])] + flag_settings(args.skip(2))
    } else {
        flag_settings(args.drop_first())
    }
}

/// Each flag sets its own setting, and nothing else is a flag.
pub proof fn law_flag_names(arg: Seq<char>)
    ensures
        flag_setting("--adguard-ip"@) == Some("ADGUARD_IP"@),
        flag_setting("--adguard-port"@) == Some("ADGUARD_PORT"@),
        flag_setting("--adguard-username"@) == Some("ADGUARD_USERNAME"@),
        flag_setting("--adguard-password"@) == Some("ADGUARD_PASSWORD"@),
        arg != "--adguard-ip"@ && arg != "--adguard-port"@ && arg != "--adguard-username"@
            && arg != "--adguard-password"@ ==> flag_setting(arg) is None,
{
    reveal_strlit("--adguard-ip");
    reveal_strlit("--adguard-port");
    reveal_strlit("--adguard-username");
    reveal_strlit("--adguard-password");
    assert("--adguard-ip"@.len() != "--adguard-port"@.len());
    assert("--adguard-ip"@.len() != "--adguard-username"@.len());
    assert("--adguard-port"@.len() != "--adguard-username"@.len());
    assert("--adguard-username"@[10] != "--adguard-password"@[10]);
}

/// One of the four settings that flags can set.
pub open spec fn flag_setting_name(v: Seq<char>) -> bool {
    ||| v == "ADGUARD_IP"@
    ||| v == "ADGUARD_PORT"@
    ||| v == "ADGUARD_USERNAME"@
    ||| v == "ADGUARD_PASSWORD"@
}

/// A (setting, value) pair as the command line may give it: a flag's setting, and a
/// value that does not start with `--`.
pub open spec fn well_taken(p: (Seq<char>, Seq<char>)) -> bool {
    flag_setting_name(p.0) && !has_prefix(p.1, "--"@)
}

/// Every setting read from the command line is one of the four that flags set, and
/// no value taken from it starts with `--`.
#[verifier::spinoff_prover]
pub proof fn law_flag_values(args: Seq<Seq<char>>)
    ensures
        forall|k: int| 0 <= k < flag_settings(args).len() ==> well_taken(#[trigger] flag_settings(args)[k]),
    decreases args.len(),
{
    if args.len() > 0 {
        if flag_setting(args[0]) is Some && args.len() > 1 && !has_prefix(args[1], "--"@) {
            law_flag_values(args.skip(2));
            let head = (flag_setting(args[0])->0, args[1]);
            let rest = flag_settings(args.skip(2));
            let fs = seq![head] + rest;
            assert(flag_settings(args) == fs);
            assert(well_taken(head));
            assert forall|k: int| 0 <= k < fs.len() implies well_taken(#[trigger] fs[k]) by {
                if k > 0 {
                    assert(fs[k] == rest[k - 1]);
                }
            }
        } else {
            law_flag_values(args.drop_first());
            assert(flag_settings(args) == flag_settings(args.drop_first()));
        }
    }
}

fn setting_of_flag(arg: &str) -> (r: Option<&'static str>)
    ensures
        match flag_setting(arg@) {
            Some(v) => r matches Some(x) && x@ == v,
            None => r is None,
        },
{
    if same_text(arg, "--adguard-ip") {
        Some("ADGUARD_IP")
    } else if same_text(arg, "--adguard-port") {
        Some("ADGUARD_PORT")
    } else if same_text(arg, "--adguard-username") {
        Some("ADGUARD_USERNAME")
    } else if same_text(arg, "--adguard-password") {
        Some("ADGUARD_PASSWORD")
    } else {
        None
    }
}

/// The views of a list of strings.
pub open spec fn texts(v: Seq<String>) -> Seq<Seq<char>> {
    v.map_values(|s: String| s@)
}

/// The views of a list of pairs of strings.
pub open spec fn text_pairs(v: Seq<(String, String)>) -> Seq<(Seq<char>, Seq<char>)> {
    v.map_values(|p: (String, String)| (p.0@, p.1@))
}

/// Reads the settings given on the command line (`--adguard-ip`, `--adguard-port`,
/// `--adguard-username`, `--adguard-password`, each followed by its value), as
/// (setting, value) pairs in the order given.
#[verifier::spinoff_prover]
pub fn flag_assignments(args: &Vec<String>) -> (r: Vec<(String, String)>)
    ensures
        text_pairs(r@) == flag_settings(texts(args@)),
{
    let mut r: Vec<(String, String)> = Vec::new();
    let mut i: usize = 0;
    let ghost all = texts(args@);
    assert(all.skip(0) =~= all);
    assert(text_pairs(r@) + flag_settings(all) =~= flag_settings(all));
    while i < args.len()
        invariant
            all == texts(args@),
            i <= args.len(),
            text_pairs(r@) + flag_settings(all.skip(i as int)) == flag_settings(all),
        decreases args.len() - i,
    {
        let ghost rest = all.skip(i as int);
        assert(rest[0] == args@[i as int]@);
        match setting_of_flag(args[i].as_str()) {
            Some(var) => {
                if i + 1 < args.len() && !starts_with(args[i + 1].as_str(), "--") {
                    assert(rest[1] == args@[i + 1]@);
                    assert(rest.skip(2) =~= all.skip(i + 2));
                    let ghost before = r@;
                    r.push((var.to_owned(), args[i + 1].clone()));
                    proof {
                        assert(text_pairs(r@) =~= text_pairs(before) + seq![(var@, args@[i + 1]@)]);
                    }
                    i = i + 2;
                } else {
                    assert(rest.drop_first() =~= all.skip(i + 1));
                    i = i + 1;
                }
            },
            None => {
                assert(rest.drop_first() =~= all.skip(i + 1));
                i = i + 1;
            },
        }
    }
    assert(all.skip(i as int) =~= Seq::<Seq<char>>::empty());
    assert(text_pairs(r@) + Seq::<(Seq<char>, Seq<char>)>::empty() =~= text_pairs(r@));
    r
}

} // verus!
