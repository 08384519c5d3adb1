use rugments::grammar::{GrammarError, Machine, MachineDef, MatchAction, RuleDef, StateAction};
use rugments::html::html_machine_def;
use rugments::lexer::{LexError, RegexLexer};
use rugments::token::TokenType;

fn machine(def: MachineDef) -> &'static Machine {
    Box::leak(Box::new(Machine::convert(def).unwrap()))
}

fn lex_all(m: &'static Machine, text: &str) -> Vec<(String, TokenType)> {
    let mut lx = RegexLexer::new(m, "root", text);
    let mut out = Vec::new();
    while let Some(t) = lx.next().unwrap() {
        out.push((t.text.to_string(), t.ttype));
    }
    out
}

fn joined(toks: &[(String, TokenType)]) -> String {
    toks.iter().map(|t| t.0.as_str()).collect()
}

const SAMPLE_HTML: &str = "<!DOCTYPE html>\n<html lang=\"en\">\n<head>\n  <meta charset='utf-8'>\n  <title>Caf\u{e9} &amp; b\u{e4}r</title>\n  <style type=\"text/css\">\n    body { color: #333; }\n    p > a { margin: 0 }\n  </style>\n  <script>\n    if (a < b && c > d) { alert(\"<hi>\"); }\n  </script>\n</head>\n<body>\n<!-- a comment -- with dashes -->\n<?xml version=\"1.0\"?>\n<![CDATA[ raw <stuff> ]]>\n<p class=main id=x data-v='1'>Hello &nbsp; world &copy;</p>\n<br/>\n<img src=\"a.png\" />\n< / p >\n\u{1F600} stray > and & alone\n</body>\n</html>\n";

#[test]
fn check_html() {
    let m = machine(html_machine_def());
    let toks = lex_all(m, SAMPLE_HTML);
    assert_eq!(joined(&toks), SAMPLE_HTML);
}

#[test]
fn html_round_trip_edge_inputs() {
    let m = machine(html_machine_def());
    for input in ["", "a", "<", "&", "<<<>>>", "\u{1F600}", "<a href=", "<script>", "<!--", "plain text only"] {
        assert_eq!(joined(&lex_all(m, input)), input);
    }
}

#[test]
fn html_tag_tokens() {
    let m = machine(html_machine_def());
    let toks = lex_all(m, "<b x=\"1\">t</b>");
    let expect: Vec<(String, TokenType)> = vec![
        ("<".to_string(), TokenType::Punctuation),
        ("".to_string(), TokenType::Text),
        ("b".to_string(), TokenType::NameTag),
        (" ".to_string(), TokenType::Text),
        ("x".to_string(), TokenType::NameAttribute),
        ("=".to_string(), TokenType::Operator),
        ("".to_string(), TokenType::Text),
        ("\"1\"".to_string(), TokenType::String),
        (">".to_string(), TokenType::Punctuation),
        ("t".to_string(), TokenType::Text),
        ("<".to_string(), TokenType::Punctuation),
        ("".to_string(), TokenType::Text),
        ("/".to_string(), TokenType::Punctuation),
        ("".to_string(), TokenType::Text),
        ("b".to_string(), TokenType::NameTag),
        ("".to_string(), TokenType::Text),
        (">".to_string(), TokenType::Punctuation),
    ];
    assert_eq!(toks, expect);
}

const GROUPS_ROOT: &[RuleDef] = &[RuleDef::Regex(
    "(x)(y)(z)",
    MatchAction::ByGroups(&[TokenType::Keyword, TokenType::Name, TokenType::Number]),
    StateAction::Stay,
)];
const GROUPS: MachineDef = &[("root", GROUPS_ROOT)];

#[test]
fn groups_come_out_in_order() {
    let m = machine(GROUPS);
    let mut lx = RegexLexer::new(m, "root", "xyz");
    let a = lx.next().unwrap().unwrap();
    assert_eq!((a.text, a.ttype), ("x", TokenType::Keyword));
    assert_eq!(lx.remaining(), "");
    let b = lx.next().unwrap().unwrap();
    assert_eq!((b.text, b.ttype), ("y", TokenType::Name));
    let c = lx.next().unwrap().unwrap();
    assert_eq!((c.text, c.ttype), ("z", TokenType::Number));
    assert!(lx.next().unwrap().is_none());
}

const EMPTY_GROUP_ROOT: &[RuleDef] = &[RuleDef::Regex(
    "(a)(b?)(c)",
    MatchAction::ByGroups(&[TokenType::Name, TokenType::Text, TokenType::Name]),
    StateAction::Stay,
)];
const EMPTY_GROUP: MachineDef = &[("root", EMPTY_GROUP_ROOT)];

#[test]
fn empty_group_still_yields_a_token() {
    let m = machine(EMPTY_GROUP);
    let toks = lex_all(m, "ac");
    assert_eq!(toks.len(), 3);
    assert_eq!(toks[1], ("".to_string(), TokenType::Text));
    assert_eq!(joined(&toks), "ac");
}

const TAG_ROOT: &[RuleDef] = &[RuleDef::Regex(
    "(<)(a)",
    MatchAction::ByGroups(&[TokenType::Punctuation, TokenType::Name]),
    StateAction::Push("tag"),
)];
const TAG_TAG: &[RuleDef] =
    &[RuleDef::Regex(">", MatchAction::Single(TokenType::Punctuation), StateAction::Pop)];
const TAG: MachineDef = &[("root", TAG_ROOT), ("tag", TAG_TAG)];

#[test]
fn end_to_end_tag() {
    let m = machine(TAG);
    let mut lx = RegexLexer::new(m, "root", "<a>");
    let t1 = lx.next().unwrap().unwrap();
    assert_eq!((t1.text, t1.ttype), ("<", TokenType::Punctuation));
    assert_eq!(lx.stack(), &vec!["root", "tag"]);
    let t2 = lx.next().unwrap().unwrap();
    assert_eq!((t2.text, t2.ttype), ("a", TokenType::Name));
    let t3 = lx.next().unwrap().unwrap();
    assert_eq!((t3.text, t3.ttype), (">", TokenType::Punctuation));
    assert_eq!(lx.stack(), &vec!["root"]);
    assert!(lx.next().unwrap().is_none());
    assert!(lx.next().unwrap().is_none());
}

#[test]
fn push_then_pop_restores_stack() {
    let m = machine(TAG);
    let mut lx = RegexLexer::new(m, "root", "<a><a>");
    let before = lx.stack().clone();
    for _ in 0..3 {
        lx.next().unwrap();
    }
    assert_eq!(lx.stack(), &before);
    assert_eq!(lx.remaining(), "<a>");
}

#[test]
fn fallback_is_one_error_char() {
    let m = machine(TAG);
    let mut lx = RegexLexer::new(m, "root", "\u{e9}\u{1F600}<a>");
    let t = lx.next().unwrap().unwrap();
    assert_eq!((t.text, t.ttype), ("\u{e9}", TokenType::Error));
    assert_eq!(lx.stack(), &vec!["root"]);
    let t = lx.next().unwrap().unwrap();
    assert_eq!((t.text, t.ttype), ("\u{1F600}", TokenType::Error));
    let t = lx.next().unwrap().unwrap();
    assert_eq!((t.text, t.ttype), ("<", TokenType::Punctuation));
}

#[test]
fn fallback_in_nested_state_keeps_state() {
    let m = machine(TAG);
    let mut lx = RegexLexer::new(m, "root", "<a!>");
    lx.next().unwrap();
    lx.next().unwrap();
    let t = lx.next().unwrap().unwrap();
    assert_eq!((t.text, t.ttype), ("!", TokenType::Error));
    assert_eq!(lx.stack(), &vec!["root", "tag"]);
}

#[test]
fn empty_input_ends_at_once() {
    let m = machine(TAG);
    let mut lx = RegexLexer::new(m, "root", "");
    assert!(lx.next().unwrap().is_none());
}

#[test]
fn initial_state_must_exist() {
    let m = machine(TAG);
    assert_eq!(m.find_state("nowhere"), None);
    let lx = RegexLexer::new(m, "tag", "x");
    assert_eq!(lx.stack(), &vec!["tag"]);
}

const POP_ROOT: &[RuleDef] =
    &[RuleDef::Regex("x", MatchAction::Single(TokenType::Text), StateAction::Pop)];
const POP: MachineDef = &[("root", POP_ROOT)];

#[test]
fn popping_root_is_an_error() {
    let m = machine(POP);
    let mut lx = RegexLexer::new(m, "root", "xx");
    assert_eq!(lx.next().err(), Some(LexError::StackUnderflow));
    assert_eq!(lx.remaining(), "xx");
    assert_eq!(lx.stack(), &vec!["root"]);
}

const MULTI_ROOT: &[RuleDef] = &[
    RuleDef::Regex("a", MatchAction::Single(TokenType::Name), StateAction::PushMulti(&["one", "two"])),
    RuleDef::Regex("s", MatchAction::Single(TokenType::Name), StateAction::PushSelf(2)),
    RuleDef::Regex("p", MatchAction::Single(TokenType::Name), StateAction::PopMulti(2)),
];
const MULTI_ONE: &[RuleDef] = &[RuleDef::Default(StateAction::Pop)];
const MULTI_TWO: &[RuleDef] = &[
    RuleDef::Regex("b", MatchAction::Single(TokenType::Keyword), StateAction::Pop),
    RuleDef::Words(&["ignored"], MatchAction::Single(TokenType::Keyword), StateAction::Stay),
];
const MULTI: MachineDef = &[("root", MULTI_ROOT), ("one", MULTI_ONE), ("two", MULTI_TWO)];

#[test]
fn push_multi_puts_last_on_top() {
    let m = machine(MULTI);
    let mut lx = RegexLexer::new(m, "root", "abs");
    lx.next().unwrap();
    assert_eq!(lx.stack(), &vec!["root", "one", "two"]);
    let t = lx.next().unwrap().unwrap();
    assert_eq!((t.text, t.ttype), ("b", TokenType::Keyword));
    assert_eq!(lx.stack(), &vec!["root", "one"]);
    let t = lx.next().unwrap().unwrap();
    assert_eq!((t.text, t.ttype), ("s", TokenType::Name));
    assert_eq!(lx.stack(), &vec!["root", "root", "root"]);
    assert!(lx.next().unwrap().is_none());
}

#[test]
fn default_rule_does_not_run_past_the_end() {
    let m = machine(MULTI);
    let mut lx = RegexLexer::new(m, "root", "ab");
    lx.next().unwrap();
    lx.next().unwrap();
    assert_eq!(lx.stack(), &vec!["root", "one"]);
    assert!(lx.next().unwrap().is_none());
    assert!(lx.next().unwrap().is_none());
    assert_eq!(lx.stack(), &vec!["root", "one"]);
}

const DEFAULT_ROOT: &[RuleDef] = &[RuleDef::Default(StateAction::Push("x"))];
const DEFAULT_X: &[RuleDef] =
    &[RuleDef::Regex("a", MatchAction::Single(TokenType::Name), StateAction::Pop)];
const DEFAULT: MachineDef = &[("root", DEFAULT_ROOT), ("x", DEFAULT_X)];

#[test]
fn empty_match_changes_state_and_scan_goes_on() {
    let m = machine(DEFAULT);
    let mut lx = RegexLexer::new(m, "root", "a");
    let t = lx.next().unwrap().unwrap();
    assert_eq!((t.text, t.ttype), ("a", TokenType::Name));
    assert_eq!(lx.stack(), &vec!["root"]);
    assert!(lx.next().unwrap().is_none());
    let mut empty = RegexLexer::new(m, "root", "");
    assert!(empty.next().unwrap().is_none());
    assert_eq!(empty.stack(), &vec!["root"]);
}

const STAR_ROOT: &[RuleDef] =
    &[RuleDef::Regex("a*", MatchAction::Single(TokenType::Name), StateAction::Stay)];
const STAR: MachineDef = &[("root", STAR_ROOT)];

#[test]
fn empty_match_without_progress_falls_back() {
    let m = machine(STAR);
    let toks = lex_all(m, "aab");
    assert_eq!(toks, vec![("aa".to_string(), TokenType::Name), ("b".to_string(), TokenType::Error)]);
    assert_eq!(lex_all(m, ""), vec![]);
}

const ESCAPE_ROOT: &[RuleDef] =
    &[RuleDef::Regex("a)|(b", MatchAction::Single(TokenType::Name), StateAction::Stay)];
const ESCAPE: MachineDef = &[("root", ESCAPE_ROOT)];

#[test]
fn match_away_from_the_cursor_is_no_match() {
    let m = machine(ESCAPE);
    let toks = lex_all(m, "xb");
    assert_eq!(toks, vec![("x".to_string(), TokenType::Error), ("b".to_string(), TokenType::Name)]);
}

#[test]
fn push_self_and_pop_multi() {
    let m = machine(MULTI);
    let mut lx = RegexLexer::new(m, "root", "sp");
    lx.next().unwrap();
    assert_eq!(lx.stack(), &vec!["root", "root", "root"]);
    lx.next().unwrap();
    assert_eq!(lx.stack(), &vec!["root"]);
}

const DUP: MachineDef = &[("root", POP_ROOT), ("root", POP_ROOT)];
const BAD_RX_ROOT: &[RuleDef] =
    &[RuleDef::Regex("(", MatchAction::Single(TokenType::Text), StateAction::Stay)];
const BAD_RX: MachineDef = &[("root", BAD_RX_ROOT)];
const BAD_GROUPS_ROOT: &[RuleDef] = &[
    RuleDef::Regex("x", MatchAction::Single(TokenType::Text), StateAction::Stay),
    RuleDef::Regex("(a)(b)", MatchAction::ByGroups(&[TokenType::Text]), StateAction::Stay),
];
const BAD_GROUPS: MachineDef = &[("root", BAD_GROUPS_ROOT)];
const NO_GROUP_TYPES_ROOT: &[RuleDef] =
    &[RuleDef::Regex("a", MatchAction::ByGroups(&[]), StateAction::Stay)];
const NO_GROUP_TYPES: MachineDef = &[("root", NO_GROUP_TYPES_ROOT)];
const NO_ROOT: MachineDef = &[("main", POP_ROOT)];
const BAD_PUSH_ROOT: &[RuleDef] =
    &[RuleDef::Regex("x", MatchAction::Single(TokenType::Text), StateAction::Push("missing"))];
const BAD_PUSH: MachineDef = &[("root", BAD_PUSH_ROOT)];
const BAD_PUSH_MULTI_ROOT: &[RuleDef] = &[RuleDef::Default(StateAction::PushMulti(&["root", "gone"]))];
const BAD_PUSH_MULTI: MachineDef = &[("root", BAD_PUSH_MULTI_ROOT)];

#[test]
fn grammar_errors() {
    assert_eq!(Machine::convert(DUP).err(), Some(GrammarError::DuplicateState("root")));
    assert_eq!(Machine::convert(BAD_RX).err(), Some(GrammarError::InvalidPattern("root", 0)));
    assert_eq!(Machine::convert(BAD_GROUPS).err(), Some(GrammarError::GroupMismatch("root", 1)));
    assert_eq!(Machine::convert(NO_GROUP_TYPES).err(), Some(GrammarError::GroupMismatch("root", 0)));
    assert_eq!(Machine::convert(NO_ROOT).err(), Some(GrammarError::MissingRoot));
    assert_eq!(Machine::convert(BAD_PUSH).err(), Some(GrammarError::UnknownState("missing")));
    assert_eq!(Machine::convert(BAD_PUSH_MULTI).err(), Some(GrammarError::UnknownState("gone")));
}

#[test]
fn grammar_lookup() {
    let m = machine(MULTI);
    assert_eq!(m.find_state("two"), Some(2));
    assert_eq!(m.find_state("three"), None);
    assert_eq!(m.get_state("one").0.len(), 1);
    assert_eq!(m.get_state("two").0.len(), 1);
    let html = machine(html_machine_def());
    assert_eq!(html.names, vec!["root", "comment", "tag", "attr", "script-content", "style-content"]);
}

#[test]
fn patterns_are_anchored() {
    let m = machine(TAG);
    let toks = lex_all(m, "b<a>");
    assert_eq!(toks[0], ("b".to_string(), TokenType::Error));
    assert_eq!(toks[1], ("<".to_string(), TokenType::Punctuation));
}

#[test]
fn consume_match_with_given_slots() {
    let m = machine(TAG);
    let rule = &m.get_state("root").0[0];
    let mut lx = RegexLexer::new(m, "root", "<a>");
    let slots = vec![Some((0usize, 2usize)), Some((0, 1)), Some((1, 2))];
    let t = lx.consume_match(rule, &slots).unwrap().unwrap();
    assert_eq!((t.text, t.ttype), ("<", TokenType::Punctuation));
    assert_eq!(lx.remaining(), ">");
    assert_eq!(lx.stack(), &vec!["root", "tag"]);
    let t = lx.next().unwrap().unwrap();
    assert_eq!((t.text, t.ttype), ("a", TokenType::Name));
}

#[test]
fn consume_match_group_that_took_no_part() {
    let m = machine(TAG);
    let rule = &m.get_state("root").0[0];
    let mut lx = RegexLexer::new(m, "root", "<a>");
    let slots = vec![Some((0usize, 1usize)), Some((0, 1)), None];
    let t = lx.consume_match(rule, &slots).unwrap().unwrap();
    assert_eq!(t.text, "<");
    let t = lx.next().unwrap().unwrap();
    assert_eq!((t.text, t.ttype), ("", TokenType::Name));
    assert_eq!(lx.remaining(), "a>");
}

#[test]
fn consume_match_pop_of_last_state() {
    let m = machine(TAG);
    let rule = &m.get_state("tag").0[0];
    let mut lx = RegexLexer::new(m, "root", ">x");
    assert_eq!(lx.consume_match(rule, &vec![Some((0usize, 1usize))]).err(), Some(LexError::StackUnderflow));
    assert_eq!(lx.remaining(), ">x");
}

#[test]
fn each_step_makes_progress() {
    let m = machine(html_machine_def());
    let mut lx = RegexLexer::new(m, "root", SAMPLE_HTML);
    let mut last_len = SAMPLE_HTML.len();
    let mut same = 0;
    let mut steps = 0;
    while let Some(_) = lx.next().unwrap() {
        steps += 1;
        let now = lx.remaining().len();
        assert!(now <= last_len);
        if now == last_len {
            same += 1;
            assert!(same < 7);
        } else {
            same = 0;
        }
        last_len = now;
    }
    assert!(steps <= 7 * SAMPLE_HTML.len());
}
