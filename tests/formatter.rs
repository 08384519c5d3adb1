use rugments::formatter::{Formatter, HtmlFormatter};
use rugments::grammar::Machine;
use rugments::html::html_machine_def;
use rugments::lexer::RegexLexer;
use rugments::token::{Token, TokenType};

fn sample() -> Vec<Token<'static>> {
    vec![
        Token { text: "<", ttype: TokenType::Punctuation },
        Token { text: "ab\ncd", ttype: TokenType::NameTag },
        Token { text: "", ttype: TokenType::Text },
        Token { text: "x & y", ttype: TokenType::Text },
    ]
}

fn text(v: Vec<u8>) -> String {
    String::from_utf8(v).unwrap()
}

#[test]
fn escapes_the_five_characters() {
    let f = HtmlFormatter::new();
    let mut out = Vec::new();
    f.write_escaped("a<b>&\"'c\u{e9}", &mut out);
    assert_eq!(text(out), "a&lt;b&gt;&amp;&quot;&#39;c\u{e9}");
}

#[test]
fn style_classes() {
    let f = HtmlFormatter::new();
    assert_eq!(f.get_style_class(TokenType::Text), None);
    assert_eq!(f.get_style_class(TokenType::NameTag), Some("nt".to_string()));
    let g = HtmlFormatter::new().with_classprefix("x-".to_string());
    assert_eq!(g.get_style_class(TokenType::Punctuation), Some("x-p".to_string()));
}

#[test]
fn lines_only() {
    let mut f = HtmlFormatter::new().with_nowrap(true);
    let out = text(f.format(&sample()));
    assert_eq!(
        out,
        "<span class=\"p\">&lt;</span><span class=\"nt\">ab</span>\n<span class=\"nt\">cd</span>x &amp; y"
    );
}

#[test]
fn line_count_and_spans() {
    let f = HtmlFormatter::new();
    let mut out = Vec::new();
    let n = f.format_lines(&sample(), &mut out);
    assert_eq!(n, 1);
    let toks = vec![Token { text: "a\n\nb\n", ttype: TokenType::Keyword }];
    let mut out = Vec::new();
    assert_eq!(f.format_lines(&toks, &mut out), 3);
    assert_eq!(
        text(out),
        "<span class=\"k\">a</span>\n<span class=\"k\"></span>\n<span class=\"k\">b</span>\n<span class=\"k\">"
    );
}

#[test]
fn inside_pre() {
    let mut f = HtmlFormatter::new().with_linenos(false);
    let out = text(f.format(&sample()));
    assert_eq!(
        out,
        "<pre class=\"highlight\"><span></span><span class=\"p\">&lt;</span><span class=\"nt\">ab</span>\n<span class=\"nt\">cd</span>x &amp; y</pre>\n"
    );
}

#[test]
fn pre_with_styles_and_no_class() {
    let mut f = HtmlFormatter::new()
        .with_linenos(false)
        .with_pre_class(String::new())
        .with_pre_styles("color: red".to_string());
    let toks = vec![Token { text: "x", ttype: TokenType::Text }];
    assert_eq!(text(f.format(&toks)), "<pre style=\"color: red\"><span></span>x</pre>\n");
}

#[test]
fn with_line_numbers() {
    let mut f = HtmlFormatter::new();
    let out = text(f.format(&sample()));
    assert_eq!(
        out,
        "<table class=\"highlighttable\"><tr><td class=\"linenos\"><pre>1\n</pre>\n</td><td class=\"code\"><pre class=\"highlight\"><span></span><span class=\"p\">&lt;</span><span class=\"nt\">ab</span>\n<span class=\"nt\">cd</span>x &amp; y</pre>\n</td></tr></table>\n"
    );
}

#[test]
fn line_numbers_are_right_aligned() {
    let mut f = HtmlFormatter::new().with_pre_class(String::new());
    let toks = vec![Token { text: "\n\n\n\n\n\n\n\n\n\n", ttype: TokenType::Text }];
    let out = text(f.format(&toks));
    let expect_numbers = " 1\n 2\n 3\n 4\n 5\n 6\n 7\n 8\n 9\n10\n";
    assert!(out.starts_with(&format!("<table><tr><td class=\"linenos\"><pre>{}</pre>\n", expect_numbers)));
    assert!(out.ends_with("</pre>\n</td></tr></table>\n"));
}

#[test]
fn empty_stylesheet() {
    let f = HtmlFormatter::new();
    assert_eq!(f.get_stylesheet(""), "");
    assert_eq!(f.get_stylesheet("div.x"), "");
}

#[test]
fn lexed_html_renders() {
    let m: &'static Machine = Box::leak(Box::new(Machine::convert(html_machine_def()).unwrap()));
    let mut lx = RegexLexer::new(m, "root", "<b>hi</b>");
    let mut toks = Vec::new();
    while let Some(t) = lx.next().unwrap() {
        toks.push(t);
    }
    let mut f = HtmlFormatter::new().with_nowrap(true);
    assert_eq!(
        text(f.format(&toks)),
        "<span class=\"p\">&lt;</span><span class=\"nt\">b</span><span class=\"p\">&gt;</span>hi<span class=\"p\">&lt;/</span><span class=\"nt\">b</span><span class=\"p\">&gt;"
    );
}
