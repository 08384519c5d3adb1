//! Rendering a token sequence as HTML: escaped text in `<span>` elements
//! classed by token type, line by line, optionally inside `<pre>` and a
//! table with a column of line numbers.

use vstd::prelude::*;
use vstd::string::*;
use vstd::utf8::*;
use crate::lexer::token_views;
use crate::token::{short_code, Token, TokenType};

verus! {

/// Something that renders tokens.
pub trait Formatter {
    /// The style sheet that the formatter gives for an argument; what it
    /// holds depends on the formatter.
    spec fn stylesheet(&self, arg: Seq<char>) -> Seq<char>;

    /// What the formatter makes of a token sequence, as UTF-8 bytes.
    spec fn rendering(&self, toks: Seq<(Seq<char>, TokenType)>) -> Seq<u8>;

    /// A style sheet for the formatter.
    fn get_stylesheet(&self, arg: &str) -> (r: String)
        ensures
            r@ == self.stylesheet(arg@),
    ;

    /// The rendering of a token sequence, as UTF-8 bytes.
    fn format<'a>(&mut self, source: &Vec<Token<'a>>) -> (r: Vec<u8>)
        ensures
            r@ == old(self).rendering(token_views(source@)),
    ;
}

/// The escaped form of one byte of text: the five characters that HTML
/// gives meaning to become entities.
pub open spec fn escape_byte(b: u8) -> Seq<u8> {
    if b == 0x3C {
        encode_utf8("&lt;"@)
    } else if b == 0x3E {
        encode_utf8("&gt;"@)
    } else if b == 0x26 {
        encode_utf8("&amp;"@)
    } else if b == 0x22 {
        encode_utf8("&quot;"@)
    } else if b == 0x27 {
        encode_utf8("&#39;"@)
    } else {
        seq![b]
    }
}

/// The escaped form of a text.
pub open spec fn escape_html(s: Seq<u8>) -> Seq<u8>
    decreases s.len(),
{
    if s.len() == 0 {
        seq![]
    } else {
        escape_html(s.drop_last()) + escape_byte(s.last())
    }
}

/// The style class of a token type: the prefix and its short code, or none
/// for a type whose short code is empty.
pub open spec fn style_class(prefix: Seq<char>, t: TokenType) -> Option<Seq<char>> {
    if short_code(t).len() == 0 {
        None
    } else {
        Some(prefix + short_code(t))
    }
}

/// Rendering in progress: the output so far, the class of the span left
/// open, and the number of line breaks written.
pub struct Render {
    pub out: Seq<u8>,
    pub last: Option<Seq<char>>,
    pub lines: nat,
}

/// What switches from the open span to one of another class: close the
/// open one, open the new one.
pub open spec fn switch_span(last: Option<Seq<char>>, cls: Option<Seq<char>>) -> Seq<u8> {
    if cls != last {
        (if last is Some {
            encode_utf8("</span>"@)
        } else {
            seq![]
        }) + match cls {
            Some(c) => encode_utf8("<span class=\""@) + encode_utf8(c) + encode_utf8("\">"@),
            None => seq![],
        }
    } else {
        seq![]
    }
}

/// One line's piece of a token. A piece that a line break ends closes its
/// span, writes the break and leaves no span open.
pub open spec fn emit_part(st: Render, cls: Option<Seq<char>>, part: Seq<u8>, at_end: bool) -> Render {
    let out = st.out + switch_span(st.last, cls) + escape_html(part);
    if at_end {
        Render { out, last: cls, lines: st.lines }
    } else {
        Render {
            out: out + (if cls is Some {
                encode_utf8("</span>"@)
            } else {
                seq![]
            }) + seq![0x0Au8],
            last: None,
            lines: st.lines + 1,
        }
    }
}

/// The length of a text's first line, up to its first line break.
pub open spec fn line_len(text: Seq<u8>) -> nat
    decreases text.len(),
{
    if text.len() == 0 || text[0] == 0x0A {
        0
    } else {
        1 + line_len(text.drop_first())
    }
}

/// A token's text, piece by piece between line breaks.
pub open spec fn emit_text(st: Render, cls: Option<Seq<char>>, text: Seq<u8>) -> Render
    decreases text.len(),
{
    let k = line_len(text);
    if k >= text.len() {
        emit_part(st, cls, text, true)
    } else {
        emit_text(
            emit_part(st, cls, text.subrange(0, k as int), false),
            cls,
            text.subrange((k + 1) as int, text.len() as int),
        )
    }
}

/// One token; a token with empty text writes nothing.
pub open spec fn emit_token(prefix: Seq<char>, st: Render, t: (Seq<char>, TokenType)) -> Render {
    if t.0.len() == 0 {
        st
    } else {
        emit_text(st, style_class(prefix, t.1), encode_utf8(t.0))
    }
}

/// A token sequence, in order.
pub open spec fn render_tokens(
    prefix: Seq<char>,
    st: Render,
    toks: Seq<(Seq<char>, TokenType)>,
) -> Render
    decreases toks.len(),
{
    if toks.len() == 0 {
        st
    } else {
        render_tokens(prefix, emit_token(prefix, st, toks[0]), toks.drop_first())
    }
}

/// The opening of the `<pre>` element, with its class and style where they
/// are set, and an empty span that keeps leading empty lines.
pub open spec fn pre_open(pre_class: Seq<char>, pre_styles: Seq<char>) -> Seq<u8> {
    encode_utf8("<pre"@) + (if pre_class.len() > 0 {
        encode_utf8(" class=\""@) + encode_utf8(pre_class) + encode_utf8("\""@)
    } else {
        seq![]
    }) + (if pre_styles.len() > 0 {
        encode_utf8(" style=\""@) + encode_utf8(pre_styles) + encode_utf8("\""@)
    } else {
        seq![]
    }) + encode_utf8("><span></span>"@)
}

/// The decimal digits of a number, in ASCII.
pub open spec fn decimal(n: nat) -> Seq<u8>
    decreases n,
{
    if n < 10 {
        seq![(0x30 + n) as u8]
    } else {
        decimal(n / 10) + seq![(0x30 + n % 10) as u8]
    }
}

/// A text right-aligned in a field of spaces of the given width.
pub open spec fn pad_left(s: Seq<u8>, width: nat) -> Seq<u8> {
    Seq::new(if width > s.len() { (width - s.len()) as nat } else { 0 }, |_i: int| 0x20u8) + s
}

/// The numbers from 1 to `count`, one per line, right-aligned to `width`.
pub open spec fn line_numbers(count: nat, width: nat) -> Seq<u8>
    decreases count,
{
    if count == 0 {
        seq![]
    } else {
        line_numbers((count - 1) as nat, width) + pad_left(decimal(count), width) + seq![0x0Au8]
    }
}

/// The opening of the line-number table, up to the start of the numbers.
pub open spec fn table_open(pre_class: Seq<char>) -> Seq<u8> {
    encode_utf8("<table"@) + (if pre_class.len() > 0 {
        encode_utf8(" class=\""@) + encode_utf8(pre_class) + encode_utf8("table\""@)
    } else {
        seq![]
    }) + encode_utf8("><tr><td class=\"linenos\"><pre>"@)
}

/// The HTML rendering of a token sequence: the lines alone, without
/// wrapping; else inside a `<pre>` element, in a table beside line numbers
/// where those are asked for.
pub open spec fn html_output(
    pre_class: Seq<char>,
    pre_styles: Seq<char>,
    classprefix: Seq<char>,
    linenos: bool,
    nowrap: bool,
    toks: Seq<(Seq<char>, TokenType)>,
) -> Seq<u8> {
    if nowrap {
        render_tokens(classprefix, Render { out: seq![], last: None, lines: 0 }, toks).out
    } else {
        let fin = render_tokens(
            classprefix,
            Render { out: pre_open(pre_class, pre_styles), last: None, lines: 0 },
            toks,
        );
        if linenos {
            lineno_table(pre_class, fin.lines, fin.out + encode_utf8("</pre>\n"@))
        } else {
            fin.out + encode_utf8("</pre>\n"@)
        }
    }
}

/// A non-empty text has a non-empty encoding.
proof fn lemma_encode_nonempty(s: Seq<char>)
    requires
        s.len() > 0,
    ensures
        encode_utf8(s).len() > 0,
{
    vstd::utf8::encode_utf8_first_scalar(s);
}

/// The table around the lines: a cell of line numbers, then a cell of code.
pub open spec fn lineno_table(pre_class: Seq<char>, count: nat, code: Seq<u8>) -> Seq<u8> {
    table_open(pre_class) + line_numbers(
        count,
        decimal(count + 1).len(),
    ) + encode_utf8("</pre>\n</td><td class=\"code\">"@) + code + encode_utf8(
        "</td></tr></table>\n"@,
    )
}

/// Appends the decimal digits of a number.
fn push_decimal(out: &mut Vec<u8>, n: usize)
    ensures
        final(out)@ == old(out)@ + decimal(n as nat),
    decreases n,
{
    if n >= 10 {
        push_decimal(out, n / 10);
    }
    out.push(0x30 + (n % 10) as u8);
    assert(out@ =~= old(out)@ + decimal(n as nat));
}

/// The number of decimal digits of a number.
fn decimal_len(n: usize) -> (r: usize)
    ensures
        r == decimal(n as nat).len(),
        1 <= r <= n + 1,
    decreases n,
{
    if n < 10 {
        1
    } else {
        decimal_len(n / 10) + 1
    }
}

/// Appends the numbers from 1 to `count`, one per line, right-aligned to
/// the width of `count + 1`.
fn push_line_numbers(out: &mut Vec<u8>, count: usize)
    requires
        count < usize::MAX,
    ensures
        final(out)@ == old(out)@ + line_numbers(count as nat, decimal((count + 1) as nat).len()),
{
    let ghost head = out@;
    let maxlen = decimal_len(count + 1);
    let mut line: usize = 1;
    while line <= count
        invariant
            1 <= line <= count + 1,
            count < usize::MAX,
            maxlen == decimal((count + 1) as nat).len(),
            out@ == head + line_numbers((line - 1) as nat, maxlen as nat),
        decreases count + 1 - line,
    {
        let ghost pre = out@;
        let d = decimal_len(line);
        if d < maxlen {
            let mut k: usize = d;
            while k < maxlen
                invariant
                    d <= k <= maxlen,
                    out@ == pre + Seq::new((k - d) as nat, |_i: int| 0x20u8),
                decreases maxlen - k,
            {
                out.push(0x20);
                k += 1;
                assert(out@ =~= pre + Seq::new((k - d) as nat, |_i: int| 0x20u8));
            }
        }
        let ghost padded = out@;
        assert(padded =~= pre + Seq::new(
            if maxlen > d { (maxlen - d) as nat } else { 0 },
            |_i: int| 0x20u8,
        ));
        push_decimal(out, line);
        out.push(0x0A);
        assert(out@ =~= head + line_numbers(line as nat, maxlen as nat));
        line += 1;
    }
}

/// Appends bytes.
fn push_all(out: &mut Vec<u8>, b: &Vec<u8>)
    ensures
        final(out)@ == old(out)@ + b@,
{
    let mut i: usize = 0;
    while i < b.len()
        invariant
            0 <= i <= b@.len(),
            out@ == old(out)@ + b@.subrange(0, i as int),
        decreases b@.len() - i,
    {
        out.push(b[i]);
        i += 1;
        assert(out@ =~= old(out)@ + b@.subrange(0, i as int));
    }
    assert(b@.subrange(0, b@.len() as int) =~= b@);
}

/// Appends the bytes of a string.
fn push_str(out: &mut Vec<u8>, s: &str)
    ensures
        final(out)@ == old(out)@ + s.spec_bytes(),
{
    let b = s.as_bytes();
    let mut i: usize = 0;
    while i < b.len()
        invariant
            b@ == s.spec_bytes(),
            0 <= i <= b@.len(),
            out@ == old(out)@ + b@.subrange(0, i as int),
        decreases b@.len() - i,
    {
        out.push(b[i]);
        i += 1;
        assert(out@ =~= old(out)@ + b@.subrange(0, i as int));
    }
    assert(b@.subrange(0, b@.len() as int) =~= b@);
}

/// Appends the escaped bytes of a range of a text.
fn push_escaped(out: &mut Vec<u8>, source: &[u8], from: usize, to: usize)
    requires
        from <= to <= source@.len(),
    ensures
        final(out)@ == old(out)@ + escape_html(source@.subrange(from as int, to as int)),
{
    let mut i: usize = from;
    while i < to
        invariant
            from <= i <= to <= source@.len(),
            out@ == old(out)@ + escape_html(source@.subrange(from as int, i as int)),
        decreases to - i,
    {
        let ghost pre = out@;
        let b = source[i];
        if b == 0x3C {
            push_str(out, "&lt;");
        } else if b == 0x3E {
            push_str(out, "&gt;");
        } else if b == 0x26 {
            push_str(out, "&amp;");
        } else if b == 0x22 {
            push_str(out, "&quot;");
        } else if b == 0x27 {
            push_str(out, "&#39;");
        } else {
            out.push(b);
        }
        proof {
            let s = source@.subrange(from as int, i + 1);
            assert(s.drop_last() =~= source@.subrange(from as int, i as int));
            assert(out@ =~= pre + escape_byte(b));
        }
        i += 1;
    }
}

/// Where a text's first line ends: its length, when no line break comes
/// before `i` and one stands at `i` or the text ends there.
proof fn lemma_line_len(text: Seq<u8>, start: int, i: int)
    requires
        0 <= start <= i <= text.len(),
        forall|j: int| start <= j < i ==> text[j] != 0x0A,
        i == text.len() || text[i] == 0x0A,
    ensures
        line_len(text.subrange(start, text.len() as int)) == i - start,
    decreases i - start,
{
    let t = text.subrange(start, text.len() as int);
    if start < i {
        lemma_line_len(text, start + 1, i);
        assert(t.drop_first() =~= text.subrange(start + 1, text.len() as int));
    }
}

/// Writes one line's piece of a token, as `emit_part` says, but for the
/// class left open after a last piece, which the caller sets.
fn write_part(
    cls: &Option<String>,
    text: &[u8],
    from: usize,
    to: usize,
    at_end: bool,
    last: &mut Option<String>,
    lines: &mut usize,
    out: &mut Vec<u8>,
)
    requires
        from <= to <= text@.len(),
        *old(lines) <= old(out)@.len(),
    ensures
        ({
            let r = emit_part(
                Render { out: old(out)@, last: opt_view(old(last)), lines: *old(lines) as nat },
                opt_view(cls),
                text@.subrange(from as int, to as int),
                at_end,
            );
            &&& final(out)@ == r.out
            &&& *final(lines) == r.lines
            &&& !at_end ==> opt_view(final(last)) == r.last
            &&& *final(lines) <= final(out)@.len()
            &&& final(out)@.len() - *final(lines) >= old(out)@.len() - *old(lines)
        }),
{
    if !same_class(cls, last) {
        if last.is_some() {
            push_str(out, "</span>");
        }
        if let Some(c) = cls {
            push_str(out, "<span class=\"");
            push_str(out, c.as_str());
            push_str(out, "\">");
        }
    }
    push_escaped(out, text, from, to);
    if !at_end {
        if cls.is_some() {
            push_str(out, "</span>");
        }
        out.push(0x0A);
        // the output's length, a `usize`, bounds the count
        let _ = out.len();
        *lines = *lines + 1;
        *last = None;
    }
    proof {
        let st = Render { out: old(out)@, last: opt_view(old(last)), lines: *old(lines) as nat };
        let r = emit_part(st, opt_view(cls), text@.subrange(from as int, to as int), at_end);
        assert(final(out)@ =~= r.out);
    }
}

/// Writes a token's text line by line, as `emit_text` says.
fn write_text(
    cls: Option<String>,
    text: &[u8],
    last: &mut Option<String>,
    lines: &mut usize,
    out: &mut Vec<u8>,
)
    requires
        *old(lines) <= old(out)@.len(),
    ensures
        ({
            let r = emit_text(
                Render { out: old(out)@, last: opt_view(old(last)), lines: *old(lines) as nat },
                opt_view(&cls),
                text@,
            );
            &&& final(out)@ == r.out
            &&& *final(lines) == r.lines
            &&& opt_view(final(last)) == r.last
            &&& *final(lines) <= final(out)@.len()
            &&& final(out)@.len() - *final(lines) >= old(out)@.len() - *old(lines)
        }),
{
    let ghost c = opt_view(&cls);
    let ghost target = emit_text(
        Render { out: old(out)@, last: opt_view(old(last)), lines: *old(lines) as nat },
        c,
        text@,
    );
    assert(text@.subrange(0, text@.len() as int) =~= text@);
    let mut start: usize = 0;
    let mut i: usize = 0;
    while i < text.len()
        invariant
            0 <= start <= i <= text@.len(),
            c == opt_view(&cls),
            forall|j: int| start <= j < i ==> text@[j] != 0x0A,
            *lines <= out@.len(),
            out@.len() - *lines >= old(out)@.len() - *old(lines),
            target == emit_text(
                Render { out: out@, last: opt_view(last), lines: *lines as nat },
                c,
                text@.subrange(start as int, text@.len() as int),
            ),
        decreases text@.len() - i,
    {
        if text[i] == 0x0A {
            proof {
                lemma_line_len(text@, start as int, i as int);
                let t = text@.subrange(start as int, text@.len() as int);
                assert(t.subrange(0, i - start) =~= text@.subrange(start as int, i as int));
                assert(t.subrange(i - start + 1, t.len() as int) =~= text@.subrange(
                    i + 1,
                    text@.len() as int,
                ));
            }
            write_part(&cls, text, start, i, false, last, lines, out);
            start = i + 1;
        }
        i += 1;
    }
    proof {
        lemma_line_len(text@, start as int, i as int);
    }
    write_part(&cls, text, start, i, true, last, lines, out);
    *last = cls;
}

/// Whether two optional classes are the same.
fn same_class(a: &Option<String>, b: &Option<String>) -> (r: bool)
    ensures
        r == (opt_view(a) == opt_view(b)),
{
    match (a, b) {
        (Some(x), Some(y)) => x.eq(y),
        (None, None) => true,
        _ => false,
    }
}

/// An optional string as an optional character sequence.
pub open spec fn opt_view(a: &Option<String>) -> Option<Seq<char>> {
    match a {
        Some(s) => Some(s@),
        None => None,
    }
}

/// An HTML formatter and its options.
pub struct HtmlFormatter {
    pre_class: String,
    pre_styles: String,
    classprefix: String,
    linenos: bool,
    nowrap: bool,
}

impl HtmlFormatter {
    /// The class of the `<pre>` element.
    pub closed spec fn pre_class(&self) -> Seq<char> {
        self.pre_class@
    }

    /// The inline style of the `<pre>` element.
    pub closed spec fn pre_styles(&self) -> Seq<char> {
        self.pre_styles@
    }

    /// The prefix of every style class.
    pub closed spec fn classprefix(&self) -> Seq<char> {
        self.classprefix@
    }

    /// Whether a column of line numbers is written.
    pub closed spec fn linenos(&self) -> bool {
        self.linenos
    }

    /// Whether only the lines are written, with no wrapping element.
    pub closed spec fn nowrap(&self) -> bool {
        self.nowrap
    }

    /// A formatter with class `highlight` and line numbers.
    pub fn new() -> (r: Self)
        ensures
            r.pre_class() == "highlight"@,
            r.pre_styles().len() == 0,
            r.classprefix().len() == 0,
            r.linenos(),
            !r.nowrap(),
    {
        HtmlFormatter {
            pre_class: String::from_str("highlight"),
            pre_styles: String::new(),
            classprefix: String::new(),
            linenos: true,
            nowrap: false,
        }
    }

    /// The style class of a token type.
    pub fn get_style_class(&self, ttype: TokenType) -> (r: Option<String>)
        ensures
            opt_view(&r) == style_class(self.classprefix(), ttype),
    {
        let short = ttype.as_short_str();
        if short.is_empty() {
            None
        } else {
            let mut cls = self.classprefix.clone();
            cls.append(short);
            Some(cls)
        }
    }

    /// Writes the tokens line by line: each piece of text escaped, inside a
    /// span of its type's class that a line break or a change of class
    /// closes. Returns the number of line breaks written.
    pub fn format_lines<'a>(&self, source: &Vec<Token<'a>>, out: &mut Vec<u8>) -> (r: usize)
        ensures
            ({
                let fin = render_tokens(
                    self.classprefix(),
                    Render { out: old(out)@, last: None, lines: 0 },
                    token_views(source@),
                );
                final(out)@ == fin.out && r == fin.lines
            }),
            old(out)@.len() + r <= final(out)@.len(),
    {
        let ghost toks = token_views(source@);
        let ghost prefix = self.classprefix();
        let ghost target = render_tokens(prefix, Render { out: out@, last: None, lines: 0 }, toks);
        let mut last_cls: Option<String> = None;
        let mut linecount: usize = 0;
        let mut k: usize = 0;
        assert(toks.subrange(0, toks.len() as int) =~= toks);
        while k < source.len()
            invariant
                0 <= k <= source@.len(),
                toks == token_views(source@),
                prefix == self.classprefix(),
                old(out)@.len() + linecount <= out@.len(),
                target == render_tokens(
                    prefix,
                    Render { out: out@, last: opt_view(&last_cls), lines: linecount as nat },
                    toks.subrange(k as int, toks.len() as int),
                ),
            decreases source@.len() - k,
        {
            let tok = &source[k];
            let cls = self.get_style_class(tok.ttype);
            let ghost st = Render { out: out@, last: opt_view(&last_cls), lines: linecount as nat };
            proof {
                let rest = toks.subrange(k as int, toks.len() as int);
                assert(rest[0] == tok.view());
                assert(rest.drop_first() =~= toks.subrange(k + 1, toks.len() as int));
            }
            if !tok.text.is_empty() {
                write_text(cls, tok.text.as_bytes(), &mut last_cls, &mut linecount, out);
            }
            k += 1;
        }
        linecount
    }

    /// Writes the opening of the `<pre>` element.
    fn push_pre_open(&self, out: &mut Vec<u8>)
        ensures
            final(out)@ == old(out)@ + pre_open(self.pre_class(), self.pre_styles()),
    {
        let ghost start = out@;
        push_str(out, "<pre");
        let ghost a = out@;
        if !self.pre_class.as_str().is_empty() {
            push_str(out, " class=\"");
            push_str(out, self.pre_class.as_str());
            push_str(out, "\"");
        }
        let ghost b = out@;
        if !self.pre_styles.as_str().is_empty() {
            push_str(out, " style=\"");
            push_str(out, self.pre_styles.as_str());
            push_str(out, "\"");
        }
        let ghost c = out@;
        push_str(out, "><span></span>");
        proof {
            let class_attr = if self.pre_class().len() > 0 {
                encode_utf8(" class=\""@) + encode_utf8(self.pre_class()) + encode_utf8("\""@)
            } else {
                seq![]
            };
            let style_attr = if self.pre_styles().len() > 0 {
                encode_utf8(" style=\""@) + encode_utf8(self.pre_styles()) + encode_utf8("\""@)
            } else {
                seq![]
            };
            assert(b =~= a + class_attr);
            assert(c =~= b + style_attr);
            assert(out@ =~= start + pre_open(self.pre_class(), self.pre_styles()));
        }
    }

    /// Writes the lines inside a `<pre>` element. Returns the number of line
    /// breaks written.
    pub fn wrap_pre<'a>(&self, source: &Vec<Token<'a>>, out: &mut Vec<u8>) -> (r: usize)
        ensures
            ({
                let fin = render_tokens(
                    self.classprefix(),
                    Render {
                        out: old(out)@ + pre_open(self.pre_class(), self.pre_styles()),
                        last: None,
                        lines: 0,
                    },
                    token_views(source@),
                );
                final(out)@ == fin.out + encode_utf8("</pre>\n"@) && r == fin.lines
            }),
            old(out)@.len() + r < final(out)@.len(),
    {
        self.push_pre_open(out);
        proof {
            reveal_strlit("<pre");
            lemma_encode_nonempty("<pre"@);
            crate::text::lemma_encode_concat("<pre"@, seq![]);
        }
        let linecount = self.format_lines(source, out);
        push_str(out, "</pre>\n");
        linecount
    }

    /// Writes the opening of the line-number table.
    fn push_table_open(&self, out: &mut Vec<u8>)
        ensures
            final(out)@ == old(out)@ + table_open(self.pre_class()),
    {
        let ghost start = out@;
        push_str(out, "<table");
        let ghost a = out@;
        if !self.pre_class.as_str().is_empty() {
            push_str(out, " class=\"");
            push_str(out, self.pre_class.as_str());
            push_str(out, "table\"");
        }
        let ghost b = out@;
        push_str(out, "><tr><td class=\"linenos\"><pre>");
        proof {
            let class_attr = if self.pre_class().len() > 0 {
                encode_utf8(" class=\""@) + encode_utf8(self.pre_class()) + encode_utf8("table\""@)
            } else {
                seq![]
            };
            assert(b =~= a + class_attr);
            assert(out@ =~= start + table_open(self.pre_class()));
        }
    }

    /// Writes the `<pre>` element in a table, beside a column that numbers
    /// its lines. Returns the number of line breaks written.
    pub fn wrap_linenos<'a>(&self, source: &Vec<Token<'a>>, out: &mut Vec<u8>) -> (r: usize)
        ensures
            ({
                let fin = render_tokens(
                    self.classprefix(),
                    Render { out: pre_open(self.pre_class(), self.pre_styles()), last: None, lines: 0 },
                    token_views(source@),
                );
                &&& final(out)@ == old(out)@ + lineno_table(
                    self.pre_class(),
                    fin.lines,
                    fin.out + encode_utf8("</pre>\n"@),
                )
                &&& r == fin.lines
            }),
    {
        let ghost start = out@;
        let mut buffer: Vec<u8> = Vec::new();
        assert(buffer@ + pre_open(self.pre_class(), self.pre_styles()) =~= pre_open(
            self.pre_class(),
            self.pre_styles(),
        ));
        let linecount = self.wrap_pre(source, &mut buffer);
        // the buffer's length, a `usize`, exceeds the count
        let _ = buffer.len();
        self.push_table_open(out);
        let ghost a = out@;
        push_line_numbers(out, linecount);
        let ghost b = out@;
        push_str(out, "</pre>\n</td><td class=\"code\">");
        let ghost c = out@;
        push_all(out, &buffer);
        let ghost d = out@;
        push_str(out, "</td></tr></table>\n");
        proof {
            assert(out@ =~= start + lineno_table(self.pre_class(), linecount as nat, buffer@));
        }
        linecount
    }

    /// The whole rendering, as the options choose.
    pub fn render<'a>(&self, source: &Vec<Token<'a>>) -> (r: Vec<u8>)
        ensures
            r@ == html_output(
                self.pre_class(),
                self.pre_styles(),
                self.classprefix(),
                self.linenos(),
                self.nowrap(),
                token_views(source@),
            ),
    {
        let mut out: Vec<u8> = Vec::new();
        if self.nowrap {
            self.format_lines(source, &mut out);
        } else if self.linenos {
            self.wrap_linenos(source, &mut out);
            assert(out@ =~= Seq::<u8>::empty() + out@);
        } else {
            self.wrap_pre(source, &mut out);
            assert(Seq::<u8>::empty() + pre_open(self.pre_class(), self.pre_styles()) =~= pre_open(
                self.pre_class(),
                self.pre_styles(),
            ));
        }
        out
    }

    /// The formatter with another class for the `<pre>` element.
    pub fn with_pre_class(self, value: String) -> (r: Self)
        ensures
            r.pre_class() == value@,
            r.pre_styles() == self.pre_styles(),
            r.classprefix() == self.classprefix(),
            r.linenos() == self.linenos(),
            r.nowrap() == self.nowrap(),
    {
        HtmlFormatter { pre_class: value, ..self }
    }

    /// The formatter with another inline style for the `<pre>` element.
    pub fn with_pre_styles(self, value: String) -> (r: Self)
        ensures
            r.pre_class() == self.pre_class(),
            r.pre_styles() == value@,
            r.classprefix() == self.classprefix(),
            r.linenos() == self.linenos(),
            r.nowrap() == self.nowrap(),
    {
        HtmlFormatter { pre_styles: value, ..self }
    }

    /// The formatter with another prefix for style classes.
    pub fn with_classprefix(self, value: String) -> (r: Self)
        ensures
            r.pre_class() == self.pre_class(),
            r.pre_styles() == self.pre_styles(),
            r.classprefix() == value@,
            r.linenos() == self.linenos(),
            r.nowrap() == self.nowrap(),
    {
        HtmlFormatter { classprefix: value, ..self }
    }

    /// The formatter with or without the column of line numbers.
    pub fn with_linenos(self, value: bool) -> (r: Self)
        ensures
            r.pre_class() == self.pre_class(),
            r.pre_styles() == self.pre_styles(),
            r.classprefix() == self.classprefix(),
            r.linenos() == value,
            r.nowrap() == self.nowrap(),
    {
        HtmlFormatter { linenos: value, ..self }
    }

    /// The formatter with or without the wrapping elements.
    pub fn with_nowrap(self, value: bool) -> (r: Self)
        ensures
            r.pre_class() == self.pre_class(),
            r.pre_styles() == self.pre_styles(),
            r.classprefix() == self.classprefix(),
            r.linenos() == self.linenos(),
            r.nowrap() == value,
    {
        HtmlFormatter { nowrap: value, ..self }
    }

    /// Writes the escaped text of `source`.
    pub fn write_escaped(&self, source: &str, out: &mut Vec<u8>)
        ensures
            final(out)@ == old(out)@ + escape_html(source.spec_bytes()),
    {
        let b = source.as_bytes();
        push_escaped(out, b, 0, b.len());
        assert(b@.subrange(0, b@.len() as int) =~= b@);
    }
}

impl Formatter for HtmlFormatter {
    /// No style sheet is generated: it is empty.
    open spec fn stylesheet(&self, arg: Seq<char>) -> Seq<char> {
        seq![]
    }

    /// The rendering that the options choose.
    open spec fn rendering(&self, toks: Seq<(Seq<char>, TokenType)>) -> Seq<u8> {
        html_output(
            self.pre_class(),
            self.pre_styles(),
            self.classprefix(),
            self.linenos(),
            self.nowrap(),
            toks,
        )
    }

    fn get_stylesheet(&self, arg: &str) -> (r: String) {
        String::new()
    }

    fn format<'a>(&mut self, source: &Vec<Token<'a>>) -> (r: Vec<u8>) {
        self.render(source)
    }
}

} // verus!
