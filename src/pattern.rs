//! Compiled regular expressions, as the lexer sees them: a pattern source
//! held beside the automaton that `regex` built from it.

use vstd::prelude::*;
use vstd::string::*;
use vstd::utf8::*;
use regex::Regex;

verus! {

#[verifier::external_type_specification]
#[verifier::external_body]
pub struct ExRegex(regex::Regex);

#[verifier::external_type_specification]
#[verifier::external_body]
pub struct ExRegexError(regex::Error);

/// Whether `regex` accepts a pattern source.
pub uninterp spec fn regex_compiles(source: Seq<char>) -> bool;

/// How many capture slots a compiled pattern has, the whole match included.
pub uninterp spec fn regex_slot_count(source: Seq<char>) -> usize;

/// What `regex` finds for a pattern in a text: `None` where nothing matches,
/// else one slot per capture group (slot 0 for the whole match), each the
/// byte span that its group matched, or `None` where it took no part.
pub uninterp spec fn regex_captures(source: Seq<char>, text: Seq<char>) -> Option<
    Seq<Option<(usize, usize)>>,
>;

/// Byte spans that can be cut out of `bytes`: ordered, within bounds and on
/// character boundaries, with the whole match present in slot 0.
pub open spec fn spans_well_formed(slots: Seq<Option<(usize, usize)>>, bytes: Seq<u8>) -> bool {
    &&& slots.len() > 0
    &&& slots[0] is Some
    &&& forall|i: int|
        #![trigger slots[i]]
        0 <= i < slots.len() ==> match slots[i] {
            Some((s, e)) => {
                &&& s <= e <= bytes.len()
                &&& is_char_boundary(bytes, s as int)
                &&& is_char_boundary(bytes, e as int)
            },
            None => true,
        }
}

/// A pattern source together with the regular expression compiled from it.
/// The two are only ever built together, by `compile`.
pub struct Pattern {
    source: String,
    compiled: Regex,
}

impl Pattern {
    /// The source that the expression was compiled from.
    pub closed spec fn source(&self) -> Seq<char> {
        self.source@
    }
}

/// Relies on regex::Regex::new: it accepts or refuses a source by its text
/// alone, and on success the expression is the one that the source denotes.
#[verifier::external_body]
pub(crate) fn compile(source: String) -> (r: Result<Pattern, regex::Error>)
    ensures
        r is Ok <==> regex_compiles(source@),
        r matches Ok(p) ==> p.source() == source@,
{
    match Regex::new(&source) {
        Ok(compiled) => Ok(Pattern { source, compiled }),
        Err(e) => Err(e),
    }
}

/// Relies on regex::Regex::captures_len: the number of capture slots,
/// group 0 included, which the documentation guarantees to be positive.
#[verifier::external_body]
pub(crate) fn slot_count(p: &Pattern) -> (r: usize)
    ensures
        r == regex_slot_count(p.source()),
        r > 0,
{
    p.compiled.captures_len()
}

/// Relies on regex::Regex::captures: the leftmost-first match and the span of
/// each group in it. The documentation guarantees that group 0 is present,
/// that there is one slot per group, and that each span has its start before
/// its end and both on UTF-8 boundaries of the text.
#[verifier::external_body]
pub(crate) fn captures(p: &Pattern, text: &str) -> (r: Option<Vec<Option<(usize, usize)>>>)
    ensures
        match r {
            Some(v) => {
                &&& regex_captures(p.source(), text@) == Some(v@)
                &&& v@.len() == regex_slot_count(p.source())
                &&& spans_well_formed(v@, text.spec_bytes())
            },
            None => regex_captures(p.source(), text@) is None,
        },
{
    match p.compiled.captures(text) {
        Some(c) => Some(c.iter().map(|g| g.map(|m| (m.start(), m.end()))).collect()),
        None => None,
    }
}

} // verus!
