//! Facts about string slices and their UTF-8 bytes, and the few slicing
//! operations that the lexer needs, each stated over both views.

use vstd::prelude::*;
use vstd::string::*;
use vstd::utf8::*;

verus! {

/// The UTF-8 encoding of a concatenation is the concatenation of the encodings.
pub proof fn lemma_encode_concat(a: Seq<char>, b: Seq<char>)
    ensures
        encode_utf8(a + b) == encode_utf8(a) + encode_utf8(b),
    decreases a.len(),
{
    if a.len() == 0 {
        assert(a + b =~= b);
        assert(encode_utf8(a) + encode_utf8(b) =~= encode_utf8(b));
    } else {
        assert((a + b).drop_first() =~= a.drop_first() + b);
        lemma_encode_concat(a.drop_first(), b);
        assert((a + b)[0] == a[0]);
        assert(encode_utf8(a + b) =~= encode_utf8(a) + encode_utf8(b));
    }
}

/// Character sequences with the same encoding are equal.
pub proof fn lemma_encode_injective(a: Seq<char>, b: Seq<char>)
    requires
        encode_utf8(a) == encode_utf8(b),
    ensures
        a == b,
{
    encode_utf8_decode_utf8(a);
    encode_utf8_decode_utf8(b);
}

/// A boundary of a string is a boundary of every prefix that reaches it.
pub proof fn lemma_boundary_in_prefix(bytes: Seq<u8>, from: int, to: int)
    requires
        valid_utf8(bytes),
        0 <= from <= to <= bytes.len(),
        is_char_boundary(bytes, from),
        is_char_boundary(bytes, to),
    ensures
        valid_utf8(bytes.subrange(0, to)),
        is_char_boundary(bytes.subrange(0, to), from),
{
    valid_utf8_split(bytes, to);
    let pre = bytes.subrange(0, to);
    if from == to {
        is_char_boundary_start_end_of_seq(pre);
    } else {
        is_char_boundary_iff_not_is_continuation_byte(bytes, from);
        is_char_boundary_iff_not_is_continuation_byte(pre, from);
    }
}

/// Whether two strings hold the same characters.
pub fn str_eq(a: &str, b: &str) -> (r: bool)
    ensures
        r == (a@ == b@),
{
    let x = a.as_bytes();
    let y = b.as_bytes();
    if x.len() != y.len() {
        return false;
    }
    let mut i: usize = 0;
    while i < x.len()
        invariant
            x@ == a.spec_bytes(),
            y@ == b.spec_bytes(),
            x@.len() == y@.len(),
            0 <= i <= x@.len(),
            forall|j: int| 0 <= j < i ==> x@[j] == y@[j],
        decreases x@.len() - i,
    {
        if x[i] != y[i] {
            return false;
        }
        i += 1;
    }
    proof {
        assert(x@ =~= y@);
        lemma_encode_injective(a@, b@);
    }
    true
}

/// Splits a string at a byte offset that falls on a character boundary.
pub fn split_at_boundary<'a>(s: &'a str, mid: usize) -> (r: (&'a str, &'a str))
    requires
        is_char_boundary(s.spec_bytes(), mid as int),
    ensures
        r.0.spec_bytes() == s.spec_bytes().subrange(0, mid as int),
        r.1.spec_bytes() == s.spec_bytes().subrange(mid as int, s.spec_bytes().len() as int),
        r.0@ + r.1@ == s@,
{
    proof {
        encode_utf8_valid_utf8(s@);
        is_char_boundary_len_bound(s.spec_bytes(), mid as int);
    }
    let r = s.split_at(mid);
    proof {
        lemma_encode_concat(r.0@, r.1@);
        assert(r.0.spec_bytes() + r.1.spec_bytes() =~= s.spec_bytes());
        lemma_encode_injective(r.0@ + r.1@, s@);
    }
    r
}

/// A boundary lies within the string.
proof fn is_char_boundary_len_bound(bytes: Seq<u8>, index: int)
    requires
        valid_utf8(bytes),
        is_char_boundary(bytes, index),
    ensures
        0 <= index <= bytes.len(),
    decreases bytes.len(),
{
    if index != 0 {
        let tail = pop_first_scalar(bytes);
        assert(tail.len() < bytes.len()) by {
            assert(valid_first_scalar(bytes));
        }
        valid_utf8_split(bytes, 0);
        is_char_boundary_len_bound(tail, index - length_of_first_scalar(bytes));
    }
}

/// The part of a string between two byte offsets on character boundaries.
pub fn slice_between<'a>(s: &'a str, from: usize, to: usize) -> (r: &'a str)
    requires
        from <= to,
        is_char_boundary(s.spec_bytes(), from as int),
        is_char_boundary(s.spec_bytes(), to as int),
    ensures
        r.spec_bytes() == s.spec_bytes().subrange(from as int, to as int),
{
    proof {
        encode_utf8_valid_utf8(s@);
        is_char_boundary_len_bound(s.spec_bytes(), to as int);
        lemma_boundary_in_prefix(s.spec_bytes(), from as int, to as int);
    }
    let (head, _) = split_at_boundary(s, to);
    let (_, mid) = split_at_boundary(head, from);
    proof {
        assert(mid.spec_bytes() =~= s.spec_bytes().subrange(from as int, to as int));
    }
    mid
}

/// Splits off the first character of a non-empty string.
pub fn split_first_char<'a>(s: &'a str) -> (r: (&'a str, &'a str))
    requires
        s@.len() > 0,
    ensures
        r.0@ == seq![s@[0]],
        r.1@ == s@.drop_first(),
        r.0.spec_bytes() + r.1.spec_bytes() == s.spec_bytes(),
{
    let c = s.get_char(0);
    let u = c as u32;
    let w: usize = if u < 0x80 {
        1
    } else if u < 0x800 {
        2
    } else if u < 0x10000 {
        3
    } else {
        4
    };
    proof {
        let bytes = s.spec_bytes();
        char_is_scalar(c);
        assert(encode_scalar(u).len() == w);
        assert(bytes == encode_scalar(u) + encode_utf8(s@.drop_first()));
        encode_utf8_first_scalar(s@);
        encode_utf8_valid_utf8(s@);
        assert(pop_first_scalar(bytes) =~= encode_utf8(s@.drop_first()));
        encode_utf8_valid_utf8(s@.drop_first());
        is_char_boundary_start_end_of_seq(pop_first_scalar(bytes));
        assert(is_char_boundary(bytes, w as int));
    }
    let r = split_at_boundary(s, w);
    proof {
        let bytes = s.spec_bytes();
        assert(r.0.spec_bytes() =~= encode_scalar(u));
        assert(encode_utf8(seq![c]) =~= encode_scalar(u) + encode_utf8(seq![c].drop_first()));
        assert(encode_utf8(seq![c].drop_first()) =~= Seq::<u8>::empty());
        assert(encode_utf8(seq![c]) =~= encode_scalar(u));
        lemma_encode_injective(r.0@, seq![c]);
        assert(s@ =~= seq![c] + s@.drop_first());
        assert(r.1@ =~= s@.drop_first());
        assert(r.0.spec_bytes() + r.1.spec_bytes() =~= s.spec_bytes());
    }
    r
}

} // verus!
