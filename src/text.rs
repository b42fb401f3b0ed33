//! Moving between strings and their characters.
use vstd::prelude::*;
use vstd::std_specs::iter::IteratorSpec;
use vstd::string::StringSliceAdditionalSpecFns;
use vstd::utf8::{
    char_is_scalar, encode_scalar, encode_utf8, encode_utf8_decode_utf8, encode_utf8_first_scalar,
    encode_utf8_valid_utf8, is_char_boundary, pop_first_scalar,
};

verus! {

broadcast use {vstd::string::axiom_spec_iter, vstd::string::next_postcondition};

/// The characters of `s`, in order.
pub fn chars_of(s: &str) -> (r: Vec<char>)
    ensures
        r@ == s@,
{
    let mut it = s.chars();
    let mut r: Vec<char> = Vec::new();
    loop
        invariant
            r@ + it.remaining() == s@,
            it.decrease() is Some,
        ensures
            r@ == s@,
        decreases it.decrease()->0,
    {
        match it.next() {
            Some(c) => {
                r.push(c);
            },
            None => {
                assert(r@ =~= s@);
                break;
            },
        }
    }
    r
}

/// The UTF-8 encoding of `a + b` is that of `a` followed by that of `b`.
proof fn lemma_encode_concat(a: Seq<char>, b: Seq<char>)
    ensures
        encode_utf8(a + b) == encode_utf8(a) + encode_utf8(b),
    decreases a.len(),
{
    if a.len() == 0 {
        assert(a + b =~= b);
        assert(encode_utf8(a) + encode_utf8(b) =~= encode_utf8(b));
    } else {
        lemma_encode_concat(a.drop_first(), b);
        assert((a + b).drop_first() =~= a.drop_first() + b);
        assert((a + b)[0] == a[0]);
        assert(encode_utf8(a + b) =~= encode_utf8(a) + encode_utf8(b));
    }
}

/// Where the encoding of `a` ends inside that of `a + b`, a character starts.
proof fn lemma_encode_boundary(a: Seq<char>, b: Seq<char>)
    ensures
        is_char_boundary(encode_utf8(a + b), encode_utf8(a).len() as int),
    decreases a.len(),
{
    broadcast use encode_utf8_valid_utf8;

    let bytes = encode_utf8(a + b);
    lemma_encode_concat(a, b);
    if a.len() > 0 {
        encode_utf8_first_scalar(a + b);
        assert((a + b).drop_first() =~= a.drop_first() + b);
        assert((a + b)[0] == a[0]);
        let w = encode_scalar(a[0] as u32).len() as int;
        assert(pop_first_scalar(bytes) =~= encode_utf8(a.drop_first() + b));
        lemma_encode_boundary(a.drop_first(), b);
        assert(encode_utf8(a).len() == w + encode_utf8(a.drop_first()).len());
    }
}

/// Two strings with the same encoding hold the same characters.
proof fn lemma_encode_injective(a: Seq<char>, b: Seq<char>)
    requires
        encode_utf8(a) == encode_utf8(b),
    ensures
        a == b,
{
    encode_utf8_decode_utf8(a);
    encode_utf8_decode_utf8(b);
}

/// How many bytes the first `k` characters of `s` take in UTF-8.
pub open spec fn byte_offset(s: Seq<char>, k: int) -> nat {
    encode_utf8(s.take(k)).len()
}

/// The offsets of two positions differ by the encoded length of what lies
/// between them, and no offset passes the whole encoding.
pub proof fn lemma_byte_offset_step(s: Seq<char>, from: int, to: int)
    requires
        0 <= from <= to <= s.len(),
    ensures
        byte_offset(s, to) == byte_offset(s, from) + encode_utf8(s.subrange(from, to)).len(),
        byte_offset(s, to) <= encode_utf8(s).len(),
{
    assert(s.take(to) =~= s.take(from) + s.subrange(from, to));
    lemma_encode_concat(s.take(from), s.subrange(from, to));
    assert(s =~= s.take(to) + s.skip(to));
    lemma_encode_concat(s.take(to), s.skip(to));
}

/// How many bytes `c` takes in UTF-8.
pub fn utf8_width(c: char) -> (r: usize)
    ensures
        r == encode_scalar(c as u32).len(),
        encode_utf8(seq![c]).len() == r,
{
    proof {
        char_is_scalar(c);
        assert(seq![c].drop_first() =~= Seq::<char>::empty());
        assert(encode_utf8(seq![c]) == encode_scalar(c as u32) + encode_utf8(Seq::<char>::empty()));
        assert(encode_utf8(seq![c]) =~= encode_scalar(c as u32));
    }
    let v = c as u32;
    if v <= 0x7F {
        1
    } else if v <= 0x7FF {
        2
    } else if v <= 0xFFFF {
        3
    } else {
        4
    }
}

/// The part of `s` from character `from` up to character `to`, found by the
/// byte offsets of those characters.
pub(crate) fn char_slice<'a>(
    s: &'a str,
    from_byte: usize,
    to_byte: usize,
    Ghost(from): Ghost<int>,
    Ghost(to): Ghost<int>,
) -> (r: &'a str)
    requires
        0 <= from <= to <= s@.len(),
        from_byte == byte_offset(s@, from),
        to_byte == byte_offset(s@, to),
    ensures
        r@ == s@.subrange(from, to),
{
    let ghost c = s@;
    proof {
        assert(c =~= c.take(from) + c.skip(from));
        lemma_encode_concat(c.take(from), c.skip(from));
        lemma_encode_boundary(c.take(from), c.skip(from));
        lemma_byte_offset_step(c, from, to);
    }
    let (_, rest) = s.split_at(from_byte);
    proof {
        assert(rest.spec_bytes() =~= encode_utf8(c.skip(from)));
        lemma_encode_injective(rest@, c.skip(from));
        let a = c.subrange(from, to);
        let b = c.skip(to);
        assert(c.skip(from) =~= a + b);
        lemma_encode_concat(a, b);
        lemma_encode_boundary(a, b);
    }
    let (piece, _) = rest.split_at(to_byte - from_byte);
    proof {
        let a = c.subrange(from, to);
        assert(piece.spec_bytes() =~= encode_utf8(a));
        lemma_encode_injective(piece@, a);
    }
    piece
}

/// Relies on `String`'s `FromIterator<char>`: the string of exactly these
/// characters, in order.
#[verifier::external_body]
pub(crate) fn string_of(v: &[char]) -> (r: String)
    ensures
        r@ == v@,
{
    v.iter().collect()
}

/// What `str::trim` keeps of a string.
pub uninterp spec fn trimmed_of(s: Seq<char>) -> Seq<char>;

/// Relies on `str::trim`: the string without its leading and trailing white
/// space, which depends on its characters alone.
#[verifier::external_body]
pub(crate) fn trim(s: &str) -> (r: &str)
    ensures
        r@ == trimmed_of(s@),
{
    s.trim()
}

/// Whether `a` and `b` hold the same characters in the same order.
pub fn same_chars(a: &[char], b: &[char]) -> (r: bool)
    ensures
        r == (a@ == b@),
{
    if a.len() != b.len() {
        return false;
    }
    let mut i: usize = 0;
    while i < a.len()
        invariant
            i <= a.len(),
            a@.len() == b@.len(),
            a@.take(i as int) == b@.take(i as int),
        decreases a.len() - i,
    {
        if a[i] != b[i] {
            assert(a@[i as int] != b@[i as int]);
            return false;
        }
        assert(a@.take(i + 1) =~= a@.take(i as int).push(a@[i as int]));
        assert(b@.take(i + 1) =~= b@.take(i as int).push(b@[i as int]));
        i = i + 1;
    }
    assert(a@ =~= a@.take(i as int));
    assert(b@ =~= b@.take(i as int));
    true
}

} // verus!
