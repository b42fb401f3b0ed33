//! Splitting, comparing and interleaving strings.
use vstd::prelude::*;
use vstd::slice::slice_subrange;
use vstd::string::StringSliceAdditionalSpecFns;
use vstd::utf8::encode_utf8;
use crate::text::{
    byte_offset, char_slice, chars_of, lemma_byte_offset_step, same_chars, string_of, utf8_width,
};

verus! {

/// Whether `d` occurs in `s` at position `i`.
pub open spec fn occurs_at(s: Seq<char>, d: Seq<char>, i: int) -> bool {
    0 <= i && i + d.len() <= s.len() && s.subrange(i, i + d.len()) == d
}

/// The pieces of `s` from `start` on, when the search for the delimiter `d`
/// has reached `i`: each piece runs up to the next occurrence of `d`, the
/// search resumes after that occurrence, and empty pieces are left out.
pub open spec fn pieces_from(s: Seq<char>, d: Seq<char>, start: int, i: int) -> Seq<Seq<char>>
    recommends
        d.len() > 0,
    decreases s.len() - i,
    when d.len() > 0
{
    if i + d.len() > s.len() {
        if start < s.len() {
            seq![s.subrange(start, s.len() as int)]
        } else {
            Seq::empty()
        }
    } else if occurs_at(s, d, i) {
        let before: Seq<Seq<char>> = if start < i {
            seq![s.subrange(start, i)]
        } else {
            Seq::empty()
        };
        before + pieces_from(s, d, i + d.len(), i + d.len())
    } else {
        pieces_from(s, d, start, i + 1)
    }
}

/// The non-empty pieces of `s` between the occurrences of `d`, found from
/// left to right without overlap; none when either string is empty.
pub open spec fn spec_split(s: Seq<char>, d: Seq<char>) -> Seq<Seq<char>> {
    if s.len() == 0 || d.len() == 0 {
        Seq::empty()
    } else {
        pieces_from(s, d, 0, 0)
    }
}

/// The non-empty pieces of `string` between the occurrences of `delimeter`,
/// found from left to right without overlap; none when either is empty.
/// The pieces borrow from `string`.
pub fn split_string<'a>(string: &'a str, delimeter: &str) -> (r: Vec<&'a str>)
    ensures
        strs_view(r@) == spec_split(string@, delimeter@),
{
    let s = chars_of(string);
    let d = chars_of(delimeter);
    let mut result: Vec<&'a str> = Vec::new();
    if s.len() == 0 || d.len() == 0 {
        assert(strs_view(result@) =~= Seq::<Seq<char>>::empty());
        return result;
    }
    let total_bytes = string.as_bytes().len();
    let delimeter_bytes = delimeter.as_bytes().len();
    let mut start: usize = 0;
    let mut i: usize = 0;
    let mut start_byte: usize = 0;
    let mut i_byte: usize = 0;
    proof {
        broadcast use vstd::slice::group_slice_axioms;

        assert(s@.take(0) =~= Seq::<char>::empty());
        assert(strs_view(result@) + pieces_from(s@, d@, 0, 0) =~= pieces_from(s@, d@, 0, 0));
    }
    while d.len() <= s.len() && i <= s.len() - d.len()
        invariant
            d@.len() > 0,
            start <= i <= s@.len(),
            s@ == string@,
            d@ == delimeter@,
            total_bytes == encode_utf8(string@).len(),
            delimeter_bytes == encode_utf8(delimeter@).len(),
            start_byte == byte_offset(s@, start as int),
            i_byte == byte_offset(s@, i as int),
            spec_split(s@, d@) == strs_view(result@) + pieces_from(s@, d@, start as int, i as int),
        decreases s.len() - i,
    {
        let piece_end = i + d.len();
        let here = same_chars(slice_subrange(s.as_slice(), i, piece_end), d.as_slice());
        assert(here == occurs_at(s@, d@, i as int));
        if here {
            if start < i {
                let piece = char_slice(string, start_byte, i_byte, Ghost(start as int), Ghost(i as int));
                let ghost before = strs_view(result@);
                result.push(piece);
                assert(strs_view(result@) =~= before + seq![s@.subrange(start as int, i as int)]);
            }
            proof {
                lemma_byte_offset_step(s@, i as int, piece_end as int);
                assert(s@.subrange(i as int, piece_end as int) == d@);
            }
            i_byte = i_byte + delimeter_bytes;
            i = piece_end;
            start = i;
            start_byte = i_byte;
        } else {
            proof {
                lemma_byte_offset_step(s@, i as int, i + 1);
                assert(s@.subrange(i as int, i + 1) =~= seq![s@[i as int]]);
            }
            i_byte = i_byte + utf8_width(s[i]);
            i = i + 1;
        }
    }
    if start < s.len() {
        proof {
            lemma_byte_offset_step(s@, start as int, s@.len() as int);
            assert(s@.take(s@.len() as int) =~= s@);
        }
        let piece = char_slice(string, start_byte, total_bytes, Ghost(start as int), Ghost(s@.len() as int));
        let ghost before = strs_view(result@);
        result.push(piece);
        assert(strs_view(result@) =~= before + seq![s@.subrange(start as int, s@.len() as int)]);
    } else {
        assert(strs_view(result@) + Seq::<Seq<char>>::empty() =~= strs_view(result@));
    }
    result
}

/// What `str::split_whitespace` makes of a string: its words, in order.
pub uninterp spec fn words_of(s: Seq<char>) -> Seq<Seq<char>>;

/// The characters of each string slice of `v`.
pub open spec fn strs_view(v: Seq<&str>) -> Seq<Seq<char>> {
    v.map_values(|x: &str| x@)
}

/// Relies on `str::split_whitespace`: the words of `s`, which depend on its
/// characters alone.
#[verifier::external_body]
fn split_whitespace<'a>(s: &'a str) -> (r: Vec<&'a str>)
    ensures
        strs_view(r@) == words_of(s@),
{
    s.split_whitespace().collect()
}

/// The words of `a` that do not occur in `b`, in their order in `a`.
pub open spec fn only_in(a: Seq<Seq<char>>, b: Seq<Seq<char>>) -> Seq<Seq<char>>
    decreases a.len(),
{
    if a.len() == 0 {
        Seq::empty()
    } else if b.contains(a.last()) {
        only_in(a.drop_last(), b)
    } else {
        only_in(a.drop_last(), b).push(a.last())
    }
}

/// The words of each of two texts that the other lacks.
#[derive(PartialEq, Debug)]
pub struct Differences<'a> {
    pub only_in_first: Vec<&'a str>,
    pub only_in_second: Vec<&'a str>,
}

/// Whether some word of `ws` holds the characters of `w`.
fn contains_word(ws: &Vec<Vec<char>>, w: &Vec<char>) -> (r: bool)
    ensures
        r == ws@.map_values(|x: Vec<char>| x@).contains(w@),
{
    let ghost wv = ws@.map_values(|x: Vec<char>| x@);
    let mut k: usize = 0;
    while k < ws.len()
        invariant
            k <= ws.len(),
            wv == ws@.map_values(|x: Vec<char>| x@),
            forall|j: int| 0 <= j < k ==> wv[j] != w@,
        decreases ws.len() - k,
    {
        if same_chars(ws[k].as_slice(), w.as_slice()) {
            assert(wv[k as int] == w@);
            return true;
        }
        k = k + 1;
    }
    false
}

/// The characters of each word of `words`.
fn chars_of_words(words: &Vec<&str>) -> (r: Vec<Vec<char>>)
    ensures
        r@.map_values(|x: Vec<char>| x@) == strs_view(words@),
{
    let mut r: Vec<Vec<char>> = Vec::new();
    let mut k: usize = 0;
    while k < words.len()
        invariant
            k <= words.len(),
            r@.map_values(|x: Vec<char>| x@) == strs_view(words@).take(k as int),
        decreases words.len() - k,
    {
        let ghost before = r@.map_values(|x: Vec<char>| x@);
        r.push(chars_of(words[k]));
        assert(r@.map_values(|x: Vec<char>| x@) =~= before.push(words@[k as int]@));
        assert(strs_view(words@).take(k + 1) =~= strs_view(words@).take(k as int).push(
            words@[k as int]@,
        ));
        k = k + 1;
    }
    assert(strs_view(words@).take(k as int) =~= strs_view(words@));
    r
}

/// The words of `first` that `second` lacks, in their order in `first`.
fn words_only_in<'a>(first: &Vec<&'a str>, second: &Vec<Vec<char>>) -> (r: Vec<&'a str>)
    ensures
        strs_view(r@) == only_in(strs_view(first@), second@.map_values(|x: Vec<char>| x@)),
{
    let ghost b = second@.map_values(|x: Vec<char>| x@);
    let mut r: Vec<&'a str> = Vec::new();
    let mut k: usize = 0;
    while k < first.len()
        invariant
            k <= first.len(),
            b == second@.map_values(|x: Vec<char>| x@),
            strs_view(r@) == only_in(strs_view(first@).take(k as int), b),
        decreases first.len() - k,
    {
        let w = chars_of(first[k]);
        let ghost a = strs_view(first@).take(k + 1);
        assert(a.drop_last() =~= strs_view(first@).take(k as int));
        assert(a.last() == w@);
        if !contains_word(second, &w) {
            let ghost before = strs_view(r@);
            r.push(first[k]);
            assert(strs_view(r@) =~= before.push(w@));
        }
        k = k + 1;
    }
    assert(strs_view(first@).take(k as int) =~= strs_view(first@));
    r
}

/// The words of each list that the other lacks, each in its list's order.
pub fn differences_of_words<'a>(first_words: &Vec<&'a str>, second_words: &Vec<&'a str>) -> (r:
    Differences<'a>)
    ensures
        strs_view(r.only_in_first@) == only_in(strs_view(first_words@), strs_view(second_words@)),
        strs_view(r.only_in_second@) == only_in(strs_view(second_words@), strs_view(first_words@)),
{
    let first_chars = chars_of_words(first_words);
    let second_chars = chars_of_words(second_words);
    let only_in_first = words_only_in(first_words, &second_chars);
    let only_in_second = words_only_in(second_words, &first_chars);
    Differences { only_in_first, only_in_second }
}

/// The words (separated by white space) of each string that the other
/// lacks, each in its string's order.
pub fn find_differences<'a>(first_string: &'a str, second_string: &'a str) -> (r: Differences<'a>)
    ensures
        strs_view(r.only_in_first@) == only_in(words_of(first_string@), words_of(second_string@)),
        strs_view(r.only_in_second@) == only_in(words_of(second_string@), words_of(first_string@)),
{
    let first_words = split_whitespace(first_string);
    let second_words = split_whitespace(second_string);
    differences_of_words(&first_words, &second_words)
}

/// Whether `c` is a vowel, in either case.
pub open spec fn spec_is_vowel(c: char) -> bool {
    c == 'a' || c == 'e' || c == 'i' || c == 'o' || c == 'u' || c == 'A' || c == 'E' || c == 'I'
        || c == 'O' || c == 'U'
}

/// How many characters at the start of `s` are not vowels.
pub open spec fn leading_consonants(s: Seq<char>) -> nat
    decreases s.len(),
{
    if s.len() == 0 || spec_is_vowel(s[0]) {
        0
    } else {
        1 + leading_consonants(s.drop_first())
    }
}

proof fn lemma_leading_consonants_bound(s: Seq<char>)
    ensures
        leading_consonants(s) <= s.len(),
    decreases s.len(),
{
    if s.len() > 0 {
        lemma_leading_consonants_bound(s.drop_first());
    }
}

/// How many characters one turn takes from the start of `s`: the first one,
/// whatever it is, then every following one up to the next vowel.
pub open spec fn turn_len(s: Seq<char>) -> nat {
    if s.len() == 0 {
        0
    } else {
        1 + leading_consonants(s.drop_first())
    }
}

/// `a` and `b` interleaved by turns, `a` first when `first_turn`; each turn
/// takes `turn_len` characters of its name, and a name that is used up lets
/// its turns pass.
pub open spec fn merged(a: Seq<char>, b: Seq<char>, first_turn: bool) -> Seq<char>
    decreases 2 * (a.len() + b.len()) + if first_turn {
        if a.len() == 0 {
            1int
        } else {
            0
        }
    } else {
        if b.len() == 0 {
            1int
        } else {
            0
        }
    }
    via merged_decreases
{
    if a.len() == 0 && b.len() == 0 {
        Seq::empty()
    } else if first_turn {
        let k = turn_len(a) as int;
        a.take(k) + merged(a.skip(k), b, false)
    } else {
        let k = turn_len(b) as int;
        b.take(k) + merged(a, b.skip(k), true)
    }
}

#[via_fn]
proof fn merged_decreases(a: Seq<char>, b: Seq<char>, first_turn: bool) {
    lemma_leading_consonants_bound(a.drop_first());
    lemma_leading_consonants_bound(b.drop_first());
    if !(a.len() == 0 && b.len() == 0) {
        if first_turn {
            let k = turn_len(a) as int;
            assert(a.skip(k).len() == a.len() - k);
        } else {
            let k = turn_len(b) as int;
            assert(b.skip(k).len() == b.len() - k);
        }
    }
}

fn is_vowel(c: char) -> (r: bool)
    ensures
        r == spec_is_vowel(c),
{
    c == 'a' || c == 'e' || c == 'i' || c == 'o' || c == 'u' || c == 'A' || c == 'E' || c == 'I'
        || c == 'O' || c == 'U'
}

/// Where the turn that starts at `i` in `v` ends.
fn turn_end(v: &Vec<char>, i: usize) -> (k: usize)
    requires
        i <= v@.len(),
    ensures
        k == i + turn_len(v@.skip(i as int)),
        k <= v@.len(),
{
    if i == v.len() {
        return i;
    }
    let mut k: usize = i + 1;
    while k < v.len() && !is_vowel(v[k])
        invariant
            i < k <= v@.len(),
            leading_consonants(v@.skip(i + 1)) == (k - i - 1) + leading_consonants(v@.skip(k as int)),
        decreases v.len() - k,
    {
        assert(v@.skip(k as int).drop_first() =~= v@.skip(k + 1));
        k = k + 1;
    }
    assert(v@.skip(i as int).drop_first() =~= v@.skip(i + 1));
    k
}

/// The two names interleaved by turns, starting with `first_name`: each turn
/// takes the next character of its name and every following one up to the
/// next vowel; once a name is used up the other gives the rest.
pub fn merge_names(first_name: &str, second_name: &str) -> (r: String)
    ensures
        r@ == merged(first_name@, second_name@, true),
{
    let a = chars_of(first_name);
    let b = chars_of(second_name);
    let mut buffer: Vec<char> = Vec::new();
    let mut i: usize = 0;
    let mut j: usize = 0;
    let mut first_turn = true;
    assert(a@.skip(0) =~= a@);
    assert(b@.skip(0) =~= b@);
    assert(buffer@ + merged(a@, b@, true) =~= merged(a@, b@, true));
    while i < a.len() || j < b.len()
        invariant
            i <= a@.len(),
            j <= b@.len(),
            merged(a@, b@, true) == buffer@ + merged(a@.skip(i as int), b@.skip(j as int), first_turn),
        decreases 2 * ((a.len() - i) + (b.len() - j)) + if first_turn {
            if i == a.len() {
                1int
            } else {
                0
            }
        } else {
            if j == b.len() {
                1int
            } else {
                0
            }
        },
    {
        let ghost rest = merged(a@.skip(i as int), b@.skip(j as int), first_turn);
        let ghost before = buffer@;
        if first_turn {
            let k = turn_end(&a, i);
            let mut p: usize = i;
            while p < k
                invariant
                    i <= p <= k <= a@.len(),
                    buffer@ == before + a@.subrange(i as int, p as int),
                decreases k - p,
            {
                buffer.push(a[p]);
                assert(a@.subrange(i as int, p + 1) =~= a@.subrange(i as int, p as int).push(a@[p as int]));
                p = p + 1;
            }
            assert(a@.skip(i as int).take(k - i) =~= a@.subrange(i as int, k as int));
            assert(a@.skip(i as int).skip(k - i) =~= a@.skip(k as int));
            i = k;
        } else {
            let k = turn_end(&b, j);
            let mut p: usize = j;
            while p < k
                invariant
                    j <= p <= k <= b@.len(),
                    buffer@ == before + b@.subrange(j as int, p as int),
                decreases k - p,
            {
                buffer.push(b[p]);
                assert(b@.subrange(j as int, p + 1) =~= b@.subrange(j as int, p as int).push(b@[p as int]));
                p = p + 1;
            }
            assert(b@.skip(j as int).take(k - j) =~= b@.subrange(j as int, k as int));
            assert(b@.skip(j as int).skip(k - j) =~= b@.skip(k as int));
            j = k;
        }
        first_turn = !first_turn;
    }
    assert(buffer@ + Seq::<char>::empty() =~= buffer@);
    string_of(buffer.as_slice())
}

} // verus!
