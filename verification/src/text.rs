//! Character-sequence helpers on which the rest of the library is built.
//!
//! Text is modelled by its view, a `Seq<char>`. The executable helpers work on
//! `Vec<char>` and convert to and from `String` at the edges.

use vstd::prelude::*;
use vstd::string::StringSliceAdditionalSpecFns;
use vstd::utf8::*;

verus! {

// ---------------------------------------------------------------------------
// Specifications
// ---------------------------------------------------------------------------

/// `s` begins with `prefix`.
pub open spec fn has_prefix(s: Seq<char>, prefix: Seq<char>) -> bool {
    prefix.len() <= s.len() && s.take(prefix.len() as int) == prefix
}

/// `s` with every trailing occurrence of `c` removed (what `str::trim_end_matches`
/// does for a single character).
pub open spec fn trim_end_char(s: Seq<char>, c: char) -> Seq<char>
    decreases s.len(),
{
    if s.len() > 0 && s.last() == c {
        trim_end_char(s.drop_last(), c)
    } else {
        s
    }
}

/// Whether `c` has the Unicode `White_Space` property (what `char::is_whitespace`
/// answers): the controls U+0009 to U+000D, the space, U+0085, the no-break
/// space U+00A0, U+1680, the spaces U+2000 to U+200A, the line and paragraph
/// separators U+2028 and U+2029, U+202F, U+205F and U+3000.
pub open spec fn unicode_white_space(c: char) -> bool {
    ||| ('\u{9}' <= c && c <= '\u{d}')
    ||| c == ' '
    ||| c == '\u{85}'
    ||| c == '\u{a0}'
    ||| c == '\u{1680}'
    ||| ('\u{2000}' <= c && c <= '\u{200a}')
    ||| c == '\u{2028}'
    ||| c == '\u{2029}'
    ||| c == '\u{202f}'
    ||| c == '\u{205f}'
    ||| c == '\u{3000}'
}

/// `s` without its trailing white space.
pub open spec fn trim_end_ws(s: Seq<char>) -> Seq<char>
    decreases s.len(),
{
    if s.len() > 0 && unicode_white_space(s.last()) {
        trim_end_ws(s.drop_last())
    } else {
        s
    }
}

/// `s` without its leading white space.
pub open spec fn trim_start_ws(s: Seq<char>) -> Seq<char>
    decreases s.len(),
{
    if s.len() > 0 && unicode_white_space(s[0]) {
        trim_start_ws(s.drop_first())
    } else {
        s
    }
}

/// `s` without leading and trailing white space (what `str::trim` does).
pub open spec fn trim_ws(s: Seq<char>) -> Seq<char> {
    trim_start_ws(trim_end_ws(s))
}

// ---------------------------------------------------------------------------
// Trusted access to std
// ---------------------------------------------------------------------------

/// Calls `char::is_whitespace`, which answers whether `c` has the Unicode
/// `White_Space` property.
#[verifier::external_body]
pub fn is_white_space(c: char) -> (b: bool)
    ensures
        b == unicode_white_space(c),
{
    c.is_whitespace()
}

/// Appends `c` to `s` (`String::push`).
#[verifier::external_body]
pub fn push_char(s: &mut String, c: char)
    ensures
        final(s)@ == old(s)@.push(c),
{
    s.push(c)
}

// ---------------------------------------------------------------------------
// Executable helpers
// ---------------------------------------------------------------------------

/// The string made of `chars`, in order.
pub fn string_of(chars: &[char]) -> (s: String)
    ensures
        s@ == chars@,
{
    let mut s = String::new();
    let mut i: usize = 0;
    while i < chars.len()
        invariant
            i <= chars.len(),
            s@ == chars@.take(i as int),
        decreases chars.len() - i,
    {
        push_char(&mut s, chars[i]);
        i = i + 1;
        assert(chars@.take(i as int) =~= chars@.take(i - 1).push(chars@[i - 1]));
    }
    assert(chars@.take(chars.len() as int) =~= chars@);
    s
}

/// The characters of `s`, in order.
pub fn chars_of(s: &str) -> (v: Vec<char>)
    ensures
        v@ == s@,
{
    let mut v: Vec<char> = Vec::new();
    for c in it: s.chars()
        invariant
            v@ == it.seq().take(it.index() as int),
    {
        v.push(c);
    }
    v
}

/// The characters of `v` from `lo` (inclusive) to `hi` (exclusive).
pub fn sub_chars(v: &Vec<char>, lo: usize, hi: usize) -> (r: Vec<char>)
    requires
        lo <= hi <= v.len(),
    ensures
        r@ == v@.subrange(lo as int, hi as int),
{
    let mut r: Vec<char> = Vec::new();
    let mut i: usize = lo;
    while i < hi
        invariant
            lo <= i <= hi <= v.len(),
            r@ == v@.subrange(lo as int, i as int),
        decreases hi - i,
    {
        r.push(v[i]);
        i = i + 1;
    }
    r
}

/// Appends the characters of `b` to those of `a`.
pub fn concat_chars(a: &Vec<char>, b: &Vec<char>) -> (r: Vec<char>)
    ensures
        r@ == a@ + b@,
{
    let mut r: Vec<char> = sub_chars(a, 0, a.len());
    let mut i: usize = 0;
    while i < b.len()
        invariant
            i <= b.len(),
            r@ == a@ + b@.take(i as int),
        decreases b.len() - i,
    {
        r.push(b[i]);
        i = i + 1;
        assert(b@.take(i as int) == b@.take(i - 1) + seq![b@[i - 1]]);
    }
    assert(b@.take(b.len() as int) == b@);
    r
}

/// Whether `v` begins with `prefix`.
pub fn starts_with_chars(v: &Vec<char>, prefix: &Vec<char>) -> (b: bool)
    ensures
        b == has_prefix(v@, prefix@),
{
    if prefix.len() > v.len() {
        return false;
    }
    let mut i: usize = 0;
    while i < prefix.len()
        invariant
            prefix.len() <= v.len(),
            i <= prefix.len(),
            forall|j: int| 0 <= j < i ==> v@[j] == prefix@[j],
        decreases prefix.len() - i,
    {
        if v[i] != prefix[i] {
            assert(v@.take(prefix.len() as int)[i as int] != prefix@[i as int]);
            return false;
        }
        i = i + 1;
    }
    assert(v@.take(prefix.len() as int) =~= prefix@);
    true
}

/// Whether `a` and `b` hold the same characters.
pub fn chars_equal(a: &Vec<char>, b: &Vec<char>) -> (r: bool)
    ensures
        r == (a@ == b@),
{
    if a.len() != b.len() {
        return false;
    }
    let r = starts_with_chars(a, b);
    proof {
        assert(a@.take(b.len() as int) =~= a@);
    }
    r
}

/// The length of `v` once every trailing `c` is removed.
pub fn trim_end_char_len(v: &Vec<char>, c: char) -> (n: usize)
    ensures
        n <= v.len(),
        trim_end_char(v@, c) == v@.take(n as int),
{
    let mut n: usize = v.len();
    assert(v@.take(n as int) =~= v@);
    while n > 0 && v[n - 1] == c
        invariant
            n <= v.len(),
            trim_end_char(v@, c) == trim_end_char(v@.take(n as int), c),
        decreases n,
    {
        assert(v@.take(n as int).drop_last() =~= v@.take(n - 1));
        n = n - 1;
    }
    n
}

/// The bounds `(lo, hi)` of `v` once leading and trailing white space is removed.
pub fn trim_ws_bounds(v: &Vec<char>) -> (r: (usize, usize))
    ensures
        r.0 <= r.1 <= v.len(),
        trim_ws(v@) == v@.subrange(r.0 as int, r.1 as int),
{
    let mut hi: usize = v.len();
    assert(v@.take(hi as int) =~= v@);
    while hi > 0 && is_white_space(v[hi - 1])
        invariant
            hi <= v.len(),
            trim_end_ws(v@) == trim_end_ws(v@.take(hi as int)),
        decreases hi,
    {
        assert(v@.take(hi as int).drop_last() =~= v@.take(hi - 1));
        hi = hi - 1;
    }
    let ghost trimmed_end = v@.take(hi as int);
    assert(trim_end_ws(v@) == trimmed_end);
    let mut lo: usize = 0;
    assert(v@.subrange(0, hi as int) =~= trimmed_end);
    while lo < hi && is_white_space(v[lo])
        invariant
            lo <= hi <= v.len(),
            trimmed_end == v@.take(hi as int),
            trim_start_ws(trimmed_end) == trim_start_ws(v@.subrange(lo as int, hi as int)),
        decreases hi - lo,
    {
        assert(v@.subrange(lo as int, hi as int).drop_first() =~= v@.subrange(lo + 1, hi as int));
        lo = lo + 1;
    }
    (lo, hi)
}

/// The characters of `v` with leading and trailing white space removed.
pub fn trim_chars(v: &Vec<char>) -> (r: Vec<char>)
    ensures
        r@ == trim_ws(v@),
{
    let (lo, hi) = trim_ws_bounds(v);
    sub_chars(v, lo, hi)
}

// ---------------------------------------------------------------------------
// UTF-8 facts used to take a suffix of a `str` after a known prefix
// ---------------------------------------------------------------------------

/// Encoding a sequence of characters lays the encoding of its first `n`
/// characters before the encoding of the rest, and the split point is a
/// character boundary.
pub proof fn lemma_encode_utf8_split(s: Seq<char>, n: int)
    requires
        0 <= n <= s.len(),
    ensures
        encode_utf8(s) == encode_utf8(s.take(n)) + encode_utf8(s.skip(n)),
        is_char_boundary(encode_utf8(s), encode_utf8(s.take(n)).len() as int),
    decreases n,
{
    broadcast use encode_utf8_valid_utf8;

    if n == 0 {
        assert(s.take(0) =~= Seq::<char>::empty());
        assert(s.skip(0) =~= s);
        assert(encode_utf8(Seq::<char>::empty()) =~= Seq::<u8>::empty());
        assert(encode_utf8(s.take(0)) + encode_utf8(s.skip(0)) =~= encode_utf8(s));
    } else {
        let rest = s.drop_first();
        lemma_encode_utf8_split(rest, n - 1);
        assert(s.take(n).drop_first() =~= rest.take(n - 1));
        assert(s.skip(n) =~= rest.skip(n - 1));
        assert(s.take(n)[0] == s[0]);
        let head = encode_scalar(s[0] as u32);
        assert(encode_utf8(s.take(n)) == head + encode_utf8(rest.take(n - 1)));
        assert(encode_utf8(s) == head + encode_utf8(rest));
        assert(encode_utf8(s) =~= encode_utf8(s.take(n)) + encode_utf8(s.skip(n)));
        encode_utf8_first_scalar(s);
        let bytes = encode_utf8(s);
        assert(pop_first_scalar(bytes) =~= encode_utf8(rest));
        assert(encode_utf8(s.take(n)).len() - length_of_first_scalar(bytes)
            == encode_utf8(rest.take(n - 1)).len());
    }
}

/// Splits `s` after its first `n` characters, which must all be ASCII.
pub fn split_after_ascii_prefix(s: &str, n: usize) -> (r: &str)
    requires
        n <= s@.len(),
        is_ascii_chars(s@.take(n as int)),
    ensures
        r@ == s@.skip(n as int),
{
    proof {
        broadcast use encode_utf8_valid_utf8, encode_utf8_decode_utf8;

        lemma_encode_utf8_split(s@, n as int);
        is_ascii_chars_encode_utf8(s@.take(n as int));
    }
    let (_head, tail) = s.split_at(n);
    proof {
        broadcast use encode_utf8_decode_utf8;

        assert(tail.spec_bytes() =~= encode_utf8(s@.skip(n as int)));
        assert(decode_utf8(encode_utf8(tail@)) == tail@);
    }
    tail
}

} // verus!
