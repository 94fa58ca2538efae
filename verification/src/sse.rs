//! Framing of a server-sent-event body into the data payloads it carries.
//!
//! The body arrives in byte chunks of arbitrary size. Each chunk is decoded as
//! UTF-8 (lossily) and appended to a pending buffer; every complete line
//! (ended by `'\n'`) is taken out of the buffer, trimmed, and kept when it is a
//! `data:` field other than the `[DONE]` marker.

use vstd::prelude::*;
use vstd::utf8::{decode_utf8, encode_utf8, valid_utf8, encode_utf8_decode_utf8, decode_utf8_encode_utf8};

use crate::text::{
    chars_of, chars_equal, has_prefix, lemma_encode_utf8_split, starts_with_chars, string_of,
    sub_chars, trim_chars, trim_end_ws, trim_start_ws, trim_ws, unicode_white_space,
};

verus! {

/// Field name of an event's data line, with the single space that usually follows it.
pub const DATA_FIELD_SPACED: &'static str = "data: ";

/// Field name of an event's data line.
pub const DATA_FIELD: &'static str = "data:";

/// Data payload that marks the end of the stream.
pub const DONE_MARKER: &'static str = "[DONE]";

// ---------------------------------------------------------------------------
// Specification
// ---------------------------------------------------------------------------

/// The lines that `s` completes, and the unfinished text after the last
/// newline, when `s` is read from the start.
pub open spec fn split_lines(s: Seq<char>) -> (Seq<Seq<char>>, Seq<char>)
    decreases s.len(),
{
    if s.len() == 0 {
        (Seq::empty(), Seq::empty())
    } else {
        let (lines, rest) = split_lines(s.drop_last());
        if s.last() == '\n' {
            (lines.push(rest), Seq::empty())
        } else {
            (lines, rest.push(s.last()))
        }
    }
}

/// The data payload of one line, if the line carries one: the trimmed line
/// must start with `data: ` or `data:`, and what follows, trimmed again, must
/// not be `[DONE]`.
pub open spec fn line_data(line: Seq<char>) -> Option<Seq<char>> {
    let t = trim_ws(line);
    if t.len() == 0 {
        None
    } else {
        let data = if has_prefix(t, DATA_FIELD_SPACED@) {
            Some(trim_ws(t.skip(DATA_FIELD_SPACED@.len() as int)))
        } else if has_prefix(t, DATA_FIELD@) {
            Some(trim_ws(t.skip(DATA_FIELD@.len() as int)))
        } else {
            None
        };
        match data {
            Some(d) => if d == DONE_MARKER@ {
                None
            } else {
                Some(d)
            },
            None => None,
        }
    }
}

/// The data payloads of `lines`, in order.
pub open spec fn data_payloads(lines: Seq<Seq<char>>) -> Seq<Seq<char>>
    decreases lines.len(),
{
    if lines.len() == 0 {
        Seq::empty()
    } else {
        let earlier = data_payloads(lines.drop_last());
        match line_data(lines.last()) {
            Some(d) => earlier.push(d),
            None => earlier,
        }
    }
}

/// Reading `input` with `pending` text already buffered: the payloads of the
/// lines completed, and the text left pending.
pub open spec fn sse_step(pending: Seq<char>, input: Seq<char>) -> (Seq<Seq<char>>, Seq<char>) {
    let (lines, rest) = split_lines(pending + input);
    (data_payloads(lines), rest)
}

/// The views of a sequence of strings.
pub open spec fn strings_view(v: Seq<String>) -> Seq<Seq<char>> {
    v.map_values(|s: String| s@)
}

/// What `String::from_utf8_lossy` makes of `bytes`.
pub uninterp spec fn utf8_lossy(bytes: Seq<u8>) -> Seq<char>;

/// Decodes `bytes` as UTF-8, replacing invalid sequences
/// (`String::from_utf8_lossy`). std documents that valid UTF-8 is decoded
/// unchanged; what replaces an invalid sequence is only named.
#[verifier::external_body]
pub fn decode_utf8_lossy(bytes: &[u8]) -> (s: String)
    ensures
        s@ == utf8_lossy(bytes@),
        valid_utf8(bytes@) ==> s@ == decode_utf8(bytes@),
{
    String::from_utf8_lossy(bytes).into_owned()
}

// ---------------------------------------------------------------------------
// Lemmas
// ---------------------------------------------------------------------------

/// The pending text of `split_lines` holds no newline.
pub proof fn lemma_split_lines_rest(s: Seq<char>)
    ensures
        !split_lines(s).1.contains('\n'),
    decreases s.len(),
{
    if s.len() > 0 {
        lemma_split_lines_rest(s.drop_last());
        let rest = split_lines(s.drop_last()).1;
        if s.last() != '\n' {
            assert forall|i: int| 0 <= i < rest.push(s.last()).len() implies rest.push(s.last())[i]
                != '\n' by {
                if i < rest.len() {
                    assert(rest[i] != '\n');
                }
            }
        }
    }
}

/// Text without a newline completes no line.
pub proof fn lemma_split_lines_no_newline(s: Seq<char>)
    requires
        !s.contains('\n'),
    ensures
        split_lines(s) == (Seq::<Seq<char>>::empty(), s),
    decreases s.len(),
{
    if s.len() > 0 {
        assert(!s.drop_last().contains('\n')) by {
            assert forall|i: int| 0 <= i < s.drop_last().len() implies s.drop_last()[i]
                != '\n' by {
                assert(s[i] == s.drop_last()[i]);
            }
        }
        lemma_split_lines_no_newline(s.drop_last());
        assert(s.drop_last().push(s.last()) =~= s);
    }
}

/// Reading `s + t` completes the lines of `s`, then the lines that the
/// pending text of `s` followed by `t` completes.
pub proof fn lemma_split_lines_append(s: Seq<char>, t: Seq<char>)
    ensures
        split_lines(s + t).0 == split_lines(s).0 + split_lines(split_lines(s).1 + t).0,
        split_lines(s + t).1 == split_lines(split_lines(s).1 + t).1,
    decreases t.len(),
{
    let r = split_lines(s).1;
    if t.len() == 0 {
        assert(s + t =~= s);
        assert(r + t =~= r);
        lemma_split_lines_rest(s);
        lemma_split_lines_no_newline(r);
        assert(split_lines(s).0 + Seq::<Seq<char>>::empty() =~= split_lines(s).0);
    } else {
        let t0 = t.drop_last();
        lemma_split_lines_append(s, t0);
        assert((s + t).drop_last() =~= s + t0);
        assert((r + t).drop_last() =~= r + t0);
        assert((s + t).last() == t.last());
        assert((r + t).last() == t.last());
        let l0 = split_lines(s).0;
        let l1 = split_lines(r + t0).0;
        let r1 = split_lines(r + t0).1;
        if t.last() == '\n' {
            assert((l0 + l1).push(r1) =~= l0 + l1.push(r1));
        }
    }
}

/// The payloads of two runs of lines are those of the first run, then those of the second.
pub proof fn lemma_data_payloads_append(a: Seq<Seq<char>>, b: Seq<Seq<char>>)
    ensures
        data_payloads(a + b) == data_payloads(a) + data_payloads(b),
    decreases b.len(),
{
    if b.len() == 0 {
        assert(a + b =~= a);
        assert(data_payloads(a) + Seq::<Seq<char>>::empty() =~= data_payloads(a));
    } else {
        lemma_data_payloads_append(a, b.drop_last());
        assert((a + b).drop_last() =~= a + b.drop_last());
        assert((a + b).last() == b.last());
        match line_data(b.last()) {
            Some(d) => {
                assert((data_payloads(a) + data_payloads(b.drop_last())).push(d) =~= data_payloads(a)
                    + data_payloads(b.drop_last()).push(d));
            },
            None => {},
        }
    }
}

/// Decoding two valid UTF-8 byte sequences one after the other gives the
/// decoding of their concatenation.
pub proof fn lemma_decode_utf8_append(a: Seq<u8>, b: Seq<u8>)
    requires
        valid_utf8(a),
        valid_utf8(b),
    ensures
        valid_utf8(a + b),
        decode_utf8(a + b) == decode_utf8(a) + decode_utf8(b),
{
    broadcast use encode_utf8_decode_utf8, decode_utf8_encode_utf8;

    let da = decode_utf8(a);
    let db = decode_utf8(b);
    lemma_encode_utf8_split(da + db, da.len() as int);
    assert((da + db).take(da.len() as int) =~= da);
    assert((da + db).skip(da.len() as int) =~= db);
    assert(encode_utf8(da + db) == a + b);
    vstd::utf8::encode_utf8_valid_utf8(da + db);
}

// ---------------------------------------------------------------------------
// Laws
// ---------------------------------------------------------------------------

/// Where the text is cut into chunks does not matter: reading `x` and then `y`
/// yields the payloads of reading `x + y` at once, and leaves the same text
/// pending.
pub proof fn law_sse_chunking_invariant(pending: Seq<char>, x: Seq<char>, y: Seq<char>)
    ensures
        sse_step(pending, x).0 + sse_step(sse_step(pending, x).1, y).0 == sse_step(pending, x + y).0,
        sse_step(sse_step(pending, x).1, y).1 == sse_step(pending, x + y).1,
{
    let s = pending + x;
    assert(pending + (x + y) =~= s + y);
    lemma_split_lines_append(s, y);
    lemma_data_payloads_append(split_lines(s).0, split_lines(split_lines(s).1 + y).0);
}

/// Text that holds no newline completes no line: it is only buffered.
pub proof fn law_sse_without_newline_only_buffers(pending: Seq<char>, input: Seq<char>)
    requires
        !pending.contains('\n'),
        !input.contains('\n'),
    ensures
        sse_step(pending, input).0 == Seq::<Seq<char>>::empty(),
        sse_step(pending, input).1 == pending + input,
{
    assert(!(pending + input).contains('\n')) by {
        assert forall|i: int| 0 <= i < (pending + input).len() implies (pending + input)[i]
            != '\n' by {
            if i < pending.len() {
                assert(pending[i] == (pending + input)[i]);
            } else {
                assert(input[i - pending.len()] == (pending + input)[i]);
            }
        }
    }
    lemma_split_lines_no_newline(pending + input);
}

/// A line ended by CRLF carries the same payload as the line without the
/// carriage return.
pub proof fn law_line_data_ignores_carriage_return(line: Seq<char>)
    ensures
        line_data(line.push('\r')) == line_data(line),
{
    assert(line.push('\r').drop_last() =~= line);
    assert(unicode_white_space('\r'));
    assert(trim_end_ws(line.push('\r')) == trim_end_ws(line));
}

/// The text of a run of lines, each followed by a newline.
pub open spec fn join_lines(lines: Seq<Seq<char>>) -> Seq<char>
    decreases lines.len(),
{
    if lines.len() == 0 {
        Seq::empty()
    } else {
        join_lines(lines.drop_last()) + lines.last().push('\n')
    }
}

/// Splitting loses and adds nothing: the completed lines, each followed by a
/// newline, then the pending text, are the text read; and neither a line nor
/// the pending text holds a newline.
pub proof fn law_split_lines_reconstructs(s: Seq<char>)
    ensures
        join_lines(split_lines(s).0) + split_lines(s).1 == s,
        forall|i: int|
            0 <= i < split_lines(s).0.len() ==> !(#[trigger] split_lines(s).0[i]).contains('\n'),
        !split_lines(s).1.contains('\n'),
    decreases s.len(),
{
    lemma_split_lines_rest(s);
    if s.len() == 0 {
        assert(join_lines(Seq::<Seq<char>>::empty()) + Seq::<char>::empty() =~= s);
    } else {
        let t = s.drop_last();
        law_split_lines_reconstructs(t);
        let (lines, rest) = split_lines(t);
        lemma_split_lines_rest(t);
        if s.last() == '\n' {
            assert(lines.push(rest).drop_last() =~= lines);
            assert(join_lines(lines.push(rest)) + Seq::<char>::empty() =~= t.push('\n'));
            assert(t.push('\n') =~= s);
        } else {
            assert(join_lines(lines) + rest.push(s.last()) =~= t.push(s.last()));
            assert(t.push(s.last()) =~= s);
        }
    }
}

/// The payloads of two runs of lines are those of the first run, then those of
/// the second.
pub proof fn law_data_payloads_compose(a: Seq<Seq<char>>, b: Seq<Seq<char>>)
    ensures
        data_payloads(a + b) == data_payloads(a) + data_payloads(b),
{
    lemma_data_payloads_append(a, b);
}

/// A single line gives its payload when it carries one, and nothing otherwise.
pub proof fn law_data_payloads_of_one_line(line: Seq<char>)
    ensures
        data_payloads(seq![line]) == match line_data(line) {
            Some(d) => seq![d],
            None => Seq::<Seq<char>>::empty(),
        },
{
    let e = Seq::<Seq<char>>::empty();
    assert(data_payloads(e) == e);
    assert(seq![line].drop_last() =~= e);
    assert(seq![line].last() == line);
    match line_data(line) {
        Some(d) => {
            assert(e.push(d) =~= seq![d]);
        },
        None => {},
    }
}

/// A `data:` line, with or without the space after the colon, carries its
/// value in full, whatever its length, as long as the value is not the end
/// marker and neither starts nor ends with white space.
pub proof fn law_line_data_of_data_line(p: Seq<char>)
    requires
        p.len() == 0 || (!unicode_white_space(p[0]) && !unicode_white_space(p.last())),
        p != DONE_MARKER@,
    ensures
        line_data(DATA_FIELD_SPACED@ + p) == Some(p),
        line_data(DATA_FIELD@ + p) == Some(p),
{
    reveal_strlit("data: ");
    reveal_strlit("data:");
    reveal_strlit("[DONE]");
    let spaced = DATA_FIELD_SPACED@;
    let bare = DATA_FIELD@;
    assert(spaced.len() == 6 && bare.len() == 5);
    assert(!unicode_white_space('d') && !unicode_white_space(':') && unicode_white_space(' '));
    // Trimming leaves `p` as it is.
    assert(trim_end_ws(p) == p);
    assert(trim_start_ws(p) == p);
    if p.len() == 0 {
        let t = spaced + p;
        assert(t =~= spaced);
        assert(t.drop_last() =~= bare);
        assert(trim_end_ws(bare) == bare);
        assert(trim_end_ws(t) == bare);
        assert(trim_start_ws(bare) == bare);
        assert(!has_prefix(bare, spaced));
        assert(bare.take(5) =~= bare);
        assert(bare.skip(5) =~= p);
        assert(bare + p =~= bare);
    } else {
        let t = spaced + p;
        assert(t.last() == p.last());
        assert(t[0] == 'd');
        assert(trim_end_ws(t) == t);
        assert(trim_start_ws(t) == t);
        assert(t.take(6) =~= spaced);
        assert(t.skip(6) =~= p);
        let u = bare + p;
        assert(u.last() == p.last());
        assert(u[0] == 'd');
        assert(trim_end_ws(u) == u);
        assert(trim_start_ws(u) == u);
        assert(u[5] == p[0]);
        assert(p[0] != ' ');
        assert(u.take(6)[5] != spaced[5]);
        assert(!has_prefix(u, spaced));
        assert(u.take(5) =~= bare);
        assert(u.skip(5) =~= p);
    }
}

/// A line that, trimmed, does not start with `data:` carries no payload, and
/// neither does the end marker.
pub proof fn law_line_data_needs_data_field(line: Seq<char>)
    ensures
        !has_prefix(trim_ws(line), DATA_FIELD@) ==> line_data(line) is None,
        line_data(DATA_FIELD_SPACED@ + DONE_MARKER@) is None,
{
    reveal_strlit("data: ");
    reveal_strlit("data:");
    reveal_strlit("[DONE]");
    let spaced = DATA_FIELD_SPACED@;
    let bare = DATA_FIELD@;
    if has_prefix(trim_ws(line), spaced) {
        let t = trim_ws(line);
        assert(t.take(5) =~= t.take(6).take(5));
        assert(spaced.take(5) =~= bare);
    }
    let done = DONE_MARKER@;
    assert(!unicode_white_space(done[0]) && !unicode_white_space(done.last()));
    law_line_data_of_data_line_done(done);
}

/// The end marker, after `data: `, is dropped.
proof fn law_line_data_of_data_line_done(done: Seq<char>)
    requires
        done == DONE_MARKER@,
        !unicode_white_space(done[0]),
        !unicode_white_space(done.last()),
    ensures
        line_data(DATA_FIELD_SPACED@ + done) is None,
{
    reveal_strlit("data: ");
    reveal_strlit("[DONE]");
    let spaced = DATA_FIELD_SPACED@;
    let t = spaced + done;
    assert(!unicode_white_space('d'));
    assert(t.last() == done.last());
    assert(t[0] == 'd');
    assert(trim_end_ws(t) == t);
    assert(trim_start_ws(t) == t);
    assert(t.take(6) =~= spaced);
    assert(t.skip(6) =~= done);
    assert(trim_end_ws(done) == done);
    assert(trim_start_ws(done) == done);
}

/// For byte chunks that are each valid UTF-8, reading `a` and then `b` yields
/// the payloads of reading `a + b` at once, and leaves the same text pending.
pub proof fn law_sse_byte_chunking_invariant(pending: Seq<char>, a: Seq<u8>, b: Seq<u8>)
    requires
        valid_utf8(a),
        valid_utf8(b),
    ensures
        ({
            let (p1, rest1) = sse_step(pending, decode_utf8(a));
            let (p2, rest2) = sse_step(rest1, decode_utf8(b));
            let (p, rest) = sse_step(pending, decode_utf8(a + b));
            p1 + p2 == p && rest2 == rest
        }),
{
    lemma_decode_utf8_append(a, b);
    law_sse_chunking_invariant(pending, decode_utf8(a), decode_utf8(b));
}

// ---------------------------------------------------------------------------
// Executable decoder
// ---------------------------------------------------------------------------

/// The data payload of `line`, as `line_data` defines it.
pub fn data_payload(line: &Vec<char>) -> (r: Option<Vec<char>>)
    ensures
        match r {
            Some(d) => line_data(line@) == Some(d@),
            None => line_data(line@) is None,
        },
{
    let t = trim_chars(line);
    if t.len() == 0 {
        return None;
    }
    let spaced = chars_of(DATA_FIELD_SPACED);
    let bare = chars_of(DATA_FIELD);
    let data = if starts_with_chars(&t, &spaced) {
        trim_chars(&sub_chars(&t, spaced.len(), t.len()))
    } else if starts_with_chars(&t, &bare) {
        trim_chars(&sub_chars(&t, bare.len(), t.len()))
    } else {
        return None;
    };
    assert(t@.subrange(spaced.len() as int, t.len() as int) =~= t@.skip(spaced.len() as int));
    assert(t@.subrange(bare.len() as int, t.len() as int) =~= t@.skip(bare.len() as int));
    if chars_equal(&data, &chars_of(DONE_MARKER)) {
        None
    } else {
        Some(data)
    }
}

/// Splits a server-sent-event body into data payloads as it arrives.
pub struct SseDecoder {
    pending: Vec<char>,
}

impl View for SseDecoder {
    type V = Seq<char>;

    /// The text received after the last complete line.
    closed spec fn view(&self) -> Seq<char> {
        self.pending@
    }
}

impl SseDecoder {
    /// A decoder that has received nothing yet.
    pub fn new() -> (d: Self)
        ensures
            d@ == Seq::<char>::empty(),
    {
        SseDecoder { pending: Vec::new() }
    }

    /// Reads `input`: returns the payloads of the lines it completes, in order,
    /// and keeps the unfinished rest pending.
    pub fn push_text(&mut self, input: &str) -> (payloads: Vec<String>)
        ensures
            strings_view(payloads@) == sse_step(old(self)@, input@).0,
            final(self)@ == sse_step(old(self)@, input@).1,
    {
        let all = crate::text::concat_chars(&self.pending, &chars_of(input));
        let ghost whole = all@;
        let mut out: Vec<String> = Vec::new();
        let mut cur: Vec<char> = Vec::new();
        let mut i: usize = 0;
        assert(whole.take(0) =~= Seq::<char>::empty());
        while i < all.len()
            invariant
                i <= all.len(),
                whole == all@,
                cur@ == split_lines(whole.take(i as int)).1,
                strings_view(out@) == data_payloads(split_lines(whole.take(i as int)).0),
            decreases all.len() - i,
        {
            let c = all[i];
            let ghost prev = whole.take(i as int);
            assert(whole.take(i + 1).drop_last() =~= prev);
            assert(whole.take(i + 1).last() == c);
            if c == '\n' {
                let ghost lines = split_lines(prev).0;
                assert(lines.push(cur@).drop_last() =~= lines);
                match data_payload(&cur) {
                    Some(d) => {
                        out.push(string_of(d.as_slice()));
                        assert(strings_view(out@) =~= strings_view(out@.drop_last()).push(d@));
                    },
                    None => {},
                }
                cur = Vec::new();
            } else {
                cur.push(c);
            }
            i = i + 1;
        }
        assert(whole.take(all.len() as int) =~= whole);
        self.pending = cur;
        out
    }

    /// Reads a chunk of the body's bytes, decoded as UTF-8 with invalid
    /// sequences replaced: returns the payloads of the lines it completes, in
    /// order, and keeps the unfinished rest pending.
    pub fn push_bytes(&mut self, bytes: &[u8]) -> (payloads: Vec<String>)
        ensures
            strings_view(payloads@) == sse_step(old(self)@, utf8_lossy(bytes@)).0,
            final(self)@ == sse_step(old(self)@, utf8_lossy(bytes@)).1,
            valid_utf8(bytes@) ==> strings_view(payloads@) == sse_step(old(self)@, decode_utf8(bytes@)).0,
            valid_utf8(bytes@) ==> final(self)@ == sse_step(old(self)@, decode_utf8(bytes@)).1,
    {
        let text = decode_utf8_lossy(bytes);
        self.push_text(text.as_str())
    }
}

} // verus!
