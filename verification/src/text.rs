//! Splitting text held as bytes: pieces between separators, lines, and
//! whitespace-separated tokens, each as a range of offsets into the text.
use vstd::prelude::*;
use vstd::slice::slice_subrange;
use vstd::utf8::{decode_utf8, valid_utf8};

verus! {

/// A range of offsets into a text: from `.0` up to but not including `.1`.
pub type Span = (usize, usize);

/// The spans `r` are the ranges `m`, one for one.
pub open spec fn spans_are(r: Seq<Span>, m: Seq<(int, int)>) -> bool {
    &&& r.len() == m.len()
    &&& forall|k: int| 0 <= k < r.len() ==> (#[trigger] r[k]).0 == m[k].0 && r[k].1 == m[k].1
}

/// The offset of the first `sep` at or after `i`, or the length of `s` if there is none.
pub open spec fn find_byte(s: Seq<u8>, sep: u8, i: int) -> int
    decreases s.len() - i,
{
    if i < 0 || i >= s.len() {
        s.len() as int
    } else if s[i] == sep {
        i
    } else {
        find_byte(s, sep, i + 1)
    }
}

pub proof fn lemma_find_byte(s: Seq<u8>, sep: u8, i: int)
    requires
        0 <= i <= s.len(),
    ensures
        i <= find_byte(s, sep, i) <= s.len(),
        find_byte(s, sep, i) < s.len() ==> s[find_byte(s, sep, i)] == sep,
        forall|j: int| i <= j < find_byte(s, sep, i) ==> s[j] != sep,
    decreases s.len() - i,
{
    if i < s.len() && s[i] != sep {
        lemma_find_byte(s, sep, i + 1);
    }
}

/// The pieces of `s` from `i` on that `sep` separates, the empty piece after
/// a final separator included.
pub open spec fn pieces_from(s: Seq<u8>, sep: u8, i: int) -> Seq<(int, int)>
    decreases s.len() - i,
    when 0 <= i <= s.len()
    via pieces_from_decreases
{
    let end = find_byte(s, sep, i);
    if end >= s.len() {
        seq![(i, s.len() as int)]
    } else {
        seq![(i, end)] + pieces_from(s, sep, end + 1)
    }
}

#[via_fn]
proof fn pieces_from_decreases(s: Seq<u8>, sep: u8, i: int) {
    lemma_find_byte(s, sep, i);
}

/// The pieces of `s` that `sep` separates.
pub open spec fn pieces(s: Seq<u8>, sep: u8) -> Seq<(int, int)> {
    pieces_from(s, sep, 0)
}

/// The pieces of `s` that `sep` ends: as [`pieces`], without the empty piece
/// after a final separator, so that the empty text has no piece.
pub open spec fn terminated_pieces(s: Seq<u8>, sep: u8) -> Seq<(int, int)> {
    let all = pieces(s, sep);
    if all.last().0 == all.last().1 {
        all.drop_last()
    } else {
        all
    }
}

pub const LINE_FEED: u8 = 0x0a;

pub const CARRIAGE_RETURN: u8 = 0x0d;

/// A line without its ending: the piece before a line feed, less one
/// carriage return that stands right before that line feed.
pub open spec fn line_of(s: Seq<u8>, piece: (int, int)) -> (int, int) {
    if piece.1 < s.len() && piece.0 < piece.1 && s[piece.1 - 1] == CARRIAGE_RETURN {
        (piece.0, piece.1 - 1)
    } else {
        piece
    }
}

/// The lines of a text. A final line feed ends the last line and starts no new one.
pub open spec fn lines(s: Seq<u8>) -> Seq<(int, int)> {
    terminated_pieces(s, LINE_FEED).map_values(|piece: (int, int)| line_of(s, piece))
}

/// The bytes that separate tokens: space, tab, line feed, vertical tab, form
/// feed and carriage return.
pub open spec fn is_space(b: u8) -> bool {
    b == 0x20 || (0x09 <= b <= 0x0d)
}

/// The offset of the first byte at or after `i` that is, or is not, a space
/// as `space` says; the length of `s` if there is none.
pub open spec fn find_space(s: Seq<u8>, space: bool, i: int) -> int
    decreases s.len() - i,
{
    if i < 0 || i >= s.len() {
        s.len() as int
    } else if is_space(s[i]) == space {
        i
    } else {
        find_space(s, space, i + 1)
    }
}

pub proof fn lemma_find_space(s: Seq<u8>, space: bool, i: int)
    requires
        0 <= i <= s.len(),
    ensures
        i <= find_space(s, space, i) <= s.len(),
        find_space(s, space, i) < s.len() ==> is_space(s[find_space(s, space, i)]) == space,
        forall|j: int| i <= j < find_space(s, space, i) ==> is_space(s[j]) != space,
    decreases s.len() - i,
{
    if i < s.len() && is_space(s[i]) != space {
        lemma_find_space(s, space, i + 1);
    }
}

/// The tokens of `s` from `i` on: the maximal runs of bytes that are no spaces.
pub open spec fn tokens_from(s: Seq<u8>, i: int) -> Seq<(int, int)>
    decreases s.len() - i,
    when 0 <= i <= s.len()
    via tokens_from_decreases
{
    let start = find_space(s, false, i);
    if start >= s.len() {
        Seq::empty()
    } else {
        let end = find_space(s, true, start);
        seq![(start, end)] + tokens_from(s, end)
    }
}

#[via_fn]
proof fn tokens_from_decreases(s: Seq<u8>, i: int) {
    lemma_find_space(s, false, i);
    let start = find_space(s, false, i);
    if start < s.len() {
        lemma_find_space(s, true, start);
    }
}

/// The whitespace-separated tokens of a text.
pub open spec fn tokens(s: Seq<u8>) -> Seq<(int, int)> {
    tokens_from(s, 0)
}

/// The bytes of `s` that the range `r` covers.
pub open spec fn span_bytes(s: Seq<u8>, r: (int, int)) -> Seq<u8> {
    s.subrange(r.0, r.1)
}

fn find_byte_from(data: &[u8], sep: u8, from: usize) -> (r: usize)
    requires
        from <= data.len(),
    ensures
        r == find_byte(data@, sep, from as int),
        from <= r <= data.len(),
{
    let mut i = from;
    while i < data.len() && data[i] != sep
        invariant
            from <= i <= data.len(),
            find_byte(data@, sep, from as int) == find_byte(data@, sep, i as int),
        decreases data.len() - i,
    {
        i = i + 1;
    }
    i
}

fn find_space_from(data: &[u8], space: bool, from: usize) -> (r: usize)
    requires
        from <= data.len(),
    ensures
        r == find_space(data@, space, from as int),
        from <= r <= data.len(),
{
    let mut i = from;
    while i < data.len() && is_space_byte(data[i]) != space
        invariant
            from <= i <= data.len(),
            find_space(data@, space, from as int) == find_space(data@, space, i as int),
        decreases data.len() - i,
    {
        i = i + 1;
    }
    i
}

pub fn is_space_byte(b: u8) -> (r: bool)
    ensures
        r == is_space(b),
{
    b == 0x20 || (0x09 <= b && b <= 0x0d)
}

/// Splits a text at every `sep`.
pub fn split(data: &[u8], sep: u8) -> (r: Vec<Span>)
    ensures
        spans_are(r@, pieces(data@, sep)),
        r@.len() >= 1,
        forall|k: int| 0 <= k < r@.len() ==> (#[trigger] r@[k]).0 <= r@[k].1 <= data@.len(),
{
    let mut out: Vec<Span> = Vec::new();
    let mut i: usize = 0;
    let ghost mut done: Seq<(int, int)> = Seq::empty();
    loop
        invariant_except_break
            done + pieces_from(data@, sep, i as int) == pieces(data@, sep),
        invariant
            i <= data.len(),
            spans_are(out@, done),
            forall|k: int| 0 <= k < out@.len() ==> (#[trigger] out@[k]).0 <= out@[k].1 <= data@.len(),
        ensures
            spans_are(out@, pieces(data@, sep)),
            out@.len() >= 1,
            forall|k: int| 0 <= k < out@.len() ==> (#[trigger] out@[k]).0 <= out@[k].1 <= data@.len(),
        decreases data.len() - i,
    {
        let end = find_byte_from(data, sep, i);
        out.push((i, end));
        if end >= data.len() {
            proof {
                done = done.push((i as int, data@.len() as int));
                assert(done =~= pieces(data@, sep));
            }
            break ;
        }
        proof {
            let rest = pieces_from(data@, sep, end + 1);
            assert(done.push((i as int, end as int)) + rest =~= done + (seq![(i as int, end as int)]
                + rest));
            done = done.push((i as int, end as int));
        }
        i = end + 1;
    }
    out
}

/// Splits a text into the pieces that `sep` ends.
pub fn split_terminator(data: &[u8], sep: u8) -> (r: Vec<Span>)
    ensures
        spans_are(r@, terminated_pieces(data@, sep)),
        forall|k: int| 0 <= k < r@.len() ==> (#[trigger] r@[k]).0 <= r@[k].1 <= data@.len(),
{
    let mut out = split(data, sep);
    let ghost all = out@;
    let last = out[out.len() - 1];
    if last.0 == last.1 {
        out.pop();
        assert(out@ =~= all.drop_last());
    }
    out
}

/// Splits a text into its lines.
pub fn split_lines(data: &[u8]) -> (r: Vec<Span>)
    ensures
        spans_are(r@, lines(data@)),
        forall|k: int| 0 <= k < r@.len() ==> (#[trigger] r@[k]).0 <= r@[k].1 <= data@.len(),
{
    let found = split_terminator(data, LINE_FEED);
    let mut out: Vec<Span> = Vec::new();
    let mut k: usize = 0;
    let ghost want = terminated_pieces(data@, LINE_FEED);
    while k < found.len()
        invariant
            k <= found@.len(),
            spans_are(found@, want),
            forall|j: int| 0 <= j < found@.len() ==> (#[trigger] found@[j]).0 <= found@[j].1 <= data@.len(),
            out@.len() == k,
            forall|j: int|
                0 <= j < k ==> (#[trigger] out@[j]).0 == line_of(data@, want[j]).0 && out@[j].1
                    == line_of(data@, want[j]).1,
            forall|j: int| 0 <= j < k ==> (#[trigger] out@[j]).0 <= out@[j].1 <= data@.len(),
        decreases found.len() - k,
    {
        let piece = found[k];
        assert(found@[k as int].0 == want[k as int].0 && found@[k as int].1 == want[k as int].1);
        if piece.1 < data.len() && piece.0 < piece.1 && data[piece.1 - 1] == CARRIAGE_RETURN {
            out.push((piece.0, piece.1 - 1));
        } else {
            out.push(piece);
        }
        k = k + 1;
    }
    out
}

/// Splits a text into its whitespace-separated tokens.
pub fn split_whitespace(data: &[u8]) -> (r: Vec<Span>)
    ensures
        spans_are(r@, tokens(data@)),
        forall|k: int| 0 <= k < r@.len() ==> (#[trigger] r@[k]).0 < r@[k].1 <= data@.len(),
{
    let mut out: Vec<Span> = Vec::new();
    let mut i: usize = 0;
    let ghost mut done: Seq<(int, int)> = Seq::empty();
    loop
        invariant
            i <= data.len(),
            spans_are(out@, done),
            done + tokens_from(data@, i as int) == tokens(data@),
            forall|k: int| 0 <= k < out@.len() ==> (#[trigger] out@[k]).0 < out@[k].1 <= data@.len(),
        ensures
            spans_are(out@, tokens(data@)),
            forall|k: int| 0 <= k < out@.len() ==> (#[trigger] out@[k]).0 < out@[k].1 <= data@.len(),
        decreases data.len() - i,
    {
        let start = find_space_from(data, false, i);
        if start >= data.len() {
            assert(done =~= tokens(data@));
            break ;
        }
        let end = find_space_from(data, true, start);
        proof {
            lemma_find_space(data@, false, i as int);
            lemma_find_space(data@, true, start as int);
            let rest = tokens_from(data@, end as int);
            assert(done.push((start as int, end as int)) + rest =~= done + (seq![
                (start as int, end as int),
            ] + rest));
            done = done.push((start as int, end as int));
        }
        out.push((start, end));
        i = end;
    }
    out
}


/// Whether the first `n` bytes of `bytes` are its longest prefix that is
/// valid UTF-8: they are valid, and no longer prefix is.
pub open spec fn is_longest_valid_prefix(bytes: Seq<u8>, n: int) -> bool {
    &&& 0 <= n <= bytes.len()
    &&& valid_utf8(bytes.subrange(0, n))
    &&& forall|m: int| n < m <= bytes.len() ==> !valid_utf8(#[trigger] bytes.subrange(0, m))
}

/// The length of the longest prefix of `bytes` that is valid UTF-8.
pub open spec fn utf8_valid_prefix_len(bytes: Seq<u8>) -> int {
    choose|n: int| is_longest_valid_prefix(bytes, n)
}

/// There is one longest valid prefix.
pub proof fn lemma_longest_valid_prefix(bytes: Seq<u8>, n: int)
    requires
        is_longest_valid_prefix(bytes, n),
    ensures
        utf8_valid_prefix_len(bytes) == n,
{
    let chosen = utf8_valid_prefix_len(bytes);
    assert(is_longest_valid_prefix(bytes, chosen));
    if chosen < n {
        assert(!valid_utf8(bytes.subrange(0, n)));
    } else if n < chosen {
        assert(!valid_utf8(bytes.subrange(0, chosen)));
    }
}

/// `core::str::from_utf8`: bytes that are valid UTF-8 give the text that
/// they encode; of others its error gives, by `valid_up_to`, the greatest
/// length at which a prefix of the bytes is valid.
#[verifier::external_body]
fn str_from_utf8(bytes: &[u8]) -> (r: Result<&str, usize>)
    ensures
        r matches Ok(text) ==> valid_utf8(bytes@) && text@ == decode_utf8(bytes@),
        r matches Err(n) ==> !valid_utf8(bytes@) && is_longest_valid_prefix(bytes@, n as int),
{
    match core::str::from_utf8(bytes) {
        Ok(text) => Ok(text),
        Err(e) => Err(e.valid_up_to()),
    }
}

/// The text that bytes encode in UTF-8, or, where they encode none, the
/// length of their longest prefix that does.
pub fn string_from_utf8(bytes: &[u8]) -> (r: Result<String, usize>)
    ensures
        r matches Ok(text) ==> valid_utf8(bytes@) && text@ == decode_utf8(bytes@),
        r matches Err(n) ==> !valid_utf8(bytes@) && n == utf8_valid_prefix_len(bytes@),
{
    match str_from_utf8(bytes) {
        Ok(text) => Ok(text.to_owned()),
        Err(n) => {
            proof {
                lemma_longest_valid_prefix(bytes@, n as int);
            }
            Err(n)
        },
    }
}


/// Token `k` of a text, if it has that many tokens.
pub open spec fn token_at(s: Seq<u8>, k: int) -> Option<Seq<u8>> {
    if 0 <= k < tokens(s).len() {
        Some(span_bytes(s, tokens(s)[k]))
    } else {
        None
    }
}

/// The last token of a text, if it has a token.
pub open spec fn last_token(s: Seq<u8>) -> Option<Seq<u8>> {
    if tokens(s).len() > 0 {
        Some(span_bytes(s, tokens(s).last()))
    } else {
        None
    }
}

/// Line `n` of a text, if it has that many lines.
pub open spec fn line_at(s: Seq<u8>, n: int) -> Option<Seq<u8>> {
    if 0 <= n < lines(s).len() {
        Some(span_bytes(s, lines(s)[n]))
    } else {
        None
    }
}

/// Token `k` of a text.
pub fn nth_token(data: &[u8], k: usize) -> (r: Option<&[u8]>)
    ensures
        r matches Some(token) ==> token_at(data@, k as int) == Some(token@),
        r is None ==> token_at(data@, k as int) is None,
{
    let found = split_whitespace(data);
    if k < found.len() {
        let span = found[k];
        Some(slice_subrange(data, span.0, span.1))
    } else {
        None
    }
}

/// The last token of a text.
pub fn final_token(data: &[u8]) -> (r: Option<&[u8]>)
    ensures
        r matches Some(token) ==> last_token(data@) == Some(token@),
        r is None ==> last_token(data@) is None,
{
    let found = split_whitespace(data);
    if found.len() > 0 {
        let span = found[found.len() - 1];
        Some(slice_subrange(data, span.0, span.1))
    } else {
        None
    }
}

/// Line `n` of a text.
pub fn nth_line(data: &[u8], n: usize) -> (r: Option<&[u8]>)
    ensures
        r matches Some(line) ==> line_at(data@, n as int) == Some(line@),
        r is None ==> line_at(data@, n as int) is None,
{
    let found = split_lines(data);
    if n < found.len() {
        let span = found[n];
        Some(slice_subrange(data, span.0, span.1))
    } else {
        None
    }
}

} // verus!
