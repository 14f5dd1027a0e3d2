//! Splitting a file's content into lines of text.

use vstd::prelude::*;
use vstd::slice::slice_subrange;
use vstd::slice::slice_to_vec;
use vstd::utf8::valid_utf8;

verus! {

/// ASCII line feed, the line terminator.
pub const NEWLINE: u8 = 10;

/// ASCII carriage return, dropped where it stands right before a terminator.
pub const CARRIAGE_RETURN: u8 = 13;

/// Number of bytes before the first line feed in `s`, or the length of `s`
/// if it holds none.
pub open spec fn first_break(s: Seq<u8>) -> int
    decreases s.len(),
{
    if s.len() == 0 || s[0] == NEWLINE {
        0
    } else {
        1 + first_break(s.drop_first())
    }
}

/// `s` without one trailing carriage return, if it ends in one.
pub open spec fn without_return(s: Seq<u8>) -> Seq<u8> {
    if s.len() > 0 && s.last() == CARRIAGE_RETURN {
        s.drop_last()
    } else {
        s
    }
}

/// The text of a line: its bytes where they are valid UTF-8, and the empty
/// text where they are not.
pub open spec fn decoded(raw: Seq<u8>) -> Seq<u8> {
    if valid_utf8(raw) {
        raw
    } else {
        Seq::empty()
    }
}

/// The lines of `content`.
///
/// Each line feed ends a line; a carriage return right before it belongs to
/// the terminator. Bytes after the last line feed form a final line, kept as
/// they are. Empty content has no lines. A line that is not valid UTF-8
/// reads as an empty line.
pub open spec fn lines_of(content: Seq<u8>) -> Seq<Seq<u8>>
    decreases content.len(),
{
    if content.len() == 0 {
        Seq::empty()
    } else {
        let k = first_break(content);
        if k < 0 || k >= content.len() {
            seq![decoded(content)]
        } else {
            seq![decoded(without_return(content.take(k)))] + lines_of(content.skip(k + 1))
        }
    }
}

/// The pieces into which the line feeds cut `s`: each line feed ends a piece,
/// and bytes after the last line feed form a final piece. No piece holds the
/// line feed that ended it.
pub open spec fn segments(s: Seq<u8>) -> Seq<Seq<u8>>
    decreases s.len(),
{
    if s.len() == 0 {
        Seq::empty()
    } else {
        let k = first_break(s);
        if k < 0 || k >= s.len() {
            seq![s]
        } else {
            seq![s.take(k)] + segments(s.skip(k + 1))
        }
    }
}

/// Whether `s` holds no line feed.
pub open spec fn unbroken(s: Seq<u8>) -> bool {
    forall|j: int| 0 <= j < s.len() ==> s[j] != NEWLINE
}

/// `first_break` is the position of the first line feed.
pub proof fn lemma_first_break(s: Seq<u8>, k: int)
    requires
        0 <= k <= s.len(),
        forall|j: int| 0 <= j < k ==> s[j] != NEWLINE,
        k < s.len() ==> s[k] == NEWLINE,
    ensures
        first_break(s) == k,
    decreases s.len(),
{
    if k > 0 {
        let t = s.drop_first();
        assert forall|j: int| 0 <= j < k - 1 implies t[j] != NEWLINE by {
            assert(t[j] == s[j + 1]);
        }
        lemma_first_break(t, k - 1);
    }
}

/// `first_break` stays within the sequence and stops at a line feed.
pub proof fn lemma_first_break_bounds(s: Seq<u8>)
    ensures
        0 <= first_break(s) <= s.len(),
        forall|j: int| 0 <= j < first_break(s) ==> s[j] != NEWLINE,
        first_break(s) < s.len() ==> s[first_break(s)] == NEWLINE,
    decreases s.len(),
{
    if !(s.len() == 0 || s[0] == NEWLINE) {
        let t = s.drop_first();
        lemma_first_break_bounds(t);
        assert forall|j: int| 0 <= j < first_break(s) implies s[j] != NEWLINE by {
            if j > 0 {
                assert(s[j] == t[j - 1]);
            }
        }
        if first_break(s) < s.len() {
            assert(s[first_break(s)] == t[first_break(t)]);
        }
    }
}

/// No line holds a line feed.
pub proof fn lemma_lines_hold_no_break(content: Seq<u8>)
    ensures
        forall|i: int, j: int|
            0 <= i < lines_of(content).len() && 0 <= j < lines_of(content)[i].len() ==> (
            #[trigger] lines_of(content)[i][j]) != NEWLINE,
    decreases content.len(),
{
    if content.len() > 0 {
        lemma_first_break_bounds(content);
        let k = first_break(content);
        if k < content.len() {
            let rest = content.skip(k + 1);
            lemma_lines_hold_no_break(rest);
            let head = decoded(without_return(content.take(k)));
            assert forall|i: int, j: int|
                0 <= i < lines_of(content).len() && 0 <= j < lines_of(content)[i].len() implies (
            #[trigger] lines_of(content)[i][j]) != NEWLINE by {
                if i == 0 {
                    assert(lines_of(content)[0] == head);
                    assert(head[j] == content[j]);
                } else {
                    assert(lines_of(content)[i] == lines_of(rest)[i - 1]);
                }
            }
        } else {
            assert forall|i: int, j: int|
                0 <= i < lines_of(content).len() && 0 <= j < lines_of(content)[i].len() implies (
            #[trigger] lines_of(content)[i][j]) != NEWLINE by {
                assert(lines_of(content)[i] == decoded(content));
            }
        }
    }
}

/// Whether `bytes` is valid UTF-8.
///
/// Calls `std::str::from_utf8`, which returns `Ok` exactly for the byte
/// strings that are well-formed UTF-8; the contract equates that with
/// `valid_utf8`. Taken on trust.
#[verifier::external_body]
fn is_utf8(bytes: &[u8]) -> (ok: bool)
    ensures
        ok == valid_utf8(bytes@),
{
    std::str::from_utf8(bytes).is_ok()
}

/// The text of the line that occupies `content[start..end]`.
fn decode_line(content: &[u8], start: usize, end: usize) -> (line: Vec<u8>)
    requires
        start <= end <= content@.len(),
    ensures
        line@ == decoded(content@.subrange(start as int, end as int)),
{
    let raw = slice_subrange(content, start, end);
    if is_utf8(raw) {
        slice_to_vec(raw)
    } else {
        Vec::new()
    }
}

/// Splits a file's content into its lines.
pub fn file_to_lines(content: &[u8]) -> (lines: Vec<Vec<u8>>)
    ensures
        lines.deep_view() == lines_of(content@),
{
    let mut lines: Vec<Vec<u8>> = Vec::new();
    let mut start: usize = 0;
    let mut i: usize = 0;
    let n: usize = content.len();
    assert(content@.skip(0) =~= content@);
    assert(lines.deep_view() =~= Seq::<Seq<u8>>::empty());
    while i < n
        invariant
            n == content@.len(),
            start <= i <= n,
            forall|j: int| start <= j < i ==> content@[j] != NEWLINE,
            lines.deep_view() + lines_of(content@.skip(start as int)) == lines_of(content@),
        decreases n - i,
    {
        if content[i] == NEWLINE {
            let mut end: usize = i;
            if end > start && content[end - 1] == CARRIAGE_RETURN {
                end = end - 1;
            }
            let line = decode_line(content, start, end);
            proof {
                let rest = content@.skip(start as int);
                let k = i - start;
                assert forall|j: int| 0 <= j < k implies rest[j] != NEWLINE by {
                    assert(rest[j] == content@[start + j]);
                }
                lemma_first_break(rest, k);
                assert(rest.skip(k + 1) =~= content@.skip(i + 1));
                assert(without_return(rest.take(k)) =~= content@.subrange(
                    start as int,
                    end as int,
                ));
                assert(lines_of(rest) == seq![line@] + lines_of(content@.skip(i + 1)));
                assert(lines.deep_view().push(line@) + lines_of(content@.skip(i + 1))
                    =~= lines.deep_view() + lines_of(rest));
            }
            let ghost before = lines.deep_view();
            assert(line.deep_view() =~= line@);
            lines.push(line);
            assert(lines.deep_view() =~= before.push(line@));
            start = i + 1;
        }
        i = i + 1;
    }
    if start < n {
        let line = decode_line(content, start, n);
        proof {
            let rest = content@.skip(start as int);
            assert forall|j: int| 0 <= j < rest.len() implies rest[j] != NEWLINE by {
                assert(rest[j] == content@[start + j]);
            }
            lemma_first_break(rest, rest.len() as int);
            assert(rest =~= content@.subrange(start as int, n as int));
            assert(lines_of(rest) == seq![line@]);
        }
        let ghost before = lines.deep_view();
        assert(line.deep_view() =~= line@);
        lines.push(line);
        assert(lines.deep_view() =~= before.push(line@));
    } else {
        assert(content@.skip(start as int) =~= Seq::<u8>::empty());
        assert(lines.deep_view() + Seq::<Seq<u8>>::empty() =~= lines.deep_view());
    }
    lines
}

} // verus!
