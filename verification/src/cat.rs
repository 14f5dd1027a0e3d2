//! Formatting the lines of a file for output.

use vstd::prelude::*;
use vstd::utf8::valid_utf8;
use crate::decimal::{
    decimal, decimal_value, is_digit, lemma_decimal_denotes, push_right_aligned, right_aligned,
    SPACE,
};
use crate::lines::{
    decoded, file_to_lines, first_break, lemma_first_break, lemma_first_break_bounds,
    lemma_lines_hold_no_break, lines_of, segments, unbroken, without_return, CARRIAGE_RETURN,
    NEWLINE,
};

verus! {

/// Width of the field that holds a line number.
pub const NUMBER_WIDTH: usize = 6;

/// ASCII dollar sign, the marker that shows where a line ends.
pub const END_MARKER: u8 = 36;

/// How lines are printed.
#[derive(Clone, Copy, Debug, PartialEq, Eq)]
pub struct Options {
    /// Prefix each line with its number.
    pub number: bool,
    /// Append a marker to each line.
    pub show_ends: bool,
}

/// What precedes the text of line `number`: with numbering, the number in
/// decimal, right-aligned in six columns, and one space; else nothing.
pub open spec fn prefix(number: nat, options: Options) -> Seq<u8> {
    if options.number {
        right_aligned(decimal(number), NUMBER_WIDTH as nat).push(SPACE)
    } else {
        Seq::empty()
    }
}

/// What follows the text of a line: the end marker if asked for.
pub open spec fn suffix(options: Options) -> Seq<u8> {
    if options.show_ends {
        seq![END_MARKER]
    } else {
        Seq::empty()
    }
}

/// Line `number` as it is printed, without its terminator.
pub open spec fn formatted(number: nat, line: Seq<u8>, options: Options) -> Seq<u8> {
    prefix(number, options) + line + suffix(options)
}

/// The printed form of `lines`, the first of them numbered `first`: each
/// line formatted and followed by a line feed.
pub open spec fn joined(lines: Seq<Seq<u8>>, options: Options, first: nat) -> Seq<u8>
    decreases lines.len(),
{
    if lines.len() == 0 {
        Seq::empty()
    } else {
        formatted(first, lines[0], options).push(NEWLINE) + joined(
            lines.drop_first(),
            options,
            first + 1,
        )
    }
}

/// What is printed for a file with the given content. Lines are numbered
/// from one.
pub open spec fn output_of(content: Seq<u8>, options: Options) -> Seq<u8> {
    joined(lines_of(content), options, 1)
}

/// Content that is printed back unchanged: every line ends with a line feed,
/// none has a carriage return before it, and each is valid UTF-8.
pub open spec fn is_plain_text(content: Seq<u8>) -> bool {
    &&& content.len() == 0 || content.last() == NEWLINE
    &&& forall|i: int|
        0 <= i < segments(content).len() ==> {
            let piece = #[trigger] segments(content)[i];
            &&& valid_utf8(piece)
            &&& piece.len() == 0 || piece.last() != CARRIAGE_RETURN
        }
}

/// A formatted line holds no line feed unless its text does.
proof fn lemma_formatted_unbroken(number: nat, line: Seq<u8>, options: Options)
    requires
        unbroken(line),
    ensures
        unbroken(formatted(number, line, options)),
{
    lemma_decimal_denotes(number);
    let digits = decimal(number);
    let field = right_aligned(digits, NUMBER_WIDTH as nat);
    assert forall|j: int| 0 <= j < field.len() implies field[j] != NEWLINE by {
        if digits.len() < NUMBER_WIDTH {
            let pad = NUMBER_WIDTH - digits.len();
            if j >= pad {
                assert(field[j] == digits[j - pad]);
                assert(is_digit(digits[j - pad]));
            }
        } else {
            assert(is_digit(digits[j]));
        }
    }
    let p = prefix(number, options);
    assert(unbroken(p));
    let f = formatted(number, line, options);
    assert forall|j: int| 0 <= j < f.len() implies f[j] != NEWLINE by {
        if j < p.len() {
            assert(f[j] == p[j]);
        } else if j < p.len() + line.len() {
            assert(f[j] == line[j - p.len()]);
        }
    }
}

/// Cutting the printed form at its line feeds gives back the formatted
/// lines, one piece per line.
pub proof fn lemma_segments_of_joined(lines: Seq<Seq<u8>>, options: Options, first: nat)
    requires
        forall|i: int| 0 <= i < lines.len() ==> unbroken(#[trigger] lines[i]),
    ensures
        segments(joined(lines, options, first)).len() == lines.len(),
        forall|i: int|
            0 <= i < lines.len() ==> #[trigger] segments(joined(lines, options, first))[i]
                == formatted((first + i) as nat, lines[i], options),
    decreases lines.len(),
{
    if lines.len() > 0 {
        let head = formatted(first, lines[0], options);
        let tail = joined(lines.drop_first(), options, first + 1);
        let all = joined(lines, options, first);
        assert(all == head.push(NEWLINE) + tail);
        lemma_formatted_unbroken(first, lines[0], options);
        assert forall|j: int| 0 <= j < head.len() implies all[j] != NEWLINE by {
            assert(all[j] == head[j]);
        }
        assert(all[head.len() as int] == NEWLINE);
        lemma_first_break(all, head.len() as int);
        assert(all.take(head.len() as int) =~= head);
        assert(all.skip(head.len() as int + 1) =~= tail);
        assert forall|i: int| 0 <= i < lines.drop_first().len() implies unbroken(
            #[trigger] lines.drop_first()[i],
        ) by {
            assert(lines.drop_first()[i] == lines[i + 1]);
        }
        lemma_segments_of_joined(lines.drop_first(), options, first + 1);
        assert(segments(all) == seq![head] + segments(tail));
        assert forall|i: int| 0 <= i < lines.len() implies #[trigger] segments(all)[i]
            == formatted((first + i) as nat, lines[i], options) by {
            if i > 0 {
                assert(segments(all)[i] == segments(tail)[i - 1]);
                assert(lines.drop_first()[i - 1] == lines[i]);
            }
        }
    }
}

/// With numbering on, the output has one line per line of the file, and
/// line `n` of the output, counted from one, is `n` in decimal,
/// right-aligned in six columns, one space, the text of line `n` of the
/// file, and the end marker if one was asked for.
pub proof fn lemma_numbered_output(content: Seq<u8>, options: Options, n: nat)
    requires
        options.number,
        1 <= n <= lines_of(content).len(),
    ensures
        segments(output_of(content, options)).len() == lines_of(content).len(),
        segments(output_of(content, options))[n - 1] == right_aligned(
            decimal(n),
            NUMBER_WIDTH as nat,
        ).push(SPACE) + lines_of(content)[n - 1] + suffix(options),
        decimal_value(decimal(n)) == n,
{
    let lines = lines_of(content);
    lemma_lines_hold_no_break(content);
    assert forall|i: int| 0 <= i < lines.len() implies unbroken(#[trigger] lines[i]) by {
        assert forall|j: int| 0 <= j < lines[i].len() implies lines[i][j] != NEWLINE by {
            assert(lines_of(content)[i][j] != NEWLINE);
        }
    }
    lemma_segments_of_joined(lines, options, 1);
    assert(segments(joined(lines, options, 1))[n - 1] == formatted(
        (1 + (n - 1)) as nat,
        lines[n - 1],
        options,
    ));
    lemma_decimal_denotes(n);
}

/// Without numbering and end markers, plain text is printed back byte for
/// byte, whatever its length.
pub proof fn lemma_plain_output_is_content(content: Seq<u8>, options: Options)
    requires
        !options.number,
        !options.show_ends,
        is_plain_text(content),
    ensures
        output_of(content, options) == content,
{
    lemma_plain_joined(content, options, 1);
}

proof fn lemma_plain_joined(content: Seq<u8>, options: Options, first: nat)
    requires
        !options.number,
        !options.show_ends,
        is_plain_text(content),
    ensures
        joined(lines_of(content), options, first) == content,
    decreases content.len(),
{
    if content.len() > 0 {
        lemma_first_break_bounds(content);
        let k = first_break(content);
        assert(k < content.len()) by {
            if k >= content.len() {
                assert(content[content.len() - 1] != NEWLINE);
            }
        }
        let piece = content.take(k);
        let rest = content.skip(k + 1);
        assert(segments(content) == seq![piece] + segments(rest));
        assert(segments(content)[0] == piece);
        assert(is_plain_text(rest)) by {
            if rest.len() > 0 {
                assert(rest.last() == content.last());
            }
            assert forall|i: int| 0 <= i < segments(rest).len() implies {
                let p = #[trigger] segments(rest)[i];
                &&& valid_utf8(p)
                &&& p.len() == 0 || p.last() != CARRIAGE_RETURN
            } by {
                assert(segments(rest)[i] == segments(content)[i + 1]);
            }
        }
        lemma_plain_joined(rest, options, first + 1);
        let lines = lines_of(content);
        assert(lines == seq![piece] + lines_of(rest));
        assert(lines.drop_first() =~= lines_of(rest));
        assert(formatted(first, piece, options) =~= piece);
        assert(piece.push(NEWLINE) + rest =~= content);
    }
}

/// Only plain text is printed back byte for byte: content that comes out
/// unchanged ends every line with a line feed, has no carriage return
/// before one, and is valid UTF-8 line by line.
pub proof fn lemma_unchanged_output_is_plain(content: Seq<u8>, options: Options)
    requires
        !options.number,
        !options.show_ends,
        output_of(content, options) == content,
    ensures
        is_plain_text(content),
{
    lemma_unchanged_joined(content, options, 1);
}

proof fn lemma_joined_ends_with_break(lines: Seq<Seq<u8>>, options: Options, first: nat)
    requires
        lines.len() > 0,
    ensures
        joined(lines, options, first).len() > 0,
        joined(lines, options, first).last() == NEWLINE,
    decreases lines.len(),
{
    let head = formatted(first, lines[0], options).push(NEWLINE);
    let tail = joined(lines.drop_first(), options, first + 1);
    if lines.len() > 1 {
        lemma_joined_ends_with_break(lines.drop_first(), options, first + 1);
        assert((head + tail).last() == tail.last());
    } else {
        assert(tail =~= Seq::<u8>::empty());
        assert(head + tail =~= head);
    }
}

proof fn lemma_unchanged_joined(content: Seq<u8>, options: Options, first: nat)
    requires
        !options.number,
        !options.show_ends,
        joined(lines_of(content), options, first) == content,
    ensures
        is_plain_text(content),
    decreases content.len(),
{
    if content.len() > 0 {
        lemma_first_break_bounds(content);
        let k = first_break(content);
        let lines = lines_of(content);
        lemma_joined_ends_with_break(lines, options, first);
        assert(k < content.len()) by {
            if k >= content.len() {
                assert(content[content.len() - 1] != NEWLINE);
            }
        }
        let piece = content.take(k);
        let rest = content.skip(k + 1);
        let text = decoded(without_return(piece));
        assert(lines == seq![text] + lines_of(rest));
        assert(lines[0] == text);
        assert(lines.drop_first() =~= lines_of(rest));
        let tail = joined(lines_of(rest), options, first + 1);
        assert(formatted(first, text, options) =~= text);
        assert(content == text.push(NEWLINE) + tail);
        assert(text.len() <= piece.len());
        assert(text.len() == k) by {
            if text.len() < k {
                assert(content[text.len() as int] == NEWLINE);
            }
        }
        assert(piece.len() == 0 || piece.last() != CARRIAGE_RETURN);
        assert(valid_utf8(piece)) by {
            if piece.len() == 0 {
                assert(piece =~= Seq::<u8>::empty());
            }
        }
        assert(tail =~= rest) by {
            assert(content.skip(k + 1) =~= (text.push(NEWLINE) + tail).skip(k + 1));
            assert((text.push(NEWLINE) + tail).skip(k + 1) =~= tail);
        }
        lemma_unchanged_joined(rest, options, first + 1);
        assert(segments(content) == seq![piece] + segments(rest));
        assert forall|i: int| 0 <= i < segments(content).len() implies {
            let p = #[trigger] segments(content)[i];
            &&& valid_utf8(p)
            &&& p.len() == 0 || p.last() != CARRIAGE_RETURN
        } by {
            if i > 0 {
                assert(segments(content)[i] == segments(rest)[i - 1]);
            }
        }
    } else {
        assert(segments(content) =~= Seq::<Seq<u8>>::empty());
    }
}

/// Appends `bytes` to `out`.
fn push_bytes(out: &mut Vec<u8>, bytes: &[u8])
    ensures
        final(out)@ == old(out)@ + bytes@,
{
    let mut i: usize = 0;
    while i < bytes.len()
        invariant
            i <= bytes@.len(),
            out@ == old(out)@ + bytes@.take(i as int),
        decreases bytes@.len() - i,
    {
        out.push(bytes[i]);
        i = i + 1;
        assert(out@ =~= old(out)@ + bytes@.take(i as int));
    }
    assert(bytes@.take(bytes@.len() as int) =~= bytes@);
}

/// Appends line `number` to `out` as it is printed, without its terminator.
fn push_line(out: &mut Vec<u8>, number: usize, line: &[u8], options: Options)
    ensures
        final(out)@ == old(out)@ + formatted(number as nat, line@, options),
{
    if options.number {
        push_right_aligned(out, number, NUMBER_WIDTH);
        out.push(SPACE);
    }
    push_bytes(out, line);
    if options.show_ends {
        out.push(END_MARKER);
    }
    assert(final(out)@ =~= old(out)@ + formatted(number as nat, line@, options));
}

/// Formats one line for output, without its terminator.
pub fn format_line(number: usize, line: &[u8], options: Options) -> (text: Vec<u8>)
    ensures
        text@ == formatted(number as nat, line@, options),
{
    let mut text: Vec<u8> = Vec::new();
    push_line(&mut text, number, line, options);
    assert(text@ =~= formatted(number as nat, line@, options));
    text
}

/// Formats `lines` for output, numbering them from one.
pub fn format_lines(lines: &Vec<Vec<u8>>, options: Options) -> (out: Vec<u8>)
    ensures
        out@ == joined(lines.deep_view(), options, 1),
{
    let ghost all = lines.deep_view();
    let mut out: Vec<u8> = Vec::new();
    let mut i: usize = 0;
    assert(all.skip(0) =~= all);
    while i < lines.len()
        invariant
            i <= lines.len(),
            all == lines.deep_view(),
            out@ + joined(all.skip(i as int), options, (i + 1) as nat) == joined(all, options, 1),
        decreases lines.len() - i,
    {
        let ghost before = out@;
        let ghost rest = all.skip(i as int);
        push_line(&mut out, i + 1, lines[i].as_slice(), options);
        out.push(NEWLINE);
        proof {
            assert(lines[i as int].deep_view() =~= lines[i as int]@);
            assert(rest[0] == lines[i as int]@);
            assert(rest.drop_first() =~= all.skip(i + 1));
            assert(out@ =~= before + formatted((i + 1) as nat, rest[0], options).push(NEWLINE));
            assert(out@ + joined(all.skip(i + 1), options, (i + 2) as nat) =~= before + joined(
                rest,
                options,
                (i + 1) as nat,
            ));
        }
        i = i + 1;
    }
    assert(all.skip(i as int) =~= Seq::<Seq<u8>>::empty());
    assert(out@ + Seq::<u8>::empty() =~= out@);
    out
}

/// The output for one file: its lines, formatted and each ended by a line
/// feed.
pub fn render(content: &[u8], options: Options) -> (out: Vec<u8>)
    ensures
        out@ == output_of(content@, options),
{
    let lines = file_to_lines(content);
    format_lines(&lines, options)
}

} // verus!
