//! Pieces of a text: slices of a string by byte range, and its lines.
//!
//! A text is its UTF-8 bytes. A line is a run of bytes without a line feed;
//! the line feed that ends it belongs to no line.

use crate::chars::{lemma_run_end, run_end, ByteClass, NEWLINE};
use vstd::prelude::*;
use vstd::string::*;
use vstd::utf8::{
    encode_utf8_valid_utf8, is_char_boundary, is_char_boundary_iff_not_is_continuation_byte,
    is_char_boundary_start_end_of_seq, valid_utf8, valid_utf8_split,
};

verus! {

/// In a text, a character begins behind every ASCII byte.
pub proof fn lemma_boundary_after_ascii(bytes: Seq<u8>, i: int)
    requires
        valid_utf8(bytes),
        0 <= i < bytes.len(),
        bytes[i] < 0x80,
    ensures
        is_char_boundary(bytes, i),
        is_char_boundary(bytes, i + 1),
{
    is_char_boundary_iff_not_is_continuation_byte(bytes, i);
    valid_utf8_split(bytes, i);
    let tail = bytes.subrange(i, bytes.len() as int);
    assert(tail[0] == bytes[i]);
    let rest = bytes.subrange(i + 1, bytes.len() as int);
    assert(vstd::utf8::pop_first_scalar(tail) =~= rest);
    assert(valid_utf8(rest)) by {
        reveal_with_fuel(valid_utf8, 2);
    }
    if i + 1 < bytes.len() {
        assert(rest[0] == bytes[i + 1]);
        is_char_boundary_iff_not_is_continuation_byte(bytes, i + 1);
    } else {
        is_char_boundary_start_end_of_seq(bytes);
    }
}

/// Joins two pieces of text.
pub fn join(a: &str, b: &str) -> (s: String)
    ensures
        s@ == a@ + b@,
{
    let mut s = a.to_owned();
    s.append(b);
    s
}

/// Joins three pieces of text.
pub fn join3(a: &str, b: &str, c: &str) -> (s: String)
    ensures
        s@ == a@ + b@ + c@,
{
    let mut s = a.to_owned();
    s.append(b);
    s.append(c);
    s
}

/// The bytes `[from, to)` of `text`, where they are text themselves: where
/// the range lies inside `text` and both of its ends are the start of a
/// character or the end of `text`.
pub fn substring<'a>(text: &'a str, from: usize, to: usize) -> (piece: Option<&'a str>)
    ensures
        piece is Some <==> (from <= to <= text.spec_bytes().len() && is_char_boundary(
            text.spec_bytes(),
            from as int,
        ) && is_char_boundary(text.spec_bytes(), to as int)),
        piece matches Some(p) ==> p.spec_bytes() == text.spec_bytes().subrange(
            from as int,
            to as int,
        ),
{
    let len = text.as_bytes().len();
    proof {
        encode_utf8_valid_utf8(text@);
    }
    if from <= to && to <= len && text.is_char_boundary(from) && text.is_char_boundary(to) {
        let (head, _) = text.split_at(to);
        proof {
            let bytes = text.spec_bytes();
            valid_utf8_split(bytes, to as int);
            assert(head.spec_bytes() == bytes.subrange(0, to as int));
            if from < to {
                is_char_boundary_iff_not_is_continuation_byte(bytes, from as int);
                is_char_boundary_iff_not_is_continuation_byte(head.spec_bytes(), from as int);
            } else {
                is_char_boundary_start_end_of_seq(head.spec_bytes());
            }
        }
        let (_, piece) = head.split_at(from);
        assert(piece.spec_bytes() =~= text.spec_bytes().subrange(from as int, to as int));
        Some(piece)
    } else {
        None
    }
}

/// Where the line that holds position `from` ends: at the next line feed,
/// or at the end of the text.
pub open spec fn line_end(text: Seq<u8>, from: int) -> int {
    run_end(text, from, ByteClass::NotNewline)
}

/// A line of a text: its number, counted from 0, and its bytes
/// `[from, to)`, without the line feed that ends it.
pub struct Line {
    pub number: int,
    pub from: int,
    pub to: int,
}

/// The line that holds position `start`, among the lines from the one that
/// begins at `from` and has the number `number`. A position belongs to the
/// line whose bytes, its line feed included, hold it; the end of a text
/// that does not end with a line feed belongs to its last line.
pub open spec fn line_holding_from(text: Seq<u8>, from: int, start: int, number: int) -> Option<
    Line,
>
    decreases text.len() - from,
{
    if from < 0 || from >= text.len() {
        None
    } else {
        proof {
            lemma_run_end(text, from, ByteClass::NotNewline);
        }
        let end = line_end(text, from);
        if start <= end {
            Some(Line { number, from, to: end })
        } else if end >= text.len() {
            None
        } else {
            line_holding_from(text, end + 1, start, number + 1)
        }
    }
}

/// The line that holds position `start`; `None` where the text has no line
/// for it.
pub open spec fn line_holding(text: Seq<u8>, start: int) -> Option<Line> {
    line_holding_from(text, 0, start, 0)
}

/// The byte range of line `number`, counted from 0 at the line that begins
/// at `from`.
pub open spec fn line_span_from(text: Seq<u8>, from: int, number: int) -> Option<(int, int)>
    decreases text.len() - from,
{
    if from < 0 || from >= text.len() || number < 0 {
        None
    } else {
        proof {
            lemma_run_end(text, from, ByteClass::NotNewline);
        }
        let end = line_end(text, from);
        if number == 0 {
            Some((from, end))
        } else if end >= text.len() {
            None
        } else {
            line_span_from(text, end + 1, number - 1)
        }
    }
}

/// The number, counted from 0, of the line that holds position `start`.
pub open spec fn spec_line_number(text: Seq<u8>, start: int) -> Option<int> {
    match line_holding(text, start) {
        Some(line) => Some(line.number),
        None => None,
    }
}

/// The column of position `start`, counted from 1 at the start of the line
/// that holds it.
pub open spec fn spec_char_col(text: Seq<u8>, start: int) -> Option<int> {
    match line_holding(text, start) {
        Some(line) => Some(start - line.from + 1),
        None => None,
    }
}

/// The byte range of line `number`, counted from 0.
pub open spec fn spec_line_span(text: Seq<u8>, number: int) -> Option<(int, int)> {
    line_span_from(text, 0, number)
}

/// Where the line that holds position `from` ends.
fn find_line_end(bytes: &[u8], from: usize) -> (end: usize)
    requires
        from <= bytes@.len(),
    ensures
        end == line_end(bytes@, from as int),
        from <= end <= bytes@.len(),
        end < bytes@.len() ==> bytes@[end as int] == NEWLINE,
{
    let mut end = from;
    proof {
        lemma_run_end(bytes@, from as int, ByteClass::NotNewline);
    }
    while end < bytes.len() && bytes[end] != NEWLINE
        invariant
            from <= end <= bytes@.len(),
            line_end(bytes@, end as int) == line_end(bytes@, from as int),
        decreases bytes.len() - end,
    {
        end = end + 1;
    }
    end
}

/// The line that holds a position begins at or before it and ends at or
/// behind it, inside the text; it begins at the start of the text or behind
/// a line feed, and it is the line of its number.
pub proof fn law_line_holds_its_position(text: Seq<u8>, from: int, start: int, number: int)
    requires
        0 <= from <= start,
        from == 0 || text[from - 1] == NEWLINE,
        0 <= number,
    ensures
        (line_holding_from(text, from, start, number) matches Some(line) ==> {
            &&& number <= line.number
            &&& from <= line.from <= start <= line.to <= text.len()
            &&& line.from < text.len()
            &&& line.to == line_end(text, line.from)
            &&& (line.from == 0 || text[line.from - 1] == NEWLINE)
            &&& (line.to == text.len() || text[line.to] == NEWLINE)
            &&& line_span_from(text, from, line.number - number) == Some((line.from, line.to))
        }),
    decreases text.len() - from,
{
    if 0 <= from < text.len() {
        lemma_run_end(text, from, ByteClass::NotNewline);
        let end = line_end(text, from);
        if start > end && end < text.len() {
            law_line_holds_its_position(text, end + 1, start, number + 1);
        }
    }
}

/// The number of line feeds among the bytes `[from, to)`.
pub open spec fn line_feeds(text: Seq<u8>, from: int, to: int) -> int
    decreases to - from,
{
    if from >= to {
        0
    } else {
        line_feeds(text, from, to - 1) + if text[to - 1] == NEWLINE {
            1int
        } else {
            0int
        }
    }
}

/// Bytes without a line feed hold none.
proof fn lemma_no_line_feeds(text: Seq<u8>, from: int, to: int)
    requires
        forall|i: int| from <= i < to ==> #[trigger] text[i] != NEWLINE,
    ensures
        line_feeds(text, from, to) == 0,
    decreases to - from,
{
    if from < to {
        lemma_no_line_feeds(text, from, to - 1);
    }
}

/// The line feeds of a range are those of its two parts.
proof fn lemma_line_feeds_split(text: Seq<u8>, from: int, mid: int, to: int)
    requires
        from <= mid <= to,
    ensures
        line_feeds(text, from, to) == line_feeds(text, from, mid) + line_feeds(text, mid, to),
    decreases to - mid,
{
    if mid < to {
        lemma_line_feeds_split(text, from, mid, to - 1);
    }
}

/// The numbers of the lines count the line feeds that came before, from any
/// line on.
proof fn lemma_line_number(text: Seq<u8>, from: int, start: int, number: int)
    requires
        0 <= from <= start,
    ensures
        (line_holding_from(text, from, start, number) matches Some(line) ==> line.number
            == number + line_feeds(text, from, start) && line_feeds(text, line.from, start) == 0),
        line_holding_from(text, from, start, number) is Some <==> from < text.len() && (start
            < text.len() || (start == text.len() && text[text.len() - 1] != NEWLINE)),
    decreases text.len() - from,
{
    if from < text.len() {
        lemma_run_end(text, from, ByteClass::NotNewline);
        let end = line_end(text, from);
        assert forall|i: int| from <= i < end implies #[trigger] text[i] != NEWLINE by {
            assert(ByteClass::NotNewline.spec_holds(text[i]));
        }
        if start <= end {
            lemma_no_line_feeds(text, from, start);
        } else if end < text.len() {
            lemma_line_number(text, end + 1, start, number + 1);
            lemma_no_line_feeds(text, from, end);
            lemma_line_feeds_split(text, from, end + 1, start);
        }
    }
}

/// The number of the line that holds a position is the number of line
/// feeds in front of the position, and no line feed stands between the
/// start of that line and the position. A text has a line for each of its
/// positions, and for its end where it does not end with a line feed.
pub proof fn law_line_number_counts_line_feeds(text: Seq<u8>, start: int)
    requires
        0 <= start,
    ensures
        (line_holding(text, start) matches Some(line) ==> {
            &&& line.number == line_feeds(text, 0, start)
            &&& line_feeds(text, line.from, start) == 0
            &&& (line.from == 0 || text[line.from - 1] == NEWLINE)
            &&& spec_line_number(text, start) == Some(line_feeds(text, 0, start))
            &&& spec_char_col(text, start) == Some(start - line.from + 1)
        }),
        line_holding(text, start) is Some <==> (start < text.len() || (0 < start == text.len()
            && text[text.len() - 1] != NEWLINE)),
{
    lemma_line_number(text, 0, start, 0);
    law_line_holds_its_position(text, 0, start, 0);
}

/// The line that holds byte `start`: its number, counted from 0, the byte
/// at which it begins, and its text without its line feed. `None` where the
/// text has no line for `start`.
pub fn get_token_line<'a>(input: &'a str, start: usize) -> (found: Option<(usize, usize, &'a str)>)
    ensures
        found is Some <==> line_holding(input.spec_bytes(), start as int) is Some,
        (found matches Some((number, from, line)) ==> {
            let held = line_holding(input.spec_bytes(), start as int)->0;
            &&& held.number == number
            &&& held.from == from
            &&& line.spec_bytes() == input.spec_bytes().subrange(held.from, held.to)
            &&& number <= from <= start
            &&& from < input.spec_bytes().len()
        }),
{
    let bytes = input.as_bytes();
    let mut pos: usize = 0;
    let mut number: usize = 0;
    proof {
        encode_utf8_valid_utf8(input@);
        is_char_boundary_start_end_of_seq(bytes@);
    }
    while pos < bytes.len()
        invariant
            bytes@ == input.spec_bytes(),
            valid_utf8(bytes@),
            0 <= number <= pos <= bytes@.len(),
            pos <= start,
            is_char_boundary(bytes@, pos as int),
            line_holding_from(bytes@, pos as int, start as int, number as int) == line_holding(
                bytes@,
                start as int,
            ),
        decreases bytes.len() - pos,
    {
        let end = find_line_end(bytes, pos);
        proof {
            if end < bytes@.len() {
                lemma_boundary_after_ascii(bytes@, end as int);
            } else {
                is_char_boundary_start_end_of_seq(bytes@);
            }
        }
        if start <= end {
            return match substring(input, pos, end) {
                Some(line) => Some((number, pos, line)),
                None => None,
            };
        }
        if end == bytes.len() {
            return None;
        }
        pos = end + 1;
        number = number + 1;
    }
    None
}

/// The number, counted from 0, of the line that holds byte `start`: the
/// line whose bytes, its line feed included, hold it. `None` where the text
/// has no such line.
pub fn get_token_line_number(input: &str, start: usize) -> (number: Option<usize>)
    ensures
        spec_line_number(input.spec_bytes(), start as int) == (match number {
            Some(n) => Some(n as int),
            None => None,
        }),
        number matches Some(n) ==> n < input.spec_bytes().len(),
{
    match get_token_line(input, start) {
        Some((number, _, _)) => Some(number),
        None => None,
    }
}

/// The column of byte `start`, counted from 1 at the start of the line
/// that holds it. `None` where the text has no such line, and where the
/// column is no `usize`.
pub fn get_token_char_col(input: &str, start: usize) -> (col: Option<usize>)
    ensures
        col matches Some(c) ==> spec_char_col(input.spec_bytes(), start as int) == Some(c as int),
        col is None ==> (spec_char_col(input.spec_bytes(), start as int) matches Some(c) ==> c
            > usize::MAX),
{
    match get_token_line(input, start) {
        Some((_, from, _)) => if start - from < usize::MAX {
            Some(start - from + 1)
        } else {
            None
        },
        None => None,
    }
}

/// The text of line `line`, counted from 0, without its line feed.
pub fn get_line_span<'a>(input: &'a str, line: usize) -> (text: Option<&'a str>)
    ensures
        text is Some <==> spec_line_span(input.spec_bytes(), line as int) is Some,
        spec_line_span(input.spec_bytes(), line as int) matches Some((from, to)) ==> 0 <= from
            <= to <= input.spec_bytes().len() && text->0.spec_bytes()
            == input.spec_bytes().subrange(from, to),
{
    let bytes = input.as_bytes();
    let mut pos: usize = 0;
    let mut left: usize = line;
    proof {
        encode_utf8_valid_utf8(input@);
        is_char_boundary_start_end_of_seq(bytes@);
    }
    while pos < bytes.len()
        invariant
            bytes@ == input.spec_bytes(),
            valid_utf8(bytes@),
            pos <= bytes@.len(),
            is_char_boundary(bytes@, pos as int),
            line_span_from(bytes@, pos as int, left as int) == spec_line_span(bytes@, line as int),
        decreases bytes.len() - pos,
    {
        let end = find_line_end(bytes, pos);
        proof {
            if end < bytes@.len() {
                lemma_boundary_after_ascii(bytes@, end as int);
            } else {
                is_char_boundary_start_end_of_seq(bytes@);
            }
        }
        if left == 0 {
            return substring(input, pos, end);
        }
        if end == bytes.len() {
            return None;
        }
        pos = end + 1;
        left = left - 1;
    }
    None
}

} // verus!
