//! How a diagnostic is shown to the user.
//!
//! A diagnostic with a place in the text is shown as a block of five lines:
//! the message, the place as `path:line:column`, an empty gutter, the source
//! line with its number, and a line that underlines the span and says what
//! to do about it. Colours are ANSI escape sequences.

use crate::db::Database;
use crate::diagnostics::{Diagnostic, DiagnosticView};
use crate::span::SourceFile;
use crate::text::{get_token_line, join, join3, line_holding};
use vstd::prelude::*;
use vstd::string::*;
use vstd::utf8::{decode_utf8, encode_utf8_decode_utf8};

verus! {

/// `value` in bold type.
pub open spec fn spec_bold(value: Seq<char>) -> Seq<char> {
    "\x1B[1m"@ + value + "\x1B[0m"@
}

/// `value` in red.
pub open spec fn spec_red(value: Seq<char>) -> Seq<char> {
    "\x1B[31m"@ + value + "\x1B[0m"@
}

/// `value` dimmed.
pub open spec fn spec_dim(value: Seq<char>) -> Seq<char> {
    "\x1B[2m"@ + value + "\x1B[0m"@
}

/// `value` in the colour of pointers.
pub open spec fn spec_purple(value: Seq<char>) -> Seq<char> {
    "\x1B[34m"@ + value + "\x1B[0m"@
}

/// `value` in the colour of success.
pub open spec fn spec_green(value: Seq<char>) -> Seq<char> {
    "\x1B[32m"@ + value + "\x1B[0m"@
}

/// One decimal digit.
pub open spec fn spec_digit(d: int) -> Seq<char> {
    if d == 0 {
        "0"@
    } else if d == 1 {
        "1"@
    } else if d == 2 {
        "2"@
    } else if d == 3 {
        "3"@
    } else if d == 4 {
        "4"@
    } else if d == 5 {
        "5"@
    } else if d == 6 {
        "6"@
    } else if d == 7 {
        "7"@
    } else if d == 8 {
        "8"@
    } else {
        "9"@
    }
}

/// A number in decimal digits, without leading zeros.
pub open spec fn decimal(n: nat) -> Seq<char>
    decreases n,
{
    if n < 10 {
        spec_digit(n as int)
    } else {
        decimal(n / 10) + spec_digit((n % 10) as int)
    }
}

/// `piece`, `n` times.
pub open spec fn repeat(piece: Seq<char>, n: nat) -> Seq<char>
    decreases n,
{
    if n == 0 {
        Seq::empty()
    } else {
        repeat(piece, (n - 1) as nat) + piece
    }
}

/// The width of the gutter in front of the `|` of a block whose line
/// number has `digits` digits.
pub open spec fn gutter_width(digits: nat) -> nat {
    if digits + 2 < 3 {
        3
    } else {
        digits + 2
    }
}

/// The first line of every diagnostic: `error: message`.
pub open spec fn spec_error_line(message: Seq<char>) -> Seq<char> {
    "  "@ + spec_bold(spec_red("error"@)) + spec_bold(": "@ + message)
}

/// A diagnostic without a place in the text: the message, and the path of
/// the file.
pub open spec fn spec_format_plain(message: Seq<char>, file_path: Seq<char>) -> Seq<char> {
    spec_error_line(message) + "\n"@ + ("  "@ + spec_dim("  "@) + file_path)
}

/// The block of five lines. `line_number` counts from 0 and is shown from
/// 1; `char_col` is shown as it is, and the underline begins `char_col`
/// columns behind the gutter.
pub open spec fn spec_format_err(
    message: Seq<char>,
    file_path: Seq<char>,
    line_number: int,
    line: Seq<char>,
    char_col: int,
    span_len: int,
    recommendation: Seq<char>,
) -> Seq<char> {
    let number = decimal((line_number + 1) as nat);
    let rest_indent = repeat(" "@, gutter_width(number.len()));
    let file_line = "  "@ + spec_dim("  "@) + file_path + ":"@ + number + ":"@ + decimal(
        char_col as nat,
    );
    let blank_line = spec_dim("  "@ + rest_indent + "|"@);
    let code_line = "  "@ + " "@ + number + " "@ + spec_dim("|"@) + " "@ + line;
    let pointer_line = "  "@ + rest_indent + spec_dim("|"@) + repeat(" "@, char_col as nat)
        + spec_bold(spec_purple(repeat("-"@, span_len as nat))) + " "@ + spec_bold(
        spec_purple(recommendation),
    );
    spec_error_line(message) + "\n"@ + file_line + "\n"@ + blank_line + "\n"@ + code_line + "\n"@
        + pointer_line
}

/// Where a diagnostic is shown: the line, counted from 0, its byte range,
/// and the column, counted from 1.
pub struct Location {
    pub line: int,
    pub from: int,
    pub to: int,
    pub col: int,
}

/// Where position `start` of `text` is shown: in the line that holds it, at
/// the column that counts from 1 at the start of that line. `None` where
/// the text has no line for it.
pub open spec fn spec_place(text: Seq<u8>, start: int) -> Option<Location> {
    match line_holding(text, start) {
        Some(line) => Some(
            Location { line: line.number, from: line.from, to: line.to, col: start - line.from + 1 },
        ),
        None => None,
    }
}

/// Where the diagnostic is shown in `text`: at the start of its span, if it
/// has a span and a span message and the text has a line for it.
pub open spec fn spec_location(d: DiagnosticView, text: Seq<u8>) -> Option<Location> {
    if d.span is Some && d.span_message is Some {
        spec_place(text, d.span->0.start as int)
    } else {
        None
    }
}

/// The diagnostic as the user sees it, for a file at `path` that holds
/// `text`.
pub open spec fn spec_user_message(d: DiagnosticView, path: Seq<char>, text: Seq<u8>) -> Seq<char> {
    match spec_location(d, text) {
        Some(at) => spec_format_err(
            d.message,
            path,
            at.line,
            decode_utf8(text.subrange(at.from, at.to)),
            at.col,
            d.span->0.spec_len(),
            d.span_message->0,
        ),
        None => spec_format_plain(d.message, path),
    }
}

pub fn bold(value: &str) -> (s: String)
    ensures
        s@ == spec_bold(value@),
{
    let mut s = "\x1B[1m".to_owned();
    s.append(value);
    s.append("\x1B[0m");
    s
}

pub fn red(value: &str) -> (s: String)
    ensures
        s@ == spec_red(value@),
{
    let mut s = "\x1B[31m".to_owned();
    s.append(value);
    s.append("\x1B[0m");
    s
}

pub fn dim(value: &str) -> (s: String)
    ensures
        s@ == spec_dim(value@),
{
    let mut s = "\x1B[2m".to_owned();
    s.append(value);
    s.append("\x1B[0m");
    s
}

pub fn purple(value: &str) -> (s: String)
    ensures
        s@ == spec_purple(value@),
{
    let mut s = "\x1B[34m".to_owned();
    s.append(value);
    s.append("\x1B[0m");
    s
}

pub fn green(value: &str) -> (s: String)
    ensures
        s@ == spec_green(value@),
{
    let mut s = "\x1B[32m".to_owned();
    s.append(value);
    s.append("\x1B[0m");
    s
}

/// One decimal digit.
fn digit(d: u128) -> (s: &'static str)
    requires
        d < 10,
    ensures
        s@ == spec_digit(d as int),
{
    if d == 0 {
        "0"
    } else if d == 1 {
        "1"
    } else if d == 2 {
        "2"
    } else if d == 3 {
        "3"
    } else if d == 4 {
        "4"
    } else if d == 5 {
        "5"
    } else if d == 6 {
        "6"
    } else if d == 7 {
        "7"
    } else if d == 8 {
        "8"
    } else {
        "9"
    }
}

/// `n` in decimal digits.
pub fn to_decimal(n: u128) -> (s: String)
    ensures
        s@ == decimal(n as nat),
    decreases n,
{
    if n < 10 {
        digit(n).to_owned()
    } else {
        let mut s = to_decimal(n / 10);
        s.append(digit(n % 10));
        s
    }
}

/// `piece`, `n` times.
pub fn repeated(piece: &str, n: u128) -> (s: String)
    ensures
        s@ == repeat(piece@, n as nat),
{
    let mut s = String::new();
    let mut i: u128 = 0;
    while i < n
        invariant
            i <= n,
            s@ == repeat(piece@, i as nat),
        decreases n - i,
    {
        s.append(piece);
        i = i + 1;
    }
    s
}

/// The first line of every diagnostic.
fn error_line(message: &str) -> (s: String)
    ensures
        s@ == spec_error_line(message@),
{
    let error = bold(red("error").as_str());
    let msg = bold(join(": ", message).as_str());
    let mut s = "  ".to_owned();
    s.append(error.as_str());
    s.append(msg.as_str());
    s
}

/// Shows a diagnostic that has no place in the text.
pub fn format_plain(message: &str, file_path: &str) -> (s: String)
    ensures
        s@ == spec_format_plain(message@, file_path@),
{
    let mut file_line = "  ".to_owned();
    file_line.append(dim("  ").as_str());
    file_line.append(file_path);
    let mut s = error_line(message);
    s.append("\n");
    s.append(file_line.as_str());
    s
}

/// Shows a diagnostic as a block of five lines. `line` is the text of line
/// `line_number`, which counts from 0; the underline is `span_len` long.
pub fn format_err(
    message: &str,
    file_path: &str,
    line_number: usize,
    line: &str,
    char_col: usize,
    span_len: usize,
    recommendation: &str,
) -> (s: String)
    ensures
        s@ == spec_format_err(
            message@,
            file_path@,
            line_number as int,
            line@,
            char_col as int,
            span_len as int,
            recommendation@,
        ),
{
    format_block(
        message,
        file_path,
        line_number,
        line,
        char_col as u128,
        span_len,
        recommendation,
    )
}

/// `format_err` for a column of any size: the column of the byte behind a
/// line of `usize::MAX` bytes is no `usize`.
pub fn format_block(
    message: &str,
    file_path: &str,
    line_number: usize,
    line: &str,
    char_col: u128,
    span_len: usize,
    recommendation: &str,
) -> (s: String)
    ensures
        s@ == spec_format_err(
            message@,
            file_path@,
            line_number as int,
            line@,
            char_col as int,
            span_len as int,
            recommendation@,
        ),
{
    let number = to_decimal(line_number as u128 + 1);
    let digits = number.as_str().unicode_len();
    let width: u128 = if digits as u128 + 2 < 3 {
        3
    } else {
        digits as u128 + 2
    };
    let rest_indent = repeated(" ", width);
    let bar = dim("|");

    let mut file_line = "  ".to_owned();
    file_line.append(dim("  ").as_str());
    file_line.append(file_path);
    file_line.append(":");
    file_line.append(number.as_str());
    file_line.append(":");
    file_line.append(to_decimal(char_col).as_str());

    let blank_line = dim(join3("  ", rest_indent.as_str(), "|").as_str());

    let mut code_line = "  ".to_owned();
    code_line.append(" ");
    code_line.append(number.as_str());
    code_line.append(" ");
    code_line.append(bar.as_str());
    code_line.append(" ");
    code_line.append(line);

    let mut pointer_line = "  ".to_owned();
    pointer_line.append(rest_indent.as_str());
    pointer_line.append(bar.as_str());
    pointer_line.append(repeated(" ", char_col).as_str());
    pointer_line.append(bold(purple(repeated("-", span_len as u128).as_str()).as_str()).as_str());
    pointer_line.append(" ");
    pointer_line.append(bold(purple(recommendation).as_str()).as_str());

    let mut s = error_line(message);
    s.append("\n");
    s.append(file_line.as_str());
    s.append("\n");
    s.append(blank_line.as_str());
    s.append("\n");
    s.append(code_line.as_str());
    s.append("\n");
    s.append(pointer_line.as_str());
    assert(s@ =~= spec_format_err(
        message@,
        file_path@,
        line_number as int,
        line@,
        char_col as int,
        span_len as int,
        recommendation@,
    ));
    s
}

impl Diagnostic {
    /// Shows the diagnostic to the user, as a problem in `file`.
    ///
    /// A diagnostic with a span and a span message is shown as a block of
    /// five lines: the line in it is the line that holds the start of the
    /// span, and the column counts from 1 at the start of that line. One
    /// without, or one whose span begins where the text has no line, is
    /// shown as a message and the path of the file.
    pub fn to_user_message(&self, db: &Database, file: &SourceFile) -> (s: String)
        requires
            db.inputs.has_file(*file),
        ensures
            s@ == spec_user_message(
                self@,
                db.inputs.spec_file(*file).path,
                db.inputs.spec_bytes(*file),
            ),
    {
        let input = db.inputs.text(*file);
        let path = db.inputs.file_path(*file);
        let message = self.message.as_str();
        let (span, span_message) = match (&self.span, &self.span_message) {
            (Some(span), Some(span_message)) => (*span, span_message.as_str()),
            _ => {
                return format_plain(message, path);
            },
        };
        let (line_number, from, line) = match get_token_line(input, span.start) {
            Some(found) => found,
            None => {
                return format_plain(message, path);
            },
        };
        let char_col: u128 = (span.start - from) as u128 + 1;
        proof {
            encode_utf8_decode_utf8(line@);
        }
        format_block(message, path, line_number, line, char_col, span.len(), span_message)
    }
}

} // verus!
