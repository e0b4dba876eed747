//! Decimal rendering of numbers, verified against a character-level
//! specification; the display code for values and positions builds on it.

use crate::chars::string_from_chars;
use vstd::prelude::*;

verus! {

/// The character for one decimal digit.
pub open spec fn dec_digit(d: int) -> char {
    if d == 0 {
        '0'
    } else if d == 1 {
        '1'
    } else if d == 2 {
        '2'
    } else if d == 3 {
        '3'
    } else if d == 4 {
        '4'
    } else if d == 5 {
        '5'
    } else if d == 6 {
        '6'
    } else if d == 7 {
        '7'
    } else if d == 8 {
        '8'
    } else {
        '9'
    }
}

/// The decimal notation of a natural number, most significant digit first.
pub open spec fn dec_nat(n: int) -> Seq<char>
    decreases n,
{
    if n < 10 {
        seq![dec_digit(n)]
    } else {
        dec_nat(n / 10) + seq![dec_digit(n % 10)]
    }
}

/// The decimal notation of an integer: a minus sign for a negative one.
pub open spec fn dec_int(n: int) -> Seq<char> {
    if n >= 0 {
        dec_nat(n)
    } else {
        seq!['-'] + dec_nat(-n)
    }
}

fn digit_char(d: u64) -> (c: char)
    requires
        d < 10,
    ensures
        c == dec_digit(d as int),
{
    if d == 0 {
        '0'
    } else if d == 1 {
        '1'
    } else if d == 2 {
        '2'
    } else if d == 3 {
        '3'
    } else if d == 4 {
        '4'
    } else if d == 5 {
        '5'
    } else if d == 6 {
        '6'
    } else if d == 7 {
        '7'
    } else if d == 8 {
        '8'
    } else {
        '9'
    }
}

fn push_dec(m: u64, out: &mut Vec<char>)
    ensures
        final(out)@ == old(out)@ + dec_nat(m as int),
    decreases m,
{
    if m >= 10 {
        push_dec(m / 10, out);
    }
    out.push(digit_char(m % 10));
    proof {
        if m >= 10 {
            assert(old(out)@ + dec_nat(m as int) =~= (old(out)@ + dec_nat(m as int / 10)).push(
                dec_digit(m as int % 10),
            ));
        } else {
            assert(old(out)@ + dec_nat(m as int) =~= old(out)@.push(dec_digit(m as int)));
        }
    }
}

/// The decimal string of an unsigned number.
pub fn u64_string(n: u64) -> (r: String)
    ensures
        r@ == dec_nat(n as int),
{
    let mut digits: Vec<char> = Vec::new();
    push_dec(n, &mut digits);
    proof {
        assert(digits@ =~= dec_nat(n as int));
    }
    string_from_chars(&digits)
}

/// The decimal string of a machine-word number.
pub fn usize_string(n: usize) -> (r: String)
    ensures
        r@ == dec_nat(n as int),
{
    u64_string(n as u64)
}

/// A run of spaces, for caret-pointing output.
pub open spec fn spaces(n: int) -> Seq<char> {
    Seq::new(n as nat, |i: int| ' ')
}

/// A run of carets, underlining a span.
pub open spec fn carets(n: int) -> Seq<char> {
    Seq::new(n as nat, |i: int| '^')
}

fn push_repeat(out: &mut String, n: usize, unit: char)
    requires
        unit == ' ' || unit == '^',
    ensures
        final(out)@ == old(out)@ + Seq::new(n as nat, |i: int| unit),
{
    let mut k: usize = 0;
    while k < n
        invariant
            k <= n,
            unit == ' ' || unit == '^',
            out@ == old(out)@ + Seq::new(k as nat, |i: int| unit),
        decreases n - k,
    {
        if unit == ' ' {
            out.append(" ");
            proof {
                reveal_strlit(" ");
            }
        } else {
            out.append("^");
            proof {
                reveal_strlit("^");
            }
        }
        proof {
            assert(out@ =~= old(out)@ + Seq::new((k + 1) as nat, |i: int| unit));
        }
        k = k + 1;
    }
    proof {
        assert(old(out)@ + Seq::new(k as nat, |i: int| unit) =~= old(out)@ + Seq::new(
            n as nat,
            |i: int| unit,
        ));
    }
}

/// The text that came back for a line, or the note for one out of range.
pub open spec fn line_or_note(line_text: Option<Seq<char>>) -> Seq<char> {
    match line_text {
        Some(t) => t,
        None => "<error - line out of range>"@,
    }
}

/// How a position is displayed: the path, 1-indexed line and column, the
/// line's text, and a caret pointing at the column.
pub open spec fn spec_format_position(
    path_str: Seq<char>,
    line: int,
    column: int,
    line_text: Option<Seq<char>>,
) -> Seq<char> {
    " --> "@ + path_str + ":"@ + dec_nat(line + 1) + ":"@ + dec_nat(column + 1) + "\n"@ + dec_nat(
        line + 1,
    ) + " | "@ + line_or_note(line_text) + "\n"@ + spaces(dec_nat(line + 1).len() + 3 + column)
        + "^"@
}

/// Renders a position, given what the file system answered for the path
/// and the line.
pub fn format_position(path_str: &str, line: usize, column: usize, line_text: Option<String>) -> (r:
    String)
    requires
        line < usize::MAX,
        column < usize::MAX,
    ensures
        r@ == spec_format_position(
            path_str@,
            line as int,
            column as int,
            match line_text {
                Some(t) => Some(t@),
                None => None,
            },
        ),
{
    let mut out = String::from_str(" --> ");
    out.append(path_str);
    out.append(":");
    let line_digits = usize_string(line + 1);
    out.append(line_digits.as_str());
    out.append(":");
    let col_digits = usize_string(column + 1);
    out.append(col_digits.as_str());
    out.append("\n");
    out.append(line_digits.as_str());
    out.append(" | ");
    match &line_text {
        Some(t) => out.append(t.as_str()),
        None => out.append("<error - line out of range>"),
    }
    out.append("\n");
    let width = line_digits.as_str().unicode_len();
    push_repeat(&mut out, width, ' ');
    push_repeat(&mut out, 3, ' ');
    push_repeat(&mut out, column, ' ');
    out.append("^");
    proof {
        assert(spaces(dec_nat(line as int + 1).len() + 3 + column as int) =~= spaces(
            dec_nat(line as int + 1).len() as int,
        ) + spaces(3) + spaces(column as int));
        assert(out@ =~= spec_format_position(
            path_str@,
            line as int,
            column as int,
            match line_text {
                Some(t) => Some(t@),
                None => None,
            },
        ));
    }
    out
}

/// How a line range is displayed: the path, the 1-indexed line, and the
/// line's text.
pub open spec fn spec_format_line(
    path_str: Seq<char>,
    line: int,
    line_text: Option<Seq<char>>,
) -> Seq<char> {
    " --> "@ + path_str + ":"@ + dec_nat(line + 1) + "\n"@ + dec_nat(line + 1) + " | "@
        + line_or_note(line_text)
}

/// Renders a line range, given what the file system answered.
pub fn format_line(path_str: &str, line: usize, line_text: Option<String>) -> (r: String)
    requires
        line < usize::MAX,
    ensures
        r@ == spec_format_line(
            path_str@,
            line as int,
            match line_text {
                Some(t) => Some(t@),
                None => None,
            },
        ),
{
    let mut out = String::from_str(" --> ");
    out.append(path_str);
    out.append(":");
    let line_digits = usize_string(line + 1);
    out.append(line_digits.as_str());
    out.append("\n");
    out.append(line_digits.as_str());
    out.append(" | ");
    match &line_text {
        Some(t) => out.append(t.as_str()),
        None => out.append("<error - line out of range>"),
    }
    proof {
        assert(out@ =~= spec_format_line(
            path_str@,
            line as int,
            match line_text {
                Some(t) => Some(t@),
                None => None,
            },
        ));
    }
    out
}

/// How a one-line span is displayed: the path, the 1-indexed line and the
/// column range, the line's text, and carets under the covered columns.
pub open spec fn spec_format_span_one_line(
    path_str: Seq<char>,
    line: int,
    start_column: int,
    end_column: int,
    line_text: Option<Seq<char>>,
) -> Seq<char> {
    " --> "@ + path_str + ":"@ + dec_nat(line + 1) + ":"@ + dec_nat(start_column + 1) + "->"@
        + dec_nat(end_column + 1) + "\n"@ + dec_nat(line + 1) + " | "@ + line_or_note(line_text)
        + "\n"@ + spaces(dec_nat(line + 1).len() + 3 + start_column) + carets(
        end_column - start_column,
    )
}

/// Renders a span within one line, given what the file system answered.
pub fn format_span_one_line(
    path_str: &str,
    line: usize,
    start_column: usize,
    end_column: usize,
    line_text: Option<String>,
) -> (r: String)
    requires
        line < usize::MAX,
        start_column <= end_column,
        end_column < usize::MAX,
    ensures
        r@ == spec_format_span_one_line(
            path_str@,
            line as int,
            start_column as int,
            end_column as int,
            match line_text {
                Some(t) => Some(t@),
                None => None,
            },
        ),
{
    let mut out = String::from_str(" --> ");
    out.append(path_str);
    out.append(":");
    let line_digits = usize_string(line + 1);
    out.append(line_digits.as_str());
    out.append(":");
    let sc = usize_string(start_column + 1);
    out.append(sc.as_str());
    out.append("->");
    let ec = usize_string(end_column + 1);
    out.append(ec.as_str());
    out.append("\n");
    out.append(line_digits.as_str());
    out.append(" | ");
    match &line_text {
        Some(t) => out.append(t.as_str()),
        None => out.append("<error - line out of range>"),
    }
    out.append("\n");
    let width = line_digits.as_str().unicode_len();
    push_repeat(&mut out, width, ' ');
    push_repeat(&mut out, 3, ' ');
    push_repeat(&mut out, start_column, ' ');
    push_repeat(&mut out, end_column - start_column, '^');
    proof {
        assert(spaces(dec_nat(line as int + 1).len() + 3 + start_column as int) =~= spaces(
            dec_nat(line as int + 1).len() as int,
        ) + spaces(3) + spaces(start_column as int));
        assert(out@ =~= spec_format_span_one_line(
            path_str@,
            line as int,
            start_column as int,
            end_column as int,
            match line_text {
                Some(t) => Some(t@),
                None => None,
            },
        ));
    }
    out
}

/// How a multi-line span is displayed: the path and the 1-indexed
/// line-and-column range.
pub open spec fn spec_format_span_multi_line(
    path_str: Seq<char>,
    start_line: int,
    start_column: int,
    end_line: int,
    end_column: int,
) -> Seq<char> {
    " --> "@ + path_str + ":"@ + dec_nat(start_line + 1) + ":"@ + dec_nat(start_column + 1) + "->"@
        + dec_nat(end_line + 1) + ":"@ + dec_nat(end_column + 1) + "\n"@
}

/// Renders a span across lines.
pub fn format_span_multi_line(
    path_str: &str,
    start_line: usize,
    start_column: usize,
    end_line: usize,
    end_column: usize,
) -> (r: String)
    requires
        start_line < usize::MAX,
        start_column < usize::MAX,
        end_line < usize::MAX,
        end_column < usize::MAX,
    ensures
        r@ == spec_format_span_multi_line(
            path_str@,
            start_line as int,
            start_column as int,
            end_line as int,
            end_column as int,
        ),
{
    let mut out = String::from_str(" --> ");
    out.append(path_str);
    out.append(":");
    let a = usize_string(start_line + 1);
    out.append(a.as_str());
    out.append(":");
    let b = usize_string(start_column + 1);
    out.append(b.as_str());
    out.append("->");
    let c = usize_string(end_line + 1);
    out.append(c.as_str());
    out.append(":");
    let d = usize_string(end_column + 1);
    out.append(d.as_str());
    out.append("\n");
    proof {
        assert(out@ =~= spec_format_span_multi_line(
            path_str@,
            start_line as int,
            start_column as int,
            end_line as int,
            end_column as int,
        ));
    }
    out
}

/// The decimal string of a signed number.
pub fn i64_string(n: i64) -> (r: String)
    ensures
        r@ == dec_int(n as int),
{
    if n >= 0 {
        u64_string(n as u64)
    } else {
        let magnitude: u64 = ((-(n + 1)) as u64) + 1;
        let mut digits: Vec<char> = Vec::new();
        digits.push('-');
        push_dec(magnitude, &mut digits);
        proof {
            assert(digits@ =~= dec_int(n as int));
        }
        string_from_chars(&digits)
    }
}

} // verus!
