//! Where in a text a byte offset lies, and the lines that point at it.

use vstd::prelude::*;
use vstd::string::StringSliceAdditionalSpecFns;
use vstd::utf8::{
    decode_utf8, encode_utf8, is_char_boundary, is_leading_byte_width_1, length_of_first_scalar,
    pop_first_scalar, valid_utf8,
};

use crate::chars::{
    append, decimal, from_chars, push_decimal, push_str, replace_all, replaced, text_of, to_chars,
};
use crate::lines::{line_views, lines_of, split_lines};
use crate::net::string_views;
use crate::scan::{
    end_of_last_where, first_where, lemma_end_of_last_where_is, lemma_first_where_is,
};

verus! {

/// Whether `b` ends a line: a line feed or a carriage return.
pub open spec fn is_break(b: u8) -> bool {
    b == 10 || b == 13
}

/// The property of ending a line.
pub open spec fn a_break() -> spec_fn(u8) -> bool {
    |b: u8| is_break(b)
}

/// The offset at which the line around offset `pos` starts: just after the
/// last break before `pos`, or 0.
pub open spec fn line_start(bytes: Seq<u8>, pos: int) -> int {
    end_of_last_where(bytes.take(pos), a_break())
}

/// The offset at which the line around offset `pos` ends: the first break
/// at or after `pos`, or the end of the text.
pub open spec fn line_end(bytes: Seq<u8>, pos: int) -> int {
    pos + first_where(bytes.skip(pos), a_break())
}

/// The number of breaks before offset `pos`.
pub open spec fn breaks_before(bytes: Seq<u8>, pos: int) -> nat {
    bytes.take(pos).filter(a_break()).len()
}

/// The last of the lines, or the empty line where there is none.
pub open spec fn last_line(lines: Seq<Seq<char>>) -> Seq<char> {
    if lines.len() > 0 {
        lines.last()
    } else {
        Seq::empty()
    }
}

/// The line, the column and the text of the line at byte offset `pos`,
/// lines and columns counted from 1 and columns in bytes.
///
/// Each line feed and each carriage return ends a line. An offset at or
/// after the end of the text lies just after the last line.
pub open spec fn located(source: Seq<char>, pos: int) -> (int, int, Seq<char>) {
    let bytes = encode_utf8(source);
    if 0 <= pos < bytes.len() {
        (
            (breaks_before(bytes, pos) + 1) as int,
            pos - line_start(bytes, pos) + 1,
            decode_utf8(bytes.subrange(line_start(bytes, pos), line_end(bytes, pos))),
        )
    } else {
        let lines = lines_of(source);
        (
            if lines.len() > 1 {
                lines.len() as int
            } else {
                1
            },
            (encode_utf8(last_line(lines)).len() + 1) as int,
            last_line(lines),
        )
    }
}

/// The column at byte offset `pos`, or the greatest number where the
/// column is greater.
pub open spec fn column_of(source: Seq<char>, pos: int) -> usize {
    let column = located(source, pos).1;
    if column > usize::MAX {
        usize::MAX
    } else {
        column as usize
    }
}

/// The offset after a byte of ASCII is no offset inside a character.
proof fn lemma_boundary_after_ascii(bytes: Seq<u8>, k: int)
    requires
        valid_utf8(bytes),
        0 <= k < bytes.len(),
        is_leading_byte_width_1(bytes[k]),
    ensures
        is_char_boundary(bytes, k + 1),
    decreases bytes.len(),
{
    let first = length_of_first_scalar(bytes);
    if k < first {
        reveal_with_fuel(is_char_boundary, 2);
    } else {
        let rest = pop_first_scalar(bytes);
        assert(rest[k - first] == bytes[k]);
        lemma_boundary_after_ascii(rest, k - first);
    }
}

/// An offset that is inside no character of a text is inside no character
/// of the part of the text before a later such offset.
proof fn lemma_boundary_in_prefix(bytes: Seq<u8>, start: int, end: int)
    requires
        valid_utf8(bytes),
        0 <= start <= end <= bytes.len(),
        is_char_boundary(bytes, start),
        is_char_boundary(bytes, end),
    ensures
        valid_utf8(bytes.subrange(0, end)),
        is_char_boundary(bytes.subrange(0, end), start),
{
    let head = bytes.subrange(0, end);
    vstd::utf8::valid_utf8_split(bytes, end);
    if start < end {
        vstd::utf8::is_char_boundary_iff_not_is_continuation_byte(bytes, start);
        vstd::utf8::is_char_boundary_iff_not_is_continuation_byte(head, start);
    } else {
        vstd::utf8::is_char_boundary_start_end_of_seq(head);
    }
}

/// Finds the line, the column and the text of the line at a byte offset.
pub fn byte_range_to_line_col(source: &str, byte_start: usize) -> (r: (usize, usize, String))
    ensures
        r.0 == located(source@, byte_start as int).0,
        r.1 == column_of(source@, byte_start as int),
        r.2@ == located(source@, byte_start as int).2,
{
    broadcast use vstd::utf8::encode_utf8_decode_utf8, vstd::utf8::encode_utf8_valid_utf8;

    let bytes = source.as_bytes();
    let ghost all = encode_utf8(source@);
    if byte_start < bytes.len() {
        let mut line: usize = 1;
        let mut start: usize = 0;
        let mut i: usize = 0;
        proof {
            reveal(Seq::filter);
            assert(all.take(0) == Seq::<u8>::empty());
            assert(is_char_boundary(all, 0));
        }
        while i < byte_start
            invariant
                i <= byte_start < bytes@.len(),
                bytes@ == all,
                valid_utf8(all),
                line == breaks_before(all, i as int) + 1,
                line <= i + 1,
                start == line_start(all, i as int),
                start <= i,
                is_char_boundary(all, start as int),
            decreases byte_start - i,
        {
            let b = bytes[i];
            proof {
                assert(all.take(i + 1).drop_last() == all.take(i as int));
                assert(all.take(i + 1).last() == b);
                reveal(Seq::filter);
            }
            if b == 10 || b == 13 {
                line += 1;
                start = i + 1;
                proof {
                    lemma_boundary_after_ascii(all, i as int);
                    lemma_end_of_last_where_is(all.take(i + 1), a_break(), i + 1);
                }
            } else {
                proof {
                    crate::scan::lemma_end_of_last_where(all.take(i as int), a_break());
                    assert forall|j: int| start <= j < i + 1 implies !a_break()(
                        #[trigger] all.take(i + 1)[j],
                    ) by {
                        if j < i {
                            assert(all.take(i + 1)[j] == all.take(i as int)[j]);
                        }
                    }
                    if start > 0 {
                        assert(all.take(i + 1)[start - 1] == all.take(i as int)[start - 1]);
                    }
                    lemma_end_of_last_where_is(all.take(i + 1), a_break(), start as int);
                }
            }
            i += 1;
        }
        let mut end: usize = byte_start;
        while end < bytes.len() && !(bytes[end] == 10 || bytes[end] == 13)
            invariant
                byte_start <= end <= bytes@.len(),
                bytes@ == all,
                forall|j: int| 0 <= j < end - byte_start ==> !a_break()(
                    #[trigger] all.skip(byte_start as int)[j],
                ),
            decreases bytes@.len() - end,
        {
            end += 1;
        }
        proof {
            lemma_first_where_is(all.skip(byte_start as int), a_break(), end - byte_start);
            if end < bytes@.len() {
                vstd::utf8::is_char_boundary_iff_not_is_continuation_byte(all, end as int);
            } else {
                vstd::utf8::is_char_boundary_start_end_of_seq(all);
            }
            lemma_boundary_in_prefix(all, start as int, end as int);
        }
        let (head, _) = source.split_at(end);
        let (_, text) = head.split_at(start);
        proof {
            assert(text.spec_bytes() == all.subrange(start as int, end as int));
            assert(decode_utf8(encode_utf8(text@)) == text@);
        }
        (line, byte_start - start + 1, text_of(text))
    } else {
        let chars = to_chars(source);
        let lines = split_lines(chars.as_slice());
        let count = if lines.len() > 1 {
            lines.len()
        } else {
            1
        };
        let last = if lines.len() > 0 {
            from_chars(lines[lines.len() - 1].as_slice())
        } else {
            text_of("")
        };
        proof {
            reveal_strlit("");
            assert(""@ == Seq::<char>::empty());
            if lines@.len() > 0 {
                assert(line_views(lines@).last() == lines@[lines@.len() - 1]@);
            }
        }
        let width = last.as_str().as_bytes().len();
        let column = if width < usize::MAX {
            width + 1
        } else {
            width
        };
        (count, column, last)
    }
}

/// The line that points at `column` with a caret.
pub open spec fn caret_line(column: usize) -> Seq<char> {
    Seq::new(
        if column > 1 {
            (column - 1) as nat
        } else {
            0
        },
        |i: int| ' ',
    ).push('^')
}

/// The lines that report a fault in a text: what is wrong, where, the
/// line with its tabs as spaces, a caret under the column, and a note and
/// a hint where there are any.
pub open spec fn fault_lines(
    line: usize,
    column: usize,
    text: Seq<char>,
    message: Option<Seq<char>>,
    label: Option<Seq<char>>,
    help: Option<Seq<char>>,
) -> Seq<Seq<char>> {
    seq![
        "  - "@ + (match message {
            Some(m) => m,
            None => "KDL parse error"@,
        }),
        "      at line "@ + decimal(line as nat) + ", col "@ + decimal(column as nat),
        "        "@ + replaced(text, "\t"@, " "@),
        "        "@ + caret_line(column),
    ] + (match label {
        Some(l) => seq!["        note: "@ + l],
        None => Seq::empty(),
    }) + (match help {
        Some(h) => seq!["    help: "@ + h],
        None => Seq::empty(),
    })
}

/// The text of an optional string slice.
pub open spec fn opt_text(s: Option<&str>) -> Option<Seq<char>> {
    match s {
        Some(t) => Some(t@),
        None => None,
    }
}

/// Appends the line that points at `column`.
fn push_caret(out: &mut Vec<char>, column: usize)
    ensures
        final(out)@ == old(out)@ + caret_line(column),
{
    let ghost before = out@;
    let mut i: usize = 1;
    while i < column
        invariant
            1 <= i,
            i <= column || i == 1,
            out@ == before + Seq::new((i - 1) as nat, |k: int| ' '),
        decreases column - i,
    {
        out.push(' ');
        assert(out@ == before + Seq::new(i as nat, |k: int| ' '));
        i += 1;
    }
    out.push('^');
    assert(out@ =~= before + Seq::new((i - 1) as nat, |k: int| ' ').push('^'));
}

/// Writes the lines that report a fault at byte offset `offset` of
/// `source`.
pub fn diagnostic_lines(
    source: &str,
    offset: usize,
    message: Option<&str>,
    label: Option<&str>,
    help: Option<&str>,
) -> (out: Vec<String>)
    ensures
        string_views(out@) == fault_lines(
            located(source@, offset as int).0 as usize,
            column_of(source@, offset as int),
            located(source@, offset as int).2,
            opt_text(message),
            opt_text(label),
            opt_text(help),
        ),
{
    let (line, column, text) = byte_range_to_line_col(source, offset);
    let mut out: Vec<String> = Vec::new();
    let mut first: Vec<char> = Vec::new();
    push_str(&mut first, "  - ");
    match message {
        Some(m) => push_str(&mut first, m),
        None => push_str(&mut first, "KDL parse error"),
    }
    out.push(from_chars(first.as_slice()));
    let mut place: Vec<char> = Vec::new();
    push_str(&mut place, "      at line ");
    push_decimal(&mut place, line as u64);
    push_str(&mut place, ", col ");
    push_decimal(&mut place, column as u64);
    out.push(from_chars(place.as_slice()));
    let mut shown: Vec<char> = Vec::new();
    push_str(&mut shown, "        ");
    let plain = replace_all(
        to_chars(text.as_str()).as_slice(),
        to_chars("\t").as_slice(),
        to_chars(" ").as_slice(),
    );
    append(&mut shown, plain.as_slice());
    out.push(from_chars(shown.as_slice()));
    let mut caret: Vec<char> = Vec::new();
    push_str(&mut caret, "        ");
    push_caret(&mut caret, column);
    out.push(from_chars(caret.as_slice()));
    let ghost head = string_views(out@);
    assert(head == seq![
        "  - "@ + (match opt_text(message) {
            Some(m) => m,
            None => "KDL parse error"@,
        }),
        "      at line "@ + decimal(line as nat) + ", col "@ + decimal(column as nat),
        "        "@ + replaced(text@, "\t"@, " "@),
        "        "@ + caret_line(column),
    ]);
    match label {
        Some(l) => {
            let mut note: Vec<char> = Vec::new();
            push_str(&mut note, "        note: ");
            push_str(&mut note, l);
            out.push(from_chars(note.as_slice()));
        },
        None => {},
    }
    let ghost middle = string_views(out@);
    assert(middle == head + (match opt_text(label) {
        Some(l) => seq!["        note: "@ + l],
        None => Seq::empty(),
    }));
    match help {
        Some(h) => {
            let mut hint: Vec<char> = Vec::new();
            push_str(&mut hint, "    help: ");
            push_str(&mut hint, h);
            out.push(from_chars(hint.as_slice()));
        },
        None => {},
    }
    assert(string_views(out@) == middle + (match opt_text(help) {
        Some(h) => seq!["    help: "@ + h],
        None => Seq::empty(),
    }));
    out
}

} // verus!
