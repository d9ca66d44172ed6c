//! What a rendered table is: the width of each column, the alignment of each
//! column, and the lines from the top border to the bottom border.

use crate::padding::{padded, padded_or_truncated};
use crate::style::{format_of, is_regular, lemma_styles_are_regular, TableStyle, TableStyleFormat};
use crate::text::{
    gaps, joined, lemma_joined_len, lemma_repeated_len, lemma_total_len_of_widths, repeated,
    spaces, sum, total_len,
};
use vstd::prelude::*;

verus! {

/// The cell of `row` in column `c`; the empty text where the row has none.
pub open spec fn cell_at(row: Seq<Seq<char>>, c: int) -> Seq<char> {
    if 0 <= c < row.len() {
        row[c]
    } else {
        Seq::empty()
    }
}

/// The width of column `c`: the length of its header or of the longest cell
/// that a row has in it, whichever is greater. A row too short to reach the
/// column does not count.
pub open spec fn column_width(headers: Seq<Seq<char>>, data: Seq<Seq<Seq<char>>>, c: int) -> nat
    decreases data.len(),
{
    if data.len() == 0 {
        headers[c].len()
    } else {
        let above = column_width(headers, data.drop_last(), c);
        let cell = cell_at(data.last(), c);
        if cell.len() > above {
            cell.len()
        } else {
            above
        }
    }
}

/// The widths of all columns; there are as many columns as headers.
pub open spec fn column_widths(headers: Seq<Seq<char>>, data: Seq<Seq<Seq<char>>>) -> Seq<nat> {
    Seq::new(headers.len(), |c: int| column_width(headers, data, c))
}

/// For each column whether it is right-aligned. An alignment of one mark per
/// column makes the columns marked `>` right-aligned. Without an alignment,
/// or with one whose number of marks differs from the number of columns,
/// every column is left-aligned.
pub open spec fn alignment_flags(alignment: Option<Seq<char>>, n_cols: nat) -> Seq<bool> {
    if alignment is Some && alignment->0.len() == n_cols {
        Seq::new(n_cols, |c: int| alignment->0[c] == '>')
    } else {
        Seq::new(n_cols, |c: int| false)
    }
}

/// Whether column `c` is right-aligned by `flags`; a column that the flags do
/// not reach is left-aligned.
pub open spec fn flag_at(flags: Seq<bool>, c: int) -> bool {
    0 <= c < flags.len() && flags[c]
}

/// One bar per column, as long as the column is wide.
pub open spec fn bars(bar: Seq<char>, widths: Seq<nat>) -> Seq<Seq<char>> {
    Seq::new(widths.len(), |c: int| repeated(bar, widths[c]))
}

/// A border: the left end, the bars of the columns with the separator
/// between them, the right end and the line terminator.
pub open spec fn rule_line(
    lh: Seq<char>,
    bar: Seq<char>,
    sep: Seq<char>,
    rh: Seq<char>,
    crlf: Seq<char>,
    widths: Seq<nat>,
) -> Seq<char> {
    lh + joined(bars(bar, widths), sep) + rh + crlf
}

/// The cells of one row, one per column: the row's text in that column,
/// padded or truncated to the column's width. A column that the row does not
/// reach gets a blank cell; what the row holds beyond the last column is left
/// out.
pub open spec fn cells(
    row: Seq<Seq<char>>,
    widths: Seq<nat>,
    flags: Seq<bool>,
) -> Seq<Seq<char>> {
    Seq::new(
        widths.len(),
        |c: int| padded_or_truncated(cell_at(row, c), widths[c], flag_at(flags, c)),
    )
}

/// A row: the left end, the cells with the separator between them, the right
/// end and the line terminator.
pub open spec fn row_line(
    format: TableStyleFormat,
    row: Seq<Seq<char>>,
    widths: Seq<nat>,
    flags: Seq<bool>,
) -> Seq<char> {
    format.row_lh@ + joined(cells(row, widths, flags), format.row_sep@) + format.row_rh@
        + format.crlf@
}

/// The top border.
pub open spec fn top_line(format: TableStyleFormat, widths: Seq<nat>) -> Seq<char> {
    rule_line(
        format.top_lh@,
        format.top_bar@,
        format.top_sep@,
        format.top_rh@,
        format.crlf@,
        widths,
    )
}

/// The rule between the header and the body.
pub open spec fn mid_line(format: TableStyleFormat, widths: Seq<nat>) -> Seq<char> {
    rule_line(
        format.mid_lh@,
        format.mid_bar@,
        format.mid_sep@,
        format.mid_rh@,
        format.crlf@,
        widths,
    )
}

/// The bottom border.
pub open spec fn end_line(format: TableStyleFormat, widths: Seq<nat>) -> Seq<char> {
    rule_line(
        format.end_lh@,
        format.end_bar@,
        format.end_sep@,
        format.end_rh@,
        format.crlf@,
        widths,
    )
}

/// The lines of the body, one per row of data, in the order of the rows.
pub open spec fn body_lines(
    format: TableStyleFormat,
    data: Seq<Seq<Seq<char>>>,
    widths: Seq<nat>,
    flags: Seq<bool>,
) -> Seq<Seq<char>> {
    Seq::new(data.len(), |r: int| row_line(format, data[r], widths, flags))
}

/// The lines of a table from top to bottom: the top border, the header row,
/// the rule under it, one line per row of data and the bottom border.
pub open spec fn table_lines(
    headers: Seq<Seq<char>>,
    data: Seq<Seq<Seq<char>>>,
    format: TableStyleFormat,
    alignment: Option<Seq<char>>,
) -> Seq<Seq<char>> {
    let widths = column_widths(headers, data);
    let flags = alignment_flags(alignment, headers.len());
    seq![
        top_line(format, widths),
        row_line(format, headers, widths, flags),
        mid_line(format, widths),
    ] + body_lines(format, data, widths, flags) + seq![end_line(format, widths)]
}

/// The rendered table: its lines one after the other.
pub open spec fn table_text(
    headers: Seq<Seq<char>>,
    data: Seq<Seq<Seq<char>>>,
    format: TableStyleFormat,
    alignment: Option<Seq<char>>,
) -> Seq<char> {
    table_lines(headers, data, format, alignment).flatten()
}

/// The length of every line of a table drawn in a regular format: two
/// characters at either end, the widths of the columns, three characters
/// between each two columns and the line terminator.
pub open spec fn line_width(widths: Seq<nat>) -> nat {
    2 + sum(widths) + 3 * gaps(widths.len()) + 2 + 1
}

/// A column is as wide as its header or one of its cells, and no header or
/// cell in it is longer.
pub proof fn lemma_column_width_is_longest(
    headers: Seq<Seq<char>>,
    data: Seq<Seq<Seq<char>>>,
    c: int,
)
    requires
        0 <= c < headers.len(),
    ensures
        column_width(headers, data, c) >= headers[c].len(),
        forall|r: int|
            0 <= r < data.len() ==> column_width(headers, data, c) >= (#[trigger] cell_at(
                data[r],
                c,
            )).len(),
        column_width(headers, data, c) == headers[c].len() || exists|r: int|
            0 <= r < data.len() && c < data[r].len() && column_width(headers, data, c)
                == #[trigger] data[r][c].len(),
    decreases data.len(),
{
    if data.len() > 0 {
        let above = data.drop_last();
        lemma_column_width_is_longest(headers, above, c);
        assert forall|r: int| 0 <= r < data.len() implies column_width(headers, data, c)
            >= (#[trigger] cell_at(data[r], c)).len() by {
            if r < data.len() - 1 {
                assert(above[r] == data[r]);
            }
        }
        let width = column_width(headers, data, c);
        if width != headers[c].len() {
            if width == column_width(headers, above, c) {
                let r = choose|r: int|
                    0 <= r < above.len() && c < above[r].len() && column_width(headers, above, c)
                        == #[trigger] above[r][c].len();
                assert(above[r] == data[r]);
                assert(c < data[r].len() && width == data[r][c].len());
            } else {
                let r = data.len() - 1;
                assert(c < data[r].len() && width == data[r][c].len());
            }
        }
    }
}

/// A column that no row reaches is as wide as its header.
pub proof fn lemma_column_width_without_cells(
    headers: Seq<Seq<char>>,
    data: Seq<Seq<Seq<char>>>,
    c: int,
)
    requires
        0 <= c < headers.len(),
        forall|r: int| 0 <= r < data.len() ==> (#[trigger] data[r]).len() <= c,
    ensures
        column_width(headers, data, c) == headers[c].len(),
    decreases data.len(),
{
    if data.len() > 0 {
        let above = data.drop_last();
        assert forall|r: int| 0 <= r < above.len() implies (#[trigger] above[r]).len() <= c by {
            assert(above[r] == data[r]);
        }
        lemma_column_width_without_cells(headers, above, c);
        assert(data.last() == data[data.len() - 1]);
    }
}

/// Within a table nothing is cut: each cell of the header row and of every
/// row of data is the text it stands for, padded to the width of its column
/// on the side that the alignment of the column leaves free, and a cell
/// that its row does not hold is blank.
pub proof fn lemma_cells_are_padded(
    headers: Seq<Seq<char>>,
    data: Seq<Seq<Seq<char>>>,
    alignment: Option<Seq<char>>,
    row: Seq<Seq<char>>,
    c: int,
)
    requires
        0 <= c < headers.len(),
        row == headers || data.contains(row),
    ensures
        ({
            let widths = column_widths(headers, data);
            let flags = alignment_flags(alignment, headers.len());
            let cell = cells(row, widths, flags)[c];
            &&& cell.len() == widths[c]
            &&& cell == padded(cell_at(row, c), widths[c], flags[c])
            &&& c >= row.len() ==> cell == spaces(widths[c])
        }),
{
    let widths = column_widths(headers, data);
    let flags = alignment_flags(alignment, headers.len());
    lemma_column_width_is_longest(headers, data, c);
    if row != headers {
        let r = choose|r: int| 0 <= r < data.len() && data[r] == row;
        assert(cell_at(data[r], c).len() <= widths[c]);
    }
    if c >= row.len() {
        assert(cells(row, widths, flags)[c] =~= spaces(widths[c]));
    }
}

/// An alignment that does not have one mark per column is as good as none.
pub proof fn lemma_mismatched_alignment_is_ignored(
    headers: Seq<Seq<char>>,
    data: Seq<Seq<Seq<char>>>,
    format: TableStyleFormat,
    marks: Seq<char>,
)
    requires
        marks.len() != headers.len(),
    ensures
        table_text(headers, data, format, Some(marks)) == table_text(headers, data, format, None),
        forall|c: int|
            0 <= c < headers.len() ==> !(#[trigger] alignment_flags(Some(marks), headers.len())[c]),
{
    assert(alignment_flags(Some(marks), headers.len()) =~= alignment_flags(None, headers.len()));
}

/// A table has four lines more than it has rows of data.
pub proof fn lemma_line_count(
    headers: Seq<Seq<char>>,
    data: Seq<Seq<Seq<char>>>,
    format: TableStyleFormat,
    alignment: Option<Seq<char>>,
)
    ensures
        table_lines(headers, data, format, alignment).len() == data.len() + 4,
{
}

/// The bars of a border are together as long as the bar times the sum of
/// the widths.
proof fn lemma_total_len_of_bars(bar: Seq<char>, widths: Seq<nat>)
    ensures
        total_len(bars(bar, widths)) == bar.len() * sum(widths),
    decreases widths.len(),
{
    if widths.len() == 0 {
        assert(bar.len() * 0 == 0) by (nonlinear_arith);
    } else {
        let rest = widths.drop_last();
        assert(bars(bar, widths).drop_last() =~= bars(bar, rest));
        lemma_total_len_of_bars(bar, rest);
        lemma_repeated_len(bar, widths.last());
        assert(bar.len() * (sum(rest) + widths.last()) == bar.len() * sum(rest) + widths.last()
            * bar.len()) by (nonlinear_arith);
    }
}

/// The length of a border: its two ends, its bar once for each unit of
/// column width, its separator once between each two columns, and the line
/// terminator.
pub proof fn lemma_rule_line_len(
    lh: Seq<char>,
    bar: Seq<char>,
    sep: Seq<char>,
    rh: Seq<char>,
    crlf: Seq<char>,
    widths: Seq<nat>,
)
    ensures
        rule_line(lh, bar, sep, rh, crlf, widths).len() == lh.len() + bar.len() * sum(widths)
            + gaps(widths.len()) * sep.len() + rh.len() + crlf.len(),
{
    lemma_total_len_of_bars(bar, widths);
    lemma_joined_len(bars(bar, widths), sep);
}

/// The length of a row none of whose cells is longer than its column: its
/// two ends, the widths of the columns, its separator once between each two
/// columns, and the line terminator.
pub proof fn lemma_row_line_len(
    format: TableStyleFormat,
    row: Seq<Seq<char>>,
    widths: Seq<nat>,
    flags: Seq<bool>,
)
    requires
        forall|c: int| 0 <= c < widths.len() ==> (#[trigger] cell_at(row, c)).len() <= widths[c],
    ensures
        row_line(format, row, widths, flags).len() == format.row_lh@.len() + sum(widths) + gaps(
            widths.len(),
        ) * format.row_sep@.len() + format.row_rh@.len() + format.crlf@.len(),
{
    let parts = cells(row, widths, flags);
    assert forall|c: int| 0 <= c < parts.len() implies #[trigger] parts[c].len() == widths[c] by {
        assert(cell_at(row, c).len() <= widths[c]);
    }
    lemma_total_len_of_widths(parts, widths);
    lemma_joined_len(parts, format.row_sep@);
}

/// In a regular format a border and a row take the same room.
proof fn lemma_regular_line_width(format: TableStyleFormat, widths: Seq<nat>)
    requires
        is_regular(format),
    ensures
        top_line(format, widths).len() == line_width(widths),
        mid_line(format, widths).len() == line_width(widths),
        end_line(format, widths).len() == line_width(widths),
        format.row_lh@.len() + sum(widths) + gaps(widths.len()) * format.row_sep@.len()
            + format.row_rh@.len() + format.crlf@.len() == line_width(widths),
{
    lemma_rule_line_len(
        format.top_lh@,
        format.top_bar@,
        format.top_sep@,
        format.top_rh@,
        format.crlf@,
        widths,
    );
    lemma_rule_line_len(
        format.mid_lh@,
        format.mid_bar@,
        format.mid_sep@,
        format.mid_rh@,
        format.crlf@,
        widths,
    );
    lemma_rule_line_len(
        format.end_lh@,
        format.end_bar@,
        format.end_sep@,
        format.end_rh@,
        format.crlf@,
        widths,
    );
    let g = gaps(widths.len());
    let w = sum(widths);
    assert(g * 3 == 3 * g && 1 * w == w) by (nonlinear_arith);
}

/// Every line of a table drawn in a regular format, the borders and the rows
/// alike, has the same length: the room that the format takes around the
/// columns and the sum of the widths of the columns.
pub proof fn lemma_lines_have_equal_width(
    headers: Seq<Seq<char>>,
    data: Seq<Seq<Seq<char>>>,
    format: TableStyleFormat,
    alignment: Option<Seq<char>>,
)
    requires
        is_regular(format),
    ensures
        forall|i: int|
            #![trigger table_lines(headers, data, format, alignment)[i]]
            0 <= i < table_lines(headers, data, format, alignment).len() ==> table_lines(
                headers,
                data,
                format,
                alignment,
            )[i].len() == line_width(column_widths(headers, data)),
{
    let widths = column_widths(headers, data);
    let flags = alignment_flags(alignment, headers.len());
    let lines = table_lines(headers, data, format, alignment);
    lemma_regular_line_width(format, widths);
    assert forall|i: int| 0 <= i < lines.len() implies (#[trigger] lines[i]).len() == line_width(
        widths,
    ) by {
        if i == 1 || 3 <= i < 3 + data.len() {
            let row = if i == 1 {
                headers
            } else {
                data[i - 3]
            };
            assert(lines[i] == row_line(format, row, widths, flags));
            assert forall|c: int| 0 <= c < widths.len() implies (#[trigger] cell_at(row, c)).len()
                <= widths[c] by {
                lemma_column_width_is_longest(headers, data, c);
            }
            lemma_row_line_len(format, row, widths, flags);
        }
    }
}

/// Every line of a table in one of the three styles has the same length,
/// whatever the headers, the rows and the alignment are.
pub proof fn lemma_styled_lines_have_equal_width(
    headers: Seq<Seq<char>>,
    data: Seq<Seq<Seq<char>>>,
    style: TableStyle,
    alignment: Option<Seq<char>>,
)
    ensures
        forall|i: int|
            #![trigger table_lines(headers, data, format_of(style), alignment)[i]]
            0 <= i < data.len() + 4 ==> table_lines(
                headers,
                data,
                format_of(style),
                alignment,
            )[i].len() == line_width(column_widths(headers, data)),
{
    lemma_styles_are_regular(style);
    lemma_lines_have_equal_width(headers, data, format_of(style), alignment);
}

} // verus!
