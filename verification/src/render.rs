//! Rendering a grid of texts as a bordered table.

use crate::layout::{
    alignment_flags, bars, body_lines, cell_at, cells, column_width, column_widths, end_line,
    mid_line, row_line, rule_line, table_lines, table_text, top_line,
};
use crate::padding::pad_or_truncate_text;
use crate::style::{format_of, TableStyle, TableStyleFormat};
use crate::text::{join_texts, repeat_text};
use vstd::prelude::*;

verus! {

/// Widths as the numbers they stand for.
pub open spec fn as_nats(widths: Seq<usize>) -> Seq<nat> {
    Seq::new(widths.len(), |c: int| widths[c] as nat)
}

/// For each of `n_cols` columns whether it is right-aligned: see
/// [`alignment_flags`].
pub fn resolve_alignment(alignment: &Option<String>, n_cols: usize) -> (flags: Vec<bool>)
    ensures
        flags@ == alignment_flags(alignment.deep_view(), n_cols as nat),
{
    let mut flags: Vec<bool> = Vec::new();
    match alignment {
        Some(marks) => {
            let marks = marks.as_str();
            if marks.unicode_len() == n_cols {
                for mark in it: marks.chars()
                    invariant
                        it.seq() == marks@,
                        flags@ == Seq::new(it.index() as nat, |c: int| marks@[c] == '>'),
                {
                    flags.push(mark == '>');
                    assert(flags@ =~= Seq::new(
                        (it.index() + 1) as nat,
                        |c: int| marks@[c] == '>',
                    ));
                }
                return flags;
            }
        },
        None => {},
    }
    let mut c: usize = 0;
    while c < n_cols
        invariant
            c <= n_cols,
            flags@ == Seq::new(c as nat, |c: int| false),
        decreases n_cols - c,
    {
        flags.push(false);
        c = c + 1;
        assert(flags@ =~= Seq::new(c as nat, |c: int| false));
    }
    flags
}

/// The width of each column: see [`column_width`].
pub fn measure_columns(headers: &Vec<String>, data: &Vec<Vec<String>>) -> (widths: Vec<usize>)
    ensures
        as_nats(widths@) == column_widths(headers.deep_view(), data.deep_view()),
{
    let ghost labels = headers.deep_view();
    let ghost grid = data.deep_view();
    let mut widths: Vec<usize> = Vec::new();
    let mut c: usize = 0;
    while c < headers.len()
        invariant
            c <= headers.len(),
            labels == headers.deep_view(),
            grid == data.deep_view(),
            widths@.len() == c,
            forall|k: int| 0 <= k < c ==> widths@[k] == column_width(labels, grid, k),
        decreases headers.len() - c,
    {
        let mut width = headers[c].as_str().unicode_len();
        let mut r: usize = 0;
        while r < data.len()
            invariant
                r <= data.len(),
                c < headers.len(),
                labels == headers.deep_view(),
                grid == data.deep_view(),
                width == column_width(labels, grid.take(r as int), c as int),
            decreases data.len() - r,
        {
            let row = &data[r];
            proof {
                assert(grid.take(r + 1).drop_last() =~= grid.take(r as int));
                assert(grid.take(r + 1).last() == row.deep_view());
            }
            if c < row.len() {
                let len = row[c].as_str().unicode_len();
                assert(cell_at(row.deep_view(), c as int) == row[c as int]@);
                if len > width {
                    width = len;
                }
            }
            r = r + 1;
        }
        proof {
            assert(grid.take(data.len() as int) =~= grid);
        }
        widths.push(width);
        c = c + 1;
    }
    proof {
        assert(as_nats(widths@) =~= column_widths(labels, grid));
    }
    widths
}

/// A border over columns of the given widths: see [`rule_line`].
pub fn draw_rule(
    lh: &str,
    bar: &str,
    sep: &str,
    rh: &str,
    crlf: &str,
    widths: &Vec<usize>,
) -> (line: String)
    ensures
        line@ == rule_line(lh@, bar@, sep@, rh@, crlf@, as_nats(widths@)),
{
    let mut parts: Vec<String> = Vec::new();
    let mut c: usize = 0;
    while c < widths.len()
        invariant
            c <= widths.len(),
            parts@.len() == c,
            forall|k: int|
                0 <= k < c ==> (#[trigger] parts@[k])@ == bars(bar@, as_nats(widths@))[k],
        decreases widths.len() - c,
    {
        parts.push(repeat_text(bar, widths[c]));
        c = c + 1;
    }
    proof {
        assert(parts.deep_view() =~= bars(bar@, as_nats(widths@)));
    }
    let middle = join_texts(&parts, sep);
    String::from_str(lh).concat(middle.as_str()).concat(rh).concat(crlf)
}

/// One row over columns of the given widths and alignments: see
/// [`row_line`].
pub fn draw_row(
    format: &TableStyleFormat,
    row: &Vec<String>,
    widths: &Vec<usize>,
    flags: &Vec<bool>,
) -> (line: String)
    ensures
        line@ == row_line(*format, row.deep_view(), as_nats(widths@), flags@),
{
    let ghost texts = row.deep_view();
    let mut parts: Vec<String> = Vec::new();
    let mut c: usize = 0;
    while c < widths.len()
        invariant
            c <= widths.len(),
            texts == row.deep_view(),
            parts@.len() == c,
            forall|k: int|
                0 <= k < c ==> (#[trigger] parts@[k])@ == cells(texts, as_nats(widths@), flags@)[k],
        decreases widths.len() - c,
    {
        let align_right = c < flags.len() && flags[c];
        let cell = if c < row.len() {
            pad_or_truncate_text(row[c].as_str(), widths[c], align_right)
        } else {
            pad_or_truncate_text("", widths[c], align_right)
        };
        proof {
            reveal_strlit("");
            assert(""@ =~= Seq::<char>::empty());
        }
        parts.push(cell);
        c = c + 1;
    }
    proof {
        assert(parts.deep_view() =~= cells(texts, as_nats(widths@), flags@));
    }
    let middle = join_texts(&parts, format.row_sep);
    String::from_str(format.row_lh).concat(middle.as_str()).concat(format.row_rh).concat(
        format.crlf,
    )
}

/// The table of the given headers and rows as text: see [`table_text`].
///
/// There are as many columns as headers. Each column is as wide as the
/// longest text in it; a row may be shorter or longer than the headers.
pub fn render_table(
    headers: &Vec<String>,
    data: &Vec<Vec<String>>,
    style: &TableStyle,
    alignment: &Option<String>,
) -> (out: String)
    ensures
        out@ == table_text(
            headers.deep_view(),
            data.deep_view(),
            format_of(*style),
            alignment.deep_view(),
        ),
{
    let format = style.get_style_format();
    let flags = resolve_alignment(alignment, headers.len());
    let widths = measure_columns(headers, data);
    let ghost labels = headers.deep_view();
    let ghost grid = data.deep_view();
    let ghost spans = as_nats(widths@);
    let ghost lines = table_lines(labels, grid, format, alignment.deep_view());

    let top = draw_rule(
        format.top_lh,
        format.top_bar,
        format.top_sep,
        format.top_rh,
        format.crlf,
        &widths,
    );
    let header = draw_row(&format, headers, &widths, &flags);
    let mid = draw_rule(
        format.mid_lh,
        format.mid_bar,
        format.mid_sep,
        format.mid_rh,
        format.crlf,
        &widths,
    );
    let mut out = top.concat(header.as_str()).concat(mid.as_str());
    proof {
        let head = seq![top_line(format, spans), row_line(format, labels, spans, flags@)];
        assert(lines.take(3) =~= head.push(mid_line(format, spans)));
        assert(head =~= Seq::<Seq<char>>::empty().push(top_line(format, spans)).push(
            row_line(format, labels, spans, flags@),
        ));
        Seq::<Seq<char>>::empty().lemma_flatten_push(top_line(format, spans));
        Seq::<Seq<char>>::empty().push(top_line(format, spans)).lemma_flatten_push(
            row_line(format, labels, spans, flags@),
        );
        head.lemma_flatten_push(mid_line(format, spans));
        assert(Seq::<Seq<char>>::empty().flatten() =~= Seq::<char>::empty());
    }
    let mut r: usize = 0;
    while r < data.len()
        invariant
            r <= data.len(),
            grid == data.deep_view(),
            spans == as_nats(widths@),
            lines == table_lines(labels, grid, format, alignment.deep_view()),
            spans == column_widths(labels, grid),
            flags@ == alignment_flags(alignment.deep_view(), labels.len()),
            out@ == lines.take(3 + r).flatten(),
        decreases data.len() - r,
    {
        let line = draw_row(&format, &data[r], &widths, &flags);
        out = out.concat(line.as_str());
        proof {
            assert(lines[3 + r] == body_lines(format, grid, spans, flags@)[r as int]);
            assert(lines.take(3 + r + 1) =~= lines.take(3 + r).push(line@));
            lines.take(3 + r).lemma_flatten_push(line@);
        }
        r = r + 1;
    }
    let end = draw_rule(
        format.end_lh,
        format.end_bar,
        format.end_sep,
        format.end_rh,
        format.crlf,
        &widths,
    );
    proof {
        assert(lines =~= lines.take(3 + data.len()).push(end_line(format, spans)));
        lines.take(3 + data.len()).lemma_flatten_push(end_line(format, spans));
    }
    out.concat(end.as_str())
}

} // verus!
