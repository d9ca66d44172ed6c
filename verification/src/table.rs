//! A table of headers and rows whose entries can be displayed as text.

use crate::layout::table_text;
use crate::render::render_table;
use crate::style::{format_of, TableStyle};
use crate::text::{decimal_string, decimal_text};
use std::fmt::Display;
use vstd::prelude::*;
use vstd::string::to_string_from_display_ensures;

verus! {

/// Headers, rows of cells, a border style and an optional alignment of the
/// columns. There are as many columns as headers; a row may hold fewer cells
/// than that, or more.
#[derive(Debug, Clone)]
pub struct Table<T, U> {
    pub headers: Vec<T>,
    pub data: Vec<Vec<U>>,
    pub style: TableStyle,
    pub alignment: Option<String>,
}

/// The alignment that a string of marks stands for: none for the empty one.
pub open spec fn alignment_of(marks: String) -> Option<String> {
    if marks@.len() == 0 {
        None
    } else {
        Some(marks)
    }
}

/// `texts` holds, in order, one text that `Display` can give for each of
/// `values`.
pub open spec fn displayed<T: Display>(values: Seq<T>, texts: Seq<String>) -> bool {
    &&& texts.len() == values.len()
    &&& forall|i: int|
        #![trigger texts[i]]
        0 <= i < values.len() ==> to_string_from_display_ensures::<T>(&values[i], texts[i])
}

/// `texts` holds, row by row, one text that `Display` can give for each cell
/// of `rows`.
pub open spec fn grid_displayed<U: Display>(rows: Seq<Vec<U>>, texts: Seq<Vec<String>>) -> bool {
    &&& texts.len() == rows.len()
    &&& forall|r: int| #![trigger texts[r]] 0 <= r < rows.len() ==> displayed(rows[r]@, texts[r]@)
}

/// The label of column `c` of a generated grid: its number.
pub open spec fn grid_label(c: int) -> Seq<char> {
    decimal_text(c as nat)
}

/// The cell in row `r` and column `c` of a generated grid: the two numbers
/// with a comma between them.
pub open spec fn grid_cell(r: int, c: int) -> Seq<char> {
    decimal_text(r as nat) + seq![','] + decimal_text(c as nat)
}

/// The alignment that `marks` stands for: see [`alignment_of`].
pub fn alignment_from(marks: String) -> (alignment: Option<String>)
    ensures
        alignment == alignment_of(marks),
{
    if marks.as_str().unicode_len() == 0 {
        None
    } else {
        Some(marks)
    }
}

impl<T, U> Table<T, U> {
    /// A table in the normal style with every column left-aligned.
    pub fn new(headers: Vec<T>, data: Vec<Vec<U>>) -> (table: Self)
        ensures
            table.headers == headers,
            table.data == data,
            table.style is Normal,
            table.alignment is None,
    {
        Table { headers, data, style: TableStyle::Normal, alignment: None }
    }

    /// A table in the given style. Its alignment is what `alignment` converts
    /// to, or none where that is empty.
    pub fn new_with_style<A: Into<String>>(
        headers: Vec<T>,
        data: Vec<Vec<U>>,
        style: TableStyle,
        alignment: A,
    ) -> (table: Self)
        ensures
            table.headers == headers,
            table.data == data,
            table.style == style,
            exists|marks: String| #[trigger]
                call_ensures(A::into, (alignment,), marks) && table.alignment == alignment_of(
                    marks,
                ),
    {
        let marks: String = alignment.into();
        Table { headers, data, style, alignment: alignment_from(marks) }
    }

    /// The number of rows and the number of columns, in this order.
    pub fn get_shape(&self) -> (shape: (usize, usize))
        ensures
            shape.0 == self.data@.len(),
            shape.1 == self.headers@.len(),
    {
        (self.data.len(), self.headers.len())
    }

    /// Replaces the border style.
    pub fn set_table_style(&mut self, style: TableStyle)
        ensures
            final(self).style == style,
            final(self).headers == old(self).headers,
            final(self).data == old(self).data,
            final(self).alignment == old(self).alignment,
    {
        self.style = style;
    }

    /// Replaces the alignment by what `alignment` converts to: one mark per
    /// column, `>` for a right-aligned column and any other character for a
    /// left-aligned one. The empty string takes the alignment away.
    pub fn set_table_alignment<A: Into<String>>(&mut self, alignment: A)
        ensures
            final(self).headers == old(self).headers,
            final(self).data == old(self).data,
            final(self).style == old(self).style,
            exists|marks: String| #[trigger]
                call_ensures(A::into, (alignment,), marks) && final(self).alignment
                    == alignment_of(marks),
    {
        let marks: String = alignment.into();
        self.alignment = alignment_from(marks);
    }

    /// A table of `n_rows` rows and `n_cols` columns in the normal style,
    /// where each header is the number of its column and each cell the
    /// numbers of its row and its column.
    pub fn generate_grid(n_rows: usize, n_cols: usize) -> (grid: Table<String, String>)
        ensures
            grid.headers.deep_view() == Seq::new(n_cols as nat, |c: int| grid_label(c)),
            grid.data.deep_view() == Seq::new(
                n_rows as nat,
                |r: int| Seq::new(n_cols as nat, |c: int| grid_cell(r, c)),
            ),
            grid.style is Normal,
            grid.alignment is None,
    {
        let mut headers: Vec<String> = Vec::new();
        let mut c: usize = 0;
        while c < n_cols
            invariant
                c <= n_cols,
                headers@.len() == c,
                forall|k: int| 0 <= k < c ==> (#[trigger] headers@[k])@ == grid_label(k),
            decreases n_cols - c,
        {
            headers.push(decimal_string(c));
            c = c + 1;
        }
        let mut data: Vec<Vec<String>> = Vec::new();
        let mut r: usize = 0;
        while r < n_rows
            invariant
                r <= n_rows,
                data@.len() == r,
                forall|j: int|
                    0 <= j < r ==> (#[trigger] data@[j]).deep_view() == Seq::new(
                        n_cols as nat,
                        |c: int| grid_cell(j, c),
                    ),
            decreases n_rows - r,
        {
            let mut row: Vec<String> = Vec::new();
            let mut c: usize = 0;
            while c < n_cols
                invariant
                    c <= n_cols,
                    row@.len() == c,
                    forall|k: int| 0 <= k < c ==> (#[trigger] row@[k])@ == grid_cell(r as int, k),
                decreases n_cols - c,
            {
                proof {
                    reveal_strlit(",");
                    assert(","@ =~= seq![',']);
                }
                row.push(decimal_string(r).concat(",").concat(decimal_string(c).as_str()));
                c = c + 1;
            }
            assert(row.deep_view() =~= Seq::new(n_cols as nat, |c: int| grid_cell(r as int, c)));
            data.push(row);
            r = r + 1;
        }
        proof {
            assert(headers.deep_view() =~= Seq::new(n_cols as nat, |c: int| grid_label(c)));
            assert(data.deep_view() =~= Seq::new(
                n_rows as nat,
                |r: int| Seq::new(n_cols as nat, |c: int| grid_cell(r, c)),
            ));
        }
        Table { headers, data, style: TableStyle::Normal, alignment: None }
    }
}

impl<T: Display, U: Display> Table<T, U> {
    /// The same table with every header and cell as the text it displays as.
    pub fn to_stringy(self) -> (out: Table<String, String>)
        ensures
            displayed(self.headers@, out.headers@),
            grid_displayed(self.data@, out.data@),
            out.style == self.style,
            out.alignment == self.alignment,
    {
        let headers = self.get_headers_to_string();
        let data = self.get_data_to_string();
        Table { headers, data, style: self.style, alignment: self.alignment }
    }

    /// The headers as the texts they display as.
    pub fn get_headers_to_string(&self) -> (texts: Vec<String>)
        ensures
            displayed(self.headers@, texts@),
    {
        let mut texts: Vec<String> = Vec::new();
        let mut c: usize = 0;
        while c < self.headers.len()
            invariant
                c <= self.headers.len(),
                texts@.len() == c,
                forall|i: int|
                    #![trigger texts@[i]]
                    0 <= i < c ==> to_string_from_display_ensures::<T>(
                        &self.headers@[i],
                        texts@[i],
                    ),
            decreases self.headers.len() - c,
        {
            texts.push(self.headers[c].to_string());
            c = c + 1;
        }
        texts
    }

    /// The rows as the texts their cells display as.
    pub fn get_data_to_string(&self) -> (texts: Vec<Vec<String>>)
        ensures
            grid_displayed(self.data@, texts@),
    {
        let mut texts: Vec<Vec<String>> = Vec::new();
        let mut r: usize = 0;
        while r < self.data.len()
            invariant
                r <= self.data.len(),
                texts@.len() == r,
                forall|j: int|
                    #![trigger texts@[j]]
                    0 <= j < r ==> displayed(self.data@[j]@, texts@[j]@),
            decreases self.data.len() - r,
        {
            let row = &self.data[r];
            let mut cells: Vec<String> = Vec::new();
            let mut c: usize = 0;
            while c < row.len()
                invariant
                    c <= row.len(),
                    cells@.len() == c,
                    forall|i: int|
                        #![trigger cells@[i]]
                        0 <= i < c ==> to_string_from_display_ensures::<U>(&row@[i], cells@[i]),
                decreases row.len() - c,
            {
                cells.push(row[c].to_string());
                c = c + 1;
            }
            texts.push(cells);
            r = r + 1;
        }
        texts
    }

    /// The table as text, from the top border to the bottom border, each
    /// line ended by a newline: [`table_text`] of texts that the headers and
    /// the cells display as.
    pub fn render(&self) -> (out: String)
        ensures
            exists|labels: Vec<String>, grid: Vec<Vec<String>>|
                #![trigger displayed(self.headers@, labels@), grid_displayed(self.data@, grid@)]
                displayed(self.headers@, labels@) && grid_displayed(self.data@, grid@) && out@
                    == table_text(
                    labels.deep_view(),
                    grid.deep_view(),
                    format_of(self.style),
                    self.alignment.deep_view(),
                ),
    {
        let labels = self.get_headers_to_string();
        let grid = self.get_data_to_string();
        render_table(&labels, &grid, &self.style, &self.alignment)
    }
}

} // verus!
