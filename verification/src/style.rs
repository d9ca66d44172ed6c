//! The border styles and the fragments each of them is drawn with.

use vstd::prelude::*;

verus! {

/// The border style of a table.
#[derive(Debug, Clone, Copy, PartialEq, Eq, Structural)]
pub enum TableStyle {
    /// Light box-drawing characters throughout.
    Normal,
    /// `+`, `-` and `|` only.
    ASCII,
    /// Light box-drawing borders, a double rule under the header and a
    /// dashed rule between the columns.
    Polars,
}

/// The fragments one style is drawn with: for the top border, the rule under
/// the header and the bottom border a left end, the bar that fills a column,
/// the separator between two columns and a right end; for a row of cells the
/// same without a bar; and the line terminator.
#[derive(Debug, Clone, Copy)]
pub struct TableStyleFormat {
    pub top_lh: &'static str,
    pub top_bar: &'static str,
    pub top_sep: &'static str,
    pub top_rh: &'static str,
    pub mid_lh: &'static str,
    pub mid_bar: &'static str,
    pub mid_sep: &'static str,
    pub mid_rh: &'static str,
    pub row_lh: &'static str,
    pub row_sep: &'static str,
    pub row_rh: &'static str,
    pub end_lh: &'static str,
    pub end_bar: &'static str,
    pub end_sep: &'static str,
    pub end_rh: &'static str,
    pub crlf: &'static str,
}

/// The fragments of each style.
pub open spec fn format_of(style: TableStyle) -> TableStyleFormat {
    match style {
        TableStyle::Normal => TableStyleFormat {
            top_lh: "┌─",
            top_bar: "─",
            top_sep: "─┬─",
            top_rh: "─┐",
            mid_lh: "├─",
            mid_bar: "─",
            mid_sep: "─┼─",
            mid_rh: "─┤",
            row_lh: "│ ",
            row_sep: " │ ",
            row_rh: " │",
            end_lh: "└─",
            end_bar: "─",
            end_sep: "─┴─",
            end_rh: "─┘",
            crlf: "\n",
        },
        TableStyle::ASCII => TableStyleFormat {
            top_lh: "+-",
            top_bar: "-",
            top_sep: "-+-",
            top_rh: "-+",
            mid_lh: "+-",
            mid_bar: "-",
            mid_sep: "-+-",
            mid_rh: "-+",
            row_lh: "| ",
            row_sep: " | ",
            row_rh: " |",
            end_lh: "+-",
            end_bar: "-",
            end_sep: "-+-",
            end_rh: "-+",
            crlf: "\n",
        },
        TableStyle::Polars => TableStyleFormat {
            top_lh: "┌─",
            top_bar: "─",
            top_sep: "─┬─",
            top_rh: "─┐",
            mid_lh: "╞═",
            mid_bar: "═",
            mid_sep: "═╪═",
            mid_rh: "═╡",
            row_lh: "│ ",
            row_sep: " ┆ ",
            row_rh: " │",
            end_lh: "└─",
            end_bar: "─",
            end_sep: "─┴─",
            end_rh: "─┘",
            crlf: "\n",
        },
    }
}

/// Whether every line drawn with `format` takes the same room around its
/// columns: two characters at either end, three between two columns, one
/// per unit of column width in a bar, and one to end the line.
pub open spec fn is_regular(format: TableStyleFormat) -> bool {
    &&& format.top_lh@.len() == 2
    &&& format.mid_lh@.len() == 2
    &&& format.row_lh@.len() == 2
    &&& format.end_lh@.len() == 2
    &&& format.top_rh@.len() == 2
    &&& format.mid_rh@.len() == 2
    &&& format.row_rh@.len() == 2
    &&& format.end_rh@.len() == 2
    &&& format.top_sep@.len() == 3
    &&& format.mid_sep@.len() == 3
    &&& format.row_sep@.len() == 3
    &&& format.end_sep@.len() == 3
    &&& format.top_bar@.len() == 1
    &&& format.mid_bar@.len() == 1
    &&& format.end_bar@.len() == 1
    &&& format.crlf@ == seq!['\n']
}

/// Each of the three styles is regular.
pub proof fn lemma_styles_are_regular(style: TableStyle)
    ensures
        is_regular(format_of(style)),
{
    reveal_strlit("\n");
    assert("\n"@ =~= seq!['\n']);
    match style {
        TableStyle::Normal => {
            reveal_strlit("┌─");
            reveal_strlit("─");
            reveal_strlit("─┬─");
            reveal_strlit("─┐");
            reveal_strlit("├─");
            reveal_strlit("─┼─");
            reveal_strlit("─┤");
            reveal_strlit("│ ");
            reveal_strlit(" │ ");
            reveal_strlit(" │");
            reveal_strlit("└─");
            reveal_strlit("─┴─");
            reveal_strlit("─┘");
        },
        TableStyle::ASCII => {
            reveal_strlit("+-");
            reveal_strlit("-");
            reveal_strlit("-+-");
            reveal_strlit("-+");
            reveal_strlit("| ");
            reveal_strlit(" | ");
            reveal_strlit(" |");
        },
        TableStyle::Polars => {
            reveal_strlit("┌─");
            reveal_strlit("─");
            reveal_strlit("─┬─");
            reveal_strlit("─┐");
            reveal_strlit("╞═");
            reveal_strlit("═");
            reveal_strlit("═╪═");
            reveal_strlit("═╡");
            reveal_strlit("│ ");
            reveal_strlit(" ┆ ");
            reveal_strlit(" │");
            reveal_strlit("└─");
            reveal_strlit("─┴─");
            reveal_strlit("─┘");
        },
    }
}

impl TableStyleFormat {
    /// A format of the given fragments, in the order of the fields, that
    /// ends its lines with a newline.
    pub fn new(
        top_lh: &'static str,
        top_bar: &'static str,
        top_sep: &'static str,
        top_rh: &'static str,
        mid_lh: &'static str,
        mid_bar: &'static str,
        mid_sep: &'static str,
        mid_rh: &'static str,
        row_lh: &'static str,
        row_sep: &'static str,
        row_rh: &'static str,
        end_lh: &'static str,
        end_bar: &'static str,
        end_sep: &'static str,
        end_rh: &'static str,
    ) -> (format: Self)
        ensures
            format == (TableStyleFormat {
                top_lh,
                top_bar,
                top_sep,
                top_rh,
                mid_lh,
                mid_bar,
                mid_sep,
                mid_rh,
                row_lh,
                row_sep,
                row_rh,
                end_lh,
                end_bar,
                end_sep,
                end_rh,
                crlf: "\n",
            }),
    {
        TableStyleFormat {
            top_lh,
            top_bar,
            top_sep,
            top_rh,
            mid_lh,
            mid_bar,
            mid_sep,
            mid_rh,
            row_lh,
            row_sep,
            row_rh,
            end_lh,
            end_bar,
            end_sep,
            end_rh,
            crlf: "\n",
        }
    }
}

impl TableStyle {
    /// The fragments this style is drawn with.
    pub fn get_style_format(&self) -> (format: TableStyleFormat)
        ensures
            format == format_of(*self),
    {
        match self {
            Self::Normal => TableStyleFormat::new(
                "┌─", "─", "─┬─", "─┐",
                "├─", "─", "─┼─", "─┤",
                "│ ", " │ ", " │",
                "└─", "─", "─┴─", "─┘",
            ),
            Self::ASCII => TableStyleFormat::new(
                "+-", "-", "-+-", "-+",
                "+-", "-", "-+-", "-+",
                "| ", " | ", " |",
                "+-", "-", "-+-", "-+",
            ),
            Self::Polars => TableStyleFormat::new(
                "┌─", "─", "─┬─", "─┐",
                "╞═", "═", "═╪═", "═╡",
                "│ ", " ┆ ", " │",
                "└─", "─", "─┴─", "─┘",
            ),
        }
    }
}

} // verus!
