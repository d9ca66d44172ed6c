use wclib::{TableStyle, TableStyleFormat};

fn fragments(f: &TableStyleFormat) -> [&'static str; 16] {
    [
        f.top_lh, f.top_bar, f.top_sep, f.top_rh, f.mid_lh, f.mid_bar, f.mid_sep, f.mid_rh,
        f.row_lh, f.row_sep, f.row_rh, f.end_lh, f.end_bar, f.end_sep, f.end_rh, f.crlf,
    ]
}

#[test]
fn normal_style_is_light_box_drawing() {
    let f = TableStyle::Normal.get_style_format();
    assert_eq!(
        fragments(&f),
        ["┌─", "─", "─┬─", "─┐", "├─", "─", "─┼─", "─┤", "│ ", " │ ", " │", "└─", "─", "─┴─", "─┘", "\n"]
    );
}

#[test]
fn ascii_style_is_plus_minus_and_bar() {
    let f = TableStyle::ASCII.get_style_format();
    assert_eq!(
        fragments(&f),
        ["+-", "-", "-+-", "-+", "+-", "-", "-+-", "-+", "| ", " | ", " |", "+-", "-", "-+-", "-+", "\n"]
    );
    for fragment in fragments(&f) {
        assert!(fragment.is_ascii());
    }
}

#[test]
fn polars_style_has_a_double_rule_and_dashed_columns() {
    let f = TableStyle::Polars.get_style_format();
    assert_eq!(
        fragments(&f),
        ["┌─", "─", "─┬─", "─┐", "╞═", "═", "═╪═", "═╡", "│ ", " ┆ ", " │", "└─", "─", "─┴─", "─┘", "\n"]
    );
}

#[test]
fn every_style_takes_the_same_room_on_each_line() {
    for style in [TableStyle::Normal, TableStyle::ASCII, TableStyle::Polars] {
        let f = style.get_style_format();
        for end in [f.top_lh, f.mid_lh, f.row_lh, f.end_lh, f.top_rh, f.mid_rh, f.row_rh, f.end_rh] {
            assert_eq!(end.chars().count(), 2);
        }
        for sep in [f.top_sep, f.mid_sep, f.row_sep, f.end_sep] {
            assert_eq!(sep.chars().count(), 3);
        }
        for bar in [f.top_bar, f.mid_bar, f.end_bar] {
            assert_eq!(bar.chars().count(), 1);
        }
        assert_eq!(f.crlf, "\n");
    }
}

#[test]
fn new_format_keeps_the_fragments_in_order_and_ends_lines_with_a_newline() {
    let f = TableStyleFormat::new(
        "a", "b", "c", "d", "e", "f", "g", "h", "i", "j", "k", "l", "m", "n", "o",
    );
    assert_eq!(
        fragments(&f),
        ["a", "b", "c", "d", "e", "f", "g", "h", "i", "j", "k", "l", "m", "n", "o", "\n"]
    );
}

#[test]
fn styles_compare_and_copy() {
    let style = TableStyle::Polars;
    let copy = style;
    assert_eq!(style, copy);
    assert_ne!(TableStyle::Normal, TableStyle::ASCII);
    assert_eq!(format!("{:?}", TableStyle::ASCII), "ASCII");
}
