use wclib::padding::{pad_input, pad_or_truncate_input, pad_or_truncate_text, pad_text};

#[test]
fn left_aligned_cell_is_padded_on_the_right() {
    assert_eq!(pad_or_truncate_text("the", 5, false), "the  ");
    assert_eq!(pad_text("the", 5, false), "the  ");
}

#[test]
fn right_aligned_cell_is_padded_on_the_left() {
    assert_eq!(pad_or_truncate_text("5", 3, true), "  5");
    assert_eq!(pad_text("5", 3, true), "  5");
}

#[test]
fn text_of_exactly_the_width_is_unchanged() {
    assert_eq!(pad_or_truncate_text("word", 4, false), "word");
    assert_eq!(pad_or_truncate_text("word", 4, true), "word");
    assert_eq!(pad_text("word", 4, true), "word");
}

#[test]
fn empty_text_becomes_blanks() {
    assert_eq!(pad_or_truncate_text("", 3, false), "   ");
    assert_eq!(pad_or_truncate_text("", 3, true), "   ");
    assert_eq!(pad_or_truncate_text("", 0, false), "");
}

#[test]
fn long_text_is_cut_and_ends_in_two_dots() {
    assert_eq!(pad_or_truncate_text("abcdefgh", 5, false), "abc..");
    assert_eq!(pad_or_truncate_text("abcdefgh", 5, true), "abc..");
    assert_eq!(pad_or_truncate_text("abcdefgh", 7, false), "abcde..");
}

#[test]
fn truncated_cell_has_the_width_of_the_column() {
    for width in 2..8usize {
        let cell = pad_or_truncate_text("abcdefgh", width, false);
        assert_eq!(cell.chars().count(), width);
        assert!(cell.ends_with(".."));
        assert!("abcdefgh".starts_with(&cell[..width - 2]));
    }
}

#[test]
fn text_one_over_the_width_is_cut() {
    assert_eq!(pad_or_truncate_text("abc", 2, false), "..");
    assert_eq!(pad_or_truncate_text("abcd", 3, false), "a..");
}

#[test]
fn width_below_two_leaves_the_two_dots() {
    assert_eq!(pad_or_truncate_text("abc", 1, false), "..");
    assert_eq!(pad_or_truncate_text("abc", 0, false), "..");
    assert_eq!(pad_or_truncate_text("a", 0, true), "..");
    assert_eq!(pad_or_truncate_text("a", 1, true), "a");
}

#[test]
fn pad_text_never_cuts() {
    assert_eq!(pad_text("abcdef", 3, false), "abcdef");
    assert_eq!(pad_text("abcdef", 3, true), "abcdef");
    assert_eq!(pad_text("abcdef", 0, true), "abcdef");
    assert_eq!(pad_input("abcdef", 3, false), "abcdef");
}

#[test]
fn padding_a_padded_cell_again_changes_nothing() {
    for &right in &[false, true] {
        for &again in &[false, true] {
            let once = pad_or_truncate_text("the", 6, right);
            assert_eq!(pad_or_truncate_text(&once, 6, again), once);
            let exact = pad_or_truncate_text("word", 4, right);
            assert_eq!(pad_or_truncate_text(&exact, 4, again), exact);
        }
    }
}

#[test]
fn padding_a_truncated_cell_again_changes_nothing() {
    let once = pad_or_truncate_text("abcdefgh", 5, false);
    assert_eq!(pad_or_truncate_text(&once, 5, true), once);
}

#[test]
fn width_counts_characters_not_bytes() {
    assert_eq!(pad_or_truncate_text("é", 3, false), "é  ");
    assert_eq!(pad_or_truncate_text("é", 3, true), "  é");
    assert_eq!(pad_or_truncate_text("日本語テキスト", 5, false), "日本語..");
    assert_eq!(pad_or_truncate_text("日本語", 3, false), "日本語");
    assert_eq!(pad_text("│", 2, true), " │");
}

#[test]
fn anything_displayable_is_padded_as_its_text() {
    assert_eq!(pad_or_truncate_input("the", 5, false), "the  ");
    assert_eq!(pad_or_truncate_input(String::from("the"), 5, true), "  the");
    assert_eq!(pad_or_truncate_input(&String::from("the"), 4, true), " the");
    assert_eq!(pad_or_truncate_input(5, 3, true), "  5");
    assert_eq!(pad_or_truncate_input(1234567usize, 5, true), "123..");
    assert_eq!(pad_or_truncate_input('x', 2, false), "x ");
    assert_eq!(pad_input(42usize, 5, true), "   42");
    assert_eq!(pad_input(&42usize, 5, false), "42   ");
    assert_eq!(pad_input(1234567usize, 5, true), "1234567");
    assert_eq!(pad_input("#", 1, true), "#");
}

#[test]
fn padding_functions_are_reachable_from_the_crate_root() {
    assert_eq!(wclib::pad_input("a", 2, false), "a ");
    assert_eq!(wclib::pad_or_truncate_input("abc", 2, false), "..");
    assert_eq!(wclib::pad_text("a", 2, true), " a");
    assert_eq!(wclib::pad_or_truncate_text("abcd", 3, true), "a..");
}
