use std::collections::HashMap;
use wclib::frequency::rows_for;
use wclib::ranking::{chars_of, leading_words, lower, lowered_chars, rank_words, select_words};
use wclib::{frequency_rows, frequency_table, generate_frequency_table};

fn entries(items: &[(&str, usize)]) -> Vec<(String, usize)> {
    items.iter().map(|(word, count)| (word.to_string(), *count)).collect()
}

fn texts(items: &[&str]) -> Vec<String> {
    items.iter().map(|item| item.to_string()).collect()
}

#[test]
fn frequency_table_ranks_the_most_frequent_words() {
    let words = entries(&[("cat", 3), ("the", 5), ("mat", 1), ("sat", 3)]);
    let expected = "\
┌───┬──────┬────┐
│ # │ word │ ct │
├───┼──────┼────┤
│ 1 │ the  │  5 │
│ 2 │ cat  │  3 │
│ 3 │ sat  │  3 │
└───┴──────┴────┘
";
    assert_eq!(frequency_table(&words, 3, &[]), expected);
}

#[test]
fn frequency_table_of_nothing_requested_is_empty() {
    let words = entries(&[("cat", 3), ("the", 5)]);
    assert_eq!(frequency_table(&words, 0, &[]), "");
    let map: HashMap<String, usize> = words.into_iter().collect();
    assert_eq!(generate_frequency_table(&map, 0, &["the"]), "");
}

#[test]
fn frequency_table_without_words_has_headers_only() {
    let expected = "\
┌───┬──────┬────┐
│ # │ word │ ct │
├───┼──────┼────┤
└───┴──────┴────┘
";
    assert_eq!(frequency_table(&vec![], 5, &["the"]), expected);
    assert_eq!(generate_frequency_table(&HashMap::new(), 1, &[]), expected);
    let all_ignored = entries(&[("the", 5), ("A", 2)]);
    assert_eq!(frequency_table(&all_ignored, 5, &["a", "the"]), expected);
}

#[test]
fn frequency_table_widens_for_long_words_and_numbers() {
    let mut words = entries(&[("extraordinary", 1234)]);
    for i in 0..11usize {
        words.push((format!("w{}", i), 100 - i));
    }
    let expected = "\
┌────┬───────────────┬──────┐
│  # │ word          │   ct │
├────┼───────────────┼──────┤
│  1 │ extraordinary │ 1234 │
│  2 │ w0            │  100 │
│  3 │ w1            │   99 │
│  4 │ w2            │   98 │
│  5 │ w3            │   97 │
│  6 │ w4            │   96 │
│  7 │ w5            │   95 │
│  8 │ w6            │   94 │
│  9 │ w7            │   93 │
│ 10 │ w8            │   92 │
└────┴───────────────┴──────┘
";
    assert_eq!(frequency_table(&words, 10, &[]), expected);
}

#[test]
fn generated_table_ranks_the_words_of_a_map() {
    let map: HashMap<String, usize> =
        entries(&[("cat", 3), ("the", 5), ("mat", 1), ("sat", 2)]).into_iter().collect();
    let expected = "\
┌───┬──────┬────┐
│ # │ word │ ct │
├───┼──────┼────┤
│ 1 │ the  │  5 │
│ 2 │ cat  │  3 │
│ 3 │ sat  │  2 │
└───┴──────┴────┘
";
    assert_eq!(generate_frequency_table(&map, 3, &[]), expected);
    let all = "\
┌───┬──────┬────┐
│ # │ word │ ct │
├───┼──────┼────┤
│ 1 │ the  │  5 │
│ 2 │ cat  │  3 │
│ 3 │ sat  │  2 │
│ 4 │ mat  │  1 │
└───┴──────┴────┘
";
    assert_eq!(generate_frequency_table(&map, 10, &[]), all);
}

#[test]
fn generated_table_leaves_out_ignored_words_whatever_their_case() {
    let map: HashMap<String, usize> =
        entries(&[("The", 9), ("cat", 3), ("A", 7), ("Zoo", 2), ("sat", 1)]).into_iter().collect();
    let expected = "\
┌───┬──────┬────┐
│ # │ word │ ct │
├───┼──────┼────┤
│ 1 │ cat  │  3 │
│ 2 │ Zoo  │  2 │
│ 3 │ sat  │  1 │
└───┴──────┴────┘
";
    assert_eq!(generate_frequency_table(&map, 5, &["a", "the"]), expected);
}

#[test]
fn ignored_words_are_matched_in_lower_case_only() {
    // The word is lowered, the list is taken as it stands.
    let words = entries(&[("the", 4), ("cat", 3)]);
    assert_eq!(
        frequency_rows(&words, 5, &["The", "CAT"], &[]),
        vec![texts(&["1", "the", "4"]), texts(&["2", "cat", "3"])]
    );
    let upper = entries(&[("THE", 4), ("Cat", 3), ("ÉTÉ", 2), ("été", 1)]);
    assert_eq!(
        frequency_rows(&upper, 5, &["the", "cat", "été"], &[]),
        vec![texts(&["1", "ÉTÉ", "2"])]
    );
}

#[test]
fn excluded_words_are_matched_as_they_stand() {
    let words = entries(&[("The", 4), ("the", 3), ("cat", 2)]);
    assert_eq!(
        frequency_rows(&words, 5, &[], &["the"]),
        vec![texts(&["1", "The", "4"]), texts(&["2", "cat", "2"])]
    );
    assert_eq!(frequency_rows(&words, 5, &["the"], &["cat"]), Vec::<Vec<String>>::new());
    assert_eq!(
        frequency_rows(&words, 5, &[""], &[]),
        vec![texts(&["1", "The", "4"]), texts(&["2", "the", "3"]), texts(&["3", "cat", "2"])]
    );
}

#[test]
fn select_words_keeps_the_order_of_the_entries() {
    let words = entries(&[("b", 1), ("The", 2), ("a", 3), ("c", 1), ("x", 9)]);
    assert_eq!(
        select_words(&words, &["the"], &["x"]),
        entries(&[("b", 1), ("a", 3), ("c", 1)])
    );
    assert_eq!(select_words(&words, &[], &[]), words);
    assert_eq!(select_words(&vec![], &["the"], &[]), vec![]);
}

#[test]
fn rank_words_sorts_by_falling_count_and_keeps_ties_in_order() {
    let words = entries(&[("a", 1), ("b", 3), ("c", 2), ("d", 3), ("e", 1), ("f", 5), ("g", 2)]);
    assert_eq!(
        rank_words(&words),
        entries(&[("f", 5), ("b", 3), ("d", 3), ("c", 2), ("g", 2), ("a", 1), ("e", 1)])
    );
    assert_eq!(rank_words(&vec![]), vec![]);
    let same = entries(&[("x", 2), ("y", 2), ("z", 2)]);
    assert_eq!(rank_words(&same), same);
    let rising = entries(&[("x", 1), ("y", 2), ("z", 3)]);
    assert_eq!(rank_words(&rising), entries(&[("z", 3), ("y", 2), ("x", 1)]));
}

#[test]
fn rank_words_agrees_with_a_stable_sort() {
    let mut words: Vec<(String, usize)> = Vec::new();
    let mut seed: usize = 12345;
    for i in 0..200usize {
        seed = (seed * 1103515245 + 12345) % 2147483648;
        words.push((format!("w{}", i), seed % 17));
    }
    let mut expected = words.clone();
    expected.sort_by(|a, b| b.1.cmp(&a.1));
    assert_eq!(rank_words(&words), expected);
}

#[test]
fn rows_number_the_entries_from_one() {
    let ranking = entries(&[("the", 12), ("cat", 3), ("sat", 3)]);
    assert_eq!(
        rows_for(&ranking),
        vec![texts(&["1", "the", "12"]), texts(&["2", "cat", "3"]), texts(&["3", "sat", "3"])]
    );
    assert_eq!(rows_for(&vec![]), Vec::<Vec<String>>::new());
}

#[test]
fn leading_words_are_the_start_of_the_ranking() {
    let words = entries(&[("a", 1), ("b", 3), ("c", 2), ("d", 3), ("e", 1), ("f", 5), ("g", 2)]);
    let ranking = rank_words(&words);
    for top_n in 0..10usize {
        let expected: Vec<(String, usize)> = ranking.iter().take(top_n).cloned().collect();
        assert_eq!(leading_words(&words, top_n), expected);
    }
    assert_eq!(leading_words(&words, 2), entries(&[("f", 5), ("b", 3)]));
    assert_eq!(leading_words(&words, 3), entries(&[("f", 5), ("b", 3), ("d", 3)]));
    assert_eq!(leading_words(&words, usize::MAX), ranking);
}

#[test]
fn leading_words_agree_with_a_stable_sort() {
    let mut words: Vec<(String, usize)> = Vec::new();
    let mut seed: usize = 987;
    for i in 0..300usize {
        seed = (seed * 1103515245 + 12345) % 2147483648;
        words.push((format!("w{}", i), (seed / 65536) % 9));
    }
    let mut sorted = words.clone();
    sorted.sort_by(|a, b| b.1.cmp(&a.1));
    for top_n in [0usize, 1, 2, 7, 50, 299, 300, 301] {
        let expected: Vec<(String, usize)> = sorted.iter().take(top_n).cloned().collect();
        assert_eq!(leading_words(&words, top_n), expected);
    }
}

#[test]
fn frequency_rows_take_the_top_after_ranking() {
    let words = entries(&[("low", 1), ("mid", 5), ("Top", 9), ("the", 100), ("also", 5)]);
    assert_eq!(
        frequency_rows(&words, 3, &["the"], &[]),
        vec![texts(&["1", "Top", "9"]), texts(&["2", "mid", "5"]), texts(&["3", "also", "5"])]
    );
}

#[test]
fn lower_maps_the_capital_letters_only() {
    assert_eq!(lower('A'), 'a');
    assert_eq!(lower('M'), 'm');
    assert_eq!(lower('Z'), 'z');
    assert_eq!(lower('a'), 'a');
    assert_eq!(lower('@'), '@');
    assert_eq!(lower('['), '[');
    assert_eq!(lower('5'), '5');
    assert_eq!(lower('É'), 'É');
    assert_eq!(lower('Ω'), 'Ω');
    for code in 0..0x3000u32 {
        if let Some(c) = char::from_u32(code) {
            assert_eq!(lower(c), c.to_ascii_lowercase());
        }
    }
}

#[test]
fn lowered_chars_agree_with_the_ascii_lower_case_of_the_text() {
    for text in ["", "The", "THE CAT", "already lower", "MiXeD 123 !?", "ÉTÉ Été", "ΩMEGA", "日本語ABC"] {
        let expected: Vec<char> = text.to_ascii_lowercase().chars().collect();
        assert_eq!(lowered_chars(text), expected);
    }
    assert_eq!(lowered_chars("The"), vec!['t', 'h', 'e']);
}

#[test]
fn chars_of_lists_the_characters() {
    assert_eq!(chars_of(""), Vec::<char>::new());
    assert_eq!(chars_of("The"), vec!['T', 'h', 'e']);
    assert_eq!(chars_of("été"), vec!['é', 't', 'é']);
}
