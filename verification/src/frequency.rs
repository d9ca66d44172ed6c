//! The table of the most frequent words: which words are left out, how the
//! rest is ranked, and how the ranking is laid out as a table.

use crate::layout::table_text;
use crate::ranking::{kept, leading, leading_words, ranked, select_words};
use crate::render::render_table;
use crate::style::{format_of, TableStyle};
use crate::text::{decimal_string, decimal_text};
use std::collections::HashMap;
use vstd::prelude::*;

verus! {

/// One row per entry: its rank counted from one, its word and its count.
pub open spec fn rows_of(entries: Seq<(Seq<char>, usize)>) -> Seq<Seq<Seq<char>>> {
    Seq::new(
        entries.len(),
        |i: int|
            seq![
                decimal_text((i + 1) as nat),
                entries[i].0,
                decimal_text(entries[i].1 as nat),
            ],
    )
}

/// The rows of the `top_n` most frequent words among the entries that take
/// part in the ranking.
pub open spec fn frequency_rows_of(
    entries: Seq<(Seq<char>, usize)>,
    top_n: nat,
    ignore_words: Seq<Seq<char>>,
    excluded: Seq<Seq<char>>,
) -> Seq<Seq<Seq<char>>> {
    rows_of(leading(ranked(kept(entries, ignore_words, excluded)), top_n))
}

/// The headers of a frequency table: `#`, `word` and `ct`.
pub open spec fn frequency_headers() -> Seq<Seq<char>> {
    seq![seq!['#'], seq!['w', 'o', 'r', 'd'], seq!['c', 't']]
}

/// The alignment of a frequency table: the numbers to the right, the words
/// to the left.
pub open spec fn frequency_alignment() -> Seq<char> {
    seq!['>', '<', '>']
}

/// The frequency table of `entries`: nothing at all for a `top_n` of zero,
/// else the table, in the normal style, of the `top_n` most frequent words
/// that are not ignored.
pub open spec fn frequency_table_text(
    entries: Seq<(Seq<char>, usize)>,
    top_n: nat,
    ignore_words: Seq<Seq<char>>,
) -> Seq<char> {
    if top_n == 0 {
        Seq::empty()
    } else {
        table_text(
            frequency_headers(),
            frequency_rows_of(entries, top_n, ignore_words, Seq::empty()),
            format_of(TableStyle::Normal),
            Some(frequency_alignment()),
        )
    }
}

/// `entries` lists what `counts` holds: each entry is a word of the map with
/// its count, no word is listed twice, and no word of the map is missing.
pub open spec fn lists(entries: Seq<(String, usize)>, counts: Map<String, usize>) -> bool {
    &&& forall|i: int|
        0 <= i < entries.len() ==> counts.contains_key((#[trigger] entries[i]).0)
            && counts[entries[i].0] == entries[i].1
    &&& forall|i: int, j: int|
        0 <= i < j < entries.len() ==> (#[trigger] entries[i]).0@ != (#[trigger] entries[j]).0@
    &&& forall|word: String| #[trigger]
        counts.contains_key(word) ==> exists|i: int|
            0 <= i < entries.len() && (#[trigger] entries[i]).0@ == word@
}

/// The pairs of `word_map` as `HashMap::iter` visits them, each copied out.
///
/// What is stated of the result is taken on trust from the documentation of
/// the standard library and not proved here: the iterator visits every pair
/// of the map, each once, so that no word comes twice and none is missing.
/// Nothing is stated of the order, which differs from run to run.
#[verifier::external_body]
fn map_entries(word_map: &HashMap<String, usize>) -> (entries: Vec<(String, usize)>)
    ensures
        lists(entries@, word_map@),
{
    word_map.iter().map(|(word, count)| (word.clone(), *count)).collect()
}

/// One row per entry: see [`rows_of`].
pub fn rows_for(entries: &Vec<(String, usize)>) -> (rows: Vec<Vec<String>>)
    ensures
        rows.deep_view() == rows_of(entries.deep_view()),
{
    let ghost all = entries.deep_view();
    let mut rows: Vec<Vec<String>> = Vec::new();
    let mut i: usize = 0;
    while i < entries.len()
        invariant
            i <= entries.len(),
            all == entries.deep_view(),
            rows@.len() == i,
            forall|k: int| 0 <= k < i ==> (#[trigger] rows@[k]).deep_view() == rows_of(all)[k],
        decreases entries.len() - i,
    {
        let mut row: Vec<String> = Vec::new();
        row.push(decimal_string(i + 1));
        row.push(entries[i].0.clone());
        row.push(decimal_string(entries[i].1));
        proof {
            assert(all[i as int] == entries@[i as int].deep_view());
            assert(row.deep_view() =~= rows_of(all)[i as int]);
        }
        rows.push(row);
        i = i + 1;
    }
    proof {
        assert(rows.deep_view() =~= rows_of(all));
    }
    rows
}

/// The rows of the `top_n` most frequent words of `entries`, the highest
/// count first: rank, word and count. A word is left out where its
/// lower-case form is one of `ignore_words` or the word itself is one of
/// `excluded`. Words of equal count stay in the order of `entries`.
pub fn frequency_rows(
    entries: &Vec<(String, usize)>,
    top_n: usize,
    ignore_words: &[&str],
    excluded: &[&str],
) -> (rows: Vec<Vec<String>>)
    ensures
        rows.deep_view() == frequency_rows_of(
            entries.deep_view(),
            top_n as nat,
            ignore_words.deep_view(),
            excluded.deep_view(),
        ),
{
    let selected = select_words(entries, ignore_words, excluded);
    let top = leading_words(&selected, top_n);
    rows_for(&top)
}

/// The frequency table of `entries`: see [`frequency_table_text`].
pub fn frequency_table(
    entries: &Vec<(String, usize)>,
    top_n: usize,
    ignore_words: &[&str],
) -> (out: String)
    ensures
        out@ == frequency_table_text(entries.deep_view(), top_n as nat, ignore_words.deep_view()),
{
    if top_n < 1 {
        return String::new();
    }
    let excluded: [&str; 0] = [];
    let rows = frequency_rows(entries, top_n, ignore_words, &excluded);
    let mut headers: Vec<String> = Vec::new();
    headers.push(String::from_str("#"));
    headers.push(String::from_str("word"));
    headers.push(String::from_str("ct"));
    let alignment = Some(String::from_str("><>"));
    proof {
        reveal_strlit("#");
        reveal_strlit("word");
        reveal_strlit("ct");
        reveal_strlit("><>");
        assert("#"@ =~= seq!['#']);
        assert("word"@ =~= seq!['w', 'o', 'r', 'd']);
        assert("ct"@ =~= seq!['c', 't']);
        assert("><>"@ =~= frequency_alignment());
        assert(headers.deep_view() =~= frequency_headers());
        assert(excluded@.len() == 0);
        assert(excluded.deep_view() =~= Seq::<Seq<char>>::empty());
        assert(alignment.deep_view() == Some(frequency_alignment()));
    }
    render_table(&headers, &rows, &TableStyle::Normal, &alignment)
}

/// The table of the `top_n` most frequent words of `word_map` that are not
/// ignored, or the empty text for a `top_n` of zero. Words of equal count
/// come in the order in which the map hands them out, which is not
/// specified: the result is [`frequency_table_text`] of one listing of the
/// map.
pub fn generate_frequency_table(
    word_map: &HashMap<String, usize>,
    top_n: usize,
    ignore_words: &[&str],
) -> (out: String)
    ensures
        top_n == 0 ==> out@ == Seq::<char>::empty(),
        top_n > 0 ==> exists|entries: Vec<(String, usize)>|
            #![trigger lists(entries@, word_map@)]
            lists(entries@, word_map@) && out@ == frequency_table_text(
                entries.deep_view(),
                top_n as nat,
                ignore_words.deep_view(),
            ),
{
    if top_n < 1 {
        return String::new();
    }
    let entries = map_entries(word_map);
    frequency_table(&entries, top_n, ignore_words)
}

} // verus!
