//! Which words take part in a ranking, and the ranking itself: from the
//! highest count to the lowest, words of equal count in the order they came.

use vstd::prelude::*;

verus! {

/// `c` in lower case where it is one of the letters `A` to `Z`; any other
/// character as it is.
pub open spec fn lower_char(c: char) -> char {
    if 'A' <= c && c <= 'Z' {
        ((c as u32) + 32) as char
    } else {
        c
    }
}

/// `word` with each of its characters in ASCII lower case.
pub open spec fn ascii_lowered(word: Seq<char>) -> Seq<char> {
    Seq::new(word.len(), |i: int| lower_char(word[i]))
}

/// Whether a word takes part in the ranking: its lower-case form is none of
/// `ignore_words`, and the word as it stands is none of `excluded`.
pub open spec fn is_kept(
    word: Seq<char>,
    ignore_words: Seq<Seq<char>>,
    excluded: Seq<Seq<char>>,
) -> bool {
    !ignore_words.contains(ascii_lowered(word)) && !excluded.contains(word)
}

/// The entries whose words take part in the ranking, in their order.
pub open spec fn kept(
    entries: Seq<(Seq<char>, usize)>,
    ignore_words: Seq<Seq<char>>,
    excluded: Seq<Seq<char>>,
) -> Seq<(Seq<char>, usize)> {
    entries.filter(|entry: (Seq<char>, usize)| is_kept(entry.0, ignore_words, excluded))
}

/// The place of a new entry with the given count in a ranking: behind the
/// leading entries that count at least as much.
pub open spec fn rank_of(ranking: Seq<(Seq<char>, usize)>, count: usize) -> nat
    decreases ranking.len(),
{
    if ranking.len() == 0 || ranking[0].1 < count {
        0
    } else {
        1 + rank_of(ranking.drop_first(), count)
    }
}

/// The entries from the highest count to the lowest. Entries of equal count
/// keep the order they came in.
pub open spec fn ranked(entries: Seq<(Seq<char>, usize)>) -> Seq<(Seq<char>, usize)>
    decreases entries.len(),
{
    if entries.len() == 0 {
        Seq::empty()
    } else {
        let above = ranked(entries.drop_last());
        above.insert(rank_of(above, entries.last().1) as int, entries.last())
    }
}

/// The first `top_n` entries; all of them where there are fewer.
pub open spec fn leading(entries: Seq<(Seq<char>, usize)>, top_n: nat) -> Seq<(Seq<char>, usize)> {
    if top_n < entries.len() {
        entries.take(top_n as int)
    } else {
        entries
    }
}

/// Whether the counts never rise from one entry to the next.
pub open spec fn is_falling(ranking: Seq<(Seq<char>, usize)>) -> bool {
    forall|i: int, j: int|
        0 <= i < j < ranking.len() ==> (#[trigger] ranking[i]).1 >= (#[trigger] ranking[j]).1
}

/// The place that [`rank_of`] gives lies within the ranking, behind entries
/// that count at least as much and, where it is not the end, before an
/// entry that counts less.
pub proof fn lemma_rank_of_splits(ranking: Seq<(Seq<char>, usize)>, count: usize)
    ensures
        rank_of(ranking, count) <= ranking.len(),
        forall|k: int| 0 <= k < rank_of(ranking, count) ==> (#[trigger] ranking[k]).1 >= count,
        rank_of(ranking, count) < ranking.len() ==> ranking[rank_of(ranking, count) as int].1
            < count,
    decreases ranking.len(),
{
    if ranking.len() > 0 && ranking[0].1 >= count {
        let rest = ranking.drop_first();
        lemma_rank_of_splits(rest, count);
        assert forall|k: int| 0 <= k < rank_of(ranking, count) implies (#[trigger] ranking[k]).1
            >= count by {
            if k > 0 {
                assert(ranking[k] == rest[k - 1]);
            }
        }
        if rank_of(ranking, count) < ranking.len() {
            assert(ranking[rank_of(ranking, count) as int] == rest[rank_of(rest, count) as int]);
        }
    }
}

/// A ranking is in falling order of count.
pub proof fn lemma_ranked_is_falling(entries: Seq<(Seq<char>, usize)>)
    ensures
        is_falling(ranked(entries)),
        ranked(entries).len() == entries.len(),
    decreases entries.len(),
{
    if entries.len() > 0 {
        let above = ranked(entries.drop_last());
        let entry = entries.last();
        let place = rank_of(above, entry.1) as int;
        lemma_ranked_is_falling(entries.drop_last());
        lemma_rank_of_splits(above, entry.1);
        let ranking = above.insert(place, entry);
        assert forall|i: int, j: int| 0 <= i < j < ranking.len() implies (#[trigger] ranking[i]).1
            >= (#[trigger] ranking[j]).1 by {
            if place < above.len() {
                // Whatever stands behind the place counts less than the new entry.
                assert(above[place].1 < entry.1);
                if j > place {
                    assert(above[place].1 >= above[j - 1].1 || j - 1 == place);
                }
            }
            if i < place {
                assert(ranking[i] == above[i]);
            } else if i > place {
                assert(ranking[i] == above[i - 1]);
            }
            if j < place {
                assert(ranking[j] == above[j]);
            } else if j > place {
                assert(ranking[j] == above[j - 1]);
            }
        }
    }
}

/// A ranking holds the entries it was made of, each as often as it came.
pub proof fn lemma_ranked_keeps_entries(entries: Seq<(Seq<char>, usize)>)
    ensures
        ranked(entries).to_multiset() == entries.to_multiset(),
    decreases entries.len(),
{
    broadcast use vstd::seq_lib::group_to_multiset_ensures;

    if entries.len() > 0 {
        let rest = entries.drop_last();
        let above = ranked(rest);
        let entry = entries.last();
        lemma_ranked_keeps_entries(rest);
        lemma_rank_of_splits(above, entry.1);
        vstd::seq_lib::to_multiset_insert(above, rank_of(above, entry.1) as int, entry);
        assert(rest.push(entry) =~= entries);
        vstd::seq_lib::to_multiset_build(rest, entry);
    } else {
        assert(ranked(entries) =~= entries);
    }
}

/// Where no entry passes the test, nothing is left of the sequence.
proof fn lemma_filter_without_match(
    entries: Seq<(Seq<char>, usize)>,
    test: spec_fn((Seq<char>, usize)) -> bool,
)
    requires
        forall|k: int| 0 <= k < entries.len() ==> !test(#[trigger] entries[k]),
    ensures
        entries.filter(test) == Seq::<(Seq<char>, usize)>::empty(),
    decreases entries.len(),
{
    reveal(Seq::filter);
    if entries.len() > 0 {
        let rest = entries.drop_last();
        assert forall|k: int| 0 <= k < rest.len() implies !test(#[trigger] rest[k]) by {
            assert(rest[k] == entries[k]);
        }
        lemma_filter_without_match(rest, test);
        assert(!test(entries[entries.len() - 1]));
    }
}

/// Ranking is stable: the entries of any one count stand in the ranking in
/// the order in which they came.
pub proof fn lemma_ranked_is_stable(entries: Seq<(Seq<char>, usize)>, count: usize)
    ensures
        ranked(entries).filter(|entry: (Seq<char>, usize)| entry.1 == count) == entries.filter(
            |entry: (Seq<char>, usize)| entry.1 == count,
        ),
    decreases entries.len(),
{
    let same = |entry: (Seq<char>, usize)| entry.1 == count;
    reveal(Seq::filter);
    if entries.len() > 0 {
        let rest = entries.drop_last();
        let above = ranked(rest);
        let entry = entries.last();
        let place = rank_of(above, entry.1) as int;
        lemma_ranked_is_stable(rest, count);
        lemma_ranked_is_falling(rest);
        lemma_rank_of_splits(above, entry.1);
        let front = above.take(place);
        let back = above.skip(place);
        assert(above.insert(place, entry) =~= front + seq![entry] + back);
        assert(above =~= front + back);
        Seq::filter_distributes_over_add(front + seq![entry], back, same);
        Seq::filter_distributes_over_add(front, seq![entry], same);
        Seq::filter_distributes_over_add(front, back, same);
        assert(seq![entry].drop_last() =~= Seq::<(Seq<char>, usize)>::empty());
        assert(Seq::<(Seq<char>, usize)>::empty().filter(same) =~= Seq::empty());
        if entry.1 == count {
            assert(seq![entry].filter(same) =~= seq![entry]);
            // Nothing behind the place has this count.
            assert forall|k: int| 0 <= k < back.len() implies !same(#[trigger] back[k]) by {
                assert(back[k] == above[place + k]);
                assert(above[place].1 >= above[place + k].1 || k == 0);
            }
            lemma_filter_without_match(back, same);
            assert(ranked(entries).filter(same) =~= above.filter(same).push(entry));
        } else {
            assert(seq![entry].filter(same) =~= Seq::empty());
            assert(ranked(entries).filter(same) =~= above.filter(same));
        }
    }
}

/// In the first `n` entries of a ranking a new entry finds the place it has
/// in the whole ranking, or the end where that place lies further back.
pub proof fn lemma_rank_of_prefix(ranking: Seq<(Seq<char>, usize)>, n: nat, count: usize)
    requires
        n <= ranking.len(),
    ensures
        rank_of(ranking.take(n as int), count) == if rank_of(ranking, count) < n {
            rank_of(ranking, count)
        } else {
            n
        },
    decreases n,
{
    if n > 0 && ranking[0].1 >= count {
        assert(ranking.take(n as int).drop_first() =~= ranking.drop_first().take(n - 1));
        lemma_rank_of_prefix(ranking.drop_first(), (n - 1) as nat, count);
    }
}

/// The first `top_n` entries of a ranking that has taken a new entry in are
/// made of its first `top_n` entries before and the new entry alone: where
/// the new entry has no place among them they stay, else it goes to its
/// place among them and the last of more than `top_n` goes.
pub proof fn lemma_leading_after_insert(
    ranking: Seq<(Seq<char>, usize)>,
    entry: (Seq<char>, usize),
    top_n: nat,
)
    ensures
        leading(ranking.insert(rank_of(ranking, entry.1) as int, entry), top_n) == {
            let top = leading(ranking, top_n);
            let place = rank_of(top, entry.1);
            if place < top_n {
                leading(top.insert(place as int, entry), top_n)
            } else {
                top
            }
        },
{
    let top = leading(ranking, top_n);
    let wide = ranking.insert(rank_of(ranking, entry.1) as int, entry);
    lemma_rank_of_splits(ranking, entry.1);
    lemma_rank_of_splits(top, entry.1);
    if top_n < ranking.len() {
        lemma_rank_of_prefix(ranking, top_n, entry.1);
        let place = rank_of(top, entry.1);
        if place < top_n {
            assert(leading(wide, top_n) =~= leading(top.insert(place as int, entry), top_n));
        } else {
            assert(leading(wide, top_n) =~= top);
        }
    } else {
        assert(top == ranking);
        if rank_of(top, entry.1) >= top_n {
            assert(leading(wide, top_n) =~= top);
        }
    }
}

/// `c` in ASCII lower case: see [`lower_char`].
pub fn lower(c: char) -> (out: char)
    ensures
        out == lower_char(c),
{
    if 'A' <= c && c <= 'Z' {
        ((c as u8) + 32) as char
    } else {
        c
    }
}

/// The characters of `text`.
pub fn chars_of(text: &str) -> (out: Vec<char>)
    ensures
        out@ == text@,
{
    let mut out: Vec<char> = Vec::new();
    for c in it: text.chars()
        invariant
            it.seq() == text@,
            out@ == text@.take(it.index() as int),
    {
        out.push(c);
        assert(out@ =~= text@.take(it.index() + 1));
    }
    assert(text@.take(text@.len() as int) =~= text@);
    out
}

/// The characters of `text`, each in ASCII lower case: see
/// [`ascii_lowered`].
pub fn lowered_chars(text: &str) -> (out: Vec<char>)
    ensures
        out@ == ascii_lowered(text@),
{
    let mut out: Vec<char> = Vec::new();
    for c in it: text.chars()
        invariant
            it.seq() == text@,
            out@ == ascii_lowered(text@.take(it.index() as int)),
    {
        out.push(lower(c));
        assert(out@ =~= ascii_lowered(text@.take(it.index() + 1)));
    }
    assert(text@.take(text@.len() as int) =~= text@);
    out
}

/// The characters of each of `words`.
fn chars_of_each(words: &[&str]) -> (out: Vec<Vec<char>>)
    ensures
        out.deep_view() == words.deep_view(),
{
    let mut out: Vec<Vec<char>> = Vec::new();
    let mut i: usize = 0;
    while i < words.len()
        invariant
            i <= words.len(),
            out@.len() == i,
            forall|k: int| 0 <= k < i ==> (#[trigger] out@[k])@ == words@[k]@,
        decreases words.len() - i,
    {
        out.push(chars_of(words[i]));
        i = i + 1;
    }
    proof {
        assert forall|k: int| 0 <= k < out@.len() implies #[trigger] out.deep_view()[k]
            == words.deep_view()[k] by {
            assert(out@[k].deep_view() =~= out@[k]@);
        }
        assert(out.deep_view() =~= words.deep_view());
    }
    out
}

/// Whether `a` and `b` hold the same characters.
fn same_chars(a: &Vec<char>, b: &Vec<char>) -> (same: bool)
    ensures
        same == (a@ == b@),
{
    if a.len() != b.len() {
        return false;
    }
    let mut i: usize = 0;
    while i < a.len()
        invariant
            a.len() == b.len(),
            i <= a.len(),
            forall|k: int| 0 <= k < i ==> a@[k] == b@[k],
        decreases a.len() - i,
    {
        if a[i] != b[i] {
            return false;
        }
        i = i + 1;
    }
    assert(a@ =~= b@);
    true
}

/// Whether `word` is one of `words`.
fn is_listed(word: &Vec<char>, words: &Vec<Vec<char>>) -> (found: bool)
    ensures
        found == words.deep_view().contains(word@),
{
    let mut i: usize = 0;
    while i < words.len()
        invariant
            i <= words.len(),
            forall|k: int| 0 <= k < i ==> words.deep_view()[k] != word@,
        decreases words.len() - i,
    {
        assert(words.deep_view()[i as int] =~= words@[i as int]@);
        if same_chars(&words[i], word) {
            return true;
        }
        i = i + 1;
    }
    false
}

/// The entries whose words take part in the ranking: see [`kept`].
pub fn select_words(
    entries: &Vec<(String, usize)>,
    ignore_words: &[&str],
    excluded: &[&str],
) -> (selected: Vec<(String, usize)>)
    ensures
        selected.deep_view() == kept(
            entries.deep_view(),
            ignore_words.deep_view(),
            excluded.deep_view(),
        ),
{
    let ghost all = entries.deep_view();
    let ghost keep = |entry: (Seq<char>, usize)|
        is_kept(entry.0, ignore_words.deep_view(), excluded.deep_view());
    let ignored = chars_of_each(ignore_words);
    let barred = chars_of_each(excluded);
    let mut selected: Vec<(String, usize)> = Vec::new();
    let mut i: usize = 0;
    proof {
        reveal(Seq::filter);
        assert(all.take(0).filter(keep) =~= Seq::empty());
        assert(selected.deep_view() =~= Seq::empty());
    }
    while i < entries.len()
        invariant
            i <= entries.len(),
            all == entries.deep_view(),
            ignored.deep_view() == ignore_words.deep_view(),
            barred.deep_view() == excluded.deep_view(),
            keep == |entry: (Seq<char>, usize)|
                is_kept(entry.0, ignore_words.deep_view(), excluded.deep_view()),
            selected.deep_view() == all.take(i as int).filter(keep),
        decreases entries.len() - i,
    {
        let word = entries[i].0.as_str();
        let ghost before = selected.deep_view();
        proof {
            reveal(Seq::filter);
            assert(all.take(i + 1).drop_last() =~= all.take(i as int));
            assert(all.take(i + 1).last() == entries@[i as int].deep_view());
        }
        if !is_listed(&lowered_chars(word), &ignored) && !is_listed(&chars_of(word), &barred) {
            selected.push((entries[i].0.clone(), entries[i].1));
            assert(selected.deep_view() =~= before.push(all[i as int]));
        }
        i = i + 1;
    }
    proof {
        assert(all.take(entries.len() as int) =~= all);
    }
    selected
}

/// The place of a new entry with the given count in `ranking`: see
/// [`rank_of`].
fn find_rank(ranking: &Vec<(String, usize)>, count: usize) -> (place: usize)
    ensures
        place == rank_of(ranking.deep_view(), count),
        place <= ranking.len(),
{
    let ghost all = ranking.deep_view();
    let mut place: usize = 0;
    proof {
        assert(all.skip(0) =~= all);
    }
    while place < ranking.len() && ranking[place].1 >= count
        invariant
            place <= ranking.len(),
            all == ranking.deep_view(),
            rank_of(all, count) == place + rank_of(all.skip(place as int), count),
        decreases ranking.len() - place,
    {
        proof {
            assert(all.skip(place as int)[0] == all[place as int]);
            assert(all.skip(place as int).drop_first() =~= all.skip(place + 1));
        }
        place = place + 1;
    }
    proof {
        if place < ranking.len() {
            assert(all.skip(place as int)[0] == all[place as int]);
        }
    }
    place
}

/// The `top_n` entries of highest count, from the highest count to the
/// lowest: see [`ranked`] and [`leading`]. No more than `top_n` entries are
/// held at any time.
pub fn leading_words(entries: &Vec<(String, usize)>, top_n: usize) -> (top: Vec<(String, usize)>)
    ensures
        top.deep_view() == leading(ranked(entries.deep_view()), top_n as nat),
{
    let ghost all = entries.deep_view();
    let mut top: Vec<(String, usize)> = Vec::new();
    let mut i: usize = 0;
    proof {
        assert(top.deep_view() =~= leading(ranked(all.take(0)), top_n as nat));
    }
    while i < entries.len()
        invariant
            i <= entries.len(),
            all == entries.deep_view(),
            top.deep_view() == leading(ranked(all.take(i as int)), top_n as nat),
        decreases entries.len() - i,
    {
        let place = find_rank(&top, entries[i].1);
        let ghost before = top.deep_view();
        proof {
            assert(all.take(i + 1).drop_last() =~= all.take(i as int));
            assert(all.take(i + 1).last() == all[i as int]);
            lemma_ranked_is_falling(all.take(i as int));
            lemma_leading_after_insert(ranked(all.take(i as int)), all[i as int], top_n as nat);
        }
        if place < top_n {
            top.insert(place, (entries[i].0.clone(), entries[i].1));
            assert(top.deep_view() =~= before.insert(place as int, all[i as int]));
            if top.len() > top_n {
                let ghost longer = top.deep_view();
                top.pop();
                assert(top.deep_view() =~= longer.take(top_n as int));
            }
        }
        i = i + 1;
    }
    proof {
        assert(all.take(entries.len() as int) =~= all);
    }
    top
}

/// The entries from the highest count to the lowest: see [`ranked`].
pub fn rank_words(entries: &Vec<(String, usize)>) -> (ranking: Vec<(String, usize)>)
    ensures
        ranking.deep_view() == ranked(entries.deep_view()),
{
    proof {
        lemma_ranked_is_falling(entries.deep_view());
    }
    leading_words(entries, entries.len())
}

} // verus!
