//! Building blocks for fixed-width text: repetition, joining and decimal
//! numerals. A text is modelled as its sequence of characters, and
//! every length in this crate counts characters, not bytes or display cells.

use vstd::prelude::*;

verus! {

/// `piece` written `count` times in a row.
pub open spec fn repeated(piece: Seq<char>, count: nat) -> Seq<char>
    decreases count,
{
    if count == 0 {
        Seq::empty()
    } else {
        repeated(piece, (count - 1) as nat) + piece
    }
}

/// A run of `count` blanks.
pub open spec fn spaces(count: nat) -> Seq<char> {
    Seq::new(count, |i: int| ' ')
}

/// The parts in order, with `sep` between each two neighbours.
pub open spec fn joined(parts: Seq<Seq<char>>, sep: Seq<char>) -> Seq<char>
    decreases parts.len(),
{
    if parts.len() == 0 {
        Seq::empty()
    } else if parts.len() == 1 {
        parts[0]
    } else {
        joined(parts.drop_last(), sep) + sep + parts.last()
    }
}

/// The sum of the lengths of the parts.
pub open spec fn total_len(parts: Seq<Seq<char>>) -> nat
    decreases parts.len(),
{
    if parts.len() == 0 {
        0
    } else {
        total_len(parts.drop_last()) + parts.last().len()
    }
}

/// The sum of a sequence of widths.
pub open spec fn sum(widths: Seq<nat>) -> nat
    decreases widths.len(),
{
    if widths.len() == 0 {
        0
    } else {
        sum(widths.drop_last()) + widths.last()
    }
}

/// How many separators stand between `count` parts.
pub open spec fn gaps(count: nat) -> nat {
    if count == 0 {
        0
    } else {
        (count - 1) as nat
    }
}

/// The decimal digit that stands for `d`, for `d` below ten.
pub open spec fn digit_char(d: nat) -> char {
    if d == 0 {
        '0'
    } else if d == 1 {
        '1'
    } else if d == 2 {
        '2'
    } else if d == 3 {
        '3'
    } else if d == 4 {
        '4'
    } else if d == 5 {
        '5'
    } else if d == 6 {
        '6'
    } else if d == 7 {
        '7'
    } else if d == 8 {
        '8'
    } else {
        '9'
    }
}

/// The decimal numeral of `n`: no sign, no leading zero, `"0"` for zero.
pub open spec fn decimal_text(n: nat) -> Seq<char>
    decreases n,
{
    if n < 10 {
        seq![digit_char(n)]
    } else {
        decimal_text(n / 10).push(digit_char(n % 10))
    }
}

/// A repetition is as long as the piece times the count.
pub proof fn lemma_repeated_len(piece: Seq<char>, count: nat)
    ensures
        repeated(piece, count).len() == count * piece.len(),
    decreases count,
{
    if count > 0 {
        lemma_repeated_len(piece, (count - 1) as nat);
        assert(count * piece.len() == (count - 1) * piece.len() + piece.len())
            by (nonlinear_arith);
    } else {
        assert(0 * piece.len() == 0) by (nonlinear_arith);
    }
}

/// Repeating a single character gives a run of that character.
pub proof fn lemma_repeated_one(c: char, count: nat)
    ensures
        repeated(seq![c], count) == Seq::new(count, |i: int| c),
    decreases count,
{
    if count > 0 {
        lemma_repeated_one(c, (count - 1) as nat);
    }
    assert(repeated(seq![c], count) =~= Seq::new(count, |i: int| c));
}

/// A joined text holds every part once and one separator in each gap.
pub proof fn lemma_joined_len(parts: Seq<Seq<char>>, sep: Seq<char>)
    ensures
        joined(parts, sep).len() == total_len(parts) + gaps(parts.len()) * sep.len(),
    decreases parts.len(),
{
    if parts.len() == 0 {
        assert(0 * sep.len() == 0) by (nonlinear_arith);
    } else if parts.len() == 1 {
        assert(total_len(parts.drop_last()) == 0);
        assert(0 * sep.len() == 0) by (nonlinear_arith);
    } else {
        lemma_joined_len(parts.drop_last(), sep);
        let k = gaps(parts.len());
        assert(k * sep.len() == (k - 1) * sep.len() + sep.len()) by (nonlinear_arith);
    }
}

/// Parts that each have the width of their column add up to the sum of the
/// widths.
pub proof fn lemma_total_len_of_widths(parts: Seq<Seq<char>>, widths: Seq<nat>)
    requires
        parts.len() == widths.len(),
        forall|c: int| 0 <= c < parts.len() ==> #[trigger] parts[c].len() == widths[c],
    ensures
        total_len(parts) == sum(widths),
    decreases parts.len(),
{
    if parts.len() > 0 {
        lemma_total_len_of_widths(parts.drop_last(), widths.drop_last());
    }
}

/// `piece`, `count` times in a row.
pub fn repeat_text(piece: &str, count: usize) -> (out: String)
    ensures
        out@ == repeated(piece@, count as nat),
{
    let mut out = String::new();
    let mut done: usize = 0;
    while done < count
        invariant
            done <= count,
            out@ == repeated(piece@, done as nat),
        decreases count - done,
    {
        out.append(piece);
        done = done + 1;
    }
    out
}

/// The parts in order with `sep` between them; the empty text for no parts.
pub fn join_texts(parts: &Vec<String>, sep: &str) -> (out: String)
    ensures
        out@ == joined(parts.deep_view(), sep@),
{
    let ghost texts = parts.deep_view();
    let mut out = String::new();
    let mut i: usize = 0;
    while i < parts.len()
        invariant
            i <= parts.len(),
            texts == parts.deep_view(),
            texts.len() == parts.len(),
            out@ == joined(texts.take(i as int), sep@),
        decreases parts.len() - i,
    {
        if i > 0 {
            out.append(sep);
        }
        out.append(parts[i].as_str());
        proof {
            let before = texts.take(i as int);
            let after = texts.take(i + 1);
            assert(after.drop_last() =~= before);
            assert(after.last() == parts[i as int]@);
        }
        i = i + 1;
    }
    proof {
        assert(texts.take(parts.len() as int) =~= texts);
    }
    out
}

/// The text of one decimal digit.
fn digit_text(d: usize) -> (out: &'static str)
    requires
        d < 10,
    ensures
        out@ == seq![digit_char(d as nat)],
{
    proof {
        reveal_strlit("0");
        reveal_strlit("1");
        reveal_strlit("2");
        reveal_strlit("3");
        reveal_strlit("4");
        reveal_strlit("5");
        reveal_strlit("6");
        reveal_strlit("7");
        reveal_strlit("8");
        reveal_strlit("9");
    }
    let out = if d == 0 {
        "0"
    } else if d == 1 {
        "1"
    } else if d == 2 {
        "2"
    } else if d == 3 {
        "3"
    } else if d == 4 {
        "4"
    } else if d == 5 {
        "5"
    } else if d == 6 {
        "6"
    } else if d == 7 {
        "7"
    } else if d == 8 {
        "8"
    } else {
        "9"
    };
    assert(out@ =~= seq![digit_char(d as nat)]);
    out
}

/// The decimal numeral of `n`.
pub fn decimal_string(n: usize) -> (out: String)
    ensures
        out@ == decimal_text(n as nat),
    decreases n,
{
    if n < 10 {
        String::from_str(digit_text(n))
    } else {
        let mut out = decimal_string(n / 10);
        out.append(digit_text(n % 10));
        assert(out@ =~= decimal_text(n as nat));
        out
    }
}

} // verus!
