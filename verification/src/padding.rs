//! Padding and truncation of one cell to the width of its column.

use crate::text::{lemma_repeated_one, repeat_text, spaces};
use std::fmt::Display;
use vstd::prelude::*;
use vstd::string::to_string_from_display_ensures;

verus! {

/// How far `len` falls short of `width`; zero where it does not.
pub open spec fn shortfall(len: nat, width: nat) -> nat {
    if width >= len {
        (width - len) as nat
    } else {
        0
    }
}

/// `text` with blanks added up to `width`: in front for a right-aligned cell,
/// behind for a left-aligned one. A text longer than `width` stays as it is.
pub open spec fn padded(text: Seq<char>, width: nat, align_right: bool) -> Seq<char> {
    let blanks = spaces(shortfall(text.len(), width));
    if align_right {
        blanks + text
    } else {
        text + blanks
    }
}

/// The first `width - 2` characters of `text` and two dots. Below a width of
/// two nothing of the text is kept and the two dots alone remain.
pub open spec fn truncated(text: Seq<char>, width: nat) -> Seq<char> {
    text.take(shortfall(2, width) as int) + seq!['.', '.']
}

/// A cell of a column `width` wide: `text` padded where it fits, truncated
/// where it does not.
pub open spec fn padded_or_truncated(
    text: Seq<char>,
    width: nat,
    align_right: bool,
) -> Seq<char> {
    if text.len() > width {
        truncated(text, width)
    } else {
        padded(text, width, align_right)
    }
}

/// A cell has exactly the width asked for, unless the text had to be cut
/// and the width is below the two characters that the dots take.
pub proof fn lemma_cell_has_width(text: Seq<char>, width: nat, align_right: bool)
    requires
        text.len() <= width || width >= 2,
    ensures
        padded_or_truncated(text, width, align_right).len() == width,
{
}

/// A text that fits its column is the same after padding it a second time to
/// the same width, whichever way the second padding aligns.
pub proof fn lemma_padding_twice(text: Seq<char>, width: nat, align_right: bool, again: bool)
    requires
        text.len() <= width,
    ensures
        padded_or_truncated(padded_or_truncated(text, width, align_right), width, again)
            == padded_or_truncated(text, width, align_right),
{
    let once = padded_or_truncated(text, width, align_right);
    assert(once.len() == width);
    assert(spaces(0) =~= Seq::<char>::empty());
    assert(padded(once, width, again) =~= once);
}

/// A text too long for a column of two or more characters comes out exactly
/// as wide as the column: the start of the text, then two dots.
pub proof fn lemma_truncation_ends_in_dots(text: Seq<char>, width: nat, align_right: bool)
    requires
        text.len() > width,
        width >= 2,
    ensures
        padded_or_truncated(text, width, align_right).len() == width,
        padded_or_truncated(text, width, align_right)[width - 2] == '.',
        padded_or_truncated(text, width, align_right)[width - 1] == '.',
        padded_or_truncated(text, width, align_right).take(width - 2) == text.take(width - 2),
{
    let out = padded_or_truncated(text, width, align_right);
    assert(out.take(width - 2) =~= text.take(width - 2));
}

/// Padding without truncation: see [`padded`].
pub fn pad_text(input: &str, max_length: usize, align_right: bool) -> (out: String)
    ensures
        out@ == padded(input@, max_length as nat, align_right),
{
    let len = input.unicode_len();
    let missing = if max_length >= len {
        max_length - len
    } else {
        0
    };
    let blanks = repeat_text(" ", missing);
    proof {
        reveal_strlit(" ");
        assert(" "@ =~= seq![' ']);
        lemma_repeated_one(' ', missing as nat);
    }
    if align_right {
        blanks.concat(input)
    } else {
        String::from_str(input).concat(blanks.as_str())
    }
}

/// The cell for `input` in a column `max_length` wide: see
/// [`padded_or_truncated`].
pub fn pad_or_truncate_text(input: &str, max_length: usize, align_right: bool) -> (out: String)
    ensures
        out@ == padded_or_truncated(input@, max_length as nat, align_right),
{
    let len = input.unicode_len();
    if len > max_length {
        let keep = if max_length >= 2 {
            max_length - 2
        } else {
            0
        };
        proof {
            reveal_strlit("..");
            assert(".."@ =~= seq!['.', '.']);
        }
        String::from_str(input.substring_char(0, keep)).concat("..")
    } else {
        pad_text(input, max_length, align_right)
    }
}

/// Pads whatever `input` displays as to `max_length` characters, without
/// cutting it. The text that `Display` gives for `input` is not known here;
/// the result is [`padded`] of one text that it can give.
pub fn pad_input<T: Display>(input: T, max_length: usize, align_right: bool) -> (out: String)
    ensures
        exists|text: String| #[trigger]
            to_string_from_display_ensures::<T>(&input, text) && out@ == padded(
                text@,
                max_length as nat,
                align_right,
            ),
{
    let text = input.to_string();
    pad_text(text.as_str(), max_length, align_right)
}

/// Pads or truncates whatever `input` displays as to `max_length` characters.
/// The text that `Display` gives for `input` is not known here; the result is
/// [`padded_or_truncated`] of one text that it can give.
pub fn pad_or_truncate_input<T: Display>(
    input: T,
    max_length: usize,
    align_right: bool,
) -> (out: String)
    ensures
        exists|text: String| #[trigger]
            to_string_from_display_ensures::<T>(&input, text) && out@ == padded_or_truncated(
                text@,
                max_length as nat,
                align_right,
            ),
{
    let text = input.to_string();
    pad_or_truncate_text(text.as_str(), max_length, align_right)
}

} // verus!
