//! Text in fields: cutting a text at a separator, and putting fields
//! together with one.

use crate::hex::{hex_digit_value, is_hex_digit};
use vstd::prelude::*;

verus! {

/// Whether `sep` does not occur in `text`.
pub open spec fn lacks(text: Seq<char>, sep: char) -> bool {
    forall|i: int| 0 <= i < text.len() ==> text[i] != sep
}

/// Whether every character of `text` is a hexadecimal digit.
pub open spec fn all_hex_digits(text: Seq<char>) -> bool {
    forall|i: int| 0 <= i < text.len() ==> is_hex_digit(#[trigger] text[i])
}

/// The fields of `text`: what stands before, between and after the
/// occurrences of `sep`. There is one field more than there are occurrences,
/// so the empty text has one field, which is empty.
pub open spec fn split(text: Seq<char>, sep: char) -> Seq<Seq<char>>
    decreases text.len(),
{
    if text.len() == 0 {
        seq![Seq::<char>::empty()]
    } else {
        let before = split(text.drop_last(), sep);
        if text.last() == sep {
            before.push(Seq::<char>::empty())
        } else {
            before.drop_last().push(before.last().push(text.last()))
        }
    }
}

/// The text made of `fields` in order, with `sep` between neighbours.
pub open spec fn join(fields: Seq<Seq<char>>, sep: char) -> Seq<char>
    decreases fields.len(),
{
    if fields.len() == 0 {
        Seq::<char>::empty()
    } else if fields.len() == 1 {
        fields[0]
    } else {
        join(fields.drop_last(), sep).push(sep) + fields.last()
    }
}

/// The number that `digits` write in base 16, most significant digit first.
pub open spec fn hex_number(digits: Seq<char>) -> nat
    decreases digits.len(),
{
    if digits.len() == 0 {
        0
    } else {
        16 * hex_number(digits.drop_last()) + hex_digit_value(digits.last())
    }
}

/// The numbers that the fields of `text` write in base 16.
pub open spec fn field_values(text: Seq<char>, sep: char) -> Seq<nat> {
    split(text, sep).map_values(|field: Seq<char>| hex_number(field))
}

/// A text has at least one field.
pub proof fn lemma_split_len(text: Seq<char>, sep: char)
    ensures
        split(text, sep).len() >= 1,
    decreases text.len(),
{
    if text.len() > 0 {
        lemma_split_len(text.drop_last(), sep);
    }
}

/// Text without a separator, put behind another text, lengthens that
/// text's last field and changes no other.
pub proof fn lemma_split_append(text: Seq<char>, tail: Seq<char>, sep: char)
    requires
        lacks(tail, sep),
    ensures
        split(text + tail, sep) == split(text, sep).drop_last().push(
            split(text, sep).last() + tail,
        ),
    decreases tail.len(),
{
    let fields = split(text, sep);
    lemma_split_len(text, sep);
    if tail.len() == 0 {
        assert(text + tail =~= text);
        assert(fields.last() + tail =~= fields.last());
        assert(fields.drop_last().push(fields.last()) =~= fields);
    } else {
        let shorter = tail.drop_last();
        lemma_split_append(text, shorter, sep);
        assert((text + tail).drop_last() =~= text + shorter);
        assert((text + tail).last() == tail.last());
        let before = split(text + shorter, sep);
        assert(before.drop_last() =~= fields.drop_last());
        assert(before.last().push(tail.last()) =~= fields.last() + tail);
    }
}

/// Cutting at the separator undoes joining with it, as long as there is a
/// field at all and the separator occurs in none.
pub proof fn lemma_split_join(fields: Seq<Seq<char>>, sep: char)
    requires
        fields.len() >= 1,
        forall|k: int| 0 <= k < fields.len() ==> lacks(#[trigger] fields[k], sep),
    ensures
        split(join(fields, sep), sep) == fields,
    decreases fields.len(),
{
    let nothing = Seq::<char>::empty();
    if fields.len() == 1 {
        lemma_split_append(nothing, fields[0], sep);
        assert(nothing + fields[0] =~= fields[0]);
        assert(split(nothing, sep) =~= seq![nothing]);
        assert(seq![nothing].drop_last().push(nothing + fields[0]) =~= fields);
    } else {
        let front = fields.drop_last();
        lemma_split_join(front, sep);
        let head = join(front, sep).push(sep);
        assert(head.drop_last() =~= join(front, sep));
        assert(split(head, sep) == front.push(nothing));
        lemma_split_append(head, fields.last(), sep);
        assert(front.push(nothing).drop_last() =~= front);
        assert(nothing + fields.last() =~= fields.last());
        assert(front.push(fields.last()) =~= fields);
    }
}

/// Joining with the separator undoes cutting at it, and no field holds the
/// separator.
pub proof fn lemma_join_split(text: Seq<char>, sep: char)
    ensures
        join(split(text, sep), sep) == text,
        forall|k: int| 0 <= k < split(text, sep).len() ==> lacks(#[trigger] split(text, sep)[k], sep),
    decreases text.len(),
{
    let fields = split(text, sep);
    if text.len() == 0 {
        assert(join(fields, sep) =~= text);
    } else {
        let shorter = text.drop_last();
        let before = split(shorter, sep);
        lemma_join_split(shorter, sep);
        lemma_split_len(shorter, sep);
        if text.last() == sep {
            assert(fields.drop_last() =~= before);
            assert(join(fields, sep) =~= shorter.push(sep));
            assert(shorter.push(sep) =~= text);
        } else {
            let grown = before.last().push(text.last());
            if before.len() == 1 {
                assert(join(before, sep) == before[0]);
                assert(join(fields, sep) =~= shorter.push(text.last()));
            } else {
                assert(fields.drop_last() =~= before.drop_last());
                assert(join(fields, sep) =~= join(before.drop_last(), sep).push(sep) + grown);
                assert(join(before.drop_last(), sep).push(sep) + grown =~= (join(
                    before.drop_last(),
                    sep,
                ).push(sep) + before.last()).push(text.last()));
            }
            assert(shorter.push(text.last()) =~= text);
            assert forall|k: int| 0 <= k < fields.len() implies lacks(#[trigger] fields[k], sep) by {
                if k < fields.len() - 1 {
                    assert(fields[k] == before[k]);
                } else {
                    assert(lacks(before[before.len() - 1], sep));
                }
            }
        }
    }
}

/// Where the characters of fields of two stand once the fields are joined:
/// every third character is the separator, and the two before it are those of
/// one field.
pub proof fn lemma_join_pairs(fields: Seq<Seq<char>>, sep: char, n: int)
    requires
        1 <= n <= fields.len(),
        forall|k: int| 0 <= k < n ==> (#[trigger] fields[k]).len() == 2,
    ensures
        join(fields.take(n), sep).len() == 3 * n - 1,
        forall|i: int|
            0 <= i < 3 * n - 1 ==> #[trigger] join(fields.take(n), sep)[i] == if i % 3 == 2 {
                sep
            } else {
                fields[i / 3][i % 3]
            },
    decreases n,
{
    let some = fields.take(n);
    if n == 1 {
        assert(join(some, sep) == fields[0]);
    } else {
        lemma_join_pairs(fields, sep, n - 1);
        assert(some.drop_last() =~= fields.take(n - 1));
        let front = join(fields.take(n - 1), sep);
        assert(join(some, sep) == front.push(sep) + fields[n - 1]);
        assert forall|i: int| 0 <= i < 3 * n - 1 implies #[trigger] join(some, sep)[i] == if i % 3
            == 2 {
            sep
        } else {
            fields[i / 3][i % 3]
        } by {
            if i < 3 * n - 4 {
                assert(join(some, sep)[i] == front[i]);
            } else if i == 3 * n - 4 {
            } else {
                assert(join(some, sep)[i] == fields[n - 1][i - (3 * n - 3)]);
            }
        }
    }
}

/// One digit writes its own value.
pub proof fn lemma_hex_number_one(digit: char)
    ensures
        hex_number(seq![digit]) == hex_digit_value(digit),
{
    let digits = seq![digit];
    assert(digits.drop_last() =~= Seq::<char>::empty());
    assert(hex_number(digits.drop_last()) == 0);
}

/// Two digits write sixteen times the first plus the second.
pub proof fn lemma_hex_number_two(high: char, low: char)
    ensures
        hex_number(seq![high, low]) == 16 * hex_digit_value(high) + hex_digit_value(low),
{
    let digits = seq![high, low];
    assert(digits.drop_last() =~= seq![high]);
    lemma_hex_number_one(high);
}

} // verus!
