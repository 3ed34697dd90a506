//! Text helpers: comparing names, reading a decimal count, splitting a list.

use vstd::prelude::*;

verus! {

/// Whether two texts hold the same characters.
pub fn same_text(a: &str, b: &str) -> (same: bool)
    ensures
        same == (a@ == b@),
{
    String::from_str(a) == String::from_str(b)
}

pub open spec fn is_digit(c: char) -> bool {
    '0' <= c && c <= '9'
}

pub open spec fn digit_value(c: char) -> nat {
    (c as u32 - '0' as u32) as nat
}

/// The number that a run of decimal digits writes.
pub open spec fn decimal_value(digits: Seq<char>) -> nat
    decreases digits.len(),
{
    if digits.len() == 0 {
        0
    } else {
        decimal_value(digits.drop_last()) * 10 + digit_value(digits.last())
    }
}

pub open spec fn all_digits(digits: Seq<char>) -> bool {
    forall|i: int| 0 <= i < digits.len() ==> is_digit(#[trigger] digits[i])
}

/// The digits of an unsigned decimal literal: the text without one leading `+`.
pub open spec fn literal_digits(text: Seq<char>) -> Seq<char> {
    if text.len() > 0 && text[0] == '+' {
        text.skip(1)
    } else {
        text
    }
}

/// The count that `text` writes, where it is an optional `+` followed by one
/// or more decimal digits and nothing else.
pub open spec fn decimal_literal(text: Seq<char>) -> Option<nat> {
    let digits = literal_digits(text);
    if digits.len() > 0 && all_digits(digits) {
        Some(decimal_value(digits))
    } else {
        None
    }
}

/// A longer run of digits writes a number at least as large as any of its
/// prefixes.
pub proof fn lemma_decimal_value_grows(digits: Seq<char>, n: int)
    requires
        0 <= n <= digits.len(),
    ensures
        decimal_value(digits.take(n)) <= decimal_value(digits),
    decreases digits.len(),
{
    if n < digits.len() {
        lemma_decimal_value_grows(digits.drop_last(), n);
        assert(digits.drop_last().take(n) =~= digits.take(n));
    } else {
        assert(digits.take(n) =~= digits);
    }
}

/// Reads an unsigned decimal literal that fits in `usize`.
pub fn parse_count(text: &str) -> (count: Option<usize>)
    ensures
        count == match decimal_literal(text@) {
            Some(n) => if n <= usize::MAX {
                Some(n as usize)
            } else {
                None
            },
            None => None,
        },
{
    let len = text.unicode_len();
    let mut i: usize = 0;
    if len > 0 && text.get_char(0) == '+' {
        i = 1;
    }
    let first = i;
    if first == len {
        return None;
    }
    let ghost digits = literal_digits(text@);
    assert(digits =~= text@.skip(first as int));
    let mut value: usize = 0;
    while i < len
        invariant
            first <= i <= len,
            first < len,
            len == text@.len(),
            digits == text@.skip(first as int),
            digits == literal_digits(text@),
            all_digits(digits.take(i - first)),
            value == decimal_value(digits.take(i - first)),
        decreases len - i,
    {
        let c = text.get_char(i);
        assert(digits[i - first] == c);
        if !('0' <= c && c <= '9') {
            assert(!all_digits(digits));
            return None;
        }
        let digit = (c as u32 - '0' as u32) as usize;
        let ghost longer = digits.take(i - first + 1);
        assert(longer.drop_last() =~= digits.take(i - first));
        assert(longer.last() == c);
        assert(all_digits(longer)) by {
            assert forall|k: int| 0 <= k < longer.len() implies is_digit(#[trigger] longer[k]) by {
                if k < longer.len() - 1 {
                    assert(longer[k] == digits.take(i - first)[k]);
                }
            }
        }
        let next = match value.checked_mul(10) {
            Some(tenfold) => tenfold.checked_add(digit),
            None => None,
        };
        match next {
            Some(sum) => {
                value = sum;
            },
            None => {
                proof {
                    lemma_decimal_value_grows(digits, i - first + 1);
                    assert(decimal_value(longer) == value * 10 + digit);
                }
                return None;
            },
        }
        i += 1;
    }
    assert(digits.take(i - first) =~= digits);
    Some(value)
}

/// The pieces of `text` between its commas, in order. A text without a comma
/// is one piece; an empty text is one empty piece.
pub open spec fn comma_pieces(text: Seq<char>) -> Seq<Seq<char>>
    decreases text.len(),
{
    if text.len() == 0 {
        seq![Seq::<char>::empty()]
    } else {
        let before = comma_pieces(text.drop_last());
        if text.last() == ',' {
            before.push(Seq::<char>::empty())
        } else {
            before.update(before.len() - 1, before.last().push(text.last()))
        }
    }
}

/// The views of a list of strings.
pub open spec fn texts(names: Seq<String>) -> Seq<Seq<char>> {
    Seq::new(names.len(), |i: int| names[i]@)
}

/// The pieces put together again, with a comma between neighbours.
pub open spec fn joined(pieces: Seq<Seq<char>>) -> Seq<char>
    decreases pieces.len(),
{
    if pieces.len() == 0 {
        Seq::empty()
    } else if pieces.len() == 1 {
        pieces[0]
    } else {
        joined(pieces.drop_last()) + seq![','] + pieces.last()
    }
}

/// Splitting loses nothing and splits everywhere: there is at least one
/// piece, no piece holds a comma, and the pieces joined by commas are the
/// text.
pub proof fn lemma_comma_pieces(text: Seq<char>)
    ensures
        comma_pieces(text).len() >= 1,
        forall|i: int, j: int|
            0 <= i < comma_pieces(text).len() && 0 <= j < comma_pieces(text)[i].len()
                ==> #[trigger] comma_pieces(text)[i][j] != ',',
        joined(comma_pieces(text)) == text,
    decreases text.len(),
{
    let pieces = comma_pieces(text);
    if text.len() == 0 {
        assert(joined(pieces) =~= text);
    } else {
        let shorter = text.drop_last();
        let before = comma_pieces(shorter);
        lemma_comma_pieces(shorter);
        if text.last() == ',' {
            assert(pieces.drop_last() =~= before);
            assert(joined(pieces) =~= shorter.push(','));
            assert(shorter.push(',') =~= text);
        } else {
            let grown = before.last().push(text.last());
            if before.len() == 1 {
                assert(joined(before) == before[0]);
                assert(joined(pieces) =~= shorter.push(text.last()));
            } else {
                assert(pieces.drop_last() =~= before.drop_last());
                assert(joined(pieces) =~= joined(before.drop_last()) + seq![','] + grown);
                assert(joined(before) =~= joined(before.drop_last()) + seq![','] + before.last());
                assert(joined(pieces) =~= joined(before).push(text.last()));
            }
            assert(shorter.push(text.last()) =~= text);
        }
        assert forall|i: int, j: int|
            0 <= i < pieces.len() && 0 <= j < pieces[i].len() implies #[trigger] pieces[i][j]
            != ',' by {
            if i < before.len() - 1 || text.last() == ',' {
                if i < before.len() {
                    assert(pieces[i] == before[i]);
                }
            } else if j < before.last().len() {
                assert(pieces[i][j] == before.last()[j]);
            }
        }
    }
}

/// Splits `text` at every comma.
pub fn split_commas(text: &str) -> (pieces: Vec<String>)
    ensures
        texts(pieces@) == comma_pieces(text@),
{
    let len = text.unicode_len();
    let mut pieces: Vec<String> = Vec::new();
    let mut start: usize = 0;
    let mut i: usize = 0;
    assert(text@.take(0) =~= Seq::<char>::empty());
    assert(text@.subrange(0, 0) =~= Seq::<char>::empty());
    assert(texts(pieces@).push(text@.subrange(0, 0)) =~= comma_pieces(text@.take(0)));
    while i < len
        invariant
            start <= i <= len,
            len == text@.len(),
            texts(pieces@).push(text@.subrange(start as int, i as int)) == comma_pieces(
                text@.take(i as int),
            ),
        decreases len - i,
    {
        let c = text.get_char(i);
        let ghost prefix = text@.take(i + 1);
        let ghost before = comma_pieces(text@.take(i as int));
        assert(prefix.drop_last() =~= text@.take(i as int));
        assert(prefix.last() == c);
        if c == ',' {
            let piece = String::from_str(text.substring_char(start, i));
            let ghost old_pieces = pieces@;
            let ghost old_start = start as int;
            pieces.push(piece);
            start = i + 1;
            assert(texts(pieces@) =~= texts(old_pieces).push(text@.subrange(old_start, i as int)));
            assert(text@.subrange(start as int, i + 1) =~= Seq::<char>::empty());
        } else {
            assert(text@.subrange(start as int, i + 1) =~= text@.subrange(start as int, i as int).push(c));
            assert(texts(pieces@).push(text@.subrange(start as int, i + 1)) =~= before.update(
                before.len() - 1,
                before.last().push(c),
            ));
        }
        i += 1;
    }
    assert(text@.take(len as int) =~= text@);
    let ghost old_pieces = pieces@;
    pieces.push(String::from_str(text.substring_char(start, len)));
    assert(texts(pieces@) =~= texts(old_pieces).push(text@.subrange(start as int, len as int)));
    pieces
}

} // verus!
