//! Decimal text for the numbers that enter a digest.

use vstd::prelude::*;
use vstd::string::StringExecFns;

verus! {

/// The number of smallest units in one coin.
pub const UNITS_PER_COIN: u64 = 10_000;

/// The text of one decimal digit.
pub open spec fn digit_text(d: int) -> Seq<char> {
    if d == 0 {
        "0"@
    } else if d == 1 {
        "1"@
    } else if d == 2 {
        "2"@
    } else if d == 3 {
        "3"@
    } else if d == 4 {
        "4"@
    } else if d == 5 {
        "5"@
    } else if d == 6 {
        "6"@
    } else if d == 7 {
        "7"@
    } else if d == 8 {
        "8"@
    } else {
        "9"@
    }
}

/// The decimal digits of `n`, most significant first, without leading zeros.
pub open spec fn decimal(n: nat) -> Seq<char>
    decreases n,
{
    if n < 10 {
        digit_text(n as int)
    } else {
        decimal(n / 10) + digit_text((n % 10) as int)
    }
}

/// The decimal text of a signed number: a minus sign before a negative one.
pub open spec fn signed_decimal(n: int) -> Seq<char> {
    if n < 0 {
        "-"@ + decimal((-n) as nat)
    } else {
        decimal(n as nat)
    }
}

/// The digits after the decimal point of an amount whose fractional part is
/// `f` units, with trailing zeros left out.
pub open spec fn fraction_digits(f: int) -> Seq<char> {
    if f % 1000 == 0 {
        digit_text(f / 1000)
    } else if f % 100 == 0 {
        digit_text(f / 1000) + digit_text(f / 100 % 10)
    } else if f % 10 == 0 {
        digit_text(f / 1000) + digit_text(f / 100 % 10) + digit_text(f / 10 % 10)
    } else {
        digit_text(f / 1000) + digit_text(f / 100 % 10) + digit_text(f / 10 % 10) + digit_text(
            f % 10,
        )
    }
}

/// An amount written in coins: the whole coins in decimal and, where the
/// amount is not a whole number of coins, a point and the fraction.
pub open spec fn amount_text(units: nat) -> Seq<char> {
    let coins = units / (UNITS_PER_COIN as nat);
    let fraction = units % (UNITS_PER_COIN as nat);
    if fraction == 0 {
        decimal(coins)
    } else {
        decimal(coins) + "."@ + fraction_digits(fraction as int)
    }
}

/// The items of a byte list: the bytes in decimal, separated by a comma and
/// a space.
pub open spec fn byte_items(data: Seq<u8>) -> Seq<char>
    decreases data.len(),
{
    if data.len() == 0 {
        Seq::empty()
    } else if data.len() == 1 {
        decimal(data[0] as nat)
    } else {
        byte_items(data.drop_last()) + ", "@ + decimal(data.last() as nat)
    }
}

/// A byte list in square brackets.
pub open spec fn byte_list_text(data: Seq<u8>) -> Seq<char> {
    "["@ + byte_items(data) + "]"@
}

/// Appends a text.
pub fn push_text(s: &mut String, other: &String)
    ensures
        final(s)@ == old(s)@ + other@,
{
    s.append(other.as_str());
}

fn digit_of(d: u64) -> (text: &'static str)
    requires
        d < 10,
    ensures
        text@ == digit_text(d as int),
{
    if d == 0 {
        "0"
    } else if d == 1 {
        "1"
    } else if d == 2 {
        "2"
    } else if d == 3 {
        "3"
    } else if d == 4 {
        "4"
    } else if d == 5 {
        "5"
    } else if d == 6 {
        "6"
    } else if d == 7 {
        "7"
    } else if d == 8 {
        "8"
    } else {
        "9"
    }
}

/// Appends the decimal digits of `n` to `out`.
pub fn write_decimal(out: &mut String, n: u64)
    ensures
        final(out)@ == old(out)@ + decimal(n as nat),
    decreases n,
{
    if n < 10 {
        out.append(digit_of(n));
    } else {
        write_decimal(out, n / 10);
        out.append(digit_of(n % 10));
        assert(old(out)@ + decimal((n / 10) as nat) + digit_text((n % 10) as int) =~= old(out)@
            + decimal(n as nat));
    }
}

/// Appends the decimal text of a signed number to `out`.
pub fn write_signed_decimal(out: &mut String, n: i64)
    ensures
        final(out)@ == old(out)@ + signed_decimal(n as int),
{
    if n < 0 {
        out.append("-");
        let magnitude: u64 = (-(n as i128)) as u64;
        write_decimal(out, magnitude);
        assert(old(out)@ + "-"@ + decimal(magnitude as nat) =~= old(out)@ + signed_decimal(
            n as int,
        ));
    } else {
        write_decimal(out, n as u64);
    }
}

/// Appends an amount, written in coins, to `out`.
pub fn write_amount(out: &mut String, units: u64)
    ensures
        final(out)@ == old(out)@ + amount_text(units as nat),
{
    write_decimal(out, units / UNITS_PER_COIN);
    let f: u64 = units % UNITS_PER_COIN;
    if f != 0 {
        let ghost before = out@;
        out.append(".");
        out.append(digit_of(f / 1000));
        if f % 1000 != 0 {
            out.append(digit_of(f / 100 % 10));
            if f % 100 != 0 {
                out.append(digit_of(f / 10 % 10));
                if f % 10 != 0 {
                    out.append(digit_of(f % 10));
                }
            }
        }
        assert(out@ =~= before + "."@ + fraction_digits(f as int));
        assert(out@ =~= old(out)@ + amount_text(units as nat));
    }
}

/// Appends a byte list in square brackets to `out`.
pub fn write_byte_list(out: &mut String, data: &Vec<u8>)
    ensures
        final(out)@ == old(out)@ + byte_list_text(data@),
{
    out.append("[");
    let ghost start = out@;
    let mut i: usize = 0;
    assert(out@ =~= start + byte_items(data@.take(0)));
    while i < data.len()
        invariant
            i <= data.len(),
            out@ == start + byte_items(data@.take(i as int)),
        decreases data.len() - i,
    {
        if i > 0 {
            out.append(", ");
        }
        write_decimal(out, data[i] as u64);
        proof {
            let next = data@.take(i + 1);
            assert(next.drop_last() =~= data@.take(i as int));
            assert(next.last() == data@[i as int]);
            assert(out@ =~= start + byte_items(next));
        }
        i = i + 1;
    }
    assert(data@.take(i as int) =~= data@);
    out.append("]");
    assert(out@ =~= old(out)@ + byte_list_text(data@));
}

/// The views of a list of texts, in order.
pub open spec fn texts(items: Seq<String>) -> Seq<Seq<char>> {
    items.map_values(|s: String| s@)
}

/// The views of a list with one more text are the views of the list with one
/// more view.
pub proof fn lemma_texts_push(items: Seq<String>, last: String)
    ensures
        texts(items.push(last)) == texts(items).push(last@),
{
    assert(texts(items.push(last)) =~= texts(items).push(last@));
}

/// Copies a list of texts.
pub fn clone_texts(items: &Vec<String>) -> (copy: Vec<String>)
    ensures
        texts(copy@) == texts(items@),
{
    let mut copy: Vec<String> = Vec::new();
    let mut i: usize = 0;
    while i < items.len()
        invariant
            i <= items.len(),
            texts(copy@) == texts(items@).take(i as int),
        decreases items.len() - i,
    {
        proof {
            lemma_texts_push(copy@, items@[i as int]);
        }
        copy.push(items[i].clone());
        assert(texts(copy@) =~= texts(items@).take(i + 1));
        i = i + 1;
    }
    assert(texts(items@).take(i as int) =~= texts(items@));
    copy
}

/// The text that the `Debug` format of the standard library gives a list of
/// texts: the items in double quotes, with escapes, between square brackets.
pub uninterp spec fn debug_list_text(items: Seq<Seq<char>>) -> Seq<char>;

/// Formats a list of texts with `format!("{:?}", ..)`. Not proved: that the
/// result is the text named by `debug_list_text`.
#[verifier::external_body]
pub(crate) fn debug_list(items: &Vec<String>) -> (text: String)
    ensures
        text@ == debug_list_text(texts(items@)),
{
    format!("{:?}", items)
}

} // verus!
