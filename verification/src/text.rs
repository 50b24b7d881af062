//! Text building blocks: repeated pieces and decimal numerals, appended to a `String`.

use vstd::prelude::*;

verus! {

/// `piece` written `count` times in a row.
pub open spec fn repeated(piece: Seq<char>, count: nat) -> Seq<char>
    decreases count,
{
    if count == 0 {
        Seq::empty()
    } else {
        repeated(piece, (count - 1) as nat) + piece
    }
}

/// The character that stands for the digit `d`, for `d` below ten.
pub open spec fn digit_char(d: nat) -> char {
    seq!['0', '1', '2', '3', '4', '5', '6', '7', '8', '9'][d as int]
}

/// The decimal numeral of `n`: no sign, no leading zero, `"0"` for zero.
pub open spec fn decimal(n: nat) -> Seq<char>
    decreases n,
{
    if n < 10 {
        seq![digit_char(n)]
    } else {
        decimal(n / 10).push(digit_char(n % 10))
    }
}

/// The number that a string of digits stands for, read as a decimal numeral.
pub open spec fn numeral_value(digits: Seq<char>) -> nat
    decreases digits.len(),
{
    if digits.len() == 0 {
        0
    } else {
        numeral_value(digits.drop_last()) * 10 + (digits.last() as nat - '0' as nat) as nat
    }
}

/// The decimal numeral of an integer: a minus sign before the numeral of the magnitude when
/// `n` is negative.
pub open spec fn decimal_int(n: int) -> Seq<char> {
    if n < 0 {
        seq!['-'] + decimal((-n) as nat)
    } else {
        decimal(n as nat)
    }
}

/// Repeating a one-character piece gives as many characters as repetitions, all of them that
/// character.
pub proof fn lemma_repeated_char(c: char, count: nat)
    ensures
        repeated(seq![c], count).len() == count,
        forall|i: int| 0 <= i < count ==> repeated(seq![c], count)[i] == c,
    decreases count,
{
    if count > 0 {
        lemma_repeated_char(c, (count - 1) as nat);
    }
}

/// A decimal numeral is never empty, holds digits only, and starts with a zero only where
/// the number is zero.
pub proof fn lemma_decimal_digits(n: nat)
    ensures
        decimal(n).len() >= 1,
        forall|i: int| 0 <= i < decimal(n).len() ==> '0' <= #[trigger] decimal(n)[i] <= '9',
        n > 0 ==> decimal(n)[0] != '0',
    decreases n,
{
    if n >= 10 {
        lemma_decimal_digits(n / 10);
    }
}

/// Read back, the decimal numeral of a number gives that number.
pub proof fn lemma_decimal_value(n: nat)
    ensures
        numeral_value(decimal(n)) == n,
    decreases n,
{
    if n < 10 {
        assert(decimal(n).drop_last() =~= Seq::<char>::empty());
        assert(numeral_value(decimal(n).drop_last()) == 0);
    } else {
        lemma_decimal_value(n / 10);
        assert(decimal(n).drop_last() =~= decimal(n / 10));
    }
}

/// A number below ten to the power `digits` has a numeral of at most `digits` characters.
pub proof fn lemma_decimal_len(n: nat, digits: nat)
    requires
        digits >= 1,
        n < vstd::arithmetic::power::pow(10, digits),
    ensures
        decimal(n).len() <= digits,
    decreases digits,
{
    vstd::arithmetic::power::lemma_pow1(10);
    if n >= 10 {
        if digits == 1 {
            assert(false);
        } else {
            assert(vstd::arithmetic::power::pow(10, digits) == 10 * vstd::arithmetic::power::pow(
                10,
                (digits - 1) as nat,
            )) by {
                vstd::arithmetic::power::lemma_pow_adds(10, 1, (digits - 1) as nat);
            }
            lemma_decimal_len(n / 10, (digits - 1) as nat);
        }
    }
}

/// Appends `piece` to `out`, `count` times.
pub fn append_repeated(out: &mut String, piece: &str, count: usize)
    ensures
        final(out)@ == old(out)@ + repeated(piece@, count as nat),
{
    let mut done: usize = 0;
    while done < count
        invariant
            done <= count,
            out@ == old(out)@ + repeated(piece@, done as nat),
        decreases count - done,
    {
        out.append(piece);
        done = done + 1;
        assert(out@ == old(out)@ + repeated(piece@, done as nat)) by {
            assert(repeated(piece@, done as nat) == repeated(piece@, (done - 1) as nat) + piece@);
            assert((old(out)@ + repeated(piece@, (done - 1) as nat)) + piece@ =~= old(out)@ + (
            repeated(piece@, (done - 1) as nat) + piece@));
        }
    }
}

/// Appends the character of one decimal digit.
fn append_digit(out: &mut String, d: u8)
    requires
        d < 10,
    ensures
        final(out)@ == old(out)@.push(digit_char(d as nat)),
{
    proof {
        reveal_strlit("0");
        reveal_strlit("1");
        reveal_strlit("2");
        reveal_strlit("3");
        reveal_strlit("4");
        reveal_strlit("5");
        reveal_strlit("6");
        reveal_strlit("7");
        reveal_strlit("8");
        reveal_strlit("9");
    }
    let piece: &str = match d {
        0 => "0",
        1 => "1",
        2 => "2",
        3 => "3",
        4 => "4",
        5 => "5",
        6 => "6",
        7 => "7",
        8 => "8",
        _ => "9",
    };
    assert(piece@ =~= seq![digit_char(d as nat)]);
    out.append(piece);
    assert(out@ =~= old(out)@.push(digit_char(d as nat)));
}

/// Appends the decimal numeral of `n`.
pub fn append_decimal(out: &mut String, n: u64)
    ensures
        final(out)@ == old(out)@ + decimal(n as nat),
    decreases n,
{
    if n >= 10 {
        append_decimal(out, n / 10);
    }
    append_digit(out, (n % 10) as u8);
    assert(out@ =~= old(out)@ + decimal(n as nat));
}

/// Appends the decimal numeral of a signed integer.
pub fn append_decimal_int(out: &mut String, n: i64)
    ensures
        final(out)@ == old(out)@ + decimal_int(n as int),
{
    if n < 0 {
        proof {
            reveal_strlit("-");
        }
        out.append("-");
        let magnitude: u64 = if n == i64::MIN {
            0x8000_0000_0000_0000u64
        } else {
            (-n) as u64
        };
        append_decimal(out, magnitude);
        assert(out@ =~= old(out)@ + decimal_int(n as int));
    } else {
        append_decimal(out, n as u64);
    }
}

} // verus!
