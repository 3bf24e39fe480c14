//! Decimal rendering of unsigned integers, with an exact
//! specification of the produced character sequence.

use vstd::prelude::*;

verus! {

/// The decimal digit character for a value in 0..10.
pub open spec fn dec_digit(n: int) -> char {
    if n == 0 {
        '0'
    } else if n == 1 {
        '1'
    } else if n == 2 {
        '2'
    } else if n == 3 {
        '3'
    } else if n == 4 {
        '4'
    } else if n == 5 {
        '5'
    } else if n == 6 {
        '6'
    } else if n == 7 {
        '7'
    } else if n == 8 {
        '8'
    } else {
        '9'
    }
}

/// The usual decimal rendering of `n`, most significant digit first,
/// with no leading zeros (a single `'0'` for zero).
pub open spec fn dec_str(n: nat) -> Seq<char>
    decreases n,
{
    if n < 10 {
        seq![dec_digit(n as int)]
    } else {
        dec_str(n / 10) + seq![dec_digit((n % 10) as int)]
    }
}

/// Number of digits `dec_str` produces.
pub open spec fn dec_len(n: nat) -> nat
    decreases n,
{
    if n < 10 {
        1
    } else {
        1 + dec_len(n / 10)
    }
}

pub proof fn lemma_dec_str_len(n: nat)
    ensures
        dec_str(n).len() == dec_len(n),
    decreases n,
{
    if n >= 10 {
        lemma_dec_str_len(n / 10);
    }
}

fn dec_digit_str(d: u64) -> (s: &'static str)
    requires
        d < 10,
    ensures
        s@ =~= seq![dec_digit(d as int)],
{
    proof {
        reveal_strlit("0");
        reveal_strlit("1");
        reveal_strlit("2");
        reveal_strlit("3");
        reveal_strlit("4");
        reveal_strlit("5");
        reveal_strlit("6");
        reveal_strlit("7");
        reveal_strlit("8");
        reveal_strlit("9");
    }
    match d {
        0 => "0",
        1 => "1",
        2 => "2",
        3 => "3",
        4 => "4",
        5 => "5",
        6 => "6",
        7 => "7",
        8 => "8",
        _ => "9",
    }
}

/// Renders `n` in decimal.
pub fn u64_to_string(n: u64) -> (s: String)
    ensures
        s@ == dec_str(n as nat),
    decreases n,
{
    let last = dec_digit_str(n % 10);
    if n < 10 {
        last.to_owned()
    } else {
        let mut s = u64_to_string(n / 10);
        s.append(last);
        s
    }
}

/// `dec_str(n)` left-padded with `'0'` to at least `width` characters.
pub open spec fn dec_str_padded(n: nat, width: nat) -> Seq<char> {
    if dec_len(n) >= width {
        dec_str(n)
    } else {
        seq_repeat('0', (width - dec_len(n)) as nat) + dec_str(n)
    }
}

/// A sequence of `count` copies of `c`.
pub open spec fn seq_repeat(c: char, count: nat) -> Seq<char> {
    Seq::new(count, |i: int| c)
}

pub proof fn lemma_dec_str_padded_len(n: nat, width: nat)
    ensures
        dec_str_padded(n, width).len() == (if dec_len(n) >= width {
            dec_len(n)
        } else {
            width
        }),
{
    lemma_dec_str_len(n);
}

/// Renders `n` in decimal, left-padded with zeros to at least `width`
/// characters.
pub fn u64_to_string_padded(n: u64, width: u64) -> (s: String)
    ensures
        s@ == dec_str_padded(n as nat, width as nat),
{
    let digits = count_digits(n);
    let mut s = String::new();
    if digits < width {
        let pad = width - digits;
        let mut i: u64 = 0;
        proof {
            reveal_strlit("0");
        }
        while i < pad
            invariant
                i <= pad,
                s@ =~= seq_repeat('0', i as nat),
                "0"@ =~= seq!['0'],
            decreases pad - i,
        {
            s.append("0");
            proof {
                assert(s@ =~= seq_repeat('0', (i + 1) as nat));
            }
            i = i + 1;
        }
    }
    let tail = u64_to_string(n);
    let r = s.concat(tail.as_str());
    proof {
        lemma_dec_str_len(n as nat);
        assert(r@ =~= dec_str_padded(n as nat, width as nat));
    }
    r
}

/// `10^k`.
pub open spec fn pow10(k: nat) -> nat
    decreases k,
{
    if k == 0 {
        1
    } else {
        10 * pow10((k - 1) as nat)
    }
}

/// A value below `10^k` has at most `k` decimal digits.
pub proof fn lemma_dec_len_bound(n: nat, k: nat)
    requires
        k >= 1,
        n < pow10(k),
    ensures
        dec_len(n) <= k,
    decreases k,
{
    if n >= 10 {
        assert(pow10(k) == 10 * pow10((k - 1) as nat));
        if k == 1 {
            assert(pow10(0) == 1);
            assert(false);
        }
        assert(n / 10 < pow10((k - 1) as nat)) by (nonlinear_arith)
            requires
                n < 10 * pow10((k - 1) as nat),
        ;
        lemma_dec_len_bound(n / 10, (k - 1) as nat);
    }
}

/// Any `u64` has at most 20 decimal digits.
pub proof fn lemma_dec_len_u64(n: nat)
    requires
        n <= u64::MAX,
    ensures
        dec_len(n) <= 20,
{
    assert(pow10(20) > u64::MAX as nat) by {
        reveal_with_fuel(pow10, 21);
    }
    lemma_dec_len_bound(n, 20);
}

/// Counts the decimal digits of `n`.
fn count_digits(n: u64) -> (d: u64)
    ensures
        d == dec_len(n as nat),
        d <= 20,
    decreases n,
{
    proof {
        lemma_dec_len_u64(n as nat);
    }
    if n < 10 {
        1
    } else {
        1 + count_digits(n / 10)
    }
}

} // verus!
