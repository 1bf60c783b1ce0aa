//! Decimal text: the spec-level decimal rendering of unsigned and signed
//! integers, its executable counterpart, and the facts about digit sequences
//! that the codec's proofs rest on.

use vstd::prelude::*;

verus! {

/// Is `c` a decimal digit?
pub open spec fn is_digit(c: char) -> bool {
    48 <= (c as u32) && (c as u32) <= 57
}

/// Numeric value of a digit character.
pub open spec fn digit_val(c: char) -> nat
    recommends
        is_digit(c),
{
    ((c as u32) - 48) as nat
}

/// The digit character for a value below ten.
pub open spec fn digit_char(d: nat) -> char
    recommends
        d < 10,
{
    if d == 0 {
        '0'
    } else if d == 1 {
        '1'
    } else if d == 2 {
        '2'
    } else if d == 3 {
        '3'
    } else if d == 4 {
        '4'
    } else if d == 5 {
        '5'
    } else if d == 6 {
        '6'
    } else if d == 7 {
        '7'
    } else if d == 8 {
        '8'
    } else {
        '9'
    }
}

/// Decimal rendering of a natural number, most significant digit first,
/// with no leading zero (the number zero is the single digit `0`).
pub open spec fn dec(n: nat) -> Seq<char>
    decreases n,
{
    if n < 10 {
        seq![digit_char(n)]
    } else {
        dec(n / 10) + seq![digit_char(n % 10)]
    }
}

/// Decimal rendering of an integer: a minus sign before the magnitude
/// when negative.
pub open spec fn sdec(n: int) -> Seq<char> {
    if n >= 0 {
        dec(n as nat)
    } else {
        seq!['-'] + dec((-n) as nat)
    }
}

/// Value of a digit sequence read most significant digit first.
pub open spec fn digits_val(d: Seq<char>) -> nat
    decreases d.len(),
{
    if d.len() == 0 {
        0
    } else {
        digits_val(d.drop_last()) * 10 + digit_val(d.last())
    }
}

/// Is every character of `d` a decimal digit?
pub open spec fn all_digits(d: Seq<char>) -> bool {
    forall|i: int| 0 <= i < d.len() ==> is_digit(d[i])
}

/// Powers of ten.
pub open spec fn pow10(k: nat) -> nat
    decreases k,
{
    if k == 0 {
        1nat
    } else {
        10 * pow10((k - 1) as nat)
    }
}

/// Number of consecutive digit characters starting at `i`.
pub open spec fn digit_run(s: Seq<char>, i: int) -> int
    decreases s.len() - i,
{
    if 0 <= i < s.len() && is_digit(s[i]) {
        1 + digit_run(s, i + 1)
    } else {
        0
    }
}

/// A digit run covers digits and ends at a non-digit or the end of the text.
pub proof fn lemma_digit_run_props(s: Seq<char>, i: int)
    requires
        0 <= i <= s.len(),
    ensures
        0 <= digit_run(s, i),
        i + digit_run(s, i) <= s.len(),
        forall|k: int| i <= k < i + digit_run(s, i) ==> is_digit(s[k]),
        i + digit_run(s, i) == s.len() || !is_digit(s[i + digit_run(s, i)]),
    decreases s.len() - i,
{
    if i < s.len() && is_digit(s[i]) {
        lemma_digit_run_props(s, i + 1);
    }
}

/// A run of digit characters has the run's length.
pub proof fn lemma_digit_run_of(s: Seq<char>, i: int, j: int)
    requires
        0 <= i <= j <= s.len(),
        forall|k: int| i <= k < j ==> is_digit(s[k]),
        j == s.len() || !is_digit(s[j]),
    ensures
        digit_run(s, i) == j - i,
    decreases j - i,
{
    if i < j {
        assert(is_digit(s[i]));
        lemma_digit_run_of(s, i + 1, j);
    }
}

/// Powers of ten are positive.
pub proof fn lemma_pow10_pos(k: nat)
    ensures
        pow10(k) >= 1,
    decreases k,
{
    if k > 0 {
        lemma_pow10_pos((k - 1) as nat);
    }
}

/// Powers of ten grow with the exponent.
pub proof fn lemma_pow10_mono(a: nat, b: nat)
    requires
        a <= b,
    ensures
        pow10(a) <= pow10(b),
    decreases b,
{
    if a < b {
        lemma_pow10_mono(a, (b - 1) as nat);
        lemma_pow10_pos((b - 1) as nat);
    }
}

/// The twentieth power of ten, concretely.
pub proof fn lemma_pow10_20()
    ensures
        pow10(20) == 0x56bc75e2d63100000,
{
    reveal_with_fuel(pow10, 21);
}

/// Reading a digit sequence left to right: the front digits carry a power
/// of ten for each digit behind them.
pub proof fn lemma_digits_val_concat(a: Seq<char>, b: Seq<char>)
    ensures
        digits_val(a + b) == digits_val(a) * pow10(b.len()) + digits_val(b),
    decreases b.len(),
{
    if b.len() == 0 {
        assert(a + b =~= a);
        assert(pow10(0) == 1);
    } else {
        lemma_digits_val_concat(a, b.drop_last());
        assert((a + b).drop_last() =~= a + b.drop_last());
        assert((a + b).last() == b.last());
        let ab = a + b;
        let p = pow10((b.len() - 1) as nat);
        assert(pow10(b.len()) == 10 * p);
        assert(digits_val(ab) == digits_val(ab.drop_last()) * 10 + digit_val(ab.last()));
        assert(digits_val(ab.drop_last()) == digits_val(a) * p + digits_val(b.drop_last()));
        assert(digits_val(b) == digits_val(b.drop_last()) * 10 + digit_val(b.last()));
        assert((digits_val(a) * p + digits_val(b.drop_last())) * 10 == digits_val(a) * (10 * p)
            + digits_val(b.drop_last()) * 10) by (nonlinear_arith);
    }
}

/// The decimal rendering consists of digits.
pub proof fn lemma_dec_digits(n: nat)
    ensures
        all_digits(dec(n)),
        dec(n).len() >= 1,
    decreases n,
{
    if n < 10 {
        assert(is_digit(dec(n)[0]));
    } else {
        lemma_dec_digits(n / 10);
        assert(is_digit(digit_char(n % 10)));
        assert(forall|i: int| 0 <= i < dec(n).len() ==> is_digit(dec(n)[i])) by {
            assert(dec(n) == dec(n / 10) + seq![digit_char(n % 10)]);
            assert(forall|i: int| 0 <= i < dec(n / 10).len() ==> is_digit(dec(n)[i]));
            assert(dec(n)[dec(n).len() - 1] == digit_char(n % 10));
        }
    }
}

/// The decimal rendering reads back to the number it renders.
pub proof fn lemma_dec_val(n: nat)
    ensures
        digits_val(dec(n)) == n,
    decreases n,
{
    if n < 10 {
        assert(dec(n).drop_last() =~= Seq::<char>::empty());
        assert(digits_val(Seq::<char>::empty()) == 0);
        assert(dec(n).last() == digit_char(n));
        assert(digit_val(digit_char(n)) == n);
    } else {
        lemma_dec_val(n / 10);
        let d = seq![digit_char(n % 10)];
        lemma_digits_val_concat(dec(n / 10), d);
        assert(dec(n) == dec(n / 10) + d);
        assert(d.drop_last() =~= Seq::<char>::empty());
        assert(digit_val(digit_char(n % 10)) == n % 10);
        assert(digits_val(Seq::<char>::empty()) == 0);
        assert(d.last() == digit_char(n % 10));
        assert(digits_val(d) == n % 10);
        assert(pow10(0) == 1);
        assert(pow10(1) == 10);
        assert(digits_val(dec(n)) == (n / 10) * 10 + n % 10);
    }
}

/// A number below ten to the `k` renders in at most `k` digits.
pub proof fn lemma_dec_len(n: nat, k: nat)
    requires
        n < pow10(k),
        k >= 1,
    ensures
        dec(n).len() <= k,
    decreases n,
{
    if n < 10 {
    } else {
        assert(pow10(k) == 10 * pow10((k - 1) as nat));
        assert(n / 10 < pow10((k - 1) as nat)) by (nonlinear_arith)
            requires n < 10 * pow10((k - 1) as nat), n >= 10,
        {
        }
        assert((k - 1) as nat >= 1) by {
            if k == 1 {
                lemma_pow10_pos(0);
                assert(pow10(1) == 10);
            }
        }
        lemma_dec_len(n / 10, (k - 1) as nat);
    }
}

/// A positive number renders with no leading zero.
pub proof fn lemma_dec_no_leading_zero(n: nat)
    requires
        n > 0,
    ensures
        dec(n)[0] != '0',
    decreases n,
{
    if n < 10 {
    } else {
        lemma_dec_no_leading_zero(n / 10);
        lemma_dec_digits(n / 10);
        assert(dec(n)[0] == dec(n / 10)[0]);
    }
}

/// One digit of text.
fn digit_str(d: usize) -> (r: &'static str)
    requires
        d < 10,
    ensures
        r@ =~= seq![digit_char(d as nat)],
{
    proof {
        reveal_strlit("0");
        reveal_strlit("1");
        reveal_strlit("2");
        reveal_strlit("3");
        reveal_strlit("4");
        reveal_strlit("5");
        reveal_strlit("6");
        reveal_strlit("7");
        reveal_strlit("8");
        reveal_strlit("9");
    }
    match d {
        0 => "0",
        1 => "1",
        2 => "2",
        3 => "3",
        4 => "4",
        5 => "5",
        6 => "6",
        7 => "7",
        8 => "8",
        _ => "9",
    }
}

/// Decimal text of an unsigned number.
pub fn u64_dec(n: u64) -> (r: String)
    ensures
        r@ == dec(n as nat),
    decreases n,
{
    let d = digit_str((n % 10) as usize);
    if n < 10 {
        let r = String::from_str(d);
        proof {
            assert(r@ =~= dec(n as nat));
        }
        r
    } else {
        let s = u64_dec(n / 10);
        let r = s.concat(d);
        proof {
            assert(r@ =~= dec(n as nat));
        }
        r
    }
}

/// Decimal text of a `usize`.
pub fn usize_dec(n: usize) -> (r: String)
    ensures
        r@ == dec(n as nat),
{
    u64_dec(n as u64)
}

/// Decimal text of a signed number, minus sign included.
pub fn i64_dec(n: i64) -> (r: String)
    ensures
        r@ == sdec(n as int),
{
    if n >= 0 {
        u64_dec(n as u64)
    } else {
        let m: u64 = ((-(n + 1)) as u64) + 1;
        proof {
            assert(m as nat == (-(n as int)) as nat);
            reveal_strlit("-");
        }
        let s = String::from_str("-");
        let r = s.concat(u64_dec(m).as_str());
        proof {
            assert(r@ =~= sdec(n as int));
        }
        r
    }
}

} // verus!
