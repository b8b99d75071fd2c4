//! Decimal rendering of item numbers, with or without zero padding.
use vstd::prelude::*;

verus! {

/// The character of a single decimal digit.
pub open spec fn digit_char(d: nat) -> char
    recommends
        d < 10,
{
    if d == 0 { '0' }
    else if d == 1 { '1' }
    else if d == 2 { '2' }
    else if d == 3 { '3' }
    else if d == 4 { '4' }
    else if d == 5 { '5' }
    else if d == 6 { '6' }
    else if d == 7 { '7' }
    else if d == 8 { '8' }
    else { '9' }
}

/// `n` written in base ten, most significant digit first, with no leading zeros.
pub open spec fn decimal(n: nat) -> Seq<char>
    decreases n,
{
    if n < 10 {
        seq![digit_char(n)]
    } else {
        decimal(n / 10).push(digit_char(n % 10))
    }
}

/// `k` zero characters.
pub open spec fn zeros(k: nat) -> Seq<char> {
    Seq::new(k, |i: int| '0')
}

/// `n` in base ten, left-padded with zeros up to `width` characters; a number with
/// more digits than `width` is written in full.
pub open spec fn padded(n: nat, width: nat) -> Seq<char> {
    let d = decimal(n);
    if d.len() >= width {
        d
    } else {
        zeros((width - d.len()) as nat) + d
    }
}

/// Ten to the power `k`.
pub open spec fn pow10(k: nat) -> nat
    decreases k,
{
    if k == 0 { 1 } else { 10 * pow10((k - 1) as nat) }
}

fn digit_str(d: u64) -> (r: &'static str)
    requires
        d < 10,
    ensures
        r@ == seq![digit_char(d as nat)],
{
    proof {
        reveal_strlit("0");
        reveal_strlit("1");
        reveal_strlit("2");
        reveal_strlit("3");
        reveal_strlit("4");
        reveal_strlit("5");
        reveal_strlit("6");
        reveal_strlit("7");
        reveal_strlit("8");
        reveal_strlit("9");
    }
    if d == 0 { "0" }
    else if d == 1 { "1" }
    else if d == 2 { "2" }
    else if d == 3 { "3" }
    else if d == 4 { "4" }
    else if d == 5 { "5" }
    else if d == 6 { "6" }
    else if d == 7 { "7" }
    else if d == 8 { "8" }
    else { "9" }
}

/// Appends the decimal digits of `n` to `s`.
pub fn push_decimal(s: &mut String, n: u64)
    ensures
        final(s)@ == old(s)@ + decimal(n as nat),
    decreases n,
{
    if n >= 10 {
        push_decimal(s, n / 10);
    }
    s.append(digit_str(n % 10));
    assert(s@ =~= old(s)@ + decimal(n as nat));
}

/// The number of decimal digits of `n`.
pub fn decimal_len(n: u64) -> (r: usize)
    ensures
        r as nat == decimal(n as nat).len(),
    decreases n,
{
    proof { lemma_decimal_len_bound(n as nat); }
    if n >= 10 {
        decimal_len(n / 10) + 1
    } else {
        1
    }
}

/// Appends `n` to `s`, left-padded with zeros up to `width` characters.
pub fn push_padded(s: &mut String, n: u64, width: usize)
    ensures
        final(s)@ == old(s)@ + padded(n as nat, width as nat),
{
    let len = decimal_len(n);
    if len < width {
        let mut k: usize = 0;
        while k < width - len
            invariant
                len < width,
                k <= width - len,
                s@ == old(s)@ + zeros(k as nat),
            decreases width - len - k,
        {
            proof { reveal_strlit("0"); }
            s.append("0");
            k = k + 1;
            assert(s@ =~= old(s)@ + zeros(k as nat));
        }
    }
    push_decimal(s, n);
    assert(s@ =~= old(s)@ + padded(n as nat, width as nat));
}

/// Renders `n` left-padded with zeros up to `width` characters.
pub fn render_padded(n: u64, width: usize) -> (r: String)
    ensures
        r@ == padded(n as nat, width as nat),
{
    let mut s = String::new();
    push_padded(&mut s, n, width);
    assert(s@ =~= padded(n as nat, width as nat));
    s
}

/// A number has at most 20 decimal digits when it fits in 64 bits, and at
/// most `k` when it is below ten to the `k`.
proof fn lemma_decimal_len_bound(n: nat)
    ensures
        decimal(n).len() >= 1,
        n < 10 <==> decimal(n).len() == 1,
        forall|k: nat| n < pow10(k) ==> #[trigger] decimal(n).len() <= k || k == 0,
        n <= u64::MAX ==> decimal(n).len() <= 20,
    decreases n,
{
    assert(pow10(0) == 1);
    if n >= 10 {
        lemma_decimal_len_bound(n / 10);
        assert forall|k: nat| n < pow10(k) implies #[trigger] decimal(n).len() <= k || k == 0 by {
            if k > 0 {
                assert(pow10(k) == 10 * pow10((k - 1) as nat));
                assert(n / 10 < pow10((k - 1) as nat));
                if k == 1 {
                    assert(false);
                }
            }
        }
    } else {
        assert forall|k: nat| n < pow10(k) implies #[trigger] decimal(n).len() <= k || k == 0 by {}
    }
    if n <= u64::MAX {
        reveal_with_fuel(pow10, 21);
        assert(pow10(20) == 100000000000000000000nat);
        assert(decimal(n).len() <= 20);
    }
}

/// Zero padding gives a string of exactly `width` characters whenever `n` has
/// at most `width` digits (`n` below ten to the `width`); a longer number is
/// written in full, never cut. Either way the string ends with the plain digits
/// of `n`, and only zeros stand before them.
pub proof fn lemma_padded_fixed_width(n: nat, width: nat)
    ensures
        n < pow10(width) && width > 0 ==> padded(n, width).len() == width,
        padded(n, width).len() == if decimal(n).len() >= width { decimal(n).len() } else { width },
        padded(n, width).len() >= decimal(n).len(),
        padded(n, width) == zeros((padded(n, width).len() - decimal(n).len()) as nat) + decimal(n),
{
    lemma_decimal_len_bound(n);
    if decimal(n).len() >= width {
        assert(zeros(0) + decimal(n) =~= decimal(n));
    }
}

/// The unpadded rendering has no leading zero: its first digit is zero only for
/// the number zero itself.
pub proof fn lemma_decimal_no_leading_zero(n: nat)
    ensures
        decimal(n).len() >= 1,
        n > 0 ==> decimal(n)[0] != '0',
        padded(n, 0) == decimal(n),
    decreases n,
{
    lemma_decimal_len_bound(n);
    if n >= 10 {
        lemma_decimal_no_leading_zero(n / 10);
        assert(decimal(n)[0] == decimal(n / 10)[0]);
    }
}

} // verus!
