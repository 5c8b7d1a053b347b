//! Canonical decimal notation for the integers that appear inside
//! token payloads and configuration values: writing a number out, and
//! reading one back, with the round trip proved.

use vstd::prelude::*;

verus! {

pub open spec fn is_digit_byte(b: u8) -> bool {
    48 <= b <= 57
}

pub open spec fn pow10(k: nat) -> int
    decreases k,
{
    if k == 0 {
        1
    } else {
        10 * pow10((k - 1) as nat)
    }
}

/// The canonical decimal notation of a nonnegative integer, most
/// significant digit first, without leading zeros.
pub open spec fn spec_dec(n: int) -> Seq<u8>
    decreases n,
{
    if n < 10 {
        seq![(48 + if n >= 0 { n } else { 0 }) as u8]
    } else {
        spec_dec(n / 10) + seq![(48 + n % 10) as u8]
    }
}

/// The value of a sequence of decimal digit bytes.
pub open spec fn digits_val(s: Seq<u8>) -> int
    decreases s.len(),
{
    if s.len() == 0 {
        0
    } else {
        digits_val(s.drop_last()) * 10 + (s.last() - 48)
    }
}

/// The first position at or after `i` that does not hold a digit byte.
pub open spec fn digit_run_end(s: Seq<u8>, i: int) -> int
    decreases s.len() - i,
{
    if i < s.len() && 0 <= i && is_digit_byte(s[i]) {
        digit_run_end(s, i + 1)
    } else {
        i
    }
}

/// Reading an unsigned decimal at position `i`: the digit run there,
/// rejected when empty, longer than twenty digits, carrying a leading
/// zero, or naming a value beyond `u64::MAX`; otherwise the value and
/// the position just past the run.
pub open spec fn spec_parse_u64_at(p: Seq<u8>, i: int) -> Option<(int, int)> {
    let j = digit_run_end(p, i);
    if j == i || j - i > 20 {
        None
    } else if p[i] == 48 && j - i > 1 {
        None
    } else if digits_val(p.subrange(i, j)) > u64::MAX {
        None
    } else {
        Some((digits_val(p.subrange(i, j)), j))
    }
}

/// A whole byte string as one unsigned decimal.
pub open spec fn spec_parse_u64_full(b: Seq<u8>) -> Option<int> {
    match spec_parse_u64_at(b, 0) {
        Some((v, j)) => if j == b.len() {
            Some(v)
        } else {
            None
        },
        None => None,
    }
}

/// Decimal notation of a signed value: a minus sign ahead of the
/// notation of the magnitude.
pub open spec fn spec_dec_signed(v: int) -> Seq<u8> {
    if v < 0 {
        seq![45u8] + spec_dec(-v)
    } else {
        spec_dec(v)
    }
}

pub proof fn lemma_pow10_mono(a: nat, b: nat)
    requires
        a <= b,
    ensures
        pow10(a) <= pow10(b),
    decreases b,
{
    if a < b {
        lemma_pow10_mono(a, (b - 1) as nat);
        assert(pow10(b) == 10 * pow10((b - 1) as nat));
        assert(pow10(a) >= 1) by {
            lemma_pow10_pos(a);
        }
    }
}

pub proof fn lemma_pow10_pos(k: nat)
    ensures
        pow10(k) >= 1,
    decreases k,
{
    if k > 0 {
        lemma_pow10_pos((k - 1) as nat);
    }
}

/// Appending one digit multiplies the value by ten and adds the digit.
pub proof fn lemma_digits_val_push(s: Seq<u8>, d: u8)
    ensures
        digits_val(s.push(d)) == digits_val(s) * 10 + (d - 48),
{
    assert(s.push(d).drop_last() =~= s);
    assert(s.push(d).last() == d);
}

pub proof fn lemma_pow10_20()
    ensures
        pow10(20) == 100000000000000000000,
{
    assert(pow10(0) == 1);
    assert(pow10(1) == 10);
    assert(pow10(2) == 100);
    assert(pow10(3) == 1000);
    assert(pow10(4) == 10000);
    assert(pow10(5) == 100000);
    assert(pow10(6) == 1000000);
    assert(pow10(7) == 10000000);
    assert(pow10(8) == 100000000);
    assert(pow10(9) == 1000000000);
    assert(pow10(10) == 10000000000);
    assert(pow10(11) == 100000000000);
    assert(pow10(12) == 1000000000000);
    assert(pow10(13) == 10000000000000);
    assert(pow10(14) == 100000000000000);
    assert(pow10(15) == 1000000000000000);
    assert(pow10(16) == 10000000000000000);
    assert(pow10(17) == 100000000000000000);
    assert(pow10(18) == 1000000000000000000);
    assert(pow10(19) == 10000000000000000000);
    assert(pow10(20) == 100000000000000000000);
}

/// Decimal notation uses digit bytes only, is never empty, and starts
/// with a zero only for the number zero itself.
pub proof fn lemma_dec_digits(n: int)
    requires
        n >= 0,
    ensures
        spec_dec(n).len() >= 1,
        forall|i: int| 0 <= i < spec_dec(n).len() ==> is_digit_byte(#[trigger] spec_dec(n)[i]),
        n > 0 ==> spec_dec(n)[0] != 48,
        n == 0 ==> spec_dec(n) == seq![48u8],
    decreases n,
{
    if n < 10 {
        assert(spec_dec(n) == seq![(48 + n) as u8]);
    } else {
        lemma_dec_digits(n / 10);
    }
}

/// Decimal notation of `n` names `n`.
pub proof fn lemma_digits_val_dec(n: int)
    requires
        n >= 0,
    ensures
        digits_val(spec_dec(n)) == n,
    decreases n,
{
    if n < 10 {
        let s = spec_dec(n);
        assert(s =~= seq![(48 + n) as u8]);
        assert(s.drop_last() =~= Seq::<u8>::empty());
        assert(digits_val(s) == digits_val(s.drop_last()) * 10 + (s.last() - 48));
        assert(s.last() == (48 + n) as u8);
    } else {
        lemma_digits_val_dec(n / 10);
        vstd::arithmetic::div_mod::lemma_fundamental_div_mod(n, 10);
        let s = spec_dec(n);
        let a = spec_dec(n / 10);
        let d = (48 + n % 10) as u8;
        assert((a + seq![d]).drop_last() =~= a);
        assert((a + seq![d]).last() == d);
        assert(digits_val(s) == digits_val(a) * 10 + (d - 48));
    }
}

/// A string of `k` digits names a value below `pow10(k)`.
pub proof fn lemma_digits_val_bound(s: Seq<u8>)
    requires
        forall|i: int| 0 <= i < s.len() ==> is_digit_byte(#[trigger] s[i]),
    ensures
        0 <= digits_val(s) < pow10(s.len()),
    decreases s.len(),
{
    if s.len() > 0 {
        lemma_digits_val_bound(s.drop_last());
    }
}

/// Bounded numbers have bounded notation: below `pow10(k)` means at
/// most `k` digits.
pub proof fn lemma_dec_len(n: int, k: nat)
    requires
        0 <= n < pow10(k),
        k >= 1,
    ensures
        spec_dec(n).len() <= k,
    decreases k,
{
    if n >= 10 {
        assert(pow10(k) == 10 * pow10((k - 1) as nat));
        lemma_dec_len(n / 10, (k - 1) as nat);
    }
}

/// A digit run that really ends at `j` is found to end at `j`.
pub proof fn lemma_digit_run_end(s: Seq<u8>, i: int, j: int)
    requires
        0 <= i <= j <= s.len(),
        forall|k: int| i <= k < j ==> is_digit_byte(#[trigger] s[k]),
        j == s.len() || !is_digit_byte(s[j]),
    ensures
        digit_run_end(s, i) == j,
    decreases j - i,
{
    if i < j {
        lemma_digit_run_end(s, i + 1, j);
    }
}

/// Reading a decimal back from where it was written: in `a + spec_dec(n) + b`,
/// with nothing digit-like following, parsing at `a.len()` yields `n` again.
pub proof fn lemma_parse_of_dec(p: Seq<u8>, a: Seq<u8>, n: int, b: Seq<u8>)
    requires
        p == a + spec_dec(n) + b,
        0 <= n <= u64::MAX,
        b.len() == 0 || !is_digit_byte(b[0]),
    ensures
        spec_parse_u64_at(p, a.len() as int) == Some((n, a.len() + spec_dec(n).len() as int)),
{
    let d = spec_dec(n);
    let i = a.len() as int;
    let j = i + d.len();
    lemma_dec_digits(n);
    assert forall|k: int| i <= k < j implies is_digit_byte(#[trigger] p[k]) by {
        assert(p[k] == d[k - i]);
    }
    if j < p.len() {
        assert(p[j] == b[0]);
    }
    lemma_digit_run_end(p, i, j);
    assert(p.subrange(i, j) =~= d);
    lemma_digits_val_dec(n);
    lemma_pow10_20();
    assert(u64::MAX < pow10(20));
    lemma_dec_len(n, 20);
    assert(p[i] == d[0]);
}

/// Write the decimal notation of `n` onto the end of `out`.
pub fn push_dec_u64(out: &mut Vec<u8>, n: u64)
    ensures
        final(out)@ == old(out)@ + spec_dec(n as int),
    decreases n,
{
    if n < 10 {
        out.push(48 + (n as u8));
        proof {
            assert(out@ =~= old(out)@ + spec_dec(n as int));
        }
    } else {
        push_dec_u64(out, n / 10);
        out.push(48 + ((n % 10) as u8));
        proof {
            assert(out@ =~= old(out)@ + (spec_dec(n as int / 10) + seq![(48 + n as int % 10) as u8]));
        }
    }
}

/// Write the decimal notation of a signed value onto the end of `out`.
pub fn push_dec_i32(out: &mut Vec<u8>, v: i32)
    ensures
        final(out)@ == old(out)@ + spec_dec_signed(v as int),
{
    if v < 0 {
        out.push(45);
        let m: i64 = -(v as i64);
        push_dec_u64(out, m as u64);
        proof {
            assert(out@ =~= old(out)@ + (seq![45u8] + spec_dec(-(v as int))));
        }
    } else {
        push_dec_u64(out, v as u64);
    }
}

/// Read a digit run at `i` exactly as `spec_parse_u64_at` describes it.
pub fn parse_u64_at(p: &Vec<u8>, i: usize) -> (r: Option<(u64, usize)>)
    requires
        i <= p@.len(),
    ensures
        match r {
            Some((v, j)) => spec_parse_u64_at(p@, i as int) == Some((v as int, j as int)),
            None => spec_parse_u64_at(p@, i as int) is None,
        },
{
    let n = p.len();
    let mut j = i;
    while j < n && 48 <= p[j] && p[j] <= 57
        invariant
            n == p@.len(),
            i <= j <= n,
            forall|k: int| i <= k < j ==> is_digit_byte(#[trigger] p@[k]),
        decreases n - j,
    {
        j = j + 1;
    }
    proof {
        lemma_digit_run_end(p@, i as int, j as int);
    }
    if j == i || j - i > 20 {
        return None;
    }
    if p[i] == 48 && j - i > 1 {
        return None;
    }
    let mut acc: u128 = 0;
    let mut k = i;
    proof {
        assert(p@.subrange(i as int, i as int) =~= Seq::<u8>::empty());
        lemma_pow10_20();
    }
    while k < j
        invariant
            n == p@.len(),
            i <= k <= j <= n,
            j - i <= 20,
            forall|t: int| i <= t < j ==> is_digit_byte(#[trigger] p@[t]),
            acc == digits_val(p@.subrange(i as int, k as int)),
            pow10(20) == 100000000000000000000,
        decreases j - k,
    {
        let d = p[k];
        proof {
            let s = p@.subrange(i as int, k as int);
            lemma_digits_val_bound(s);
            lemma_pow10_mono((k - i) as nat, 19);
            assert(pow10(19) * 10 == pow10(20));
            assert(p@.subrange(i as int, k as int + 1) =~= s.push(d));
            lemma_digits_val_push(s, d);
        }
        acc = acc * 10 + ((d - 48) as u128);
        k = k + 1;
    }
    if acc > 0xFFFFFFFFFFFFFFFF {
        return None;
    }
    Some((acc as u64, j))
}

} // verus!
