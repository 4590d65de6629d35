//! Decimal text: formatting numbers as digit sequences and parsing them
//! back, with exact round-trip lemmas.

use vstd::prelude::*;

verus! {

/// An ASCII decimal digit.
pub open spec fn spec_is_digit(b: u8) -> bool {
    48 <= b <= 57
}

/// Powers of ten.
pub open spec fn spec_pow10(k: nat) -> nat
    decreases k,
{
    if k == 0 {
        1
    } else {
        10 * spec_pow10((k - 1) as nat)
    }
}

/// Decimal digits of `n`, most significant first, as ASCII bytes
/// (no leading zeros; `0` is the single digit `0`).
pub open spec fn spec_dec_bytes(n: nat) -> Seq<u8>
    decreases n,
{
    if n < 10 {
        seq![(n + 48) as u8]
    } else {
        spec_dec_bytes(n / 10) + seq![(n % 10 + 48) as u8]
    }
}

/// `n` rendered as exactly two ASCII digits (zero-padded).
pub open spec fn spec_two_digit_bytes(n: nat) -> Seq<u8> {
    seq![(n / 10 + 48) as u8, (n % 10 + 48) as u8]
}

/// The numeric value of one ASCII digit (zero on non-digits).
pub open spec fn spec_digit_val(b: u8) -> nat {
    if 48 <= b <= 57 {
        (b - 48) as nat
    } else {
        0
    }
}

/// The numeric value of a sequence of ASCII digits.
pub open spec fn spec_digits_val(s: Seq<u8>) -> nat
    decreases s.len(),
{
    if s.len() == 0 {
        0
    } else {
        spec_digits_val(s.drop_last()) * 10 + spec_digit_val(s.last())
    }
}

/// End of the maximal digit run of `s` that starts at `i`.
pub open spec fn spec_digit_run_end(s: Seq<u8>, i: int) -> int
    decreases s.len() - i,
{
    if 0 <= i < s.len() && spec_is_digit(s[i]) {
        spec_digit_run_end(s, i + 1)
    } else {
        i
    }
}

/// Append the decimal digits of `n` to `out`.
pub fn push_u32_dec(out: &mut Vec<u8>, n: u32)
    ensures
        final(out)@ == old(out)@ + spec_dec_bytes(n as nat),
    decreases n,
{
    if n >= 10 {
        push_u32_dec(out, n / 10);
        out.push((n % 10) as u8 + 48);
        proof {
            assert(out@ =~= old(out)@ + spec_dec_bytes(n as nat));
        }
    } else {
        out.push(n as u8 + 48);
        proof {
            assert(out@ =~= old(out)@ + spec_dec_bytes(n as nat));
        }
    }
}

/// Append exactly two digits (zero-padded) to `out`.
pub fn push_two_digit(out: &mut Vec<u8>, n: u32)
    requires
        n < 100,
    ensures
        final(out)@ == old(out)@ + spec_two_digit_bytes(n as nat),
{
    out.push((n / 10) as u8 + 48);
    out.push((n % 10) as u8 + 48);
    proof {
        assert(out@ =~= old(out)@ + spec_two_digit_bytes(n as nat));
    }
}

/// A digit sequence of length `k` has value below ten to the `k`.
pub proof fn lemma_digits_val_bound(s: Seq<u8>)
    requires
        forall|k: int| 0 <= k < s.len() ==> spec_is_digit(#[trigger] s[k]),
    ensures
        spec_digits_val(s) < spec_pow10(s.len()),
    decreases s.len(),
{
    if s.len() > 0 {
        lemma_digits_val_bound(s.drop_last());
    }
}

/// `n < 10^k` implies the rendering of `n` takes at most `k` digits.
pub proof fn lemma_dec_len_bound(n: nat, k: nat)
    requires
        n < spec_pow10(k),
        k >= 1,
    ensures
        spec_dec_bytes(n).len() <= k,
    decreases n,
{
    if n < 10 {
    } else {
        assert(spec_pow10(1) == 10) by {
            reveal_with_fuel(spec_pow10, 2);
        }
        assert(k >= 2) by {
            if k == 1 {
                assert(n < spec_pow10(1));
            }
        }
        lemma_dec_len_bound(n / 10, (k - 1) as nat);
    }
}

/// Every byte the decimal rendering emits is a digit and the rendering
/// is never empty; a `u32` never needs more than ten digits.
pub proof fn lemma_dec_bytes_shape(n: nat)
    ensures
        spec_dec_bytes(n).len() >= 1,
        forall|k: int|
            0 <= k < spec_dec_bytes(n).len() ==> spec_is_digit(#[trigger] spec_dec_bytes(n)[k]),
        n < 10 ==> spec_dec_bytes(n).len() == 1,
        n <= u32::MAX ==> spec_dec_bytes(n).len() <= 10,
    decreases n,
{
    if n >= 10 {
        lemma_dec_bytes_shape(n / 10);
    }
    if n <= u32::MAX {
        assert(spec_pow10(10) == 10000000000) by {
            reveal_with_fuel(spec_pow10, 11);
        }
        lemma_dec_len_bound(n, 10);
    }
}

/// Reading back the digits of `n` yields `n`.
pub proof fn lemma_dec_bytes_val(n: nat)
    ensures
        spec_digits_val(spec_dec_bytes(n)) == n,
    decreases n,
{
    reveal_with_fuel(spec_digits_val, 3);
    if n < 10 {
        let s = spec_dec_bytes(n);
        assert(s =~= seq![(n + 48) as u8]);
        assert(s.drop_last() =~= Seq::<u8>::empty());
        assert(s.last() == (n + 48) as u8);
        assert(spec_digit_val(s.last()) == n);
    } else {
        lemma_dec_bytes_val(n / 10);
        let s = spec_dec_bytes(n);
        assert(s == spec_dec_bytes(n / 10) + seq![(n % 10 + 48) as u8]);
        assert(s.drop_last() =~= spec_dec_bytes(n / 10));
        assert(s.last() == (n % 10 + 48) as u8);
        assert(spec_digit_val(s.last()) == n % 10);
        assert(spec_digits_val(s) == (n / 10) * 10 + n % 10);
    }
}

/// Reading back a two-digit rendering yields the value.
pub proof fn lemma_two_digit_val(n: nat)
    requires
        n < 100,
    ensures
        spec_digits_val(spec_two_digit_bytes(n)) == n,
        spec_two_digit_bytes(n).len() == 2,
        spec_is_digit(spec_two_digit_bytes(n)[0]),
        spec_is_digit(spec_two_digit_bytes(n)[1]),
{
    reveal_with_fuel(spec_digits_val, 4);
    let s = spec_two_digit_bytes(n);
    assert(s.len() == 2);
    assert(s.drop_last() =~= seq![(n / 10 + 48) as u8]);
    assert(s.last() == (n % 10 + 48) as u8);
    assert(spec_digit_val(s.last()) == n % 10);
    let f = seq![(n / 10 + 48) as u8];
    assert(f.drop_last() =~= Seq::<u8>::empty());
    assert(f.last() == (n / 10 + 48) as u8);
    assert(spec_digit_val(f.last()) == n / 10);
    assert(spec_digits_val(f) == n / 10);
    assert(spec_digits_val(s) == (n / 10) * 10 + n % 10);
}

/// The maximal digit run over a digit stretch followed by a non-digit
/// ends exactly at the boundary.
pub proof fn lemma_digit_run_of_digits(s: Seq<u8>, i: int, j: int)
    requires
        0 <= i <= j <= s.len(),
        forall|k: int| i <= k < j ==> spec_is_digit(#[trigger] s[k]),
        j == s.len() || !spec_is_digit(s[j]),
    ensures
        spec_digit_run_end(s, i) == j,
    decreases j - i,
{
    if i < j {
        lemma_digit_run_of_digits(s, i + 1, j);
    }
}

/// A stretch of digits from `i` to `j` makes the maximal run end no
/// earlier than `j`.
proof fn lemma_digit_run_ge(s: Seq<u8>, i: int, j: int)
    requires
        0 <= i <= j <= s.len(),
        forall|k: int| i <= k < j ==> spec_is_digit(#[trigger] s[k]),
    ensures
        spec_digit_run_end(s, i) >= j,
    decreases j - i,
{
    if i < j {
        lemma_digit_run_ge(s, i + 1, j);
    } else {
        lemma_digit_run_end_ge(s, i);
    }
}

/// The maximal run never ends before its start.
proof fn lemma_digit_run_end_ge(s: Seq<u8>, i: int)
    requires
        0 <= i <= s.len(),
    ensures
        spec_digit_run_end(s, i) >= i,
    decreases s.len() - i,
{
    if i < s.len() && spec_is_digit(s[i]) {
        lemma_digit_run_end_ge(s, i + 1);
    }
}

/// Parse the maximal digit run of `s` starting at `i` as a `u32`.
///
/// Returns the value and the index just past the run. Returns `None`
/// exactly when there is no digit at `i`, the run is longer than ten
/// digits, or its value exceeds `u32::MAX`.
pub fn parse_u32_at(s: &Vec<u8>, i: usize) -> (r: Option<(u32, usize)>)
    requires
        i <= s@.len(),
    ensures
        ({
            let j = spec_digit_run_end(s@, i as int);
            match r {
                Some(p) => i < j && j - i <= 10 && p.1 == j && p.0 == spec_digits_val(
                    s@.subrange(i as int, j),
                ),
                None => j == i || j - i > 10 || spec_digits_val(s@.subrange(i as int, j))
                    > u32::MAX,
            }
        }),
{
    let n = s.len();
    let mut j: usize = i;
    let mut acc: u64 = 0;
    while j < n && s[j] >= 48 && s[j] <= 57
        invariant
            i <= j <= n,
            n == s@.len(),
            forall|k: int| i <= k < j ==> spec_is_digit(#[trigger] s@[k]),
            j - i <= 10,
            acc == spec_digits_val(s@.subrange(i as int, j as int)),
            acc < 10000000000,
        decreases n - j,
    {
        proof {
            assert(s@.subrange(i as int, j + 1).drop_last() =~= s@.subrange(i as int, j as int));
        }
        acc = acc * 10 + (s[j] - 48) as u64;
        j = j + 1;
        if j - i > 10 {
            proof {
                lemma_digit_run_ge(s@, i as int, j as int);
            }
            return None;
        }
        proof {
            assert(spec_pow10(10) == 10000000000) by {
                reveal_with_fuel(spec_pow10, 11);
            }
            let sub = s@.subrange(i as int, j as int);
            assert(forall|k: int| 0 <= k < sub.len() ==> spec_is_digit(#[trigger] sub[k]));
            lemma_digits_val_bound(sub);
            lemma_pow10_le(sub.len(), 10);
        }
    }
    proof {
        lemma_digit_run_of_digits(s@, i as int, j as int);
    }
    if j == i {
        return None;
    }
    if acc > 0xFFFF_FFFFu64 {
        return None;
    }
    Some((acc as u32, j))
}

/// Powers of ten grow with the exponent.
proof fn lemma_pow10_le(a: nat, b: nat)
    requires
        a <= b,
    ensures
        spec_pow10(a) <= spec_pow10(b),
    decreases b,
{
    if a < b {
        lemma_pow10_le(a, (b - 1) as nat);
        assert(spec_pow10(b) == 10 * spec_pow10((b - 1) as nat));
    }
}

/// Expect the exact bytes of `pat` at position `i` of `s`; on success
/// return the index just past them.
pub fn expect_bytes(s: &Vec<u8>, i: usize, pat: &Vec<u8>) -> (r: Option<usize>)
    requires
        i <= s@.len(),
    ensures
        match r {
            Some(j) => j == i + pat@.len() && j <= s@.len() && s@.subrange(i as int, j as int)
                == pat@,
            None => i + pat@.len() > s@.len() || s@.subrange(i as int, i + pat@.len()) != pat@,
        },
{
    let m = pat.len();
    if s.len() - i < m {
        return None;
    }
    let n = s.len();
    let mut k: usize = 0;
    while k < m
        invariant
            k <= m,
            m == pat@.len(),
            n == s@.len(),
            i + m <= n,
            forall|t: int| 0 <= t < k ==> s@[i + t] == pat@[t],
        decreases m - k,
    {
        if s[i + k] != pat[k] {
            proof {
                assert(s@.subrange(i as int, i + pat@.len())[k as int] != pat@[k as int]);
            }
            return None;
        }
        k = k + 1;
    }
    proof {
        assert(s@.subrange(i as int, (i + m) as int) =~= pat@);
    }
    Some(i + m)
}

/// The character of one decimal digit.
pub open spec fn spec_digit_char(d: nat) -> char {
    if d == 0 {
        '0'
    } else if d == 1 {
        '1'
    } else if d == 2 {
        '2'
    } else if d == 3 {
        '3'
    } else if d == 4 {
        '4'
    } else if d == 5 {
        '5'
    } else if d == 6 {
        '6'
    } else if d == 7 {
        '7'
    } else if d == 8 {
        '8'
    } else {
        '9'
    }
}

/// Decimal digits of `n`, most significant first, as characters
/// (no leading zeros; `0` is the single digit `0`).
pub open spec fn spec_dec_chars(n: nat) -> Seq<char>
    decreases n,
{
    if n < 10 {
        seq![spec_digit_char(n)]
    } else {
        spec_dec_chars(n / 10) + seq![spec_digit_char(n % 10)]
    }
}

/// Append the character of one decimal digit to `out`.
fn push_digit_char(out: &mut String, d: u32)
    requires
        d < 10,
    ensures
        final(out)@ == old(out)@ + seq![spec_digit_char(d as nat)],
{
    proof {
        reveal_strlit("0");
        reveal_strlit("1");
        reveal_strlit("2");
        reveal_strlit("3");
        reveal_strlit("4");
        reveal_strlit("5");
        reveal_strlit("6");
        reveal_strlit("7");
        reveal_strlit("8");
        reveal_strlit("9");
    }
    match d {
        0 => out.append("0"),
        1 => out.append("1"),
        2 => out.append("2"),
        3 => out.append("3"),
        4 => out.append("4"),
        5 => out.append("5"),
        6 => out.append("6"),
        7 => out.append("7"),
        8 => out.append("8"),
        _ => out.append("9"),
    }
    proof {
        assert(out@ =~= old(out)@ + seq![spec_digit_char(d as nat)]);
    }
}

/// Append the decimal digits of `n` to `out`.
pub fn push_u32_chars(out: &mut String, n: u32)
    ensures
        final(out)@ == old(out)@ + spec_dec_chars(n as nat),
    decreases n,
{
    if n >= 10 {
        push_u32_chars(out, n / 10);
        push_digit_char(out, n % 10);
        proof {
            assert(out@ =~= old(out)@ + spec_dec_chars(n as nat));
        }
    } else {
        push_digit_char(out, n);
    }
}

/// Everything inside the maximal digit run is a digit, and the byte at
/// its end (if any) is not.
pub proof fn lemma_digit_run_chars(s: Seq<u8>, i: int)
    requires
        0 <= i <= s.len(),
    ensures
        i <= spec_digit_run_end(s, i) <= s.len(),
        forall|k: int| i <= k < spec_digit_run_end(s, i) ==> spec_is_digit(#[trigger] s[k]),
        spec_digit_run_end(s, i) < s.len() ==> !spec_is_digit(s[spec_digit_run_end(s, i)]),
    decreases s.len() - i,
{
    if i < s.len() && spec_is_digit(s[i]) {
        lemma_digit_run_chars(s, i + 1);
    }
}

} // verus!
