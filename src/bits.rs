//! Reading the slice type at the start of a slice header, so that slices the
//! decoder cannot take are turned away before it sees them.
use vstd::prelude::*;

verus! {

/// `2` to the power `n`.
pub open spec fn two_to(n: nat) -> nat
    decreases n,
{
    if n == 0 {
        1
    } else {
        2 * two_to((n - 1) as nat)
    }
}

/// Bit `k` of `s`, counting from the most significant bit of its first byte,
/// lies within `s`.
pub open spec fn has_bit(s: Seq<u8>, k: int) -> bool {
    0 <= k && k / 8 < s.len()
}

/// Bit `k` of `s`, counting from the most significant bit of its first byte.
pub open spec fn bit_at(s: Seq<u8>, k: int) -> u8 {
    (s[k / 8] >> ((7 - k % 8) as u8)) & 1u8
}

/// The number of zero bits that precede a one bit from `k` on, at least `n`
/// of them known; `None` past 31 zeros or at the end of `s`.
pub open spec fn zero_run(s: Seq<u8>, k: int, n: int) -> Option<int>
    decreases 32 - n,
{
    if n < 0 || n > 31 || !has_bit(s, k + n) {
        None
    } else if bit_at(s, k + n) == 1 {
        Some(n)
    } else {
        zero_run(s, k, n + 1)
    }
}

/// The `n` bits of `s` from `k` on, as a big-endian number.
pub open spec fn bits_value(s: Seq<u8>, k: int, n: nat) -> int
    decreases n,
{
    if n == 0 {
        0
    } else {
        2 * bits_value(s, k, (n - 1) as nat) + bit_at(s, k + n - 1) as int
    }
}

/// The unsigned Exp-Golomb code at bit `k` of `s`: its value and the bit after
/// it; `None` where it runs past `s` or past 31 leading zeros.
pub open spec fn exp_golomb(s: Seq<u8>, k: int) -> Option<(int, int)> {
    match zero_run(s, k, 0) {
        None => None,
        Some(n) => if has_bit(s, k + 2 * n) {
            Some((two_to(n as nat) - 1 + bits_value(s, k + n + 1, n as nat), k + 2 * n + 1))
        } else {
            None
        },
    }
}

/// The `slice_type` of the slice header that follows the header byte of
/// `nal`: the second Exp-Golomb code after `first_mb_in_slice`.
pub open spec fn slice_type_id(nal: Seq<u8>) -> Option<int> {
    match exp_golomb(nal, 8) {
        Some((first_mb, p)) => match exp_golomb(nal, p) {
            Some((t, q)) => Some(t),
            None => None,
        },
        None => None,
    }
}

/// A switching (SP or SI) slice.
pub open spec fn is_switching_slice(nal: Seq<u8>) -> bool {
    slice_type_id(nal) matches Some(t) && (t == 3 || t == 4 || t == 8 || t == 9)
}

proof fn lemma_two_to_at_least(n: nat)
    requires
        n >= 4,
    ensures
        two_to(n) >= 16,
    decreases n,
{
    if n > 4 {
        lemma_two_to_at_least((n - 1) as nat);
    } else {
        reveal_with_fuel(two_to, 5);
    }
}

proof fn lemma_two_to_at_most(n: nat)
    requires
        n <= 31,
    ensures
        two_to(n) <= 0x8000_0000,
    decreases 31 - n,
{
    if n == 31 {
        reveal_with_fuel(two_to, 32);
    } else {
        lemma_two_to_at_most(n + 1);
    }
}

proof fn lemma_bits_value_nonneg(s: Seq<u8>, k: int, n: nat)
    ensures
        bits_value(s, k, n) >= 0,
    decreases n,
{
    if n > 0 {
        lemma_bits_value_nonneg(s, k, (n - 1) as nat);
    }
}

fn read_bit(s: &[u8], k: u128) -> (r: u8)
    requires
        has_bit(s@, k as int),
    ensures
        r == bit_at(s@, k as int),
        r <= 1,
{
    let byte = s[(k / 8) as usize];
    let shift = (7 - k % 8) as u8;
    let r = (byte >> shift) & 1u8;
    assert(r <= 1) by (bit_vector)
        requires
            r == (byte >> shift) & 1u8,
    ;
    r
}

fn zero_run_from(s: &[u8], k: u128, n: u128) -> (r: Option<u128>)
    requires
        n <= 32,
        k < 0x1_0000_0000_0000_0000_0000u128,
    ensures
        match r {
            Some(m) => zero_run(s@, k as int, n as int) == Some(m as int),
            None => zero_run(s@, k as int, n as int) is None,
        },
        r matches Some(m) ==> n <= m <= 31,
    decreases 32 - n,
{
    if n > 31 || (k + n) / 8 >= s.len() as u128 {
        return None;
    }
    if read_bit(s, k + n) == 1 {
        Some(n)
    } else {
        zero_run_from(s, k, n + 1)
    }
}

fn bits_value_at(s: &[u8], k: u128, n: u128) -> (r: u64)
    requires
        n <= 31,
        k < 0x1_0000_0000_0000_0000_0000u128,
        n > 0 ==> has_bit(s@, k + n - 1),
    ensures
        r == bits_value(s@, k as int, n as nat),
        r < two_to(n as nat),
    decreases n,
{
    if n == 0 {
        0
    } else {
        proof {
            if n > 1 {
                assert(has_bit(s@, k + n - 2));
            }
        }
        let v = bits_value_at(s, k, n - 1);
        let b = read_bit(s, k + n - 1);
        proof {
            lemma_two_to_at_most((n - 1) as nat);
        }
        2 * v + b as u64
    }
}

/// The bit after the Exp-Golomb code at `k`, or `None` where there is none.
fn skip_exp_golomb(s: &[u8], k: u128) -> (r: Option<u128>)
    requires
        k < 0x1_0000_0000_0000_0000_0000u128,
    ensures
        match r {
            Some(p) => exp_golomb(s@, k as int) matches Some((v, q)) && q == p,
            None => exp_golomb(s@, k as int) is None,
        },
        r matches Some(p) ==> p <= k + 64,
{
    match zero_run_from(s, k, 0) {
        None => None,
        Some(n) => {
            if (k + 2 * n) / 8 < s.len() as u128 {
                Some(k + 2 * n + 1)
            } else {
                None
            }
        },
    }
}

/// Whether the slice header after the header byte of `nal` is of a switching
/// (SP or SI) slice type.
pub fn switching_slice(nal: &[u8]) -> (r: bool)
    ensures
        r == is_switching_slice(nal@),
{
    let p = match skip_exp_golomb(nal, 8) {
        Some(p) => p,
        None => return false,
    };
    match zero_run_from(nal, p, 0) {
        None => false,
        Some(n) => {
            if (p + 2 * n) / 8 >= nal.len() as u128 {
                return false;
            }
            if n >= 4 {
                proof {
                    lemma_two_to_at_least(n as nat);
                    lemma_bits_value_nonneg(nal@, (p + n + 1) as int, n as nat);
                }
                return false;
            }
            let v = bits_value_at(nal, p + n + 1, n);
            proof {
                reveal_with_fuel(two_to, 4);
            }
            let base: u64 = if n == 0 {
                1
            } else if n == 1 {
                2
            } else if n == 2 {
                4
            } else {
                8
            };
            let t = base - 1 + v;
            t == 3 || t == 4 || t == 8 || t == 9
        },
    }
}

} // verus!
