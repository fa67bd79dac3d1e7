//! Wrap-around normalization of raw indices.
//!
//! A raw index is an unbounded counter: arrow keys may push it below zero or
//! far past the end of the list. Display always goes through the Euclidean
//! remainder modulo `count + 1`, so the visible index lies in `[0, count]`
//! for a list of `count + 1` items.

use vstd::prelude::*;

verus! {

use vstd::arithmetic::div_mod::lemma_fundamental_div_mod;
use vstd::arithmetic::div_mod::lemma_mod_division_less_than_divisor;
use vstd::arithmetic::div_mod::lemma_mod_multiples_vanish;
use vstd::arithmetic::div_mod::lemma_small_mod;

/// The normalized form of a raw index: the Euclidean remainder of `raw`
/// modulo `count + 1`.
pub open spec fn wrap_spec(raw: int, count: int) -> int {
    raw % (count + 1)
}

/// For every integer raw index, the normalized index lies in `[0, count]`.
pub proof fn lemma_wrap_in_range(raw: int, count: int)
    requires
        count >= 0,
    ensures
        0 <= wrap_spec(raw, count) <= count,
{
    lemma_mod_division_less_than_divisor(raw, count + 1);
}

/// Normalize a raw index into `[0, count]` by the Euclidean remainder
/// modulo `count + 1`.
pub fn wrap_index(raw: i32, count: u8) -> (r: u8)
    ensures
        r as int == wrap_spec(raw as int, count as int),
{
    let d: u32 = count as u32 + 1;
    if raw >= 0 {
        let m: u32 = (raw as u32) % d;
        proof {
            lemma_mod_division_less_than_divisor(raw as int, d as int);
        }
        m as u8
    } else {
        let n: u32 = (-(raw as i64)) as u32;
        let m: u32 = n % d;
        proof {
            let di = d as int;
            let ni = n as int;
            let mi = m as int;
            let q = ni / di;
            lemma_fundamental_div_mod(ni, di);
            lemma_mod_division_less_than_divisor(ni, di);
            if mi == 0 {
                assert(di * (-q) == -(di * q)) by (nonlinear_arith);
                lemma_mod_multiples_vanish(-q, 0, di);
                lemma_small_mod(0nat, di as nat);
                assert(raw as int == di * (-q) + 0);
            } else {
                assert(di * (-q - 1) == -(di * q) - di) by (nonlinear_arith);
                lemma_mod_multiples_vanish(-q - 1, di - mi, di);
                lemma_small_mod((di - mi) as nat, di as nat);
                assert(raw as int == di * (-q - 1) + (di - mi));
            }
        }
        if m == 0 {
            0
        } else {
            (d - m) as u8
        }
    }
}

} // verus!
