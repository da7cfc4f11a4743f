//! Where received data goes in the content file, and how an upload is retried.

use vstd::prelude::*;
use vstd::arithmetic::power2::pow2;
use vstd::arithmetic::power2::lemma2_to64;
use vstd::arithmetic::power2::lemma2_to64_rest;
use vstd::arithmetic::power2::lemma_pow2_unfold;

verus! {

/// The file offset of the data at `begin` within piece `index`:
/// `index * piece_length + begin`, or `None` where that does not fit in 64 bits.
pub fn write_position(index: u64, begin: u64, piece_length: u64) -> (r: Option<u64>)
    ensures
        r is Some <==> index * piece_length + begin <= u64::MAX,
        r matches Some(p) ==> p == index * piece_length + begin,
{
    match index.checked_mul(piece_length) {
        Some(start) => start.checked_add(begin),
        None => {
            assert(index * piece_length + begin > u64::MAX) by (nonlinear_arith)
                requires
                    index * piece_length > u64::MAX,
                    begin >= 0,
            ;
            None
        },
    }
}

/// After the `retries`-th failed upload of a piece: the seconds to wait
/// before the next attempt, `2^retries` (saturated at `u64::MAX`), or `None`
/// once more than `max_retries` attempts failed.
pub fn upload_retry_delay(retries: u32, max_retries: u32) -> (r: Option<u64>)
    ensures
        retries > max_retries ==> r is None,
        retries <= max_retries ==> r == Some(if retries < 64 {
            pow2(retries as nat) as u64
        } else {
            u64::MAX
        }),
{
    if retries > max_retries {
        return None;
    }
    if retries >= 64 {
        return Some(u64::MAX);
    }
    let mut d: u64 = 1;
    let mut k: u32 = 0;
    proof {
        lemma2_to64();
    }
    while k < retries
        invariant
            k <= retries < 64,
            d == pow2(k as nat),
            d <= 0x8000_0000_0000_0000u64,
        decreases retries - k,
    {
        proof {
            lemma_pow2_unfold((k + 1) as nat);
            lemma2_to64_rest();
            if k < 62 {
                vstd::arithmetic::power2::lemma_pow2_strictly_increases(k as nat, 62);
            }
            assert(d <= 0x4000_0000_0000_0000u64);
        }
        d = d * 2;
        k = k + 1;
    }
    Some(d)
}

} // verus!
