//! What the runtime makes of the clock: seconds as text and the mixing of
//! its pseudo-random numbers. Reading the clock is the caller's part.
use vstd::prelude::*;

use crate::text::{decimal, push_decimal};

verus! {

/// The seconds since the epoch as text, `0` when the clock is before it.
pub open spec fn seconds_text(secs: Option<u64>) -> Seq<char> {
    match secs {
        Some(s) => decimal(s as nat),
        None => "0"@,
    }
}

pub fn chrono_like_iso_now(secs_since_epoch: Option<u64>) -> (r: String)
    ensures
        r@ == seconds_text(secs_since_epoch),
{
    match secs_since_epoch {
        Some(s) => {
            let mut out = String::new();
            push_decimal(&mut out, s as u128);
            out
        },
        None => String::from_str("0"),
    }
}

/// The xorshift64* step that turns a seed into a pseudo-random number.
pub open spec fn xorshift_star(seed: u64) -> u64 {
    let a = seed ^ (seed >> 12u64);
    let b = a ^ (a << 25u64);
    let c = b ^ (b >> 27u64);
    vstd::wrapping::u64_specs::wrapping_mul(c, 2685821657736338717u64)
}

/// The seed: the clock's nanoseconds since the epoch, cut to 64 bits (0 when
/// the clock is before the epoch), mixed with a counter.
pub open spec fn random_seed(clock_nanos: Option<u128>, counter: u64) -> u64 {
    match clock_nanos {
        Some(n) => (n as u64) ^ counter,
        None => 0u64 ^ counter,
    }
}

pub fn pseudo_random_u64(clock_nanos: Option<u128>, counter: u64) -> (r: u64)
    ensures
        r == xorshift_star(random_seed(clock_nanos, counter)),
{
    let mut seed: u64 = match clock_nanos {
        Some(n) => n as u64,
        None => 0,
    };
    seed = seed ^ counter;
    seed = seed ^ (seed >> 12u64);
    seed = seed ^ (seed << 25u64);
    seed = seed ^ (seed >> 27u64);
    seed.wrapping_mul(2685821657736338717u64)
}

} // verus!
