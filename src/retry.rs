//! The decisions of a fetch that is retried with exponential backoff; the
//! caller does the fetching and the waiting.

use vstd::prelude::*;

verus! {

/// How many failed attempts are followed by another one.
pub const MAX_RETRIES: u32 = 3;

pub open spec fn pow2(n: nat) -> nat
    decreases n,
{
    if n == 0 {
        1
    } else {
        2 * pow2((n - 1) as nat)
    }
}

/// What to do after failed attempt number `attempt` (counting from zero):
/// wait `2^attempt` seconds and try again while fewer than [`MAX_RETRIES`]
/// attempts have failed before it; give up (`None`) after that.
pub fn backoff_delay(attempt: u32) -> (r: Option<u64>)
    ensures
        attempt < MAX_RETRIES ==> r == Some(pow2(attempt as nat) as u64),
        attempt >= MAX_RETRIES ==> r == None::<u64>,
{
    if attempt >= MAX_RETRIES {
        return None;
    }
    let mut secs: u64 = 1;
    let mut k: u32 = 0;
    while k < attempt
        invariant
            k <= attempt < MAX_RETRIES,
            secs == pow2(k as nat),
            k == 0 ==> secs == 1,
            k == 1 ==> secs == 2,
            k == 2 ==> secs == 4,
        decreases attempt - k,
    {
        secs = secs * 2;
        k = k + 1;
    }
    Some(secs)
}

} // verus!
