//! The pause between a tab's release and its reuse.

use vstd::prelude::*;

verus! {

/// `rand::seq::IndexedRandom::choose` on a slice, with `rand::rng()`: one of
/// the elements of `delays`, picked at random; none where `delays` is empty.
/// Which element comes back is not fixed by the arguments.
#[verifier::external_body]
fn choose_delay(delays: &Vec<u64>) -> (picked: Option<u64>)
    ensures
        delays.len() == 0 ==> picked is None,
        delays.len() > 0 ==> picked is Some && delays@.contains(picked->0),
{
    rand::seq::IndexedRandom::choose(delays.as_slice(), &mut rand::rng()).copied()
}

/// The pauses, in milliseconds, from which one is picked where the
/// configuration names none.
pub fn default_delays() -> (delays: Vec<u64>)
    ensures
        delays@ == seq![1000u64, 1500u64, 2000u64],
{
    let mut delays: Vec<u64> = Vec::new();
    delays.push(1000);
    delays.push(1500);
    delays.push(2000);
    delays
}

/// What a pause may be: one of `delays`, or nothing where there is none to
/// pick from.
pub open spec fn allowed_delay(delays: Seq<u64>, delay: u64) -> bool {
    if delays.len() == 0 {
        delay == 0
    } else {
        delays.contains(delay)
    }
}

/// Settles what `rand` picked: the pause picked, or none at all.
pub fn settle_delay(picked: Option<u64>) -> (delay: u64)
    ensures
        delay == match picked {
            Some(d) => d,
            None => 0,
        },
{
    match picked {
        Some(delay) => delay,
        None => 0,
    }
}

/// The pause, in milliseconds, before a tab is used again: one of `delays`,
/// picked at random.
pub fn random_delay(delays: &Vec<u64>) -> (delay: u64)
    ensures
        allowed_delay(delays@, delay),
{
    settle_delay(choose_delay(delays))
}

} // verus!
