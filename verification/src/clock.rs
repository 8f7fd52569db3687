//! Wall-clock ticks.
use vstd::prelude::*;

verus! {

/// `SystemTime::now().duration_since(UNIX_EPOCH)` as whole seconds and the
/// nanoseconds past them (`Duration::as_secs`, `Duration::subsec_nanos`);
/// `None` when the clock reads before the epoch. Of the value only the
/// documented bound of `subsec_nanos` (below one billion) is claimed: the
/// rest is the machine's clock.
#[verifier::external_body]
pub(crate) fn since_unix_epoch() -> (r: Option<(u64, u32)>)
    ensures
        r matches Some((_, nanos)) ==> nanos < 1_000_000_000,
{
    std::time::SystemTime::now().duration_since(std::time::UNIX_EPOCH).ok().map(
        |d| (d.as_secs(), d.subsec_nanos()),
    )
}

/// Wall-clock seconds, `0` for a clock before the epoch: the tick the ledger
/// TTL is measured against.
pub fn now_secs() -> u64 {
    match since_unix_epoch() {
        Some((secs, _)) => secs,
        None => 0,
    }
}

/// A coarse `now` tick (Unix seconds) for TTL registries.
pub fn now_tick() -> u64 {
    now_secs()
}

} // verus!
