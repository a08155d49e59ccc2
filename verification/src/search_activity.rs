use vstd::prelude::*;

verus! {

/// How long searching must have paused before the index is flushed: five
/// minutes, in milliseconds.
pub const IDLE_FLUSH_INTERVAL_MS: u64 = 300000;

/// The milliseconds since the last search at `last_ms` (Unix time, 0 for
/// none yet), seen at `now_ms`; a clock that went back counts as no time.
pub fn elapsed_since_last_search(last_ms: u64, now_ms: u64) -> (r: Option<u64>)
    ensures
        last_ms == 0 <==> r is None,
        r matches Some(e) ==> e == if now_ms >= last_ms { now_ms - last_ms } else { 0 },
{
    if last_ms == 0 {
        return None;
    }
    Some(now_ms.saturating_sub(last_ms))
}

/// Whether searching has paused for at least the flush interval.
pub fn search_idles(last_ms: u64, now_ms: u64) -> (r: bool)
    ensures
        r == (last_ms != 0 && now_ms >= last_ms && now_ms - last_ms >= IDLE_FLUSH_INTERVAL_MS),
{
    match elapsed_since_last_search(last_ms, now_ms) {
        Some(elapsed) => elapsed >= IDLE_FLUSH_INTERVAL_MS,
        None => false,
    }
}

} // verus!
