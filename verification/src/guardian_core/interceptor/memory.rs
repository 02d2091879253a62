//! A stand-in memory scanner: it reports a match for about one call in ten,
//! decided by the sub-second part of the clock.
use vstd::prelude::*;
use crate::bindings::unix_time_now;

verus! {

/// The scanner's verdict for `pid` when the clock's nanoseconds past the
/// second are `subsec_nanos`: PID 0 is invalid and never matches; otherwise
/// a match when the nanoseconds are a multiple of ten.
pub open spec fn scan_verdict_spec(pid: u32, subsec_nanos: u32) -> bool {
    pid != 0 && subsec_nanos % 10 == 0
}

/// The scanner's verdict for `pid` at a clock reading of `subsec_nanos`.
pub fn scan_verdict(pid: u32, subsec_nanos: u32) -> (b: bool)
    ensures
        b == scan_verdict_spec(pid, subsec_nanos),
{
    pid != 0 && subsec_nanos % 10 == 0
}

/// Scans process memory for byte patterns.
#[derive(Debug)]
pub struct MemoryScanner;

impl MemoryScanner {
    pub fn new() -> MemoryScanner {
        MemoryScanner
    }

    /// Whether the pattern was found in process `pid`'s memory. PID 0 is
    /// refused. Otherwise the verdict rests on the current clock (a clock
    /// before the epoch counts as zero nanoseconds).
    pub fn scan_process(&self, pid: u32, pattern: &[u8]) -> (found: bool)
        ensures
            pid == 0 ==> !found,
            pid != 0 ==> exists|n: u32| n < 1_000_000_000 && found == scan_verdict_spec(pid, n),
    {
        if pid == 0 {
            return false;
        }
        let nanos: u32 = match unix_time_now() {
            Some((_, n)) => n,
            None => 0,
        };
        scan_verdict(pid, nanos)
    }
}

} // verus!
