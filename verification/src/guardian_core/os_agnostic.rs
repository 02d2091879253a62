//! The host's name and operating system.
use vstd::prelude::*;
use crate::text::owned;
use crate::bindings::{system_host_name, system_os_name, system_os_version};

verus! {

/// A reported value, or `Unknown` when none was reported.
pub open spec fn or_unknown(v: Option<Seq<char>>) -> Seq<char> {
    match v {
        Some(s) => s,
        None => "Unknown"@,
    }
}

/// The view of optional text.
pub open spec fn opt_text(o: Option<String>) -> Option<Seq<char>> {
    match o {
        Some(s) => Some(s@),
        None => None,
    }
}

fn value_or_unknown(v: Option<String>) -> (r: String)
    ensures
        r@ == or_unknown(opt_text(v)),
{
    match v {
        Some(s) => s,
        None => owned("Unknown"),
    }
}

/// Host and OS names.
#[derive(Debug, Clone)]
pub struct SystemInfo {
    pub hostname: String,
    pub os_name: String,
    pub os_version: String,
}

impl SystemInfo {
    /// The reported values, each replaced by `Unknown` when missing.
    pub fn from_reported(
        hostname: Option<String>,
        os_name: Option<String>,
        os_version: Option<String>,
    ) -> (s: SystemInfo)
        ensures
            s.hostname@ == or_unknown(opt_text(hostname)),
            s.os_name@ == or_unknown(opt_text(os_name)),
            s.os_version@ == or_unknown(opt_text(os_version)),
    {
        SystemInfo {
            hostname: value_or_unknown(hostname),
            os_name: value_or_unknown(os_name),
            os_version: value_or_unknown(os_version),
        }
    }

    /// What `sysinfo` reports for this machine, with `Unknown` for what it
    /// cannot tell.
    pub fn new() -> (s: SystemInfo)
        ensures
            exists|h: Option<Seq<char>>, n: Option<Seq<char>>, v: Option<Seq<char>>|
                s.hostname@ == or_unknown(h) && s.os_name@ == or_unknown(n) && s.os_version@
                    == or_unknown(v),
    {
        let h = system_host_name();
        let n = system_os_name();
        let v = system_os_version();
        let s = Self::from_reported(h, n, v);
        proof {
            assert(s.hostname@ == or_unknown(opt_text(h)) && s.os_name@ == or_unknown(opt_text(n))
                && s.os_version@ == or_unknown(opt_text(v)));
        }
        s
    }
}

} // verus!
