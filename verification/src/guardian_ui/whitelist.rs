//! The network port whitelist: where it is stored, the approval timestamps,
//! and which approvals have gone stale. The rows themselves live in SQLite.
use vstd::prelude::*;
use crate::text::{decimal, owned, push_str, push_chars, u64_to_decimal, string_from_chars};
use crate::bindings::{home_dir, path_join, path_joined, unix_time_now};

verus! {

/// An approved (port, process) pair.
#[derive(Debug, Clone)]
pub struct WhitelistEntry {
    pub port: u16,
    pub pid: u32,
    pub process_name: String,
    pub approved_at: String,
}

/// `<home or .>/.aegis-guardian/whitelist.db`.
pub open spec fn db_path_under(home: Option<Seq<char>>) -> Seq<char> {
    let base = match home {
        Some(h) => h,
        None => "."@,
    };
    path_joined(path_joined(base, ".aegis-guardian"@), "whitelist.db"@)
}

/// The whitelist database under home directory `home` (`.` when unknown).
pub fn db_path_for(home: Option<String>) -> (p: String)
    ensures
        p@ == db_path_under(match home {
            Some(h) => Some(h@),
            None => None,
        }),
{
    let base = match home {
        Some(h) => h,
        None => owned("."),
    };
    let dir = path_join(base.as_str(), ".aegis-guardian");
    path_join(dir.as_str(), "whitelist.db")
}

/// The whitelist database under the user's home directory, as `dirs`
/// finds it.
pub fn db_path() -> (p: String)
    ensures
        exists|h: Option<Seq<char>>| p@ == db_path_under(h),
{
    db_path_for(home_dir())
}

/// The simple calendar used for approval times: 365-day years and 30-day
/// months, month capped at 12 and day at 31.
pub open spec fn unix_to_datetime_spec(secs: u64) -> (u64, u64, u64, u64, u64, u64) {
    let s = secs % 60;
    let m = (secs / 60) % 60;
    let h = (secs / 3600) % 24;
    let days = secs / 86400;
    let year = 1970 + days / 365;
    let day_of_year = days % 365;
    let month = day_of_year / 30 + 1;
    let day = day_of_year % 30 + 1;
    (
        year as u64,
        if month < 12 {
            month as u64
        } else {
            12
        },
        if day < 31 {
            day as u64
        } else {
            31
        },
        h as u64,
        m as u64,
        s as u64,
    )
}

/// Splits seconds since the epoch into (year, month, day, hour, minute,
/// second) on the simple calendar.
pub fn unix_to_datetime(secs: u64) -> (r: (u64, u64, u64, u64, u64, u64))
    ensures
        r == unix_to_datetime_spec(secs),
{
    let s = secs % 60;
    let m = (secs / 60) % 60;
    let h = (secs / 3600) % 24;
    let days = secs / 86400;
    let year = 1970 + days / 365;
    let day_of_year = days % 365;
    let month = day_of_year / 30 + 1;
    let day = day_of_year % 30 + 1;
    (year, if month < 12 {
        month
    } else {
        12
    }, if day < 31 {
        day
    } else {
        31
    }, h, m, s)
}

/// `n` in decimal, left-padded with zeros to at least `width` digits.
pub open spec fn zero_padded(n: nat, width: nat) -> Seq<char> {
    let d = decimal(n);
    if d.len() < width {
        Seq::new((width - d.len()) as nat, |i: int| '0') + d
    } else {
        d
    }
}

/// `n` in decimal, left-padded with zeros to at least `width` digits.
pub fn zero_pad(n: u64, width: usize) -> (s: String)
    ensures
        s@ == zero_padded(n as nat, width as nat),
{
    let d = u64_to_decimal(n);
    let digits = crate::text::chars_of(d.as_str());
    if digits.len() < width {
        let fill = width - digits.len();
        let mut zeros: Vec<char> = Vec::new();
        let mut i: usize = 0;
        while i < fill
            invariant
                i <= fill,
                zeros@ == Seq::new(i as nat, |k: int| '0'),
            decreases fill - i,
        {
            zeros.push('0');
            proof {
                assert(zeros@ =~= Seq::new((i + 1) as nat, |k: int| '0'));
            }
            i += 1;
        }
        let mut s = string_from_chars(zeros.as_slice());
        push_chars(&mut s, digits.as_slice());
        s
    } else {
        d
    }
}

/// `YYYY-MM-DD hh:mm:ss` for the simple calendar.
pub open spec fn approval_time_text(secs: u64) -> Seq<char> {
    let (y, mo, d, h, mi, s) = unix_to_datetime_spec(secs);
    zero_padded(y as nat, 4) + "-"@ + zero_padded(mo as nat, 2) + "-"@ + zero_padded(d as nat, 2)
        + " "@ + zero_padded(h as nat, 2) + ":"@ + zero_padded(mi as nat, 2) + ":"@ + zero_padded(
        s as nat,
        2,
    )
}

/// The approval time text for `secs` seconds since the epoch.
pub fn format_approval_time(secs: u64) -> (t: String)
    ensures
        t@ == approval_time_text(secs),
{
    let (y, mo, d, h, mi, s) = unix_to_datetime(secs);
    let mut t = zero_pad(y, 4);
    push_str(&mut t, "-");
    let part = zero_pad(mo, 2);
    push_str(&mut t, part.as_str());
    push_str(&mut t, "-");
    let part = zero_pad(d, 2);
    push_str(&mut t, part.as_str());
    push_str(&mut t, " ");
    let part = zero_pad(h, 2);
    push_str(&mut t, part.as_str());
    push_str(&mut t, ":");
    let part = zero_pad(mi, 2);
    push_str(&mut t, part.as_str());
    push_str(&mut t, ":");
    let part = zero_pad(s, 2);
    push_str(&mut t, part.as_str());
    t
}

/// The current time as approval text; a clock before the epoch counts as 0.
pub fn chrono_now() -> (t: String)
    ensures
        exists|secs: u64| t@ == approval_time_text(secs),
{
    let secs: u64 = match unix_time_now() {
        Some((s, _)) => s,
        None => 0,
    };
    format_approval_time(secs)
}

/// The ports of stored approvals whose (port, pid) pair is not among the
/// active listeners, in stored order.
pub open spec fn stale_ports_spec(stored: Seq<(u16, u32)>, active: Seq<(u16, u32)>) -> Seq<u16>
    decreases stored.len(),
{
    if stored.len() == 0 {
        seq![]
    } else {
        let rest = stale_ports_spec(stored.drop_last(), active);
        if active.contains(stored.last()) {
            rest
        } else {
            rest.push(stored.last().0)
        }
    }
}

fn contains_pair(v: &Vec<(u16, u32)>, x: (u16, u32)) -> (b: bool)
    ensures
        b == v@.contains(x),
{
    let mut i: usize = 0;
    while i < v.len()
        invariant
            i <= v@.len(),
            forall|j: int| 0 <= j < i ==> v@[j] != x,
        decreases v@.len() - i,
    {
        if v[i].0 == x.0 && v[i].1 == x.1 {
            proof {
                assert(v@[i as int] == x);
            }
            return true;
        }
        i += 1;
    }
    false
}

/// The ports whose approvals are stale: the stored (port, pid) pair is not
/// listening any more. These are the rows `cleanup_stale_whitelist` removes.
pub fn stale_ports(stored: &Vec<(u16, u32)>, active: &Vec<(u16, u32)>) -> (r: Vec<u16>)
    ensures
        r@ == stale_ports_spec(stored@, active@),
{
    let mut out: Vec<u16> = Vec::new();
    let mut i: usize = 0;
    while i < stored.len()
        invariant
            i <= stored@.len(),
            out@ == stale_ports_spec(stored@.take(i as int), active@),
        decreases stored@.len() - i,
    {
        let pair = stored[i];
        proof {
            assert(stored@.take(i + 1).drop_last() == stored@.take(i as int));
            assert(stored@.take(i + 1).last() == pair);
        }
        if !contains_pair(active, pair) {
            out.push(pair.0);
        }
        i += 1;
    }
    proof {
        assert(stored@.take(stored@.len() as int) == stored@);
    }
    out
}

/// A stored row's (port, pid), read back from SQLite's 64-bit integers by
/// truncation.
pub fn whitelist_row(port: i64, pid: i64) -> (r: (u16, u32))
    ensures
        r == (port as u16, pid as u32),
{
    (port as u16, pid as u32)
}

proof fn lemma_stale_ports_members(stored: Seq<(u16, u32)>, active: Seq<(u16, u32)>)
    ensures
        forall|i: int|
            0 <= i < stored.len() && !active.contains(#[trigger] stored[i]) ==> stale_ports_spec(
                stored,
                active,
            ).contains(stored[i].0),
        forall|p: u16|
            stale_ports_spec(stored, active).contains(p) ==> exists|i: int|
                0 <= i < stored.len() && stored[i].0 == p && !active.contains(stored[i]),
    decreases stored.len(),
{
    if stored.len() > 0 {
        lemma_stale_ports_members(stored.drop_last(), active);
        let rest = stale_ports_spec(stored.drop_last(), active);
        let all = stale_ports_spec(stored, active);
        assert forall|i: int|
            0 <= i < stored.len() && !active.contains(#[trigger] stored[i]) implies all.contains(
            stored[i].0,
        ) by {
            if i < stored.len() - 1 {
                assert(stored.drop_last()[i] == stored[i]);
                let k = choose|k: int| 0 <= k < rest.len() && rest[k] == stored[i].0;
                if !active.contains(stored.last()) {
                    assert(rest.push(stored.last().0)[k] == stored[i].0);
                }
            } else {
                assert(all.last() == stored[i].0);
            }
        }
        assert forall|p: u16| all.contains(p) implies exists|i: int|
            0 <= i < stored.len() && stored[i].0 == p && !active.contains(stored[i]) by {
            let k = choose|k: int| 0 <= k < all.len() && all[k] == p;
            if k < rest.len() {
                assert(rest[k] == all[k]);
                assert(rest.contains(p));
                let sd = stored.drop_last();
                let i = choose|i: int|
                    0 <= i < sd.len() && sd[i].0 == p && !active.contains(sd[i]);
                assert(stored[i] == sd[i]);
                assert(0 <= i < stored.len() && stored[i].0 == p && !active.contains(stored[i]));
            } else {
                let i = stored.len() - 1;
                assert(stored[i].0 == p && !active.contains(stored[i]));
            }
        }
    }
}

/// Removing the stale ports leaves only approvals whose pair is listening:
/// a stored pair survives the clean-up exactly when its port is not stale,
/// and with unique ports that is exactly when the pair is active.
pub proof fn lemma_cleanup_keeps_only_active(stored: Seq<(u16, u32)>, active: Seq<(u16, u32)>)
    requires
        forall|i: int, j: int| 0 <= i < j < stored.len() ==> stored[i].0 != stored[j].0,
    ensures
        forall|i: int|
            0 <= i < stored.len() ==> (!stale_ports_spec(stored, active).contains(
                #[trigger] stored[i].0,
            ) <==> active.contains(stored[i])),
{
    lemma_stale_ports_members(stored, active);
    assert forall|i: int| 0 <= i < stored.len() implies (!stale_ports_spec(
        stored,
        active,
    ).contains(#[trigger] stored[i].0) <==> active.contains(stored[i])) by {
        if stale_ports_spec(stored, active).contains(stored[i].0) {
            let j = choose|j: int|
                0 <= j < stored.len() && stored[j].0 == stored[i].0 && !active.contains(stored[j]);
            if j != i {
                if j < i {
                } else {
                }
            }
        }
    }
}

} // verus!
