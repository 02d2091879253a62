//! Flags running processes that are known attack or monitoring tools, or
//! that run from a temporary directory.
use vstd::prelude::*;
use crate::text::{concat2, has_infix, owned, str_contains, str_eq};
use crate::guardian_core::incident::{Incident, IncidentView, incident_views};
use crate::bindings::lowercase;

verus! {

/// What the process table says of one process.
#[derive(Debug, Clone)]
pub struct ProcessSnapshot {
    pub pid: u32,
    /// The process name as the system reports it.
    pub name: String,
    /// The executable's path, or empty when unknown.
    pub exe_path: String,
}

/// Names that are flagged when equal to the (lower-cased) process name.
pub open spec fn is_flagged_exact(n: Seq<char>) -> bool {
    ||| n == "nc"@
    ||| n == "ncat"@
    ||| n == "socat"@
    ||| n == "aircrack-ng"@
    ||| n == "nmap"@
    ||| n == "john"@
    ||| n == "hashcat"@
    ||| n == "gobuster"@
    ||| n == "dirb"@
    ||| n == "nikto"@
    ||| n == "maltego"@
    ||| n == "beef-xss"@
    ||| n == "msfconsole"@
}

/// Names that are flagged when they occur in the (lower-cased) process name.
pub open spec fn is_flagged_part(n: Seq<char>) -> bool {
    ||| has_infix(n, "wireshark"@)
    ||| has_infix(n, "tcpdump"@)
    ||| has_infix(n, "metasploit"@)
    ||| has_infix(n, "keylogger"@)
    ||| has_infix(n, "spyware"@)
    ||| has_infix(n, "mimikatz"@)
    ||| has_infix(n, "hydra"@)
}

/// A lower-cased process name that belongs to a known offensive or
/// monitoring tool.
pub open spec fn is_suspicious_name(n: Seq<char>) -> bool {
    is_flagged_exact(n) || is_flagged_part(n)
}

/// An executable path inside a temporary directory.
pub open spec fn is_suspicious_path(p: Seq<char>) -> bool {
    ||| has_infix(p, "/tmp/"@)
    ||| has_infix(p, "/var/tmp/"@)
    ||| has_infix(p, "/private/tmp/"@)
}

/// The incidents raised for one process: first the tool match, then the
/// temporary-directory match.
pub open spec fn process_incidents(
    pid: u32,
    name: Seq<char>,
    exe_path: Seq<char>,
    now: u64,
) -> Seq<IncidentView> {
    let lower = lowercase(name);
    let by_name = if is_suspicious_name(lower) {
        seq![
            IncidentView {
                timestamp: now,
                event_type: "Suspicious Process Detected"@,
                process_name: lower,
                pid,
                severity: "HIGH"@,
                details: Some("Detected potentially malicious or monitoring tool: "@ + name),
            },
        ]
    } else {
        seq![]
    };
    let by_path = if is_suspicious_path(exe_path) {
        seq![
            IncidentView {
                timestamp: now,
                event_type: "Suspicious Execution Path"@,
                process_name: lower,
                pid,
                severity: "CRITICAL"@,
                details: Some("Process running from temporary directory: "@ + exe_path),
            },
        ]
    } else {
        seq![]
    };
    by_name + by_path
}

/// The incidents raised for a whole process table, process by process.
pub open spec fn table_incidents(table: Seq<ProcessSnapshot>, now: u64) -> Seq<IncidentView>
    decreases table.len(),
{
    if table.len() == 0 {
        seq![]
    } else {
        let p = table.last();
        table_incidents(table.drop_last(), now) + process_incidents(p.pid, p.name@, p.exe_path@, now)
    }
}

/// A lower-cased process name of a known attack or monitoring tool: one of
/// the exact names, or one containing one of the tool names.
pub open spec fn names_known_tool(n: Seq<char>) -> bool {
    ||| n == "nc"@ || n == "ncat"@ || n == "socat"@ || n == "aircrack-ng"@ || n == "nmap"@
    ||| n == "john"@ || n == "hashcat"@ || n == "gobuster"@ || n == "dirb"@ || n == "nikto"@
    ||| n == "maltego"@ || n == "beef-xss"@ || n == "msfconsole"@
    ||| has_infix(n, "wireshark"@) || has_infix(n, "tcpdump"@) || has_infix(n, "metasploit"@)
    ||| has_infix(n, "keylogger"@) || has_infix(n, "spyware"@) || has_infix(n, "mimikatz"@)
    ||| has_infix(n, "hydra"@)
}

/// The tool incident for process `pid` named `name`.
pub open spec fn tool_incident(pid: u32, name: Seq<char>, now: u64) -> IncidentView {
    IncidentView {
        timestamp: now,
        event_type: "Suspicious Process Detected"@,
        process_name: lowercase(name),
        pid,
        severity: "HIGH"@,
        details: Some("Detected potentially malicious or monitoring tool: "@ + name),
    }
}

/// Every process of the table whose lower-cased name is that of a known
/// tool raises a `Suspicious Process Detected` incident of severity `HIGH`
/// naming it; a process whose name is no known tool raises at most the
/// temporary-directory incident.
pub proof fn lemma_known_tools_are_reported(table: Seq<ProcessSnapshot>, now: u64, i: int)
    requires
        0 <= i < table.len(),
    ensures
        names_known_tool(lowercase(table[i].name@)) ==> table_incidents(table, now).contains(
            tool_incident(table[i].pid, table[i].name@, now),
        ),
        !names_known_tool(lowercase(table[i].name@)) ==> forall|j: int|
            0 <= j < process_incidents(table[i].pid, table[i].name@, table[i].exe_path@, now).len()
                ==> (#[trigger] process_incidents(
                table[i].pid,
                table[i].name@,
                table[i].exe_path@,
                now,
            )[j]).event_type == "Suspicious Execution Path"@,
    decreases table.len(),
{
    let p = table[i];
    let pi = process_incidents(p.pid, p.name@, p.exe_path@, now);
    if names_known_tool(lowercase(p.name@)) {
        assert(pi[0] == tool_incident(p.pid, p.name@, now));
    }
    if i == table.len() - 1 {
        let rest = table_incidents(table.drop_last(), now);
        if names_known_tool(lowercase(p.name@)) {
            assert(table_incidents(table, now)[rest.len() as int] == pi[0]);
        }
    } else {
        lemma_known_tools_are_reported(table.drop_last(), now, i);
        assert(table.drop_last()[i] == p);
        if names_known_tool(lowercase(p.name@)) {
            let rest = table_incidents(table.drop_last(), now);
            let k = choose|k: int| 0 <= k < rest.len() && rest[k] == tool_incident(p.pid, p.name@, now);
            let last = table.last();
            assert(table_incidents(table, now) == rest + process_incidents(
                last.pid,
                last.name@,
                last.exe_path@,
                now,
            ));
            assert(table_incidents(table, now)[k] == rest[k]);
        }
    }
}

fn name_is_suspicious(n: &str) -> (b: bool)
    ensures
        b == is_suspicious_name(n@),
{
    str_eq(n, "nc") || str_eq(n, "ncat") || str_eq(n, "socat") || str_contains(n, "wireshark")
        || str_contains(n, "tcpdump") || str_contains(n, "metasploit") || str_contains(
        n,
        "keylogger",
    ) || str_contains(n, "spyware") || str_eq(n, "aircrack-ng") || str_contains(n, "mimikatz")
        || str_contains(n, "hydra") || str_eq(n, "nmap") || str_eq(n, "john") || str_eq(
        n,
        "hashcat",
    ) || str_eq(n, "gobuster") || str_eq(n, "dirb") || str_eq(n, "nikto") || str_eq(n, "maltego")
        || str_eq(n, "beef-xss") || str_eq(n, "msfconsole")
}

fn path_is_suspicious(p: &str) -> (b: bool)
    ensures
        b == is_suspicious_path(p@),
{
    str_contains(p, "/tmp/") || str_contains(p, "/var/tmp/") || str_contains(p, "/private/tmp/")
}

/// Scans process tables for suspicious processes.
#[derive(Debug)]
pub struct ProcessMonitor;

impl ProcessMonitor {
    pub fn new() -> ProcessMonitor {
        ProcessMonitor
    }

    /// The incidents for the processes in `table`, stamped `now` (seconds
    /// since the Unix epoch).
    pub fn scan_processes(&self, table: &Vec<ProcessSnapshot>, now: u64) -> (r: Vec<Incident>)
        ensures
            incident_views(r@) == table_incidents(table@, now),
    {
        let mut out: Vec<Incident> = Vec::new();
        let mut i: usize = 0;
        while i < table.len()
            invariant
                i <= table@.len(),
                incident_views(out@) == table_incidents(table@.take(i as int), now),
            decreases table@.len() - i,
        {
            let p = &table[i];
            let ghost before = incident_views(out@);
            let name = p.name.as_str().to_lowercase();
            if name_is_suspicious(name.as_str()) {
                let inc = Incident {
                    timestamp: now,
                    event_type: owned("Suspicious Process Detected"),
                    process_name: name.clone(),
                    pid: p.pid,
                    severity: owned("HIGH"),
                    details: Some(
                        concat2(
                            "Detected potentially malicious or monitoring tool: ",
                            p.name.as_str(),
                        ),
                    ),
                };
                out.push(inc);
            }
            let ghost mid = incident_views(out@);
            if path_is_suspicious(p.exe_path.as_str()) {
                let inc = Incident {
                    timestamp: now,
                    event_type: owned("Suspicious Execution Path"),
                    process_name: name,
                    pid: p.pid,
                    severity: owned("CRITICAL"),
                    details: Some(
                        concat2("Process running from temporary directory: ", p.exe_path.as_str()),
                    ),
                };
                out.push(inc);
            }
            proof {
                assert(table@.take(i + 1).drop_last() == table@.take(i as int));
                assert(table@.take(i + 1).last() == table@[i as int]);
                let pi = process_incidents(p.pid, p.name@, p.exe_path@, now);
                assert(incident_views(out@) == before + pi);
            }
            i += 1;
        }
        proof {
            assert(table@.take(table@.len() as int) == table@);
        }
        out
    }
}

} // verus!
