//! Listening TCP ports, as the dashboard reports them, read from the
//! field-per-line output of `lsof -iTCP -sTCP:LISTEN -n -P -Fpcn`.
use vstd::prelude::*;
use crate::text::{
    chars_of, lines, lines_of, char_views, parse_bounded, parse_unsigned, last_index_of,
    rfind_char, slice_chars, str_eq, string_from_chars,
};
use crate::bindings::{utf8_lossy, utf8_lossy_decode};

verus! {

/// The mathematical content of an [`ExposedPort`].
pub struct PortRecord {
    pub port: u16,
    pub pid: u32,
    pub process_name: Seq<char>,
    pub is_risky: bool,
    pub ignored: bool,
}

/// A port some process listens on.
#[derive(Debug, Clone)]
pub struct ExposedPort {
    pub port: u16,
    pub pid: u32,
    pub process_name: String,
    /// The port is one of the sentinel's monitored (commonly attacked) ports.
    pub is_risky: bool,
    /// The (port, pid) pair has been approved by the user.
    pub ignored: bool,
}

impl View for ExposedPort {
    type V = PortRecord;

    open spec fn view(&self) -> PortRecord {
        PortRecord {
            port: self.port,
            pid: self.pid,
            process_name: self.process_name@,
            is_risky: self.is_risky,
            ignored: self.ignored,
        }
    }
}

/// The views of a list of ports.
pub open spec fn port_views(v: Seq<ExposedPort>) -> Seq<PortRecord> {
    v.map_values(|p: ExposedPort| p@)
}

/// The parser's state between lines: the last process id and command name
/// seen, and the ports found so far.
pub struct LsofState {
    pub pid: u32,
    pub process_name: Seq<char>,
    pub found: Seq<PortRecord>,
}

/// The state before the first line.
pub open spec fn lsof_initial() -> LsofState {
    LsofState { pid: 0, process_name: seq![], found: seq![] }
}

/// One line of `lsof -F` output: `p<pid>` sets the current process id (when
/// it parses as `u32`), `c<command>` the current command name, and
/// `n<address>:<port>` reports a listening port (when the text after the last
/// `:` parses as `u16`); a port already reported with the same process is not
/// added again. Other lines are ignored.
pub open spec fn lsof_step(st: LsofState, line: Seq<char>, monitored: Seq<u16>) -> LsofState {
    if line.len() > 0 && line[0] == 'p' {
        match parse_bounded(line.drop_first(), u32::MAX as nat) {
            Some(v) => LsofState { pid: v as u32, process_name: st.process_name, found: st.found },
            None => st,
        }
    } else if line.len() > 0 && line[0] == 'c' {
        LsofState { pid: st.pid, process_name: line.drop_first(), found: st.found }
    } else if line.len() > 0 && line[0] == 'n' {
        match last_index_of(line, ':') {
            Some(k) => match parse_bounded(line.skip(k + 1), u16::MAX as nat) {
                Some(p) => {
                    let rec = PortRecord {
                        port: p as u16,
                        pid: st.pid,
                        process_name: st.process_name,
                        is_risky: monitored.contains(p as u16),
                        ignored: false,
                    };
                    if st.found.contains(rec) {
                        st
                    } else {
                        LsofState {
                            pid: st.pid,
                            process_name: st.process_name,
                            found: st.found.push(rec),
                        }
                    }
                },
                None => st,
            },
            None => st,
        }
    } else {
        st
    }
}

/// The parser's state after the given lines.
pub open spec fn lsof_run(lines: Seq<Seq<char>>, monitored: Seq<u16>) -> LsofState
    decreases lines.len(),
{
    if lines.len() == 0 {
        lsof_initial()
    } else {
        lsof_step(lsof_run(lines.drop_last(), monitored), lines.last(), monitored)
    }
}

/// The ports reported by `lsof` output `output`.
pub open spec fn listening_ports(output: Seq<char>, monitored: Seq<u16>) -> Seq<PortRecord> {
    lsof_run(lines(output), monitored).found
}

/// Every port in `found` is reported once, is not yet approved, and is risky
/// exactly when it is monitored.
pub open spec fn well_formed_report(found: Seq<PortRecord>, monitored: Seq<u16>) -> bool {
    &&& forall|i: int, j: int| 0 <= i < j < found.len() ==> found[i] != found[j]
    &&& forall|i: int|
        0 <= i < found.len() ==> (#[trigger] found[i]).is_risky == monitored.contains(found[i].port)
            && !found[i].ignored
}

/// Each step of the parser keeps its report well formed.
pub proof fn lemma_lsof_step_well_formed(st: LsofState, line: Seq<char>, monitored: Seq<u16>)
    requires
        well_formed_report(st.found, monitored),
    ensures
        well_formed_report(lsof_step(st, line, monitored).found, monitored),
{
    let next = lsof_step(st, line, monitored).found;
    if next.len() == st.found.len() + 1 {
        let rec = next.last();
        assert(next == st.found.push(rec));
        assert forall|i: int, j: int| 0 <= i < j < next.len() implies next[i] != next[j] by {
            if j == next.len() - 1 {
                assert(next[i] == st.found[i]);
                assert(!st.found.contains(rec));
            }
        }
    }
}

/// The ports read from any `lsof` output are reported once each, none is yet
/// approved, and each is risky exactly when it is monitored.
pub proof fn lemma_listening_ports_well_formed(lines: Seq<Seq<char>>, monitored: Seq<u16>)
    ensures
        well_formed_report(lsof_run(lines, monitored).found, monitored),
    decreases lines.len(),
{
    if lines.len() > 0 {
        lemma_listening_ports_well_formed(lines.drop_last(), monitored);
        lemma_lsof_step_well_formed(
            lsof_run(lines.drop_last(), monitored),
            lines.last(),
            monitored,
        );
    }
}

/// Checks the monitored ports of a sentinel.
#[derive(Debug)]
pub struct NetworkSentinel {
    monitored_ports: Vec<u16>,
}

impl View for NetworkSentinel {
    type V = Seq<u16>;

    closed spec fn view(&self) -> Seq<u16> {
        self.monitored_ports@
    }
}

fn same_port(a: &ExposedPort, b: &ExposedPort) -> (r: bool)
    ensures
        r == (a@ == b@),
{
    a.port == b.port && a.pid == b.pid && a.is_risky == b.is_risky && a.ignored == b.ignored
        && str_eq(a.process_name.as_str(), b.process_name.as_str())
}

fn contains_port(v: &Vec<ExposedPort>, p: &ExposedPort) -> (r: bool)
    ensures
        r == port_views(v@).contains(p@),
{
    let mut i: usize = 0;
    while i < v.len()
        invariant
            i <= v.len(),
            forall|j: int| 0 <= j < i ==> v@[j]@ != p@,
        decreases v.len() - i,
    {
        if same_port(&v[i], p) {
            proof {
                assert(port_views(v@)[i as int] == p@);
            }
            return true;
        }
        i += 1;
    }
    proof {
        if port_views(v@).contains(p@) {
            let k = choose|k: int| 0 <= k < port_views(v@).len() && port_views(v@)[k] == p@;
            assert(v@[k]@ == p@);
        }
    }
    false
}

impl NetworkSentinel {
    /// A sentinel watching SSH, HTTP(S), SQL Server, MySQL, PostgreSQL, Redis,
    /// HTTP-alt and MongoDB ports.
    pub fn new() -> (s: Self)
        ensures
            s@ == seq![22u16, 80, 443, 1433, 3306, 5432, 6379, 8080, 27017],
    {
        let v: Vec<u16> = vec![22, 80, 443, 1433, 3306, 5432, 6379, 8080, 27017];
        NetworkSentinel { monitored_ports: v }
    }

    /// Whether `port` is monitored.
    pub fn is_monitored(&self, port: u16) -> (b: bool)
        ensures
            b == self@.contains(port),
    {
        let mut i: usize = 0;
        while i < self.monitored_ports.len()
            invariant
                i <= self.monitored_ports@.len(),
                forall|j: int| 0 <= j < i ==> self.monitored_ports@[j] != port,
            decreases self.monitored_ports@.len() - i,
        {
            if self.monitored_ports[i] == port {
                proof {
                    assert(self@[i as int] == port);
                }
                return true;
            }
            i += 1;
        }
        false
    }

    /// The listening ports described by `lsof -Fpcn` output `output`.
    pub fn parse_lsof_output(&self, output: &str) -> (r: Vec<ExposedPort>)
        ensures
            port_views(r@) == listening_ports(output@, self@),
            well_formed_report(port_views(r@), self@),
    {
        let cs = chars_of(output);
        let ls = lines_of(cs.as_slice());
        let ghost lv = char_views(ls@);
        let mut out: Vec<ExposedPort> = Vec::new();
        let mut cur_pid: u32 = 0;
        let mut cur_name: Vec<char> = Vec::new();
        let mut i: usize = 0;
        proof {
            assert(lv.take(0) == Seq::<Seq<char>>::empty());
            assert(port_views(out@) == Seq::<PortRecord>::empty());
        }
        while i < ls.len()
            invariant
                i <= ls@.len(),
                lv == char_views(ls@),
                lv.len() == ls@.len(),
                lsof_run(lv.take(i as int), self@) == (LsofState {
                    pid: cur_pid,
                    process_name: cur_name@,
                    found: port_views(out@),
                }),
            decreases ls@.len() - i,
        {
            let line = &ls[i];
            let n = line.len();
            let ghost st = LsofState {
                pid: cur_pid,
                process_name: cur_name@,
                found: port_views(out@),
            };
            proof {
                assert(lv.take(i + 1).drop_last() == lv.take(i as int));
                assert(lv.take(i + 1).last() == line@);
            }
            if n > 0 && line[0] == 'p' {
                let rest = slice_chars(line.as_slice(), 1, n);
                proof {
                    assert(rest@ == line@.drop_first());
                }
                match parse_unsigned(rest.as_slice(), 4294967295u64) {
                    Some(v) => {
                        cur_pid = v as u32;
                    },
                    None => {},
                }
            } else if n > 0 && line[0] == 'c' {
                cur_name = slice_chars(line.as_slice(), 1, n);
                proof {
                    assert(cur_name@ == line@.drop_first());
                }
            } else if n > 0 && line[0] == 'n' {
                match rfind_char(line.as_slice(), ':') {
                    Some(k) => {
                        let rest = slice_chars(line.as_slice(), k + 1, n);
                        proof {
                            assert(rest@ == line@.skip(k + 1));
                        }
                        match parse_unsigned(rest.as_slice(), 65535u64) {
                            Some(p) => {
                                let port = p as u16;
                                let is_risky = self.is_monitored(port);
                                let exposed = ExposedPort {
                                    port,
                                    pid: cur_pid,
                                    process_name: string_from_chars(cur_name.as_slice()),
                                    is_risky,
                                    ignored: false,
                                };
                                if !contains_port(&out, &exposed) {
                                    out.push(exposed);
                                    proof {
                                        assert(port_views(out@) == st.found.push(exposed@));
                                    }
                                }
                            },
                            None => {},
                        }
                    },
                    None => {},
                }
            }
            i += 1;
        }
        proof {
            assert(lv.take(ls@.len() as int) == lv);
            lemma_listening_ports_well_formed(lv, self@);
        }
        out
    }

    /// The listening ports in the standard output of `lsof`, decoded as UTF-8
    /// with invalid sequences replaced.
    pub fn scan_local_ports(&self, lsof_stdout: &[u8]) -> (r: Vec<ExposedPort>)
        ensures
            port_views(r@) == listening_ports(utf8_lossy(lsof_stdout@), self@),
            well_formed_report(port_views(r@), self@),
    {
        let text = utf8_lossy_decode(lsof_stdout);
        self.parse_lsof_output(text.as_str())
    }
}

} // verus!
