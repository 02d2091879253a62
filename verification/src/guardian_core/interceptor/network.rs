//! Reports which commonly attacked local ports accept connections.
use vstd::prelude::*;
use crate::text::{concat3, decimal, u64_to_decimal};

verus! {

/// The alert for an open port.
pub open spec fn open_port_alert(port: u16) -> Seq<char> {
    "Port "@ + decimal(port as nat) + " is OPEN on localhost"@
}

/// The alerts for the monitored ports, in monitoring order, that appear in
/// `open_ports`.
pub open spec fn open_port_alerts(monitored: Seq<u16>, open_ports: Seq<u16>) -> Seq<Seq<char>>
    decreases monitored.len(),
{
    if monitored.len() == 0 {
        seq![]
    } else {
        let rest = open_port_alerts(monitored.drop_last(), open_ports);
        if open_ports.contains(monitored.last()) {
            rest.push(open_port_alert(monitored.last()))
        } else {
            rest
        }
    }
}

/// The views of a list of strings.
pub open spec fn text_views(v: Seq<String>) -> Seq<Seq<char>> {
    v.map_values(|s: String| s@)
}

/// Watches a fixed list of local TCP ports.
#[derive(Debug)]
pub struct NetworkSentinel {
    monitored_ports: Vec<u16>,
}

impl View for NetworkSentinel {
    type V = Seq<u16>;

    /// The monitored ports, in order.
    closed spec fn view(&self) -> Seq<u16> {
        self.monitored_ports@
    }
}

fn contains_u16(v: &Vec<u16>, x: u16) -> (b: bool)
    ensures
        b == v@.contains(x),
{
    let mut i: usize = 0;
    while i < v.len()
        invariant
            i <= v@.len(),
            forall|j: int| 0 <= j < i ==> v@[j] != x,
        decreases v@.len() - i,
    {
        if v[i] == x {
            proof {
                assert(v@[i as int] == x);
            }
            return true;
        }
        i += 1;
    }
    false
}

impl NetworkSentinel {
    /// A sentinel for SSH, HTTP(S), MySQL, PostgreSQL, Redis, HTTP-alt and
    /// MongoDB.
    pub fn new() -> (s: NetworkSentinel)
        ensures
            s@ == seq![22u16, 80, 443, 3306, 5432, 6379, 8080, 27017],
    {
        NetworkSentinel { monitored_ports: vec![22, 80, 443, 3306, 5432, 6379, 8080, 27017] }
    }

    /// The monitored ports.
    pub fn monitored_ports(&self) -> (r: &Vec<u16>)
        ensures
            r@ == self@,
    {
        &self.monitored_ports
    }

    /// One alert `Port <n> is OPEN on localhost` for each monitored port,
    /// in monitoring order, that a connection attempt found open.
    pub fn scan_local_ports(&self, open_ports: &Vec<u16>) -> (r: Vec<String>)
        ensures
            text_views(r@) == open_port_alerts(self@, open_ports@),
    {
        let mut out: Vec<String> = Vec::new();
        let mut i: usize = 0;
        while i < self.monitored_ports.len()
            invariant
                i <= self@.len(),
                self@ == self.monitored_ports@,
                text_views(out@) == open_port_alerts(self@.take(i as int), open_ports@),
            decreases self@.len() - i,
        {
            let port = self.monitored_ports[i];
            proof {
                assert(self@.take(i + 1).drop_last() == self@.take(i as int));
                assert(self@.take(i + 1).last() == port);
            }
            if contains_u16(open_ports, port) {
                let n = u64_to_decimal(port as u64);
                let alert = concat3("Port ", n.as_str(), " is OPEN on localhost");
                out.push(alert);
                proof {
                    assert(text_views(out@) == open_port_alerts(
                        self@.take(i as int),
                        open_ports@,
                    ).push(alert@));
                }
            }
            i += 1;
        }
        proof {
            assert(self@.take(self@.len() as int) == self@);
        }
        out
    }
}

/// The port alerts are exactly the monitored ports that were found open, in
/// monitoring order, each reported once as `Port <n> is OPEN on localhost`
/// whatever its number.
pub proof fn lemma_open_port_alerts_are_the_open_monitored_ports(
    monitored: Seq<u16>,
    open_ports: Seq<u16>,
)
    ensures
        open_port_alerts(monitored, open_ports) == monitored.filter(
            |p: u16| open_ports.contains(p),
        ).map_values(|p: u16| "Port "@ + decimal(p as nat) + " is OPEN on localhost"@),
    decreases monitored.len(),
{
    reveal(Seq::filter);
    let f = |p: u16| open_ports.contains(p);
    let g = |p: u16| "Port "@ + decimal(p as nat) + " is OPEN on localhost"@;
    if monitored.len() > 0 {
        lemma_open_port_alerts_are_the_open_monitored_ports(monitored.drop_last(), open_ports);
        let sub = monitored.drop_last().filter(f);
        if f(monitored.last()) {
            assert(sub.push(monitored.last()).map_values(g) =~= sub.map_values(g).push(
                g(monitored.last()),
            ));
        }
    } else {
        assert(monitored.filter(f).map_values(g) =~= Seq::<Seq<char>>::empty());
    }
}

} // verus!
