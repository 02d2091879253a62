//! Where quarantined files go. Files are moved, never deleted.
use vstd::prelude::*;
use crate::text::{
    decimal, owned, concat3, push_str, str_eq, u64_to_decimal, lemma_parse_decimal_roundtrip,
    lemma_decimal_nonempty,
};
use crate::bindings::{desktop_dir, file_name_of, path_file_name, path_join, path_joined};

verus! {

/// The `n`-th name tried for a file called `name` quarantined at
/// `timestamp`: `<timestamp>_<name>`, then `<timestamp>_<n>_<name>`.
pub open spec fn stamped_name(name: Seq<char>, timestamp: u64, n: nat) -> Seq<char> {
    if n == 0 {
        decimal(timestamp as nat) + "_"@ + name
    } else {
        decimal(timestamp as nat) + "_"@ + decimal(n) + "_"@ + name
    }
}

/// The file name of a path, empty when it has none.
pub open spec fn name_of(file_path: Seq<char>) -> Seq<char> {
    match path_file_name(file_path) {
        Some(n) => n,
        None => seq![],
    }
}

/// `k` is the first try whose name is not among `taken`.
pub open spec fn first_free(name: Seq<char>, timestamp: u64, taken: Seq<Seq<char>>, k: nat) -> bool {
    &&& !taken.contains(stamped_name(name, timestamp, k))
    &&& forall|j: nat| j < k ==> taken.contains(#[trigger] stamped_name(name, timestamp, j))
}

/// At most one try is the first free one.
pub proof fn lemma_first_free_unique(name: Seq<char>, timestamp: u64, taken: Seq<Seq<char>>, j: nat, k: nat)
    requires
        first_free(name, timestamp, taken, j),
        first_free(name, timestamp, taken, k),
    ensures
        j == k,
{
    if j < k {
        assert(taken.contains(stamped_name(name, timestamp, j)));
    } else if k < j {
        assert(taken.contains(stamped_name(name, timestamp, k)));
    }
}

/// When some try is free, a first free one exists.
pub proof fn lemma_some_first_free(name: Seq<char>, timestamp: u64, taken: Seq<Seq<char>>, k: nat)
    requires
        !taken.contains(stamped_name(name, timestamp, k)),
    ensures
        first_free(name, timestamp, taken, first_free_index(name, timestamp, taken)),
    decreases k,
{
    if forall|j: nat| j < k ==> taken.contains(#[trigger] stamped_name(name, timestamp, j)) {
        assert(first_free(name, timestamp, taken, k));
    } else {
        let j = choose|j: nat| j < k && !taken.contains(#[trigger] stamped_name(name, timestamp, j));
        lemma_some_first_free(name, timestamp, taken, j);
    }
}

/// The index of the first free try.
pub open spec fn first_free_index(name: Seq<char>, timestamp: u64, taken: Seq<Seq<char>>) -> nat {
    choose|k: nat| first_free(name, timestamp, taken, k)
}

/// The names tried are pairwise different.
pub proof fn lemma_stamped_names_distinct(name: Seq<char>, timestamp: u64, j: nat, k: nat)
    requires
        j != k,
    ensures
        stamped_name(name, timestamp, j) != stamped_name(name, timestamp, k),
{
    reveal_strlit("_");
    let d = decimal(timestamp as nat);
    lemma_decimal_nonempty(j);
    lemma_decimal_nonempty(k);
    if j != 0 && k != 0 {
        let a = stamped_name(name, timestamp, j);
        let b = stamped_name(name, timestamp, k);
        if a == b {
            let dj = decimal(j);
            let dk = decimal(k);
            if dj.len() == dk.len() {
                assert(a.subrange(d.len() + 1int, d.len() + 1int + dj.len()) =~= dj);
                assert(b.subrange(d.len() + 1int, d.len() + 1int + dk.len()) =~= dk);
                lemma_parse_decimal_roundtrip(j, j + k);
                lemma_parse_decimal_roundtrip(k, j + k);
            } else {
                assert(a.len() != b.len());
            }
        }
    } else {
        assert(stamped_name(name, timestamp, j).len() != stamped_name(name, timestamp, k).len());
    }
}

/// Among `taken.len() + 1` tries at least one name is free.
pub proof fn lemma_free_name_exists(name: Seq<char>, timestamp: u64, taken: Seq<Seq<char>>)
    ensures
        exists|k: nat| k <= taken.len() && !taken.contains(#[trigger] stamped_name(name, timestamp, k)),
{
    if forall|k: nat| k <= taken.len() ==> taken.contains(#[trigger] stamped_name(name, timestamp, k)) {
        let m = taken.len() as int;
        let x = vstd::set_lib::set_int_range(0, m + 1);
        let f = |i: int| stamped_name(name, timestamp, i as nat);
        vstd::set_lib::lemma_int_range(0, m + 1);
        assert(vstd::relations::injective_on(f, x)) by {
            assert forall|i: int, j: int| x.contains(i) && x.contains(j) && #[trigger] f(i) == #[trigger] f(j) implies i == j by {
                if i != j {
                    lemma_stamped_names_distinct(name, timestamp, i as nat, j as nat);
                }
            }
        }
        let y = x.map(f);
        vstd::set_lib::lemma_map_size(x, y, f);
        assert(y.subset_of(taken.to_set())) by {
            assert forall|c: Seq<char>| y.contains(c) implies taken.to_set().contains(c) by {
                let i = choose|i: int| x.contains(i) && f(i) == c;
                assert(taken.contains(stamped_name(name, timestamp, i as nat)));
            }
        }
        taken.lemma_cardinality_of_set();
        vstd::set_lib::lemma_len_subset(y, taken.to_set());
        assert(false);
    }
}

fn contains_text(v: &Vec<String>, s: &str) -> (b: bool)
    ensures
        b == v@.map_values(|x: String| x@).contains(s@),
{
    let ghost vv = v@.map_values(|x: String| x@);
    let mut i: usize = 0;
    while i < v.len()
        invariant
            i <= v@.len(),
            vv == v@.map_values(|x: String| x@),
            forall|j: int| 0 <= j < i ==> vv[j] != s@,
        decreases v@.len() - i,
    {
        if str_eq(v[i].as_str(), s) {
            proof {
                assert(vv[i as int] == s@);
            }
            return true;
        }
        i += 1;
    }
    false
}

/// The first of `<timestamp>_<name>`, `<timestamp>_1_<name>`, ... that is not
/// among `taken`.
pub fn free_stamped_name(name: &str, timestamp: u64, taken: &Vec<String>) -> (r: String)
    ensures
        exists|k: nat|
            first_free(name@, timestamp, taken@.map_values(|x: String| x@), k) && r@ == stamped_name(
                name@,
                timestamp,
                k,
            ),
        first_free(
            name@,
            timestamp,
            taken@.map_values(|x: String| x@),
            first_free_index(name@, timestamp, taken@.map_values(|x: String| x@)),
        ),
        r@ == stamped_name(
            name@,
            timestamp,
            first_free_index(name@, timestamp, taken@.map_values(|x: String| x@)),
        ),
{
    let ghost tv = taken@.map_values(|x: String| x@);
    let stamp = u64_to_decimal(timestamp);
    let len = taken.len();
    let mut n: usize = 0;
    proof {
        lemma_free_name_exists(name@, timestamp, tv);
    }
    loop
        invariant
            tv == taken@.map_values(|x: String| x@),
            stamp@ == decimal(timestamp as nat),
            len == taken@.len(),
            n <= taken@.len(),
            forall|j: nat| j < n ==> tv.contains(#[trigger] stamped_name(name@, timestamp, j)),
            exists|k: nat| k <= taken@.len() && !tv.contains(#[trigger] stamped_name(name@, timestamp, k)),
        decreases taken@.len() - n,
    {
        let candidate = if n == 0 {
            concat3(stamp.as_str(), "_", name)
        } else {
            let count = u64_to_decimal(n as u64);
            let mut c = concat3(stamp.as_str(), "_", count.as_str());
            push_str(&mut c, "_");
            push_str(&mut c, name);
            c
        };
        proof {
            assert(candidate@ == stamped_name(name@, timestamp, n as nat));
        }
        if !contains_text(taken, candidate.as_str()) {
            proof {
                assert(first_free(name@, timestamp, tv, n as nat));
                let c = first_free_index(name@, timestamp, tv);
                lemma_first_free_unique(name@, timestamp, tv, n as nat, c);
            }
            return candidate;
        }
        proof {
            assert(tv.contains(stamped_name(name@, timestamp, n as nat)));
            assert forall|j: nat| j < n + 1 implies tv.contains(
                #[trigger] stamped_name(name@, timestamp, j),
            ) by {
                if j < n {
                } else {
                    assert(j == n);
                }
            }
            let k = choose|k: nat|
                k <= taken@.len() && !tv.contains(#[trigger] stamped_name(name@, timestamp, k));
            assert(!(k < n + 1));
            assert(n + 1 <= len);
        }
        n = n + 1;
    }
}

/// The path a file called `name` is moved to in quarantine directory `dir`:
/// the first stamped name not already taken there.
pub open spec fn free_destination(
    dir: Seq<char>,
    name: Seq<char>,
    timestamp: u64,
    taken: Seq<Seq<char>>,
    dest: Seq<char>,
) -> bool {
    exists|k: nat| first_free(name, timestamp, taken, k) && dest == path_joined(dir, stamped_name(name, timestamp, k))
}

/// The path `file_path` moves to in quarantine directory `dir` at
/// `timestamp`, given the names already in that directory: the first of
/// `<timestamp>_<name>`, `<timestamp>_1_<name>`, ... that is free, so no
/// quarantined file is overwritten.
pub fn quarantine_path_for(dir: &str, file_path: &str, timestamp: u64, taken: &Vec<String>) -> (r: String)
    ensures
        free_destination(dir@, name_of(file_path@), timestamp, taken@.map_values(|x: String| x@), r@),
{
    let name = match file_name_of(file_path) {
        Some(n) => n,
        None => String::new(),
    };
    let safe_name = free_stamped_name(name.as_str(), timestamp, taken);
    path_join(dir, safe_name.as_str())
}

/// `<desktop or /tmp>/<app_dir>/quarantine`.
pub open spec fn quarantine_dir_under(desktop: Option<Seq<char>>, app_dir: Seq<char>) -> Seq<char> {
    let base = match desktop {
        Some(d) => d,
        None => "/tmp"@,
    };
    path_joined(path_joined(base, app_dir), "quarantine"@)
}

/// The view of optional text.
pub open spec fn opt_chars(o: Option<String>) -> Option<Seq<char>> {
    match o {
        Some(s) => Some(s@),
        None => None,
    }
}

/// The quarantine directory `<desktop or /tmp>/<app_dir>/quarantine`.
pub fn quarantine_dir_for(desktop: Option<String>, app_dir: &str) -> (r: String)
    ensures
        r@ == quarantine_dir_under(opt_chars(desktop), app_dir@),
{
    let base = match desktop {
        Some(d) => d,
        None => owned("/tmp"),
    };
    let app = path_join(base.as_str(), app_dir);
    path_join(app.as_str(), "quarantine")
}

/// Moves suspicious files aside into `<desktop>/Aegis_Guardian/quarantine`.
#[derive(Debug)]
pub struct QuarantineManager {
    quarantine_dir: String,
}

impl View for QuarantineManager {
    type V = Seq<char>;

    /// The quarantine directory.
    closed spec fn view(&self) -> Seq<char> {
        self.quarantine_dir@
    }
}

impl QuarantineManager {
    /// A manager for `<desktop>/Aegis_Guardian/quarantine`, with `/tmp` in
    /// place of the desktop when the user has none.
    pub fn with_desktop_dir(desktop: Option<String>) -> (m: QuarantineManager)
        ensures
            m@ == quarantine_dir_under(opt_chars(desktop), "Aegis_Guardian"@),
    {
        QuarantineManager { quarantine_dir: quarantine_dir_for(desktop, "Aegis_Guardian") }
    }

    /// A manager for the user's desktop, as `dirs::desktop_dir` finds it.
    pub fn new() -> (m: QuarantineManager)
        ensures
            exists|d: Option<Seq<char>>| m@ == quarantine_dir_under(d, "Aegis_Guardian"@),
    {
        let m = Self::with_desktop_dir(desktop_dir());
        m
    }

    /// The quarantine directory.
    pub fn quarantine_dir(&self) -> (r: &str)
        ensures
            r@ == self@,
    {
        self.quarantine_dir.as_str()
    }

    /// Where `file_path` goes when quarantined at `timestamp` (seconds since
    /// the Unix epoch), given the names `taken` already in the quarantine
    /// directory: `<timestamp>_<file name>`, or `<timestamp>_<n>_<file name>`
    /// for the first `n` whose name is free.
    pub fn quarantine_destination(&self, file_path: &str, timestamp: u64, taken: &Vec<String>) -> (r:
        String)
        ensures
            free_destination(
                self@,
                name_of(file_path@),
                timestamp,
                taken@.map_values(|x: String| x@),
                r@,
            ),
    {
        quarantine_path_for(self.quarantine_dir.as_str(), file_path, timestamp, taken)
    }

    /// Quarantining `file_path` at `timestamp`: a missing source is refused
    /// with `File does not exist`; otherwise the free path (not among `taken`,
    /// the names already in quarantine) that the caller renames the file to,
    /// so that it is kept and nothing in quarantine is overwritten.
    pub fn move_to_quarantine(
        &self,
        file_path: &str,
        source_exists: bool,
        timestamp: u64,
        taken: &Vec<String>,
    ) -> (r: Result<String, String>)
        ensures
            source_exists ==> (r matches Ok(dest) && free_destination(
                self@,
                name_of(file_path@),
                timestamp,
                taken@.map_values(|x: String| x@),
                dest@,
            )),
            !source_exists ==> (r matches Err(m) && m@ == "File does not exist"@),
    {
        if !source_exists {
            return Err(owned("File does not exist"));
        }
        Ok(self.quarantine_destination(file_path, timestamp, taken))
    }
}

} // verus!
