//! File integrity monitoring: SHA-256 baselines of files, change detection,
//! discovery of unknown files, and quarantine destinations.
use vstd::prelude::*;
use crate::text::{concat2, concat3, push_str, str_eq, str_starts_with, has_prefix, owned, is_lower_hex, lemma_hex_lower_shape};
use crate::bindings::{sha256, sha256_digest, hex_encode, hex_lower, desktop_dir};
use crate::guardian_core::quarantine::{
    quarantine_dir_for, quarantine_dir_under, free_destination, name_of, quarantine_path_for, opt_chars,
};

verus! {

/// The lower-case hex SHA-256 of `contents`, as the monitor records it.
pub open spec fn content_hash(contents: Seq<u8>) -> Seq<char> {
    hex_lower(sha256(contents))
}

/// The lower-case hex SHA-256 of `contents`.
pub fn calculate_hash(contents: &[u8]) -> (h: String)
    ensures
        h@ == content_hash(contents@),
        h@.len() == 64,
        is_lower_hex(h@),
{
    let d = sha256_digest(contents);
    proof {
        lemma_hex_lower_shape(d@);
    }
    hex_encode(d.as_slice())
}

/// What reading a path gave.
#[derive(Debug)]
pub enum FileReading {
    /// The path does not exist.
    Missing,
    /// The path exists but could not be read; the error as text.
    Failed(String),
    /// The file's contents.
    Contents(Vec<u8>),
}

/// Why a file could not be added to the baseline.
#[derive(Debug)]
pub enum BaselineError {
    /// The path does not exist; the message names it.
    NotFound(String),
    /// Reading failed; the error as text.
    Io(String),
}

/// A baseline as (path, hash) pairs.
pub open spec fn unique_paths(b: Seq<(Seq<char>, Seq<char>)>) -> bool {
    forall|i: int, j: int| 0 <= i < j < b.len() ==> b[i].0 != b[j].0
}

/// Whether `path` has a baseline hash.
pub open spec fn has_path(b: Seq<(Seq<char>, Seq<char>)>, path: Seq<char>) -> bool {
    exists|i: int| 0 <= i < b.len() && b[i].0 == path
}

/// The baseline with `path` recorded as `hash`: an existing entry for the
/// path is replaced in place, otherwise the entry is added at the end.
pub open spec fn baseline_insert(
    b: Seq<(Seq<char>, Seq<char>)>,
    path: Seq<char>,
    hash: Seq<char>,
) -> Seq<(Seq<char>, Seq<char>)> {
    if has_path(b, path) {
        b.update(choose|i: int| 0 <= i < b.len() && b[i].0 == path, (path, hash))
    } else {
        b.push((path, hash))
    }
}

/// The hash recorded for `path`, if any.
pub open spec fn baseline_lookup(b: Seq<(Seq<char>, Seq<char>)>, path: Seq<char>) -> Option<
    Seq<char>,
> {
    if has_path(b, path) {
        Some(b[choose|i: int| 0 <= i < b.len() && b[i].0 == path].1)
    } else {
        None
    }
}

/// The paths of `files` that have no baseline hash, in their order.
pub open spec fn unknown_files(b: Seq<(Seq<char>, Seq<char>)>, files: Seq<Seq<char>>) -> Seq<
    Seq<char>,
>
    decreases files.len(),
{
    if files.len() == 0 {
        seq![]
    } else {
        let rest = unknown_files(b, files.drop_last());
        if has_path(b, files.last()) {
            rest
        } else {
            rest.push(files.last())
        }
    }
}

/// What a baseline check reports for one file, given what reading it gave.
pub open spec fn integrity_alert(
    entry: (Seq<char>, Seq<char>),
    reading: Result<Seq<u8>, Seq<char>>,
) -> Option<Seq<char>> {
    match reading {
        Ok(c) => if content_hash(c) != entry.1 {
            Some(
                "File modified: "@ + entry.0 + " (Expected: "@ + entry.1 + ", Got: "@
                    + content_hash(c) + ")"@,
            )
        } else {
            None
        },
        Err(e) => Some("Failed to access file: "@ + entry.0 + " ("@ + e + ")"@),
    }
}

/// The alerts for the first `n` baseline entries, entry `i` having been read
/// as `readings[i]`.
pub open spec fn integrity_alerts_upto(
    b: Seq<(Seq<char>, Seq<char>)>,
    readings: Seq<Result<Seq<u8>, Seq<char>>>,
    n: nat,
) -> Seq<Seq<char>>
    decreases n,
{
    if n == 0 {
        seq![]
    } else {
        let rest = integrity_alerts_upto(b, readings, (n - 1) as nat);
        match integrity_alert(b[n - 1], readings[n - 1]) {
            Some(a) => rest.push(a),
            None => rest,
        }
    }
}

/// The alerts for a baseline, entry `i` having been read as `readings[i]`;
/// entries without a reading are not checked.
pub open spec fn integrity_alerts(
    b: Seq<(Seq<char>, Seq<char>)>,
    readings: Seq<Result<Seq<u8>, Seq<char>>>,
) -> Seq<Seq<char>> {
    integrity_alerts_upto(
        b,
        readings,
        if b.len() <= readings.len() {
            b.len()
        } else {
            readings.len()
        },
    )
}

/// The views of file readings.
pub open spec fn reading_views(v: Seq<Result<Vec<u8>, String>>) -> Seq<Result<Seq<u8>, Seq<char>>> {
    v.map_values(
        |r: Result<Vec<u8>, String>|
            match r {
                Ok(c) => Ok(c@),
                Err(e) => Err(e@),
            },
    )
}

/// The views of a list of strings.
pub open spec fn string_views(v: Seq<String>) -> Seq<Seq<char>> {
    v.map_values(|s: String| s@)
}

/// A file and the hash it had when baselined.
#[derive(Debug, Clone)]
pub struct BaselineEntry {
    pub path: String,
    pub hash: String,
}

/// Watches files against recorded SHA-256 hashes.
#[derive(Debug)]
pub struct FileIntegrityMonitor {
    baseline_hashes: Vec<BaselineEntry>,
    quarantine_dir: String,
}

impl FileIntegrityMonitor {
    /// The baseline, as (path, hash) pairs in the order paths were first
    /// recorded.
    pub closed spec fn baseline(&self) -> Seq<(Seq<char>, Seq<char>)> {
        self.baseline_hashes@.map_values(|e: BaselineEntry| (e.path@, e.hash@))
    }

    /// The quarantine directory.
    pub closed spec fn quarantine_dir(&self) -> Seq<char> {
        self.quarantine_dir@
    }

    /// No path is recorded twice.
    pub open spec fn wf(&self) -> bool {
        unique_paths(self.baseline())
    }

    /// An empty baseline, quarantining into
    /// `<desktop or /tmp>/AI_Security_Guardian/quarantine`.
    pub fn with_desktop_dir(desktop: Option<String>) -> (m: FileIntegrityMonitor)
        ensures
            m.wf(),
            m.baseline() == Seq::<(Seq<char>, Seq<char>)>::empty(),
            m.quarantine_dir() == quarantine_dir_under(opt_chars(desktop), "AI_Security_Guardian"@),
    {
        let m = FileIntegrityMonitor {
            baseline_hashes: Vec::new(),
            quarantine_dir: quarantine_dir_for(desktop, "AI_Security_Guardian"),
        };
        proof {
            assert(m.baseline() =~= Seq::<(Seq<char>, Seq<char>)>::empty());
        }
        m
    }

    /// An empty baseline, quarantining under the user's desktop as
    /// `dirs::desktop_dir` finds it.
    pub fn new() -> (m: FileIntegrityMonitor)
        ensures
            m.wf(),
            m.baseline() == Seq::<(Seq<char>, Seq<char>)>::empty(),
            exists|d: Option<Seq<char>>|
                m.quarantine_dir() == quarantine_dir_under(d, "AI_Security_Guardian"@),
    {
        Self::with_desktop_dir(desktop_dir())
    }

    /// The quarantine directory, to be created by the caller.
    pub fn quarantine_dir_path(&self) -> (r: &str)
        ensures
            r@ == self.quarantine_dir(),
    {
        self.quarantine_dir.as_str()
    }

    /// The number of baselined files.
    pub fn baseline_len(&self) -> (n: usize)
        ensures
            n == self.baseline().len(),
    {
        self.baseline_hashes.len()
    }

    /// The baselined path at position `i`.
    pub fn baseline_path(&self, i: usize) -> (p: &str)
        requires
            i < self.baseline().len(),
        ensures
            p@ == self.baseline()[i as int].0,
    {
        self.baseline_hashes[i].path.as_str()
    }

    fn find_path(&self, path: &str) -> (r: Option<usize>)
        ensures
            r matches Some(i) ==> i < self.baseline().len() && self.baseline()[i as int].0
                == path@,
            r is None ==> !has_path(self.baseline(), path@),
    {
        let mut i: usize = 0;
        while i < self.baseline_hashes.len()
            invariant
                i <= self.baseline().len(),
                self.baseline().len() == self.baseline_hashes@.len(),
                forall|j: int| 0 <= j < i ==> self.baseline()[j].0 != path@,
            decreases self.baseline().len() - i,
        {
            if str_eq(self.baseline_hashes[i].path.as_str(), path) {
                return Some(i);
            }
            i += 1;
        }
        None
    }

    /// Records the hash of a file's contents as its baseline. `reading` is
    /// what reading `path` gave: a missing path is refused with
    /// `File not found: <path>`, a failed read with its error; otherwise the
    /// hash of the contents is recorded, replacing any earlier one.
    pub fn add_to_baseline(&mut self, path: &str, reading: FileReading) -> (r: Result<(), BaselineError>)
        requires
            old(self).wf(),
        ensures
            final(self).wf(),
            final(self).quarantine_dir() == old(self).quarantine_dir(),
            match reading {
                FileReading::Missing => r matches Err(BaselineError::NotFound(m)) && m@
                    == "File not found: "@ + path@ && final(self).baseline() == old(self).baseline(),
                FileReading::Failed(e) => r matches Err(BaselineError::Io(m)) && m@ == e@
                    && final(self).baseline() == old(self).baseline(),
                FileReading::Contents(c) => r is Ok && final(self).baseline() == baseline_insert(
                    old(self).baseline(),
                    path@,
                    content_hash(c@),
                ),
            },
    {
        match reading {
            FileReading::Missing => Err(BaselineError::NotFound(concat2("File not found: ", path))),
            FileReading::Failed(e) => Err(BaselineError::Io(e)),
            FileReading::Contents(c) => {
                let hash = calculate_hash(c.as_slice());
                let ghost b0 = self.baseline();
                match self.find_path(path) {
                    Some(i) => {
                        let entry = BaselineEntry { path: owned(path), hash };
                        self.baseline_hashes.set(i, entry);
                        proof {
                            let k = choose|k: int| 0 <= k < b0.len() && b0[k].0 == path@;
                            assert(k == i);
                            assert(self.baseline() =~= b0.update(i as int, (path@, hash@)));
                        }
                    },
                    None => {
                        self.baseline_hashes.push(BaselineEntry { path: owned(path), hash });
                        proof {
                            assert(self.baseline() =~= b0.push((path@, hash@)));
                        }
                    },
                }
                Ok(())
            },
        }
    }

    /// The files of a directory walk that have no baseline, in walk order.
    /// `walked_files` are the regular files the walk found.
    pub fn scan_directory_recursive(&self, walked_files: &Vec<String>) -> (r: Vec<String>)
        ensures
            string_views(r@) == unknown_files(self.baseline(), string_views(walked_files@)),
    {
        let mut out: Vec<String> = Vec::new();
        let mut i: usize = 0;
        while i < walked_files.len()
            invariant
                i <= walked_files@.len(),
                string_views(out@) == unknown_files(
                    self.baseline(),
                    string_views(walked_files@).take(i as int),
                ),
            decreases walked_files@.len() - i,
        {
            let f = &walked_files[i];
            proof {
                let fv = string_views(walked_files@);
                assert(fv.take(i + 1).drop_last() == fv.take(i as int));
                assert(fv.take(i + 1).last() == f@);
            }
            match self.find_path(f.as_str()) {
                Some(_) => {},
                None => {
                    out.push(f.clone());
                    proof {
                        assert(string_views(out@) == unknown_files(
                            self.baseline(),
                            string_views(walked_files@).take(i as int),
                        ).push(f@));
                    }
                },
            }
            i += 1;
        }
        proof {
            assert(string_views(walked_files@).take(walked_files@.len() as int) == string_views(
                walked_files@,
            ));
        }
        out
    }

    /// Compares each baselined file with what reading it gave now:
    /// `readings[i]` is the result of reading the `i`-th baselined path.
    /// A file whose hash differs gives
    /// `File modified: <path> (Expected: <old>, Got: <new>)`, a failed read
    /// `Failed to access file: <path> (<error>)`.
    pub fn check_integrity(&self, readings: &Vec<Result<Vec<u8>, String>>) -> (r: Vec<String>)
        ensures
            string_views(r@) == integrity_alerts(self.baseline(), reading_views(readings@)),
    {
        let n: usize = if self.baseline_hashes.len() <= readings.len() {
            self.baseline_hashes.len()
        } else {
            readings.len()
        };
        let mut out: Vec<String> = Vec::new();
        let mut i: usize = 0;
        while i < n
            invariant
                i <= n,
                n <= self.baseline().len(),
                n <= readings@.len(),
                self.baseline().len() == self.baseline_hashes@.len(),
                n == (if self.baseline().len() <= readings@.len() {
                    self.baseline().len()
                } else {
                    readings@.len()
                }),
                string_views(out@) == integrity_alerts_upto(
                    self.baseline(),
                    reading_views(readings@),
                    i as nat,
                ),
            decreases n - i,
        {
            let entry = &self.baseline_hashes[i];
            let ghost e = self.baseline()[i as int];
            proof {
                assert(e == (entry.path@, entry.hash@));
            }
            match &readings[i] {
                Ok(contents) => {
                    let current = calculate_hash(contents.as_slice());
                    if !str_eq(current.as_str(), entry.hash.as_str()) {
                        let mut msg = concat3("File modified: ", entry.path.as_str(), " (Expected: ");
                        push_str(&mut msg, entry.hash.as_str());
                        push_str(&mut msg, ", Got: ");
                        push_str(&mut msg, current.as_str());
                        push_str(&mut msg, ")");
                        out.push(msg);
                    }
                },
                Err(err) => {
                    let mut msg = concat3("Failed to access file: ", entry.path.as_str(), " (");
                    push_str(&mut msg, err.as_str());
                    push_str(&mut msg, ")");
                    out.push(msg);
                },
            }
            i += 1;
        }
        out
    }

    /// Where `file_path` goes when quarantined at `timestamp` (seconds since
    /// the Unix epoch), given the names `taken` already in the quarantine
    /// directory: `<timestamp>_<file name>`, or `<timestamp>_<n>_<file name>`
    /// for the first `n` whose name is free.
    pub fn quarantine_destination(&self, file_path: &str, timestamp: u64, taken: &Vec<String>) -> (r:
        String)
        ensures
            free_destination(
                self.quarantine_dir(),
                name_of(file_path@),
                timestamp,
                taken@.map_values(|x: String| x@),
                r@,
            ),
    {
        quarantine_path_for(self.quarantine_dir.as_str(), file_path, timestamp, taken)
    }

    /// Quarantining `file_path` at `timestamp`: a missing source is refused
    /// with `File does not exist`; otherwise the free path (not among `taken`,
    /// the names already in quarantine) that the caller renames the file to,
    /// so that it is kept and nothing in quarantine is overwritten.
    pub fn move_to_quarantine(
        &self,
        file_path: &str,
        source_exists: bool,
        timestamp: u64,
        taken: &Vec<String>,
    ) -> (r: Result<String, String>)
        ensures
            source_exists ==> (r matches Ok(dest) && free_destination(
                self.quarantine_dir(),
                name_of(file_path@),
                timestamp,
                taken@.map_values(|x: String| x@),
                dest@,
            )),
            !source_exists ==> (r matches Err(m) && m@ == "File does not exist"@),
    {
        if !source_exists {
            return Err(owned("File does not exist"));
        }
        Ok(self.quarantine_destination(file_path, timestamp, taken))
    }
}

/// Whether a directory walk descends into the directory named `name`: hidden
/// directories and `target` and `venv` are skipped.
pub fn should_descend(name: &str) -> (b: bool)
    ensures
        b == !(has_prefix(name@, "."@) || name@ == "target"@ || name@ == "venv"@),
{
    !(str_starts_with(name, ".") || str_eq(name, "target") || str_eq(name, "venv"))
}

/// Each path of `paths` recorded in turn, the `i`-th with `hashes[i]`.
pub open spec fn baseline_insert_each(
    b: Seq<(Seq<char>, Seq<char>)>,
    paths: Seq<Seq<char>>,
    hashes: Seq<Seq<char>>,
) -> Seq<(Seq<char>, Seq<char>)>
    decreases paths.len(),
{
    if paths.len() == 0 {
        b
    } else {
        baseline_insert(
            baseline_insert_each(b, paths.drop_last(), hashes),
            paths.last(),
            hashes[paths.len() - 1],
        )
    }
}

/// Recording a hash keeps paths unique; the path then reads back the hash
/// just recorded, and every other path reads back what it did before.
pub proof fn lemma_baseline_read_after_write(
    b: Seq<(Seq<char>, Seq<char>)>,
    path: Seq<char>,
    hash: Seq<char>,
)
    requires
        unique_paths(b),
    ensures
        unique_paths(baseline_insert(b, path, hash)),
        baseline_lookup(baseline_insert(b, path, hash), path) == Some(hash),
        forall|q: Seq<char>|
            q != path ==> baseline_lookup(baseline_insert(b, path, hash), q) == baseline_lookup(
                b,
                q,
            ),
        forall|q: Seq<char>| has_path(b, q) ==> has_path(baseline_insert(b, path, hash), q),
{
    let b2 = baseline_insert(b, path, hash);
    if has_path(b, path) {
        let k = choose|i: int| 0 <= i < b.len() && b[i].0 == path;
        assert(b2 == b.update(k, (path, hash)));
        assert forall|i: int, j: int| 0 <= i < j < b2.len() implies b2[i].0 != b2[j].0 by {
            if i != k && j != k {
                assert(b2[i] == b[i] && b2[j] == b[j]);
            }
        }
        let k2 = choose|i: int| 0 <= i < b2.len() && b2[i].0 == path;
        assert(b2[k].0 == path);
        if k2 != k {
            assert(b2[k2].0 == b[k2].0);
        }
        assert forall|q: Seq<char>| q != path implies baseline_lookup(b2, q) == baseline_lookup(
            b,
            q,
        ) by {
            if has_path(b, q) {
                let m = choose|i: int| 0 <= i < b.len() && b[i].0 == q;
                assert(b2[m].0 == q);
                let m2 = choose|i: int| 0 <= i < b2.len() && b2[i].0 == q;
                assert(m2 != k);
                assert(b2[m2] == b[m2]);
                if m2 != m {
                }
            } else {
                if has_path(b2, q) {
                    let m2 = choose|i: int| 0 <= i < b2.len() && b2[i].0 == q;
                    assert(b2[m2] == b[m2]);
                }
            }
        }
        assert forall|q: Seq<char>| has_path(b, q) implies has_path(b2, q) by {
            let m = choose|i: int| 0 <= i < b.len() && b[i].0 == q;
            assert(b2[m].0 == q);
        }
    } else {
        assert(b2 == b.push((path, hash)));
        assert forall|i: int, j: int| 0 <= i < j < b2.len() implies b2[i].0 != b2[j].0 by {
            if j == b.len() {
                assert(b2[i] == b[i]);
            } else {
                assert(b2[i] == b[i] && b2[j] == b[j]);
            }
        }
        assert(b2[b.len() as int].0 == path);
        let k2 = choose|i: int| 0 <= i < b2.len() && b2[i].0 == path;
        if k2 < b.len() {
            assert(b2[k2] == b[k2]);
        }
        assert forall|q: Seq<char>| q != path implies baseline_lookup(b2, q) == baseline_lookup(
            b,
            q,
        ) by {
            if has_path(b, q) {
                let m = choose|i: int| 0 <= i < b.len() && b[i].0 == q;
                assert(b2[m] == b[m]);
                let m2 = choose|i: int| 0 <= i < b2.len() && b2[i].0 == q;
                assert(m2 < b.len());
                assert(b2[m2] == b[m2]);
                if m2 != m {
                }
            } else {
                if has_path(b2, q) {
                    let m2 = choose|i: int| 0 <= i < b2.len() && b2[i].0 == q;
                    assert(m2 < b.len());
                    assert(b2[m2] == b[m2]);
                }
            }
        }
        assert forall|q: Seq<char>| has_path(b, q) implies has_path(b2, q) by {
            let m = choose|i: int| 0 <= i < b.len() && b[i].0 == q;
            assert(b2[m] == b[m]);
        }
    }
}

/// Every entry after recording `(path, hash)` is either that pair or the
/// entry that was at the same position before.
pub proof fn lemma_baseline_insert_entries(
    b: Seq<(Seq<char>, Seq<char>)>,
    path: Seq<char>,
    hash: Seq<char>,
)
    requires
        unique_paths(b),
    ensures
        forall|i: int|
            0 <= i < baseline_insert(b, path, hash).len() ==> (#[trigger] baseline_insert(
                b,
                path,
                hash,
            )[i] == (path, hash) || (i < b.len() && baseline_insert(b, path, hash)[i] == b[i])),
{
    let b2 = baseline_insert(b, path, hash);
    if has_path(b, path) {
        let k = choose|i: int| 0 <= i < b.len() && b[i].0 == path;
        assert(b2 == b.update(k, (path, hash)));
        assert forall|i: int| 0 <= i < b2.len() implies (#[trigger] b2[i] == (path, hash) || (i
            < b.len() && b2[i] == b[i])) by {
            if i != k {
                assert(b2[i] == b[i]);
            }
        }
    } else {
        assert(b2 == b.push((path, hash)));
        assert forall|i: int| 0 <= i < b2.len() implies (#[trigger] b2[i] == (path, hash) || (i
            < b.len() && b2[i] == b[i])) by {
            if i < b.len() {
                assert(b2[i] == b[i]);
            }
        }
    }
}

proof fn lemma_insert_each_knows(
    b: Seq<(Seq<char>, Seq<char>)>,
    paths: Seq<Seq<char>>,
    hashes: Seq<Seq<char>>,
)
    requires
        unique_paths(b),
    ensures
        unique_paths(baseline_insert_each(b, paths, hashes)),
        forall|q: Seq<char>| has_path(b, q) ==> has_path(baseline_insert_each(b, paths, hashes), q),
        forall|i: int|
            0 <= i < paths.len() ==> has_path(baseline_insert_each(b, paths, hashes), #[trigger] paths[i]),
    decreases paths.len(),
{
    if paths.len() > 0 {
        let prev = baseline_insert_each(b, paths.drop_last(), hashes);
        lemma_insert_each_knows(b, paths.drop_last(), hashes);
        lemma_baseline_read_after_write(prev, paths.last(), hashes[paths.len() - 1]);
        let cur = baseline_insert_each(b, paths, hashes);
        assert forall|i: int| 0 <= i < paths.len() implies has_path(cur, #[trigger] paths[i]) by {
            if i < paths.len() - 1 {
                assert(paths.drop_last()[i] == paths[i]);
            } else {
                let k = choose|j: int| 0 <= j < cur.len() && cur[j].0 == paths.last();
                assert(baseline_lookup(cur, paths.last()) is Some);
            }
        }
    }
}

proof fn lemma_known_files_not_unknown(b: Seq<(Seq<char>, Seq<char>)>, files: Seq<Seq<char>>)
    requires
        forall|i: int| 0 <= i < files.len() ==> has_path(b, #[trigger] files[i]),
    ensures
        unknown_files(b, files) == Seq::<Seq<char>>::empty(),
    decreases files.len(),
{
    if files.len() > 0 {
        assert forall|i: int| 0 <= i < files.drop_last().len() implies has_path(
            b,
            #[trigger] files.drop_last()[i],
        ) by {
            assert(files.drop_last()[i] == files[i]);
        }
        lemma_known_files_not_unknown(b, files.drop_last());
        assert(has_path(b, files[files.len() - 1]));
    }
}

proof fn lemma_unknown_files_members(b: Seq<(Seq<char>, Seq<char>)>, files: Seq<Seq<char>>)
    ensures
        forall|i: int|
            0 <= i < files.len() && !has_path(b, #[trigger] files[i]) ==> unknown_files(
                b,
                files,
            ).contains(files[i]),
    decreases files.len(),
{
    if files.len() > 0 {
        lemma_unknown_files_members(b, files.drop_last());
        let rest = unknown_files(b, files.drop_last());
        assert forall|i: int|
            0 <= i < files.len() && !has_path(b, #[trigger] files[i]) implies unknown_files(
            b,
            files,
        ).contains(files[i]) by {
            if i < files.len() - 1 {
                assert(files.drop_last()[i] == files[i]);
                let k = choose|k: int| 0 <= k < rest.len() && rest[k] == files[i];
                if !has_path(b, files.last()) {
                    assert(rest.push(files.last())[k] == files[i]);
                }
            } else {
                assert(unknown_files(b, files).last() == files[i]);
            }
        }
    }
}

/// Once every file a scan reported as new has been added to the baseline
/// (with whatever hashes), scanning the same files again reports nothing.
pub proof fn lemma_rescan_after_baselining_reports_nothing(
    b: Seq<(Seq<char>, Seq<char>)>,
    files: Seq<Seq<char>>,
    hashes: Seq<Seq<char>>,
)
    requires
        unique_paths(b),
    ensures
        unknown_files(baseline_insert_each(b, unknown_files(b, files), hashes), files)
            == Seq::<Seq<char>>::empty(),
{
    let news = unknown_files(b, files);
    let b2 = baseline_insert_each(b, news, hashes);
    lemma_insert_each_knows(b, news, hashes);
    lemma_unknown_files_members(b, files);
    assert forall|i: int| 0 <= i < files.len() implies has_path(b2, #[trigger] files[i]) by {
        if !has_path(b, files[i]) {
            let k = choose|k: int| 0 <= k < news.len() && news[k] == files[i];
            assert(has_path(b2, news[k]));
        }
    }
    lemma_known_files_not_unknown(b2, files);
}

/// When every baselined file reads back contents with the recorded hash, the
/// check raises no alert.
pub proof fn lemma_unchanged_files_raise_no_alert(
    b: Seq<(Seq<char>, Seq<char>)>,
    readings: Seq<Result<Seq<u8>, Seq<char>>>,
)
    requires
        b.len() <= readings.len(),
        forall|i: int|
            0 <= i < b.len() ==> (#[trigger] readings[i]) is Ok && content_hash(readings[i]->Ok_0)
                == b[i].1,
    ensures
        integrity_alerts(b, readings) == Seq::<Seq<char>>::empty(),
{
    lemma_no_alert_upto(b, readings, b.len());
}

proof fn lemma_no_alert_upto(
    b: Seq<(Seq<char>, Seq<char>)>,
    readings: Seq<Result<Seq<u8>, Seq<char>>>,
    n: nat,
)
    requires
        n <= b.len(),
        n <= readings.len(),
        forall|i: int|
            0 <= i < n ==> (#[trigger] readings[i]) is Ok && content_hash(readings[i]->Ok_0)
                == b[i].1,
    ensures
        integrity_alerts_upto(b, readings, n) == Seq::<Seq<char>>::empty(),
    decreases n,
{
    if n > 0 {
        lemma_no_alert_upto(b, readings, (n - 1) as nat);
        assert(readings[n - 1] is Ok);
    }
}

proof fn lemma_alert_upto_kept(
    b: Seq<(Seq<char>, Seq<char>)>,
    readings: Seq<Result<Seq<u8>, Seq<char>>>,
    n: nat,
    i: int,
    a: Seq<char>,
)
    requires
        0 <= i < n <= b.len(),
        n <= readings.len(),
        integrity_alert(b[i], readings[i]) == Some(a),
    ensures
        integrity_alerts_upto(b, readings, n).contains(a),
    decreases n,
{
    let prev = integrity_alerts_upto(b, readings, (n - 1) as nat);
    if i < n - 1 {
        lemma_alert_upto_kept(b, readings, (n - 1) as nat, i, a);
        let k = choose|k: int| 0 <= k < prev.len() && prev[k] == a;
        match integrity_alert(b[n - 1], readings[n - 1]) {
            Some(x) => {
                assert(prev.push(x)[k] == a);
            },
            None => {},
        }
    } else {
        assert(integrity_alerts_upto(b, readings, n) == prev.push(a));
        assert(prev.push(a)[prev.len() as int] == a);
    }
}

/// A baselined file that now reads back contents with another hash is
/// reported as `File modified: <path> (Expected: <old>, Got: <new>)`.
pub proof fn lemma_changed_file_is_reported(
    b: Seq<(Seq<char>, Seq<char>)>,
    readings: Seq<Result<Seq<u8>, Seq<char>>>,
    i: int,
    contents: Seq<u8>,
)
    requires
        0 <= i < b.len(),
        i < readings.len(),
        readings[i] == Ok::<Seq<u8>, Seq<char>>(contents),
        content_hash(contents) != b[i].1,
    ensures
        integrity_alerts(b, readings).contains(
            "File modified: "@ + b[i].0 + " (Expected: "@ + b[i].1 + ", Got: "@ + content_hash(
                contents,
            ) + ")"@,
        ),
{
    let n: nat = if b.len() <= readings.len() {
        b.len()
    } else {
        readings.len()
    };
    lemma_alert_upto_kept(
        b,
        readings,
        n,
        i,
        "File modified: "@ + b[i].0 + " (Expected: "@ + b[i].1 + ", Got: "@ + content_hash(contents)
            + ")"@,
    );
}

} // verus!
