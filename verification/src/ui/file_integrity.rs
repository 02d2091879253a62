//! Integrity of sensitive system files and directories, checked against a
//! baseline of SHA-256 checksums kept at `~/.aegis-guardian/file_checksums.json`.
//!
//! The caller reads the files and the stored baseline; these functions
//! decide what is reported and how the baseline changes.
use vstd::prelude::*;
use crate::text::{
    concat2, concat3, owned, push_str, str_eq, decimal, u64_to_decimal, is_lower_hex,
    is_lower_hex_digit,
};
use crate::bindings::{path_join, path_joined};
use crate::guardian_core::quarantine::opt_chars;
use crate::guardian_core::interceptor::file_watch::{
    baseline_insert, baseline_lookup, has_path, unique_paths, lemma_baseline_read_after_write,
};

verus! {

/// One line of the integrity report.
#[derive(Debug, Clone)]
pub struct FileIntegrityAlert {
    pub file_path: String,
    /// `OK`, `WARNING` or `INFO`.
    pub status: String,
    /// Modification time in seconds since the epoch, or `N/A`.
    pub last_modified: String,
    pub message: String,
}

/// The mathematical content of a [`FileIntegrityAlert`].
pub struct AlertView {
    pub file_path: Seq<char>,
    pub status: Seq<char>,
    pub last_modified: Seq<char>,
    pub message: Seq<char>,
}

impl View for FileIntegrityAlert {
    type V = AlertView;

    open spec fn view(&self) -> AlertView {
        AlertView {
            file_path: self.file_path@,
            status: self.status@,
            last_modified: self.last_modified@,
            message: self.message@,
        }
    }
}

/// The views of report lines.
pub open spec fn alert_views(v: Seq<FileIntegrityAlert>) -> Seq<AlertView> {
    v.map_values(|a: FileIntegrityAlert| a@)
}

/// The answer to a baseline operation.
#[derive(Debug, Clone)]
pub struct BaselineActionResult {
    pub success: bool,
    pub message: String,
    pub affected: usize,
}

/// What the caller found at a monitored path.
#[derive(Debug, Clone)]
pub enum PathStatus {
    /// The path's metadata could not be read (missing or inaccessible).
    Inaccessible,
    /// The path exists; its modification time (seconds since the epoch) and
    /// checksum, `None` when the contents could not be read.
    Present { modified_secs: u64, checksum: Option<String> },
}

/// A monitored path and what was found there.
#[derive(Debug, Clone)]
pub struct PathObservation {
    pub path: String,
    pub status: PathStatus,
}

/// The mathematical content of a [`PathObservation`]:
/// (path, modification time if present, checksum if computed).
pub open spec fn observation_view(o: PathObservation) -> (Seq<char>, Option<u64>, Option<Seq<char>>) {
    match o.status {
        PathStatus::Inaccessible => (o.path@, None, None),
        PathStatus::Present { modified_secs, checksum } => (
            o.path@,
            Some(modified_secs),
            match checksum {
                Some(c) => Some(c@),
                None => None,
            },
        ),
    }
}

/// The views of observations.
pub open spec fn observation_views(v: Seq<PathObservation>) -> Seq<
    (Seq<char>, Option<u64>, Option<Seq<char>>),
> {
    v.map_values(|o: PathObservation| observation_view(o))
}

/// A checksum whose UTF-8 encoding has a character boundary at byte twelve,
/// so that its first twelve bytes can be cut off and shown.
pub open spec fn sliceable12(h: Seq<char>) -> bool {
    vstd::utf8::is_char_boundary(vstd::utf8::encode_utf8(h), 12)
}

/// The characters of the first twelve bytes of a checksum's UTF-8 encoding.
pub open spec fn head12(h: Seq<char>) -> Seq<char> {
    vstd::utf8::decode_utf8(vstd::utf8::encode_utf8(h).subrange(0, 12))
}

/// A computed checksum (64 lower-case hex digits) can always be cut at byte
/// twelve, and its first twelve bytes are its first twelve characters.
pub proof fn lemma_hex_checksum_sliceable(h: Seq<char>)
    requires
        h.len() == 64,
        is_lower_hex(h),
    ensures
        sliceable12(h),
        head12(h) == h.take(12),
{
    assert(vstd::utf8::is_ascii_chars(h)) by {
        assert forall|i: int| 0 <= i < h.len() implies '\0' <= #[trigger] h[i] <= '\u{7f}' by {
            let c = h[i];
            assert(is_lower_hex_digit(c));
            assert(c as int <= 127);
            assert(c <= '\u{7f}');
            assert('\0' <= c);
        }
    }
    let bytes = vstd::utf8::encode_utf8(h);
    vstd::utf8::is_ascii_chars_encode_utf8(h);
    vstd::utf8::encode_utf8_valid_utf8(h);
    assert(is_lower_hex_digit(h[12]));
    assert(h[12] as u8 == bytes[12]);
    vstd::utf8::is_char_boundary_iff_not_is_continuation_byte(bytes, 12);
    let t = h.take(12);
    assert(vstd::utf8::is_ascii_chars(t));
    vstd::utf8::is_ascii_chars_encode_utf8(t);
    assert(bytes.subrange(0, 12) =~= vstd::utf8::encode_utf8(t));
    vstd::utf8::encode_utf8_decode_utf8(t);
}

/// The checksum baseline: (path, checksum) pairs, each path once.
#[derive(Debug)]
pub struct ChecksumBaseline {
    entries: Vec<(String, String)>,
}

/// The (path, checksum) views of pairs.
pub open spec fn pair_views(v: Seq<(String, String)>) -> Seq<(Seq<char>, Seq<char>)> {
    v.map_values(|p: (String, String)| (p.0@, p.1@))
}

impl View for ChecksumBaseline {
    type V = Seq<(Seq<char>, Seq<char>)>;

    closed spec fn view(&self) -> Seq<(Seq<char>, Seq<char>)> {
        pair_views(self.entries@)
    }
}

impl ChecksumBaseline {
    /// No path is recorded twice.
    pub open spec fn wf(&self) -> bool {
        unique_paths(self@)
    }

    /// An empty baseline.
    pub fn new() -> (b: ChecksumBaseline)
        ensures
            b.wf(),
            b@ == Seq::<(Seq<char>, Seq<char>)>::empty(),
    {
        let b = ChecksumBaseline { entries: Vec::new() };
        proof {
            assert(b@ =~= Seq::<(Seq<char>, Seq<char>)>::empty());
        }
        b
    }

    /// The stored (path, checksum) pairs, each path recorded in turn.
    pub fn from_pairs(pairs: Vec<(String, String)>) -> (b: ChecksumBaseline)
        ensures
            b.wf(),
            b@ == insert_all(Seq::<(Seq<char>, Seq<char>)>::empty(), pair_views(pairs@)),
    {
        let mut b = Self::new();
        let ghost pv = pair_views(pairs@);
        let mut i: usize = 0;
        while i < pairs.len()
            invariant
                i <= pairs@.len(),
                pv == pair_views(pairs@),
                b.wf(),
                b@ == insert_all(Seq::<(Seq<char>, Seq<char>)>::empty(), pv.take(i as int)),
            decreases pairs@.len() - i,
        {
            proof {
                assert(pv.take(i + 1).drop_last() == pv.take(i as int));
                assert(pv.take(i + 1).last() == pv[i as int]);
            }
            b.insert(pairs[i].0.as_str(), pairs[i].1.clone());
            i += 1;
        }
        proof {
            assert(pv.take(pairs@.len() as int) == pv);
        }
        b
    }

    /// The stored pairs, to be written back.
    pub fn pairs(&self) -> (r: &Vec<(String, String)>)
        ensures
            pair_views(r@) == self@,
    {
        &self.entries
    }

    /// The number of recorded paths.
    pub fn len(&self) -> (n: usize)
        ensures
            n == self@.len(),
    {
        self.entries.len()
    }

    /// The checksum recorded for `path`.
    pub fn get(&self, path: &str) -> (r: Option<&String>)
        requires
            self.wf(),
        ensures
            match r {
                Some(h) => baseline_lookup(self@, path@) == Some(h@),
                None => baseline_lookup(self@, path@) is None,
            },
    {
        match self.find(path) {
            Some(i) => {
                proof {
                    let k = choose|k: int| 0 <= k < self@.len() && self@[k].0 == path@;
                    if k != i {
                    }
                }
                Some(&self.entries[i].1)
            },
            None => None,
        }
    }

    fn find(&self, path: &str) -> (r: Option<usize>)
        ensures
            r matches Some(i) ==> i < self@.len() && self@[i as int].0 == path@,
            r is None ==> !has_path(self@, path@),
    {
        let mut i: usize = 0;
        while i < self.entries.len()
            invariant
                i <= self@.len(),
                self@.len() == self.entries@.len(),
                forall|j: int| 0 <= j < i ==> self@[j].0 != path@,
            decreases self@.len() - i,
        {
            if str_eq(self.entries[i].0.as_str(), path) {
                return Some(i);
            }
            i += 1;
        }
        None
    }

    /// Records `hash` for `path`, replacing an earlier checksum in place.
    pub fn insert(&mut self, path: &str, hash: String)
        requires
            old(self).wf(),
        ensures
            final(self).wf(),
            final(self)@ == baseline_insert(old(self)@, path@, hash@),
    {
        let ghost b0 = self@;
        proof {
            lemma_baseline_read_after_write(b0, path@, hash@);
        }
        match self.find(path) {
            Some(i) => {
                self.entries.set(i, (owned(path), hash));
                proof {
                    let k = choose|k: int| 0 <= k < b0.len() && b0[k].0 == path@;
                    if k != i {
                    }
                    assert(self@ =~= b0.update(i as int, (path@, hash@)));
                }
            },
            None => {
                self.entries.push((owned(path), hash));
                proof {
                    assert(self@ =~= b0.push((path@, hash@)));
                }
            },
        }
    }
}

/// Each pair recorded in turn into `b`.
pub open spec fn insert_all(
    b: Seq<(Seq<char>, Seq<char>)>,
    pairs: Seq<(Seq<char>, Seq<char>)>,
) -> Seq<(Seq<char>, Seq<char>)>
    decreases pairs.len(),
{
    if pairs.len() == 0 {
        b
    } else {
        baseline_insert(insert_all(b, pairs.drop_last()), pairs.last().0, pairs.last().1)
    }
}

// ---------------------------------------------------------------------------
// The integrity check
// ---------------------------------------------------------------------------

/// What the check reports for one path and how the baseline changes:
/// (alert, baseline after, whether a checksum was newly recorded).
pub open spec fn check_one(
    b: Seq<(Seq<char>, Seq<char>)>,
    o: (Seq<char>, Option<u64>, Option<Seq<char>>),
) -> (AlertView, Seq<(Seq<char>, Seq<char>)>, bool) {
    let (path, modified, checksum) = o;
    match modified {
        None => (
            AlertView {
                file_path: path,
                status: "INFO"@,
                last_modified: "N/A"@,
                message: "File not found or inaccessible"@,
            },
            b,
            false,
        ),
        Some(secs) => match checksum {
            None => (
                AlertView {
                    file_path: path,
                    status: "INFO"@,
                    last_modified: decimal(secs as nat),
                    message: "Cannot compute checksum (permission denied)"@,
                },
                b,
                false,
            ),
            Some(current) => match baseline_lookup(b, path) {
                None => (
                    AlertView {
                        file_path: path,
                        status: "OK"@,
                        last_modified: decimal(secs as nat),
                        message: "Baseline recorded (sha256: "@ + head12(current) + "...)"@,
                    },
                    baseline_insert(b, path, current),
                    true,
                ),
                Some(known) => if known == current {
                    (
                        AlertView {
                            file_path: path,
                            status: "OK"@,
                            last_modified: decimal(secs as nat),
                            message: "Checksum verified (sha256: "@ + head12(current) + "...)"@,
                        },
                        b,
                        false,
                    )
                } else {
                    (
                        AlertView {
                            file_path: path,
                            status: "WARNING"@,
                            last_modified: decimal(secs as nat),
                            message: "Checksum mismatch! expected "@ + head12(known) + "... got "@
                                + head12(current) + "..."@,
                        },
                        b,
                        false,
                    )
                },
            },
        },
    }
}

/// The report, final baseline and update flag after checking `obs` in turn.
pub open spec fn check_all(
    b: Seq<(Seq<char>, Seq<char>)>,
    obs: Seq<(Seq<char>, Option<u64>, Option<Seq<char>>)>,
) -> (Seq<AlertView>, Seq<(Seq<char>, Seq<char>)>, bool)
    decreases obs.len(),
{
    if obs.len() == 0 {
        (seq![], b, false)
    } else {
        let (alerts, b1, updated) = check_all(b, obs.drop_last());
        let (a, b2, u) = check_one(b1, obs.last());
        (alerts.push(a), b2, updated || u)
    }
}

/// Whether one observation can be reported against baseline `b` without
/// cutting a checksum inside a character: the computed checksum, and a
/// recorded checksum that differs from it, must both be sliceable.
pub open spec fn step_sliceable(
    b: Seq<(Seq<char>, Seq<char>)>,
    o: (Seq<char>, Option<u64>, Option<Seq<char>>),
) -> bool {
    match (o.1, o.2) {
        (Some(_), Some(current)) => {
            &&& sliceable12(current)
            &&& match baseline_lookup(b, o.0) {
                Some(known) => known != current ==> sliceable12(known),
                None => true,
            }
        },
        _ => true,
    }
}

/// The inputs on which the whole check can be reported: every observation is
/// sliceable against the baseline as it stands when that observation is
/// reached.
pub open spec fn displayable_inputs(
    b: Seq<(Seq<char>, Seq<char>)>,
    obs: Seq<(Seq<char>, Option<u64>, Option<Seq<char>>)>,
) -> bool {
    forall|j: int| 0 <= j < obs.len() ==> step_sliceable(#[trigger] check_all(b, obs.take(j)).1, obs[j])
}

fn prefix12(h: &str) -> (r: String)
    requires
        sliceable12(h@),
    ensures
        r@ == head12(h@),
{
    let (head, _) = h.split_at(12);
    proof {
        vstd::utf8::encode_utf8_decode_utf8(head@);
    }
    owned(head)
}

/// Checks the monitored paths in order against the baseline. A path with no
/// metadata is reported `INFO` / `File not found or inaccessible`; one whose
/// contents cannot be read `INFO` / `Cannot compute checksum (permission
/// denied)`; a first-seen path is recorded and reported `OK`; a matching
/// checksum `OK`; a differing one `WARNING` with both checksums' first twelve
/// characters. Returns the report and whether the baseline gained entries
/// (and so must be saved).
pub fn check_file_integrity(baseline: &mut ChecksumBaseline, observations: &Vec<PathObservation>) -> (r: (
    Vec<FileIntegrityAlert>,
    bool,
))
    requires
        old(baseline).wf(),
        displayable_inputs(old(baseline)@, observation_views(observations@)),
    ensures
        final(baseline).wf(),
        (alert_views(r.0@), final(baseline)@, r.1) == check_all(
            old(baseline)@,
            observation_views(observations@),
        ),
{
    let ghost b0 = baseline@;
    let ghost ov = observation_views(observations@);
    let mut alerts: Vec<FileIntegrityAlert> = Vec::new();
    let mut updated = false;
    let mut i: usize = 0;
    while i < observations.len()
        invariant
            i <= observations@.len(),
            ov == observation_views(observations@),
            baseline.wf(),
            displayable_inputs(b0, ov),
            (alert_views(alerts@), baseline@, updated) == check_all(b0, ov.take(i as int)),
        decreases observations@.len() - i,
    {
        let o = &observations[i];
        proof {
            assert(ov.take(i + 1).drop_last() == ov.take(i as int));
            assert(ov.take(i + 1).last() == ov[i as int]);
            assert(ov[i as int] == observation_view(*o));
        }
        let ghost bb = baseline@;
        let path = o.path.as_str();
        let alert = match &o.status {
            PathStatus::Inaccessible => FileIntegrityAlert {
                file_path: owned(path),
                status: owned("INFO"),
                last_modified: owned("N/A"),
                message: owned("File not found or inaccessible"),
            },
            PathStatus::Present { modified_secs, checksum } => {
                let modified = u64_to_decimal(*modified_secs);
                match checksum {
                    None => FileIntegrityAlert {
                        file_path: owned(path),
                        status: owned("INFO"),
                        last_modified: modified,
                        message: owned("Cannot compute checksum (permission denied)"),
                    },
                    Some(current) => {
                        proof {
                            assert(ov[i as int].2 == Some(current@));
                            assert(step_sliceable(check_all(b0, ov.take(i as int)).1, ov[i as int]));
                        }
                        let cur12 = prefix12(current.as_str());
                        match baseline.get(path) {
                            None => {
                                baseline.insert(path, current.clone());
                                updated = true;
                                FileIntegrityAlert {
                                    file_path: owned(path),
                                    status: owned("OK"),
                                    last_modified: modified,
                                    message: concat3(
                                        "Baseline recorded (sha256: ",
                                        cur12.as_str(),
                                        "...)",
                                    ),
                                }
                            },
                            Some(known) => {
                                if str_eq(known.as_str(), current.as_str()) {
                                    FileIntegrityAlert {
                                        file_path: owned(path),
                                        status: owned("OK"),
                                        last_modified: modified,
                                        message: concat3(
                                            "Checksum verified (sha256: ",
                                            cur12.as_str(),
                                            "...)",
                                        ),
                                    }
                                } else {
                                    let known12 = prefix12(known.as_str());
                                    let mut msg = concat3(
                                        "Checksum mismatch! expected ",
                                        known12.as_str(),
                                        "... got ",
                                    );
                                    push_str(&mut msg, cur12.as_str());
                                    push_str(&mut msg, "...");
                                    FileIntegrityAlert {
                                        file_path: owned(path),
                                        status: owned("WARNING"),
                                        last_modified: modified,
                                        message: msg,
                                    }
                                }
                            },
                        }
                    },
                }
            },
        };
        alerts.push(alert);
        i += 1;
    }
    proof {
        assert(ov.take(observations@.len() as int) == ov);
    }
    (alerts, updated)
}

/// An observation whose checksum is the one recorded for its path (or that
/// has no checksum) leaves a baseline alone.
pub open spec fn matches_baseline(
    b: Seq<(Seq<char>, Seq<char>)>,
    o: (Seq<char>, Option<u64>, Option<Seq<char>>),
) -> bool {
    match (o.1, o.2) {
        (Some(_), Some(current)) => baseline_lookup(b, o.0) == Some(current),
        _ => true,
    }
}

/// When every monitored path still has its recorded checksum, the check
/// keeps the baseline, records nothing new and raises no `WARNING`.
pub proof fn lemma_matching_checksums_raise_no_warning(
    b: Seq<(Seq<char>, Seq<char>)>,
    obs: Seq<(Seq<char>, Option<u64>, Option<Seq<char>>)>,
)
    requires
        forall|j: int| 0 <= j < obs.len() ==> matches_baseline(b, #[trigger] obs[j]),
    ensures
        check_all(b, obs).1 == b,
        !check_all(b, obs).2,
        forall|j: int|
            0 <= j < check_all(b, obs).0.len() ==> (#[trigger] check_all(b, obs).0[j]).status
                != "WARNING"@,
    decreases obs.len(),
{
    reveal_strlit("WARNING");
    reveal_strlit("OK");
    reveal_strlit("INFO");
    if obs.len() > 0 {
        let rest = obs.drop_last();
        assert forall|j: int| 0 <= j < rest.len() implies matches_baseline(b, #[trigger] rest[j]) by {
            assert(rest[j] == obs[j]);
        }
        lemma_matching_checksums_raise_no_warning(b, rest);
        let last = obs[obs.len() - 1];
        assert(matches_baseline(b, last));
        let (alerts, b1, u1) = check_all(b, rest);
        let (a, b2, u) = check_one(b1, last);
        assert(b1 == b);
        assert("OK"@ != "WARNING"@ && "INFO"@ != "WARNING"@) by {
            assert("OK"@.len() != "WARNING"@.len());
            assert("INFO"@.len() != "WARNING"@.len());
        }
        match (last.1, last.2) {
            (Some(_), Some(current)) => {
                assert(baseline_lookup(b1, last.0) == Some(current));
            },
            _ => {},
        }
        assert(a.status != "WARNING"@);
        assert(check_all(b, obs).0 == alerts.push(a));
        assert forall|j: int| 0 <= j < alerts.push(a).len() implies (#[trigger] alerts.push(
            a,
        )[j]).status != "WARNING"@ by {
            if j < alerts.len() {
                assert(alerts.push(a)[j] == alerts[j]);
            }
        }
    }
}

/// Accepting a changed file records its checksum; a later check that finds
/// the same checksum there reports it verified and changes nothing.
pub proof fn lemma_accepted_change_is_verified(
    b: Seq<(Seq<char>, Seq<char>)>,
    path: Seq<char>,
    checksum: Seq<char>,
    modified_secs: u64,
)
    requires
        unique_paths(b),
    ensures
        ({
            let b2 = baseline_insert(b, path, checksum);
            let (alert, b3, updated) = check_one(b2, (path, Some(modified_secs), Some(checksum)));
            &&& alert.status == "OK"@
            &&& alert.message == "Checksum verified (sha256: "@ + head12(checksum) + "...)"@
            &&& b3 == b2
            &&& !updated
        }),
{
    lemma_baseline_read_after_write(b, path, checksum);
}

// ---------------------------------------------------------------------------
// Baseline maintenance
// ---------------------------------------------------------------------------

/// The (path, checksum) pairs of the paths whose checksum could be computed.
pub open spec fn existing_pairs(checksums: Seq<(Seq<char>, Option<Seq<char>>)>) -> Seq<
    (Seq<char>, Seq<char>),
>
    decreases checksums.len(),
{
    if checksums.len() == 0 {
        seq![]
    } else {
        let rest = existing_pairs(checksums.drop_last());
        match checksums.last().1 {
            Some(h) => rest.push((checksums.last().0, h)),
            None => rest,
        }
    }
}

/// The views of (path, optional checksum) pairs.
pub open spec fn checksum_views(v: Seq<(String, Option<String>)>) -> Seq<
    (Seq<char>, Option<Seq<char>>),
> {
    v.map_values(
        |p: (String, Option<String>)|
            (
                p.0@,
                match p.1 {
                    Some(h) => Some(h@),
                    None => None,
                },
            ),
    )
}

/// A baseline of the paths whose checksum could be computed (a path listed
/// twice keeps its last checksum).
pub fn compute_existing_hashes(checksums: &Vec<(String, Option<String>)>) -> (b: ChecksumBaseline)
    ensures
        b.wf(),
        b@ == insert_all(
            Seq::<(Seq<char>, Seq<char>)>::empty(),
            existing_pairs(checksum_views(checksums@)),
        ),
{
    let ghost cv = checksum_views(checksums@);
    let mut b = ChecksumBaseline::new();
    let mut i: usize = 0;
    while i < checksums.len()
        invariant
            i <= checksums@.len(),
            cv == checksum_views(checksums@),
            b.wf(),
            b@ == insert_all(
                Seq::<(Seq<char>, Seq<char>)>::empty(),
                existing_pairs(cv.take(i as int)),
            ),
        decreases checksums@.len() - i,
    {
        proof {
            assert(cv.take(i + 1).drop_last() == cv.take(i as int));
            assert(cv.take(i + 1).last() == cv[i as int]);
        }
        let ghost prev = existing_pairs(cv.take(i as int));
        match &checksums[i].1 {
            Some(h) => {
                b.insert(checksums[i].0.as_str(), h.clone());
                proof {
                    let cur = existing_pairs(cv.take(i + 1));
                    assert(cur == prev.push((checksums@[i as int].0@, h@)));
                    assert(cur.drop_last() == prev);
                }
            },
            None => {
                proof {
                    assert(existing_pairs(cv.take(i + 1)) == prev);
                }
            },
        }
        i += 1;
    }
    proof {
        assert(cv.take(checksums@.len() as int) == cv);
    }
    b
}

/// A new baseline from the current checksums, reported with the number of
/// paths it records.
pub fn rebuild_file_integrity_baseline(checksums: &Vec<(String, Option<String>)>) -> (r: (
    ChecksumBaseline,
    BaselineActionResult,
))
    ensures
        r.0.wf(),
        r.0@ == insert_all(
            Seq::<(Seq<char>, Seq<char>)>::empty(),
            existing_pairs(checksum_views(checksums@)),
        ),
        r.1.success,
        r.1.message@ == "File integrity baseline rebuilt."@,
        r.1.affected == r.0@.len(),
{
    let b = compute_existing_hashes(checksums);
    let affected = b.len();
    (b, BaselineActionResult { success: true, message: owned("File integrity baseline rebuilt."), affected })
}

/// Accepts the current checksum of `file_path` into the baseline; fails when
/// it could not be computed.
pub fn accept_file_integrity_change(
    baseline: &mut ChecksumBaseline,
    file_path: &str,
    checksum: Option<String>,
) -> (r: BaselineActionResult)
    requires
        old(baseline).wf(),
    ensures
        final(baseline).wf(),
        match checksum {
            Some(h) => r.success && r.affected == 1 && r.message@
                == "Selected file integrity change accepted."@ && final(baseline)@
                == baseline_insert(old(baseline)@, file_path@, h@),
            None => !r.success && r.affected == 0 && r.message@
                == "Cannot compute checksum for selected path."@ && final(baseline)@ == old(
                baseline,
            )@,
        },
{
    match checksum {
        Some(h) => {
            baseline.insert(file_path, h);
            BaselineActionResult {
                success: true,
                message: owned("Selected file integrity change accepted."),
                affected: 1,
            }
        },
        None => BaselineActionResult {
            success: false,
            message: owned("Cannot compute checksum for selected path."),
            affected: 0,
        },
    }
}

/// The answer to a report export: a failure to create the report directory,
/// a failure to write it, or the report's path and number of lines.
pub fn export_file_integrity_report(
    report_path: &str,
    create_dir_error: Option<String>,
    write_error: Option<String>,
    alert_count: usize,
) -> (r: BaselineActionResult)
    ensures
        match create_dir_error {
            Some(e) => !r.success && r.affected == 0 && r.message@
                == "Failed to create report directory: "@ + e@,
            None => match write_error {
                Some(e) => !r.success && r.affected == 0 && r.message@ == e@,
                None => r.success && r.affected == alert_count && r.message@ == report_path@,
            },
        },
{
    match create_dir_error {
        Some(e) => BaselineActionResult {
            success: false,
            message: concat2("Failed to create report directory: ", e.as_str()),
            affected: 0,
        },
        None => match write_error {
            Some(e) => BaselineActionResult { success: false, message: e, affected: 0 },
            None => BaselineActionResult {
                success: true,
                message: owned(report_path),
                affected: alert_count,
            },
        },
    }
}

// ---------------------------------------------------------------------------
// Paths
// ---------------------------------------------------------------------------

/// The default monitored paths, then each custom path not already listed.
pub open spec fn monitored_paths_spec(home: Option<Seq<char>>, custom: Seq<Seq<char>>) -> Seq<
    Seq<char>,
> {
    add_missing(default_paths(home), custom)
}

/// The system files always monitored.
pub open spec fn default_paths(home: Option<Seq<char>>) -> Seq<Seq<char>> {
    let base = seq!["/etc/hosts"@, "/etc/passwd"@];
    let with_home = match home {
        Some(h) => base + seq![
            h + "/.ssh/authorized_keys"@,
            h + "/.bash_profile"@,
            h + "/.zshrc"@,
            h + "/Library/LaunchAgents"@,
        ],
        None => base,
    };
    with_home.push("/Library/LaunchDaemons"@)
}

/// `list` with each path of `extra` appended unless already present.
pub open spec fn add_missing(list: Seq<Seq<char>>, extra: Seq<Seq<char>>) -> Seq<Seq<char>>
    decreases extra.len(),
{
    if extra.len() == 0 {
        list
    } else {
        let rest = add_missing(list, extra.drop_last());
        if rest.contains(extra.last()) {
            rest
        } else {
            rest.push(extra.last())
        }
    }
}

fn contains_text(v: &Vec<String>, s: &str) -> (b: bool)
    ensures
        b == v@.map_values(|x: String| x@).contains(s@),
{
    let ghost vv = v@.map_values(|x: String| x@);
    let mut i: usize = 0;
    while i < v.len()
        invariant
            i <= v@.len(),
            vv == v@.map_values(|x: String| x@),
            forall|j: int| 0 <= j < i ==> vv[j] != s@,
        decreases v@.len() - i,
    {
        if str_eq(v[i].as_str(), s) {
            proof {
                assert(vv[i as int] == s@);
            }
            return true;
        }
        i += 1;
    }
    false
}

/// The paths whose integrity is monitored: `/etc/hosts`, `/etc/passwd`, the
/// user's SSH keys, shell profiles and launch agents (when the home
/// directory is known), `/Library/LaunchDaemons`, then each configured
/// custom path not already listed.
pub fn monitored_paths(home: Option<String>, custom: &Vec<String>) -> (r: Vec<String>)
    ensures
        r@.map_values(|x: String| x@) == monitored_paths_spec(
            opt_chars(home),
            custom@.map_values(|x: String| x@),
        ),
{
    let ghost hv = opt_chars(home);
    let mut files: Vec<String> = Vec::new();
    files.push(owned("/etc/hosts"));
    files.push(owned("/etc/passwd"));
    match home {
        Some(h) => {
            files.push(concat2(h.as_str(), "/.ssh/authorized_keys"));
            files.push(concat2(h.as_str(), "/.bash_profile"));
            files.push(concat2(h.as_str(), "/.zshrc"));
            files.push(concat2(h.as_str(), "/Library/LaunchAgents"));
        },
        None => {},
    }
    files.push(owned("/Library/LaunchDaemons"));
    proof {
        assert(files@.map_values(|x: String| x@) =~= default_paths(hv));
    }
    let ghost cv = custom@.map_values(|x: String| x@);
    let mut i: usize = 0;
    while i < custom.len()
        invariant
            i <= custom@.len(),
            cv == custom@.map_values(|x: String| x@),
            files@.map_values(|x: String| x@) == add_missing(default_paths(hv), cv.take(i as int)),
        decreases custom@.len() - i,
    {
        proof {
            assert(cv.take(i + 1).drop_last() == cv.take(i as int));
            assert(cv.take(i + 1).last() == cv[i as int]);
        }
        if !contains_text(&files, custom[i].as_str()) {
            files.push(custom[i].clone());
            proof {
                assert(files@.map_values(|x: String| x@) =~= add_missing(
                    default_paths(hv),
                    cv.take(i as int),
                ).push(custom@[i as int]@));
            }
        }
        i += 1;
    }
    proof {
        assert(cv.take(custom@.len() as int) == cv);
    }
    files
}

/// Where the baseline is kept: `AEGIS_FILE_BASELINE_PATH` when set, else
/// `<home or .>/.aegis-guardian/file_checksums.json`.
pub open spec fn baseline_storage_path_spec(
    env_override: Option<Seq<char>>,
    home: Option<Seq<char>>,
) -> Seq<char> {
    match env_override {
        Some(p) => p,
        None => path_joined(
            path_joined(
                match home {
                    Some(h) => h,
                    None => "."@,
                },
                ".aegis-guardian"@,
            ),
            "file_checksums.json"@,
        ),
    }
}

/// Where the baseline is kept, given the value of `AEGIS_FILE_BASELINE_PATH`
/// (if set) and the home directory (if known).
pub fn baseline_storage_path(env_override: Option<String>, home: Option<String>) -> (p: String)
    ensures
        p@ == baseline_storage_path_spec(
            match env_override {
                Some(e) => Some(e@),
                None => None,
            },
            match home {
                Some(h) => Some(h@),
                None => None,
            },
        ),
{
    match env_override {
        Some(p) => p,
        None => {
            let base = match home {
                Some(h) => h,
                None => owned("."),
            };
            let dir = path_join(base.as_str(), ".aegis-guardian");
            path_join(dir.as_str(), "file_checksums.json")
        },
    }
}

/// Where the integrity report is written:
/// `<home or .>/.aegis-guardian/file_integrity_report.json`.
pub fn report_path(home: Option<String>) -> (p: String)
    ensures
        p@ == path_joined(
            path_joined(
                match home {
                    Some(h) => h@,
                    None => "."@,
                },
                ".aegis-guardian"@,
            ),
            "file_integrity_report.json"@,
        ),
{
    let base = match home {
        Some(h) => h,
        None => owned("."),
    };
    let dir = path_join(base.as_str(), ".aegis-guardian");
    path_join(dir.as_str(), "file_integrity_report.json")
}

} // verus!
