//! SHA-256 checksums of files and directories. A directory's checksum covers
//! the relative path, size and content hash of every file below it, in path
//! order, so additions, removals, renames and content changes all change it.
use vstd::prelude::*;
use crate::text::{
    decimal, u64_to_decimal, chars_of, string_from_chars, is_lower_hex, lemma_hex_lower_shape,
    lemma_decimal_has_no_nul, lemma_parse_decimal_roundtrip,
};
use crate::bindings::{
    sha256, sha256_digest, hex_encode, hex_lower, path_strip_prefix, strip_path_prefix,
};
use vstd::utf8::encode_utf8;

verus! {

/// The lower-case hex SHA-256 of a file's contents.
pub open spec fn file_checksum_spec(contents: Seq<u8>) -> Seq<char> {
    hex_lower(sha256(contents))
}

/// The lower-case hex SHA-256 of a file's contents.
pub fn file_checksum(contents: &[u8]) -> (h: String)
    ensures
        h@ == file_checksum_spec(contents@),
        h@.len() == 64,
        is_lower_hex(h@),
{
    let d = sha256_digest(contents);
    proof {
        lemma_hex_lower_shape(d@);
    }
    hex_encode(d.as_slice())
}

/// A file below a checksummed directory.
#[derive(Debug, Clone)]
pub struct DirEntryDigest {
    /// The path relative to the directory, with `/` separators.
    pub relative_path: String,
    /// The file's size in bytes.
    pub size: u64,
    /// The file's content checksum (lower-case hex SHA-256).
    pub digest: String,
}

/// The mathematical content of a [`DirEntryDigest`].
pub struct EntryView {
    pub relative_path: Seq<char>,
    pub size: u64,
    pub digest: Seq<char>,
}

impl View for DirEntryDigest {
    type V = EntryView;

    open spec fn view(&self) -> EntryView {
        EntryView { relative_path: self.relative_path@, size: self.size, digest: self.digest@ }
    }
}

/// The views of entries.
pub open spec fn entry_views(v: Seq<DirEntryDigest>) -> Seq<EntryView> {
    v.map_values(|e: DirEntryDigest| e@)
}

/// Byte-wise lexicographic order (how `String`'s `Ord` compares).
pub open spec fn bytes_le(a: Seq<u8>, b: Seq<u8>) -> bool
    decreases a.len(),
{
    if a.len() == 0 {
        true
    } else if b.len() == 0 {
        false
    } else if a[0] < b[0] {
        true
    } else if a[0] > b[0] {
        false
    } else {
        bytes_le(a.drop_first(), b.drop_first())
    }
}

/// The sort key of an entry: its relative path's UTF-8 bytes.
pub open spec fn key(e: EntryView) -> Seq<u8> {
    encode_utf8(e.relative_path)
}

/// `e` inserted into `s` after every entry whose key is not greater.
pub open spec fn insert_sorted(s: Seq<EntryView>, e: EntryView) -> Seq<EntryView>
    decreases s.len(),
{
    if s.len() == 0 {
        seq![e]
    } else if bytes_le(key(s.last()), key(e)) {
        s.push(e)
    } else {
        insert_sorted(s.drop_last(), e).push(s.last())
    }
}

/// The entries in path order; entries with equal paths keep their order.
pub open spec fn sort_entries(s: Seq<EntryView>) -> Seq<EntryView>
    decreases s.len(),
{
    if s.len() == 0 {
        seq![]
    } else {
        insert_sorted(sort_entries(s.drop_last()), s.last())
    }
}

/// The bytes hashed for one entry: path, NUL, decimal size, NUL, digest,
/// newline.
pub open spec fn entry_record(e: EntryView) -> Seq<u8> {
    encode_utf8(e.relative_path) + seq![0u8] + encode_utf8(decimal(e.size as nat)) + seq![0u8]
        + encode_utf8(e.digest) + seq![10u8]
}

/// The records of all entries, in order.
pub open spec fn entry_records(s: Seq<EntryView>) -> Seq<u8>
    decreases s.len(),
{
    if s.len() == 0 {
        seq![]
    } else {
        entry_records(s.drop_last()) + entry_record(s.last())
    }
}

/// The checksum of a directory whose files are `entries` (in any order).
pub open spec fn directory_checksum_spec(entries: Seq<EntryView>) -> Seq<char> {
    hex_lower(sha256(entry_records(sort_entries(entries))))
}

fn bytes_le_exec(a: &[u8], b: &[u8]) -> (r: bool)
    ensures
        r == bytes_le(a@, b@),
{
    let mut i: usize = 0;
    proof {
        assert(a@.skip(0) == a@);
        assert(b@.skip(0) == b@);
    }
    while i < a.len() && i < b.len() && a[i] == b[i]
        invariant
            i <= a@.len(),
            i <= b@.len(),
            bytes_le(a@, b@) == bytes_le(a@.skip(i as int), b@.skip(i as int)),
        decreases a@.len() - i,
    {
        proof {
            assert(a@.skip(i as int).drop_first() == a@.skip(i + 1));
            assert(b@.skip(i as int).drop_first() == b@.skip(i + 1));
        }
        i += 1;
    }
    proof {
        if i < a@.len() {
            assert(a@.skip(i as int)[0] == a@[i as int]);
        }
        if i < b@.len() {
            assert(b@.skip(i as int)[0] == b@[i as int]);
        }
    }
    if i == a.len() {
        true
    } else if i == b.len() {
        false
    } else {
        a[i] < b[i]
    }
}

proof fn lemma_insert_at(s: Seq<EntryView>, e: EntryView, j: int)
    requires
        0 <= j <= s.len(),
        forall|k: int| j <= k < s.len() ==> !bytes_le(key(#[trigger] s[k]), key(e)),
        j == 0 || bytes_le(key(s[j - 1]), key(e)),
    ensures
        insert_sorted(s, e) == s.take(j).push(e) + s.skip(j),
    decreases s.len() - j,
{
    if s.len() == 0 {
        assert(s.take(j).push(e) + s.skip(j) =~= seq![e]);
    } else if j == s.len() {
        assert(bytes_le(key(s.last()), key(e)));
        assert(s.take(j).push(e) + s.skip(j) =~= s.push(e));
    } else {
        assert(!bytes_le(key(s[s.len() - 1]), key(e)));
        let sd = s.drop_last();
        assert forall|k: int| j <= k < sd.len() implies !bytes_le(key(#[trigger] sd[k]), key(e)) by {
            assert(sd[k] == s[k]);
        }
        if j > 0 {
            assert(sd[j - 1] == s[j - 1]);
        }
        lemma_insert_at(sd, e, j);
        assert(sd.take(j).push(e) + sd.skip(j) + seq![s.last()] =~= s.take(j).push(e) + s.skip(j));
    }
}

fn insert_entry(r: &mut Vec<DirEntryDigest>, e: DirEntryDigest)
    ensures
        entry_views(final(r)@) == insert_sorted(entry_views(old(r)@), e@),
{
    let ghost s = entry_views(r@);
    let mut j: usize = r.len();
    while j > 0 && !bytes_le_exec(r[j - 1].relative_path.as_str().as_bytes(), e.relative_path.as_str().as_bytes())
        invariant
            j <= r@.len(),
            s == entry_views(r@),
            forall|k: int| j <= k < s.len() ==> !bytes_le(key(#[trigger] s[k]), key(e@)),
        decreases j,
    {
        proof {
            assert(s[j - 1] == r@[j - 1]@);
        }
        j -= 1;
    }
    proof {
        if j > 0 {
            assert(s[j - 1] == r@[j - 1]@);
        }
        lemma_insert_at(s, e@, j as int);
    }
    let ghost ev = e@;
    r.insert(j, e);
    proof {
        assert(entry_views(r@) =~= s.take(j as int).push(ev) + s.skip(j as int));
    }
}

/// The entries sorted by relative path (byte order, as `String` compares);
/// entries with equal paths keep their order.
pub fn sort_by_path(entries: Vec<DirEntryDigest>) -> (r: Vec<DirEntryDigest>)
    ensures
        entry_views(r@) == sort_entries(entry_views(entries@)),
{
    let ghost ev = entry_views(entries@);
    let total = entries.len();
    let mut out: Vec<DirEntryDigest> = Vec::new();
    let mut rest = entries;
    // Move entries out in order: reverse once, then pop from the back.
    let mut rev: Vec<DirEntryDigest> = Vec::new();
    while rest.len() > 0
        invariant
            ev.len() == rev@.len() + rest@.len(),
            entry_views(rest@) == ev.take(rest@.len() as int),
            forall|k: int|
                0 <= k < rev@.len() ==> (#[trigger] rev@[k])@ == ev[ev.len() - 1 - k],
        decreases rest@.len(),
    {
        let ghost n = rest@.len();
        let x = rest.pop().unwrap();
        proof {
            assert(x@ == ev.take(n as int)[n - 1]);
            assert(entry_views(rest@) == ev.take(n as int).drop_last());
            assert(ev.take(n as int).drop_last() == ev.take(n - 1));
        }
        rev.push(x);
    }
    let mut i: usize = 0;
    proof {
        assert(ev.take(0) == Seq::<EntryView>::empty());
    }
    while rev.len() > 0
        invariant
            i + rev@.len() == ev.len(),
            ev.len() == total,
            forall|k: int| 0 <= k < rev@.len() ==> (#[trigger] rev@[k])@ == ev[ev.len() - 1 - k],
            entry_views(out@) == sort_entries(ev.take(i as int)),
        decreases rev@.len(),
    {
        let x = rev.pop().unwrap();
        proof {
            assert(x@ == ev[i as int]);
            assert(ev.take(i + 1).drop_last() == ev.take(i as int));
            assert(ev.take(i + 1).last() == ev[i as int]);
        }
        insert_entry(&mut out, x);
        i += 1;
    }
    proof {
        assert(ev.take(ev.len() as int) == ev);
    }
    out
}

fn append_bytes(v: &mut Vec<u8>, b: &[u8])
    ensures
        final(v)@ == old(v)@ + b@,
{
    let ghost start = v@;
    let mut i: usize = 0;
    while i < b.len()
        invariant
            i <= b@.len(),
            v@ == start + b@.take(i as int),
        decreases b@.len() - i,
    {
        v.push(b[i]);
        proof {
            assert(b@.take(i + 1) == b@.take(i as int).push(b@[i as int]));
            assert(start + b@.take(i + 1) == (start + b@.take(i as int)).push(b@[i as int]));
        }
        i += 1;
    }
    proof {
        assert(b@.take(b@.len() as int) == b@);
    }
}

/// The checksum of a directory whose files are `entries`, listed in any
/// order: SHA-256 over each file's record (relative path, NUL, size in
/// decimal, NUL, content digest, newline) in path order.
pub fn directory_checksum(entries: Vec<DirEntryDigest>) -> (h: String)
    ensures
        h@ == directory_checksum_spec(entry_views(entries@)),
        h@.len() == 64,
        is_lower_hex(h@),
{
    let sorted = sort_by_path(entries);
    let ghost sv = entry_views(sorted@);
    let mut data: Vec<u8> = Vec::new();
    let mut i: usize = 0;
    while i < sorted.len()
        invariant
            i <= sorted@.len(),
            sv == entry_views(sorted@),
            data@ == entry_records(sv.take(i as int)),
        decreases sorted@.len() - i,
    {
        let e = &sorted[i];
        let ghost before = data@;
        append_bytes(&mut data, e.relative_path.as_str().as_bytes());
        data.push(0u8);
        let size_text = u64_to_decimal(e.size);
        append_bytes(&mut data, size_text.as_str().as_bytes());
        data.push(0u8);
        append_bytes(&mut data, e.digest.as_str().as_bytes());
        data.push(10u8);
        proof {
            assert(sv.take(i + 1).drop_last() == sv.take(i as int));
            assert(sv.take(i + 1).last() == e@);
            assert(data@ =~= before + entry_record(e@));
        }
        i += 1;
    }
    proof {
        assert(sv.take(sorted@.len() as int) == sv);
    }
    let d = sha256_digest(data.as_slice());
    proof {
        lemma_hex_lower_shape(d@);
    }
    hex_encode(d.as_slice())
}

/// A file's path relative to the checksummed directory, with `\` turned
/// into `/`; the whole path when it is not below the directory.
pub open spec fn relative_entry_path_spec(path: Seq<char>, root: Seq<char>) -> Seq<char> {
    let rel = match path_strip_prefix(path, root) {
        Some(r) => r,
        None => path,
    };
    rel.map_values(|c: char| if c == '\\' { '/' } else { c })
}

/// A file's path relative to the checksummed directory `root`, with `/`
/// separators.
pub fn relative_entry_path(path: &str, root: &str) -> (r: String)
    ensures
        r@ == relative_entry_path_spec(path@, root@),
{
    let rel = match strip_path_prefix(path, root) {
        Some(r) => r,
        None => crate::text::owned(path),
    };
    let cs = chars_of(rel.as_str());
    let mut out: Vec<char> = Vec::new();
    let mut i: usize = 0;
    while i < cs.len()
        invariant
            i <= cs@.len(),
            out@ == cs@.take(i as int).map_values(|c: char| if c == '\\' { '/' } else { c }),
        decreases cs@.len() - i,
    {
        let c = cs[i];
        out.push(if c == '\\' { '/' } else { c });
        proof {
            assert(cs@.take(i + 1).map_values(|c: char| if c == '\\' { '/' } else { c })
                == cs@.take(i as int).map_values(|c: char| if c == '\\' { '/' } else { c }).push(
                if c == '\\' { '/' } else { c }));
        }
        i += 1;
    }
    proof {
        assert(cs@.take(cs@.len() as int) == cs@);
    }
    string_from_chars(out.as_slice())
}

// ---------------------------------------------------------------------------
// Laws of the path order and of the directory checksum
// ---------------------------------------------------------------------------

proof fn lemma_bytes_le_reflexive(a: Seq<u8>)
    ensures
        bytes_le(a, a),
    decreases a.len(),
{
    if a.len() > 0 {
        lemma_bytes_le_reflexive(a.drop_first());
    }
}

proof fn lemma_bytes_le_total(a: Seq<u8>, b: Seq<u8>)
    ensures
        bytes_le(a, b) || bytes_le(b, a),
    decreases a.len(),
{
    if a.len() > 0 && b.len() > 0 && a[0] == b[0] {
        lemma_bytes_le_total(a.drop_first(), b.drop_first());
    }
}

proof fn lemma_bytes_le_antisymmetric(a: Seq<u8>, b: Seq<u8>)
    requires
        bytes_le(a, b),
        bytes_le(b, a),
    ensures
        a == b,
    decreases a.len(),
{
    if a.len() == 0 {
        assert(b.len() == 0);
    } else {
        lemma_bytes_le_antisymmetric(a.drop_first(), b.drop_first());
        assert(a =~= seq![a[0]] + a.drop_first());
        assert(b =~= seq![b[0]] + b.drop_first());
    }
}

proof fn lemma_bytes_le_transitive(a: Seq<u8>, b: Seq<u8>, c: Seq<u8>)
    requires
        bytes_le(a, b),
        bytes_le(b, c),
    ensures
        bytes_le(a, c),
    decreases a.len(),
{
    if a.len() > 0 && b.len() > 0 && c.len() > 0 && a[0] == b[0] && b[0] == c[0] {
        lemma_bytes_le_transitive(a.drop_first(), b.drop_first(), c.drop_first());
    }
}

/// Entries in non-decreasing path order.
pub open spec fn sorted_by_path(s: Seq<EntryView>) -> bool {
    forall|i: int, j: int| 0 <= i < j < s.len() ==> bytes_le(key(#[trigger] s[i]), key(#[trigger] s[j]))
}

proof fn lemma_insert_sorted_multiset(s: Seq<EntryView>, e: EntryView)
    ensures
        insert_sorted(s, e).to_multiset() =~= s.to_multiset().insert(e),
    decreases s.len(),
{
    broadcast use vstd::seq_lib::group_to_multiset_ensures;

    if s.len() > 0 && !bytes_le(key(s.last()), key(e)) {
        lemma_insert_sorted_multiset(s.drop_last(), e);
        assert(s.drop_last().push(s.last()) =~= s);
    }
}

proof fn lemma_insert_sorted_sorted(s: Seq<EntryView>, e: EntryView)
    requires
        sorted_by_path(s),
    ensures
        sorted_by_path(insert_sorted(s, e)),
    decreases s.len(),
{
    broadcast use vstd::seq_lib::group_to_multiset_ensures;

    if s.len() == 0 {
    } else if bytes_le(key(s.last()), key(e)) {
        let r = s.push(e);
        assert forall|i: int, j: int| 0 <= i < j < r.len() implies bytes_le(
            key(#[trigger] r[i]),
            key(#[trigger] r[j]),
        ) by {
            if j == s.len() {
                if i < s.len() - 1 {
                    lemma_bytes_le_transitive(key(s[i]), key(s.last()), key(e));
                }
            }
        }
    } else {
        let t = s.drop_last();
        assert(sorted_by_path(t));
        lemma_insert_sorted_sorted(t, e);
        lemma_insert_sorted_multiset(t, e);
        lemma_bytes_le_total(key(s.last()), key(e));
        let r1 = insert_sorted(t, e);
        let r = r1.push(s.last());
        assert forall|i: int, j: int| 0 <= i < j < r.len() implies bytes_le(
            key(#[trigger] r[i]),
            key(#[trigger] r[j]),
        ) by {
            if j == r1.len() {
                let x = r1[i];
                assert(r1.to_multiset().contains(x));
                if x != e {
                    assert(t.to_multiset().contains(x));
                    let k = choose|k: int| 0 <= k < t.len() && t[k] == x;
                    assert(s[k] == x);
                }
            } else {
                assert(r[i] == r1[i] && r[j] == r1[j]);
            }
        }
    }
}

/// The path order is a stable sort: its result is in path order and holds
/// exactly the given entries.
pub proof fn lemma_sort_entries_sorts(s: Seq<EntryView>)
    ensures
        sorted_by_path(sort_entries(s)),
        sort_entries(s).to_multiset() =~= s.to_multiset(),
    decreases s.len(),
{
    broadcast use vstd::seq_lib::group_to_multiset_ensures;

    if s.len() > 0 {
        lemma_sort_entries_sorts(s.drop_last());
        lemma_insert_sorted_sorted(sort_entries(s.drop_last()), s.last());
        lemma_insert_sorted_multiset(sort_entries(s.drop_last()), s.last());
        assert(s.drop_last().push(s.last()) =~= s);
    }
}

/// A total order on entries: by path bytes, then size, then digest bytes.
pub open spec fn entry_le(a: EntryView, b: EntryView) -> bool {
    ||| (bytes_le(key(a), key(b)) && key(a) != key(b))
    ||| (key(a) == key(b) && a.size < b.size)
    ||| (key(a) == key(b) && a.size == b.size && bytes_le(
        encode_utf8(a.digest),
        encode_utf8(b.digest),
    ))
}

proof fn lemma_entry_le_total_ordering()
    ensures
        vstd::relations::total_ordering(|a: EntryView, b: EntryView| entry_le(a, b)),
{
    broadcast use vstd::utf8::encode_utf8_decode_utf8;

    let leq = |a: EntryView, b: EntryView| entry_le(a, b);
    assert forall|a: EntryView| #[trigger] leq(a, a) by {
        lemma_bytes_le_reflexive(encode_utf8(a.digest));
    }
    assert forall|a: EntryView, b: EntryView| #[trigger] leq(a, b) && #[trigger] leq(b, a) implies a
        == b by {
        if key(a) != key(b) {
            lemma_bytes_le_antisymmetric(key(a), key(b));
        } else {
            lemma_bytes_le_antisymmetric(encode_utf8(a.digest), encode_utf8(b.digest));
            assert(vstd::utf8::decode_utf8(key(a)) == a.relative_path);
            assert(vstd::utf8::decode_utf8(key(b)) == b.relative_path);
            assert(vstd::utf8::decode_utf8(encode_utf8(a.digest)) == a.digest);
            assert(vstd::utf8::decode_utf8(encode_utf8(b.digest)) == b.digest);
        }
    }
    assert forall|a: EntryView, b: EntryView, c: EntryView|
        #[trigger] leq(a, b) && #[trigger] leq(b, c) implies leq(a, c) by {
        if key(a) != key(b) && key(b) != key(c) {
            lemma_bytes_le_transitive(key(a), key(b), key(c));
            if key(a) == key(c) {
                lemma_bytes_le_antisymmetric(key(a), key(b));
            }
        } else if key(a) == key(b) && key(b) == key(c) {
            if a.size == b.size && b.size == c.size {
                lemma_bytes_le_transitive(
                    encode_utf8(a.digest),
                    encode_utf8(b.digest),
                    encode_utf8(c.digest),
                );
            }
        }
    }
    assert forall|a: EntryView, b: EntryView| #[trigger] leq(a, b) || #[trigger] leq(b, a) by {
        lemma_bytes_le_total(key(a), key(b));
        lemma_bytes_le_total(encode_utf8(a.digest), encode_utf8(b.digest));
    }
}

/// No two entries share a path.
pub open spec fn distinct_paths(s: Seq<EntryView>) -> bool {
    forall|i: int, j: int| 0 <= i < j < s.len() ==> (#[trigger] s[i]).relative_path != (#[trigger] s[j]).relative_path
}

proof fn lemma_distinct_paths_transfer(s: Seq<EntryView>, t: Seq<EntryView>)
    requires
        distinct_paths(s),
        s.to_multiset() == t.to_multiset(),
    ensures
        distinct_paths(t),
{
    broadcast use vstd::seq_lib::group_to_multiset_ensures;
    broadcast use vstd::multiset::group_multiset_axioms;

    assert(s.no_duplicates()) by {
        assert forall|i: int, j: int| 0 <= i < s.len() && 0 <= j < s.len() && i != j implies s[i]
            != s[j] by {
            if i < j {
                assert(s[i].relative_path != s[j].relative_path);
            } else {
                assert(s[j].relative_path != s[i].relative_path);
            }
        }
    }
    s.lemma_multiset_has_no_duplicates();
    t.lemma_multiset_has_no_duplicates_conv();
    assert forall|i: int, j: int| 0 <= i < j < t.len() implies (#[trigger] t[i]).relative_path
        != (#[trigger] t[j]).relative_path by {
        assert(t[i] != t[j]);
        assert(t.to_multiset().contains(t[i]));
        assert(t.to_multiset().contains(t[j]));
        let p = choose|p: int| 0 <= p < s.len() && s[p] == t[i];
        let q = choose|q: int| 0 <= q < s.len() && s[q] == t[j];
        if p < q {
        } else if q < p {
        }
    }
}

proof fn lemma_key_injective(a: EntryView, b: EntryView)
    requires
        key(a) == key(b),
    ensures
        a.relative_path == b.relative_path,
{
    broadcast use vstd::utf8::encode_utf8_decode_utf8;

    assert(vstd::utf8::decode_utf8(key(a)) == a.relative_path);
    assert(vstd::utf8::decode_utf8(key(b)) == b.relative_path);
}

/// An entry whose record reads back unambiguously: its path has no NUL byte
/// (no file path does) and its digest no newline (a hex digest has none).
pub open spec fn record_readable(e: EntryView) -> bool {
    &&& !encode_utf8(e.relative_path).contains(0u8)
    &&& !encode_utf8(e.digest).contains(10u8)
}

proof fn lemma_delimited(x: Seq<u8>, y: Seq<u8>, d: u8, r1: Seq<u8>, r2: Seq<u8>)
    requires
        !x.contains(d),
        !y.contains(d),
        x + seq![d] + r1 == y + seq![d] + r2,
    ensures
        x == y,
        r1 == r2,
{
    let w = x + seq![d] + r1;
    if x.len() < y.len() {
        assert(w[x.len() as int] == d);
        assert(w[x.len() as int] == y[x.len() as int]);
        assert(y.contains(d));
    } else if y.len() < x.len() {
        assert(w[y.len() as int] == d);
        assert(w[y.len() as int] == x[y.len() as int]);
        assert(x.contains(d));
    }
    assert(x =~= w.take(x.len() as int));
    assert(y =~= w.take(y.len() as int));
    assert(r1 =~= w.skip(x.len() + 1int));
    assert(r2 =~= w.skip(y.len() + 1int));
}

proof fn lemma_record_prefix(e1: EntryView, e2: EntryView, r1: Seq<u8>, r2: Seq<u8>)
    requires
        record_readable(e1),
        record_readable(e2),
        entry_record(e1) + r1 == entry_record(e2) + r2,
    ensures
        e1 == e2,
        r1 == r2,
{
    let p1 = encode_utf8(e1.relative_path);
    let p2 = encode_utf8(e2.relative_path);
    let d1 = encode_utf8(decimal(e1.size as nat));
    let d2 = encode_utf8(decimal(e2.size as nat));
    let g1 = encode_utf8(e1.digest);
    let g2 = encode_utf8(e2.digest);
    let t1 = d1 + seq![0u8] + (g1 + seq![10u8] + r1);
    let t2 = d2 + seq![0u8] + (g2 + seq![10u8] + r2);
    assert(entry_record(e1) + r1 =~= p1 + seq![0u8] + t1);
    assert(entry_record(e2) + r2 =~= p2 + seq![0u8] + t2);
    lemma_delimited(p1, p2, 0u8, t1, t2);
    lemma_decimal_has_no_nul(e1.size as nat);
    lemma_decimal_has_no_nul(e2.size as nat);
    lemma_delimited(d1, d2, 0u8, g1 + seq![10u8] + r1, g2 + seq![10u8] + r2);
    lemma_delimited(g1, g2, 10u8, r1, r2);
    vstd::utf8::encode_utf8_decode_utf8(e1.relative_path);
    vstd::utf8::encode_utf8_decode_utf8(e2.relative_path);
    vstd::utf8::encode_utf8_decode_utf8(e1.digest);
    vstd::utf8::encode_utf8_decode_utf8(e2.digest);
    vstd::utf8::encode_utf8_decode_utf8(decimal(e1.size as nat));
    vstd::utf8::encode_utf8_decode_utf8(decimal(e2.size as nat));
    let m = if e1.size >= e2.size {
        e1.size as nat
    } else {
        e2.size as nat
    };
    lemma_parse_decimal_roundtrip(e1.size as nat, m);
    lemma_parse_decimal_roundtrip(e2.size as nat, m);
}

proof fn lemma_records_front(s: Seq<EntryView>)
    requires
        s.len() > 0,
    ensures
        entry_records(s) == entry_record(s[0]) + entry_records(s.drop_first()),
    decreases s.len(),
{
    if s.len() > 1 {
        lemma_records_front(s.drop_last());
        assert(s.drop_last().drop_first() == s.drop_first().drop_last());
        assert(s.drop_first().last() == s.last());
        assert(entry_records(s.drop_first()) == entry_records(s.drop_first().drop_last())
            + entry_record(s.drop_first().last()));
        assert(entry_records(s) =~= entry_record(s[0]) + entry_records(s.drop_first()));
    } else {
        assert(s.drop_last() =~= Seq::<EntryView>::empty());
        assert(s.drop_first() =~= Seq::<EntryView>::empty());
        assert(entry_records(s) =~= entry_record(s[0]) + entry_records(s.drop_first()));
    }
}

proof fn lemma_records_injective(s: Seq<EntryView>, t: Seq<EntryView>)
    requires
        forall|i: int| 0 <= i < s.len() ==> record_readable(#[trigger] s[i]),
        forall|i: int| 0 <= i < t.len() ==> record_readable(#[trigger] t[i]),
        entry_records(s) == entry_records(t),
    ensures
        s == t,
    decreases s.len(),
{
    if s.len() == 0 {
        if t.len() > 0 {
            lemma_records_front(t);
            assert(entry_records(t).len() > 0);
        }
        assert(t =~= s);
    } else {
        if t.len() == 0 {
            lemma_records_front(s);
            assert(entry_records(s).len() > 0);
        }
        lemma_records_front(s);
        lemma_records_front(t);
        assert(record_readable(s[0]));
        assert(record_readable(t[0]));
        lemma_record_prefix(s[0], t[0], entry_records(s.drop_first()), entry_records(t.drop_first()));
        assert forall|i: int| 0 <= i < s.drop_first().len() implies record_readable(
            #[trigger] s.drop_first()[i],
        ) by {
            assert(s.drop_first()[i] == s[i + 1]);
        }
        assert forall|i: int| 0 <= i < t.drop_first().len() implies record_readable(
            #[trigger] t.drop_first()[i],
        ) by {
            assert(t.drop_first()[i] == t[i + 1]);
        }
        lemma_records_injective(s.drop_first(), t.drop_first());
        assert(s =~= seq![s[0]] + s.drop_first());
        assert(t =~= seq![t[0]] + t.drop_first());
    }
}

/// The data a directory checksum hashes tells directories apart: two
/// listings whose files (relative path, size and content digest) differ as a
/// collection hash different bytes. Only a SHA-256 collision could then give
/// them the same checksum.
pub proof fn lemma_changed_tree_changes_hashed_data(s: Seq<EntryView>, t: Seq<EntryView>)
    requires
        forall|i: int| 0 <= i < s.len() ==> record_readable(#[trigger] s[i]),
        forall|i: int| 0 <= i < t.len() ==> record_readable(#[trigger] t[i]),
        s.to_multiset() != t.to_multiset(),
    ensures
        entry_records(sort_entries(s)) != entry_records(sort_entries(t)),
{
    broadcast use vstd::seq_lib::to_multiset_contains;

    lemma_sort_entries_sorts(s);
    lemma_sort_entries_sorts(t);
    let ss = sort_entries(s);
    let st = sort_entries(t);
    assert forall|i: int| 0 <= i < ss.len() implies record_readable(#[trigger] ss[i]) by {
        assert(ss.contains(ss[i]));
        assert(ss.to_multiset().count(ss[i]) > 0);
        assert(s.contains(ss[i]));
        let k = choose|k: int| 0 <= k < s.len() && s[k] == ss[i];
        assert(record_readable(s[k]));
    }
    assert forall|i: int| 0 <= i < st.len() implies record_readable(#[trigger] st[i]) by {
        assert(st.contains(st[i]));
        assert(st.to_multiset().count(st[i]) > 0);
        assert(t.contains(st[i]));
        let k = choose|k: int| 0 <= k < t.len() && t[k] == st[i];
        assert(record_readable(t[k]));
    }
    if entry_records(ss) == entry_records(st) {
        lemma_records_injective(ss, st);
    }
}

/// A directory's checksum does not depend on the order in which its files
/// were listed, as long as no path is listed twice.
pub proof fn lemma_directory_checksum_ignores_listing_order(s: Seq<EntryView>, t: Seq<EntryView>)
    requires
        distinct_paths(s),
        s.to_multiset() == t.to_multiset(),
    ensures
        directory_checksum_spec(s) == directory_checksum_spec(t),
{
    let leq = |a: EntryView, b: EntryView| entry_le(a, b);
    lemma_sort_entries_sorts(s);
    lemma_sort_entries_sorts(t);
    let ss = sort_entries(s);
    let st = sort_entries(t);
    lemma_distinct_paths_transfer(s, ss);
    lemma_distinct_paths_transfer(s, st);
    assert forall|i: int, j: int| 0 <= i < j < ss.len() implies #[trigger] leq(ss[i], ss[j]) by {
        assert(bytes_le(key(ss[i]), key(ss[j])));
        if key(ss[i]) == key(ss[j]) {
            lemma_key_injective(ss[i], ss[j]);
        }
    }
    assert forall|i: int, j: int| 0 <= i < j < st.len() implies #[trigger] leq(st[i], st[j]) by {
        assert(bytes_le(key(st[i]), key(st[j])));
        if key(st[i]) == key(st[j]) {
            lemma_key_injective(st[i], st[j]);
        }
    }
    lemma_entry_le_total_ordering();
    vstd::seq_lib::lemma_sorted_unique(ss, st, leq);
}

} // verus!
