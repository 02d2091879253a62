//! Merging a configuration update into the existing `config.yaml`, and where
//! that file and its reload marker live.
//!
//! The file is read as lines. A line that starts a mapping key at a given
//! indentation (`key:` after that many spaces) opens a section; every other
//! line belongs to the section above it. An update replaces the sections it
//! writes and keeps every other section, line for line.
use vstd::prelude::*;
use crate::text::{
    char_views, chars_of, find_char, first_index_of, lines, lines_of, owned, push_chars,
    push_str, slice_chars, str_eq, string_from_chars,
};
use crate::bindings::{parent_of, path_join, path_joined, path_parent};

verus! {

/// The key that `line` opens at indentation `indent`: the line starts with
/// `indent` spaces, then a character that is not white space, `#` or `-`,
/// and the key runs up to the first `:`.
pub open spec fn key_at(line: Seq<char>, indent: nat) -> Option<Seq<char>> {
    if line.len() > indent && (forall|i: int| 0 <= i < indent ==> line[i] == ' ') && line[indent as int]
        != ' ' && line[indent as int] != '\t' && line[indent as int] != '#' && line[indent as int]
        != '-' {
        match first_index_of(line, ':') {
            Some(c) => if c >= indent {
                Some(line.subrange(indent as int, c))
            } else {
                None
            },
            None => None,
        }
    } else {
        None
    }
}

/// Whether the section a line belongs to is kept: a key line starts a kept
/// section exactly when its key is not in `drop`; any other line continues
/// the section above it.
pub open spec fn next_keeping(line: Seq<char>, indent: nat, drop: Seq<Seq<char>>, keeping: bool) -> bool {
    match key_at(line, indent) {
        Some(key) => !drop.contains(key),
        None => keeping,
    }
}

/// The lines of sections (at indentation `indent`) whose key is not in
/// `drop`; `keeping` says whether the section the first line belongs to is
/// kept.
pub open spec fn keep_lines(
    ls: Seq<Seq<char>>,
    indent: nat,
    drop: Seq<Seq<char>>,
    keeping: bool,
) -> Seq<Seq<char>>
    decreases ls.len(),
{
    if ls.len() == 0 {
        seq![]
    } else {
        let k = next_keeping(ls[0], indent, drop, keeping);
        (if k {
            seq![ls[0]]
        } else {
            seq![]
        }) + keep_lines(ls.drop_first(), indent, drop, k)
    }
}

/// The lines up to (not including) the next top-level key.
pub open spec fn body_until_key(ls: Seq<Seq<char>>) -> Seq<Seq<char>>
    decreases ls.len(),
{
    if ls.len() == 0 || key_at(ls[0], 0) is Some {
        seq![]
    } else {
        seq![ls[0]] + body_until_key(ls.drop_first())
    }
}

/// The lines inside the first top-level section `key` (after its key line).
pub open spec fn section_body(ls: Seq<Seq<char>>, key: Seq<char>) -> Seq<Seq<char>>
    decreases ls.len(),
{
    if ls.len() == 0 {
        seq![]
    } else if key_at(ls[0], 0) == Some(key) {
        body_until_key(ls.drop_first())
    } else {
        section_body(ls.drop_first(), key)
    }
}

/// `text` followed by each of `ls` on a line of its own.
pub open spec fn append_lines(text: Seq<char>, ls: Seq<Seq<char>>) -> Seq<char>
    decreases ls.len(),
{
    if ls.len() == 0 {
        text
    } else {
        append_lines(text + "\n"@ + ls[0], ls.drop_first())
    }
}

fn line_key(line: &Vec<char>, indent: usize) -> (r: Option<Vec<char>>)
    ensures
        match r {
            Some(k) => key_at(line@, indent as nat) == Some(k@),
            None => key_at(line@, indent as nat) is None,
        },
{
    if line.len() <= indent {
        return None;
    }
    let mut i: usize = 0;
    while i < indent
        invariant
            i <= indent < line@.len(),
            forall|j: int| 0 <= j < i ==> line@[j] == ' ',
        decreases indent - i,
    {
        if line[i] != ' ' {
            return None;
        }
        i += 1;
    }
    let c = line[indent];
    if c == ' ' || c == '\t' || c == '#' || c == '-' {
        return None;
    }
    match find_char(line.as_slice(), ':') {
        Some(colon) => if colon >= indent {
            Some(slice_chars(line.as_slice(), indent, colon))
        } else {
            None
        },
        None => None,
    }
}

fn key_in(key: &Vec<char>, drop: &Vec<&str>) -> (b: bool)
    ensures
        b == drop@.map_values(|d: &str| d@).contains(key@),
{
    let ghost dv = drop@.map_values(|d: &str| d@);
    let k = string_from_chars(key.as_slice());
    let mut i: usize = 0;
    while i < drop.len()
        invariant
            i <= drop@.len(),
            dv == drop@.map_values(|d: &str| d@),
            k@ == key@,
            forall|j: int| 0 <= j < i ==> dv[j] != key@,
        decreases drop@.len() - i,
    {
        if str_eq(k.as_str(), drop[i]) {
            proof {
                assert(dv[i as int] == key@);
            }
            return true;
        }
        i += 1;
    }
    false
}

fn keep_sections(ls: &Vec<Vec<char>>, indent: usize, drop: &Vec<&str>) -> (r: Vec<Vec<char>>)
    ensures
        char_views(r@) == keep_lines(char_views(ls@), indent as nat, drop@.map_values(|d: &str| d@), true),
{
    let ghost lv = char_views(ls@);
    let ghost dv = drop@.map_values(|d: &str| d@);
    let mut out: Vec<Vec<char>> = Vec::new();
    let mut keeping = true;
    let mut i: usize = 0;
    proof {
        assert(lv.skip(0) == lv);
    }
    while i < ls.len()
        invariant
            i <= ls@.len(),
            lv == char_views(ls@),
            dv == drop@.map_values(|d: &str| d@),
            char_views(out@) + keep_lines(lv.skip(i as int), indent as nat, dv, keeping) == keep_lines(
                lv,
                indent as nat,
                dv,
                true,
            ),
        decreases ls@.len() - i,
    {
        let line = &ls[i];
        let k = match line_key(line, indent) {
            Some(key) => !key_in(&key, drop),
            None => keeping,
        };
        proof {
            let rest = lv.skip(i as int);
            assert(rest[0] == line@);
            assert(rest.drop_first() == lv.skip(i + 1));
        }
        if k {
            out.push(line.clone());
            proof {
                assert(char_views(out@) == char_views(out@.drop_last()).push(line@));
            }
        }
        keeping = k;
        i += 1;
    }
    out
}

fn section_lines(ls: &Vec<Vec<char>>, key: &str) -> (r: Vec<Vec<char>>)
    ensures
        char_views(r@) == section_body(char_views(ls@), key@),
{
    let ghost lv = char_views(ls@);
    let mut i: usize = 0;
    proof {
        assert(lv.skip(0) == lv);
    }
    while i < ls.len()
        invariant
            i <= ls@.len(),
            lv == char_views(ls@),
            section_body(lv.skip(i as int), key@) == section_body(lv, key@),
        decreases ls@.len() - i,
    {
        let ghost rest = lv.skip(i as int);
        proof {
            assert(rest[0] == ls@[i as int]@);
            assert(rest.drop_first() == lv.skip(i + 1));
        }
        let found = match line_key(&ls[i], 0) {
            Some(k) => str_eq(string_from_chars(k.as_slice()).as_str(), key),
            None => false,
        };
        if found {
            let mut out: Vec<Vec<char>> = Vec::new();
            let mut j: usize = i + 1;
            proof {
                assert(section_body(rest, key@) == body_until_key(lv.skip(j as int)));
            }
            while j < ls.len()
                invariant
                    i < j <= ls@.len(),
                    lv == char_views(ls@),
                    char_views(out@) + body_until_key(lv.skip(j as int)) == section_body(lv, key@),
                decreases ls@.len() - j,
            {
                let ghost r2 = lv.skip(j as int);
                proof {
                    assert(r2[0] == ls@[j as int]@);
                    assert(r2.drop_first() == lv.skip(j + 1));
                }
                match line_key(&ls[j], 0) {
                    Some(_) => {
                        return out;
                    },
                    None => {},
                }
                out.push(ls[j].clone());
                proof {
                    assert(char_views(out@) == char_views(out@.drop_last()).push(ls@[j as int]@));
                }
                j += 1;
            }
            proof {
                assert(lv.skip(j as int) == Seq::<Seq<char>>::empty());
            }
            return out;
        }
        i += 1;
    }
    proof {
        assert(lv.skip(i as int) == Seq::<Seq<char>>::empty());
    }
    Vec::new()
}

fn append_all(text: &mut String, ls: &Vec<Vec<char>>)
    ensures
        final(text)@ == append_lines(old(text)@, char_views(ls@)),
{
    let ghost lv = char_views(ls@);
    let mut i: usize = 0;
    proof {
        assert(lv.skip(0) == lv);
    }
    while i < ls.len()
        invariant
            i <= ls@.len(),
            lv == char_views(ls@),
            append_lines(text@, lv.skip(i as int)) == append_lines(old(text)@, lv),
        decreases ls@.len() - i,
    {
        let ghost rest = lv.skip(i as int);
        proof {
            assert(rest[0] == ls@[i as int]@);
            assert(rest.drop_first() == lv.skip(i + 1));
        }
        push_str(text, "\n");
        push_chars(text, ls[i].as_slice());
        i += 1;
    }
}

/// The top-level keys an update of the guardian dashboard writes.
pub open spec fn guardian_keys() -> Seq<Seq<char>> {
    seq!["mode"@, "modules"@]
}

/// The top-level keys an update of the console writes.
pub open spec fn console_keys() -> Seq<Seq<char>> {
    seq!["mode"@, "modules"@, "file_integrity"@]
}

/// The existing file's lines that an update keeps: every section whose key it
/// does not write.
pub open spec fn kept_lines(existing: Seq<char>, written: Seq<Seq<char>>) -> Seq<Seq<char>> {
    keep_lines(lines(existing), 0, written, true)
}

/// `rendered` followed by the kept sections of `existing`.
pub fn merge_config(rendered: String, existing: &str, written: &Vec<&str>) -> (r: String)
    ensures
        r@ == append_lines(rendered@, kept_lines(existing@, written@.map_values(|d: &str| d@))),
{
    let cs = chars_of(existing);
    let ls = lines_of(cs.as_slice());
    let kept = keep_sections(&ls, 0, written);
    let mut text = rendered;
    append_all(&mut text, &kept);
    text
}

/// The existing `file_integrity` section's lines other than its
/// `custom_paths` entry.
pub open spec fn kept_integrity_lines(existing: Seq<char>) -> Seq<Seq<char>> {
    keep_lines(section_body(lines(existing), "file_integrity"@), 2, seq!["custom_paths"@], true)
}

/// `rendered` followed by the existing `file_integrity` settings other than
/// `custom_paths`.
pub fn merge_integrity_section(rendered: String, existing: &str) -> (r: String)
    ensures
        r@ == append_lines(rendered@, kept_integrity_lines(existing@)),
{
    let cs = chars_of(existing);
    let ls = lines_of(cs.as_slice());
    let body = section_lines(&ls, "file_integrity");
    let drop: Vec<&str> = vec!["custom_paths"];
    proof {
        assert(drop@.map_values(|d: &str| d@) =~= seq!["custom_paths"@]);
    }
    let kept = keep_sections(&body, 2, &drop);
    let mut text = rendered;
    append_all(&mut text, &kept);
    text
}

// ---------------------------------------------------------------------------
// Laws
// ---------------------------------------------------------------------------

/// `whole` is `before`, then `piece`, then `after`.
pub open spec fn splits_around(
    whole: Seq<Seq<char>>,
    before: Seq<Seq<char>>,
    piece: Seq<Seq<char>>,
    after: Seq<Seq<char>>,
) -> bool {
    whole == before + piece + after
}

proof fn lemma_run_kept(ls: Seq<Seq<char>>, indent: nat, drop: Seq<Seq<char>>, n: int)
    requires
        0 <= n <= ls.len(),
        forall|m: int| 0 <= m < n ==> key_at(#[trigger] ls[m], indent) is None,
    ensures
        keep_lines(ls, indent, drop, true) == ls.take(n) + keep_lines(ls.skip(n), indent, drop, true),
    decreases n,
{
    if n == 0 {
        assert(ls.skip(0) == ls);
        assert(ls.take(0) =~= Seq::<Seq<char>>::empty());
    } else {
        let t = ls.drop_first();
        assert forall|m: int| 0 <= m < n - 1 implies key_at(#[trigger] t[m], indent) is None by {
            assert(t[m] == ls[m + 1]);
        }
        lemma_run_kept(t, indent, drop, n - 1);
        assert(t.skip(n - 1) == ls.skip(n));
        assert(ls.take(n) =~= seq![ls[0]] + t.take(n - 1));
    }
}

proof fn lemma_section_at_start(
    ls: Seq<Seq<char>>,
    indent: nat,
    drop: Seq<Seq<char>>,
    keeping: bool,
    j: int,
)
    requires
        0 < j <= ls.len(),
        key_at(ls[0], indent) matches Some(k) && !drop.contains(k),
        forall|m: int| 0 < m < j ==> key_at(#[trigger] ls[m], indent) is None,
    ensures
        splits_around(
            keep_lines(ls, indent, drop, keeping),
            Seq::<Seq<char>>::empty(),
            ls.subrange(0, j),
            keep_lines(ls.skip(j), indent, drop, true),
        ),
{
    let t = ls.drop_first();
    assert forall|m: int| 0 <= m < j - 1 implies key_at(#[trigger] t[m], indent) is None by {
        assert(t[m] == ls[m + 1]);
    }
    lemma_run_kept(t, indent, drop, j - 1);
    assert(t.skip(j - 1) == ls.skip(j));
    let after = keep_lines(ls.skip(j), indent, drop, true);
    assert(keep_lines(ls, indent, drop, keeping) == seq![ls[0]] + keep_lines(t, indent, drop, true));
    assert(ls.subrange(0, j) =~= seq![ls[0]] + t.take(j - 1));
    assert(keep_lines(ls, indent, drop, keeping) =~= Seq::<Seq<char>>::empty() + ls.subrange(0, j)
        + after);
}

/// An update keeps every section it does not write, line for line: the
/// lines from a key line of such a section up to the next key line appear,
/// in one piece, among the kept lines.
#[verifier::spinoff_prover]
pub proof fn lemma_other_sections_kept(
    ls: Seq<Seq<char>>,
    indent: nat,
    drop: Seq<Seq<char>>,
    keeping: bool,
    i: int,
    j: int,
)
    requires
        0 <= i < j <= ls.len(),
        key_at(ls[i], indent) matches Some(k) && !drop.contains(k),
        forall|m: int| i < m < j ==> key_at(#[trigger] ls[m], indent) is None,
    ensures
        exists|before: Seq<Seq<char>>, after: Seq<Seq<char>>|
            #[trigger] splits_around(keep_lines(ls, indent, drop, keeping), before, ls.subrange(i, j), after),
    decreases i,
{
    if i == 0 {
        lemma_section_at_start(ls, indent, drop, keeping, j);
    } else {
        let t = ls.drop_first();
        assert(t[i - 1] == ls[i]);
        assert forall|m: int| i - 1 < m < j - 1 implies key_at(#[trigger] t[m], indent) is None by {
            assert(t[m] == ls[m + 1]);
        }
        let k0 = next_keeping(ls[0], indent, drop, keeping);
        lemma_other_sections_kept(t, indent, drop, k0, i - 1, j - 1);
        let (before, after) = choose|before: Seq<Seq<char>>, after: Seq<Seq<char>>|
            #[trigger] splits_around(keep_lines(t, indent, drop, k0), before, t.subrange(i - 1, j - 1), after);
        assert(t.subrange(i - 1, j - 1) =~= ls.subrange(i, j));
        let head: Seq<Seq<char>> = if k0 {
            seq![ls[0]]
        } else {
            seq![]
        };
        assert(keep_lines(ls, indent, drop, keeping) == head + keep_lines(t, indent, drop, k0));
        assert(keep_lines(ls, indent, drop, keeping) =~= (head + before) + ls.subrange(i, j) + after);
        assert(splits_around(keep_lines(ls, indent, drop, keeping), head + before, ls.subrange(i, j), after));
    }
}

// ---------------------------------------------------------------------------
// Where the file lives
// ---------------------------------------------------------------------------

/// The configuration file: `AEGIS_CONFIG_PATH` when set, else `config.yaml`
/// in the project root (the nearest directory holding one) when found, else
/// `../config.yaml`.
pub open spec fn config_path_spec(env_override: Option<Seq<char>>, repo_root: Option<Seq<char>>) -> Seq<
    char,
> {
    match env_override {
        Some(p) => p,
        None => match repo_root {
            Some(r) => path_joined(r, "config.yaml"@),
            None => "../config.yaml"@,
        },
    }
}

/// The view of optional text.
pub open spec fn opt_view(o: Option<String>) -> Option<Seq<char>> {
    match o {
        Some(s) => Some(s@),
        None => None,
    }
}

/// Where the configuration is read from and written to.
pub fn config_file_path(env_override: Option<String>, repo_root: Option<String>) -> (p: String)
    ensures
        p@ == config_path_spec(opt_view(env_override), opt_view(repo_root)),
{
    match env_override {
        Some(p) => p,
        None => match repo_root {
            Some(r) => path_join(r.as_str(), "config.yaml"),
            None => owned("../config.yaml"),
        },
    }
}

/// The reload marker `.reload_config`, in the directory of the configuration
/// file.
pub open spec fn reload_marker_spec(config_path: Seq<char>) -> Seq<char> {
    match path_parent(config_path) {
        Some(dir) => path_joined(dir, ".reload_config"@),
        None => ".reload_config"@,
    }
}

/// The reload marker beside the configuration file `config_path`.
pub fn reload_marker_path(config_path: &str) -> (p: String)
    ensures
        p@ == reload_marker_spec(config_path@),
{
    match parent_of(config_path) {
        Some(dir) => path_join(dir.as_str(), ".reload_config"),
        None => owned(".reload_config"),
    }
}

} // verus!
