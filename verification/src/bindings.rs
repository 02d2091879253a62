//! Contracts for the calls this library makes into std and into outside
//! crates. Nothing here is proved: each item states what the called code does.
use vstd::prelude::*;
use sha2::Digest;
use chrono::Timelike;

verus! {

// ---------------------------------------------------------------------------
// regex
// ---------------------------------------------------------------------------

#[verifier::external_type_specification]
#[verifier::external_body]
pub struct ExRegexError(regex::Error);

/// Whether `regex::Regex::new` accepts `pattern`.
pub uninterp spec fn regex_compiles(pattern: Seq<char>) -> bool;

/// What `regex::Regex::is_match` answers for the regex compiled from `pattern`.
pub uninterp spec fn regex_matches(pattern: Seq<char>, text: Seq<char>) -> bool;

/// Compiles `pattern` with `regex::Regex::new` and, when that succeeds, asks
/// `Regex::is_match` whether it matches somewhere in `text`. Claimed: the
/// result is `Ok` exactly when the pattern compiles, and the answer is a
/// function of the pattern and the text alone.
#[verifier::external_body]
pub(crate) fn regex_search(pattern: &str, text: &str) -> (r: Result<bool, regex::Error>)
    ensures
        r is Ok <==> regex_compiles(pattern@),
        r matches Ok(b) ==> b == regex_matches(pattern@, text@),
{
    match regex::Regex::new(pattern) {
        Ok(re) => Ok(re.is_match(text)),
        Err(e) => Err(e),
    }
}

// ---------------------------------------------------------------------------
// sha2 and hex
// ---------------------------------------------------------------------------

/// The SHA-256 digest of `data`.
pub uninterp spec fn sha256(data: Seq<u8>) -> Seq<u8>;

/// `sha2::Sha256::digest`: the 32-byte SHA-256 digest of `data`, a function of
/// `data` alone.
#[verifier::external_body]
pub(crate) fn sha256_digest(data: &[u8]) -> (d: Vec<u8>)
    ensures
        d@ == sha256(data@),
        d@.len() == 32,
{
    sha2::Sha256::digest(data).to_vec()
}

/// The lower-case hex digit for `n` (`0 <= n < 16`).
pub open spec fn hex_digit_lower(n: int) -> char {
    if n < 10 {
        (48 + n) as char
    } else {
        (87 + n) as char
    }
}

/// Two lower-case hex digits per byte, high nibble first.
pub open spec fn hex_lower(data: Seq<u8>) -> Seq<char>
    decreases data.len(),
{
    if data.len() == 0 {
        seq![]
    } else {
        seq![hex_digit_lower(data[0] as int / 16), hex_digit_lower(data[0] as int % 16)] + hex_lower(
            data.drop_first(),
        )
    }
}

/// `hex::encode`: each byte as two lower-case hex digits, high nibble first
/// (its table is `b"0123456789abcdef"`).
#[verifier::external_body]
pub(crate) fn hex_encode(data: &[u8]) -> (s: String)
    ensures
        s@ == hex_lower(data@),
{
    hex::encode(data)
}

// ---------------------------------------------------------------------------
// sysinfo and dirs: facts about the machine, of which nothing is promised
// ---------------------------------------------------------------------------

/// `sysinfo::System::host_name`: the host's name, when the system reports one.
#[verifier::external_body]
pub(crate) fn system_host_name() -> Option<String> {
    sysinfo::System::host_name()
}

/// `sysinfo::System::name`: the operating system's name, when known.
#[verifier::external_body]
pub(crate) fn system_os_name() -> Option<String> {
    sysinfo::System::name()
}

/// `sysinfo::System::os_version`: the operating system's version, when known.
#[verifier::external_body]
pub(crate) fn system_os_version() -> Option<String> {
    sysinfo::System::os_version()
}

/// `dirs::desktop_dir`, as text: the user's desktop directory, when one is
/// configured. Non-UTF-8 parts of the path are replaced by U+FFFD.
#[verifier::external_body]
pub(crate) fn desktop_dir() -> Option<String> {
    match dirs::desktop_dir() {
        Some(p) => Some(p.to_string_lossy().into_owned()),
        None => None,
    }
}

/// `dirs::home_dir`, as text: the user's home directory, when it can be
/// found. Non-UTF-8 parts of the path are replaced by U+FFFD.
#[verifier::external_body]
pub(crate) fn home_dir() -> Option<String> {
    match dirs::home_dir() {
        Some(p) => Some(p.to_string_lossy().into_owned()),
        None => None,
    }
}

// ---------------------------------------------------------------------------
// chrono
// ---------------------------------------------------------------------------

/// What `chrono::NaiveDateTime::parse_from_str(text, format)` yields, read
/// back as (hour, minute, second, nanosecond, milliseconds since the epoch in
/// UTC).
pub uninterp spec fn naive_datetime_parse(text: Seq<char>, format: Seq<char>) -> Option<
    (u32, u32, u32, u32, i64),
>;

/// `chrono::NaiveDateTime::parse_from_str`, with the parsed value read back
/// through `hour`, `minute`, `second`, `nanosecond` and
/// `and_utc().timestamp_millis()`. Claimed: a function of text and format
/// alone; the hour is below 24 and the minute and second below 60, as chrono
/// documents for `Timelike`; the nanosecond is below 2,000,000,000, the range
/// from 1,000,000,000 up marking a leap second (chrono's `nanosecond` doc).
#[verifier::external_body]
pub(crate) fn parse_naive_datetime(text: &str, format: &str) -> (r: Option<(u32, u32, u32, u32, i64)>)
    ensures
        r == naive_datetime_parse(text@, format@),
        r matches Some((h, m, s, ns, _)) ==> h < 24 && m < 60 && s < 60 && ns < 2_000_000_000,
{
    match chrono::NaiveDateTime::parse_from_str(text, format) {
        Ok(dt) => Some(
            (dt.hour(), dt.minute(), dt.second(), dt.nanosecond(), dt.and_utc().timestamp_millis()),
        ),
        Err(_) => None,
    }
}

// ---------------------------------------------------------------------------
// std
// ---------------------------------------------------------------------------

/// The result of `str::to_lowercase`.
pub uninterp spec fn lowercase(s: Seq<char>) -> Seq<char>;

/// `str::to_lowercase` (Unicode lower-casing), a function of its input alone.
pub assume_specification[ str::to_lowercase ](s: &str) -> (r: String)
    ensures
        r@ == lowercase(s@),
;

/// The result of `str::trim`.
pub uninterp spec fn trimmed(s: Seq<char>) -> Seq<char>;

/// `str::trim`: `s` without leading and trailing white space, a function of
/// `s` alone.
pub assume_specification<'a>[ str::trim ](s: &'a str) -> (r: &'a str)
    ensures
        r@ == trimmed(s@),
;

/// What `String::from_utf8_lossy` makes of `bytes`.
pub uninterp spec fn utf8_lossy(bytes: Seq<u8>) -> Seq<char>;

/// `String::from_utf8_lossy`: valid UTF-8 is decoded unchanged; invalid
/// sequences become U+FFFD.
#[verifier::external_body]
pub(crate) fn utf8_lossy_decode(bytes: &[u8]) -> (s: String)
    ensures
        s@ == utf8_lossy(bytes@),
        vstd::utf8::valid_utf8(bytes@) ==> s@ == vstd::utf8::decode_utf8(bytes@),
{
    String::from_utf8_lossy(bytes).into_owned()
}

/// What `Path::file_name` gives for a path: its final component, if any.
pub uninterp spec fn path_file_name(path: Seq<char>) -> Option<Seq<char>>;

/// `std::path::Path::file_name`, as text (the input is UTF-8, so nothing is
/// lost in conversion).
#[verifier::external_body]
pub(crate) fn file_name_of(path: &str) -> (r: Option<String>)
    ensures
        match r {
            Some(n) => path_file_name(path@) == Some(n@),
            None => path_file_name(path@) is None,
        },
{
    match std::path::Path::new(path).file_name() {
        Some(n) => Some(n.to_string_lossy().into_owned()),
        None => None,
    }
}

/// What `Path::parent` gives for a path: the path without its final
/// component, if it has one.
pub uninterp spec fn path_parent(path: Seq<char>) -> Option<Seq<char>>;

/// `std::path::Path::parent`, as text (a prefix of UTF-8 input, so nothing is
/// lost in conversion).
#[verifier::external_body]
pub(crate) fn parent_of(path: &str) -> (r: Option<String>)
    ensures
        match r {
            Some(p) => path_parent(path@) == Some(p@),
            None => path_parent(path@) is None,
        },
{
    match std::path::Path::new(path).parent() {
        Some(p) => Some(p.to_string_lossy().into_owned()),
        None => None,
    }
}

/// What `Path::join` gives for `base` and `part`.
pub uninterp spec fn path_joined(base: Seq<char>, part: Seq<char>) -> Seq<char>;

/// `std::path::Path::join`, as text.
#[verifier::external_body]
pub(crate) fn path_join(base: &str, part: &str) -> (r: String)
    ensures
        r@ == path_joined(base@, part@),
{
    std::path::Path::new(base).join(part).to_string_lossy().into_owned()
}

/// What `Path::strip_prefix` gives for `path` and `root`.
pub uninterp spec fn path_strip_prefix(path: Seq<char>, root: Seq<char>) -> Option<Seq<char>>;

/// `std::path::Path::strip_prefix`, as text: `path` relative to `root`, when
/// `root` is a prefix of it component by component.
#[verifier::external_body]
pub(crate) fn strip_path_prefix(path: &str, root: &str) -> (r: Option<String>)
    ensures
        match r {
            Some(rel) => path_strip_prefix(path@, root@) == Some(rel@),
            None => path_strip_prefix(path@, root@) is None,
        },
{
    match std::path::Path::new(path).strip_prefix(root) {
        Ok(rel) => Some(rel.to_string_lossy().into_owned()),
        Err(_) => None,
    }
}

/// `SystemTime::now().duration_since(UNIX_EPOCH)` as whole seconds and the
/// nanoseconds past them; `None` when the clock is before the epoch. Nothing
/// is promised of the time itself; the nanoseconds are below one second.
#[verifier::external_body]
pub(crate) fn unix_time_now() -> (r: Option<(u64, u32)>)
    ensures
        r matches Some((_, n)) ==> n < 1_000_000_000,
{
    match std::time::SystemTime::now().duration_since(std::time::UNIX_EPOCH) {
        Ok(d) => Some((d.as_secs(), d.subsec_nanos())),
        Err(_) => None,
    }
}

} // verus!
