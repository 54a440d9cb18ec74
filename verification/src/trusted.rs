//! Calls into chrono, slug, blake3, uuid, serde_json and std. Each function
//! here is believed, not proved: its contract states what the called crate
//! documents or what its source shows, and names results that take pages
//! to state.
use vstd::prelude::*;

use chrono::{Datelike, Timelike};
use std::path::Component;

use crate::classifier::{part_key, path_keys, plain_path, PathPart};
use crate::text::{all_ascii, join_seq, json_string, string_views};

verus! {

// ---------------------------------------------------------------------------
// chrono
// ---------------------------------------------------------------------------

/// The instant an RFC 3339 timestamp denotes, as (seconds since the Unix
/// epoch, nanoseconds within the second), or `None` when chrono's
/// `DateTime::parse_from_rfc3339` rejects the text.
pub uninterp spec fn rfc3339_instant(s: Seq<char>) -> Option<(i64, u32)>;

/// Weekday (days from Monday) and hour, in the text's own offset, of an
/// RFC 3339 timestamp, or `None` when chrono rejects the text.
pub uninterp spec fn rfc3339_weekday_hour(s: Seq<char>) -> Option<(u32, u32)>;

/// chrono's `"%B %Y"` rendering (English month name and year) of an RFC 3339
/// timestamp, or `None` when chrono rejects the text.
pub uninterp spec fn rfc3339_month_year(s: Seq<char>) -> Option<Seq<char>>;

/// chrono's `"%Y-%m"` rendering of an RFC 3339 timestamp, or `None`.
pub uninterp spec fn rfc3339_year_month(s: Seq<char>) -> Option<Seq<char>>;

/// chrono's `to_rfc3339` of an RFC 3339 timestamp moved to UTC, or `None`
/// when chrono rejects the text.
pub uninterp spec fn rfc3339_in_utc(s: Seq<char>) -> Option<Seq<char>>;

/// Calls `DateTime::parse_from_rfc3339` and reads `timestamp()` and
/// `timestamp_subsec_nanos()`; the result is named `rfc3339_instant`.
#[verifier::external_body]
pub(crate) fn parse_rfc3339_instant(s: &str) -> (r: Option<(i64, u32)>)
    ensures
        r == rfc3339_instant(s@),
{
    chrono::DateTime::parse_from_rfc3339(s).ok().map(|d| (d.timestamp(), d.timestamp_subsec_nanos()))
}

/// Calls `DateTime::parse_from_rfc3339` and reads
/// `weekday().num_days_from_monday()` and `hour()`; the result is named
/// `rfc3339_weekday_hour`, and chrono documents the ranges 0..7 and 0..24.
#[verifier::external_body]
pub(crate) fn parse_rfc3339_weekday_hour(s: &str) -> (r: Option<(u32, u32)>)
    ensures
        r == rfc3339_weekday_hour(s@),
        r matches Some(p) ==> p.0 < 7 && p.1 < 24,
{
    chrono::DateTime::parse_from_rfc3339(s).ok().map(
        |d| (d.weekday().num_days_from_monday(), d.hour()),
    )
}

/// Calls `DateTime::parse_from_rfc3339` and formats it with `"%B %Y"`; the
/// result is named `rfc3339_month_year`.
#[verifier::external_body]
pub(crate) fn format_rfc3339_month_year(s: &str) -> (r: Option<String>)
    ensures
        r is Some == rfc3339_month_year(s@) is Some,
        r matches Some(t) ==> rfc3339_month_year(s@) == Some(t@),
{
    chrono::DateTime::parse_from_rfc3339(s).ok().map(|d| d.format("%B %Y").to_string())
}

/// Calls `DateTime::parse_from_rfc3339` and formats it with `"%Y-%m"`; the
/// result is named `rfc3339_year_month`.
#[verifier::external_body]
pub(crate) fn format_rfc3339_year_month(s: &str) -> (r: Option<String>)
    ensures
        r is Some == rfc3339_year_month(s@) is Some,
        r matches Some(t) ==> rfc3339_year_month(s@) == Some(t@),
{
    chrono::DateTime::parse_from_rfc3339(s).ok().map(|d| d.format("%Y-%m").to_string())
}

/// Calls `DateTime::parse_from_rfc3339`, `with_timezone(&Utc)` and
/// `to_rfc3339`; the result is named `rfc3339_in_utc`. It is `Some` exactly
/// when the parse succeeds, as `parse_rfc3339_instant` does.
#[verifier::external_body]
pub(crate) fn format_rfc3339_in_utc(s: &str) -> (r: Option<String>)
    ensures
        r is Some == rfc3339_in_utc(s@) is Some,
        r matches Some(t) ==> rfc3339_in_utc(s@) == Some(t@),
        r is Some == rfc3339_instant(s@) is Some,
{
    chrono::DateTime::parse_from_rfc3339(s).ok().map(|d| d.with_timezone(&chrono::Utc).to_rfc3339())
}

/// chrono's `to_rfc3339` of a whole-second UTC timestamp, or `None` when
/// `DateTime::<Utc>::from_timestamp` rejects it.
pub uninterp spec fn utc_timestamp_rfc3339(secs: i64) -> Option<Seq<char>>;

/// Calls `DateTime::<Utc>::from_timestamp(secs, 0)` and `to_rfc3339`; the
/// result is named `utc_timestamp_rfc3339`.
#[verifier::external_body]
pub(crate) fn format_utc_timestamp(secs: i64) -> (r: Option<String>)
    ensures
        r is Some == utc_timestamp_rfc3339(secs) is Some,
        r matches Some(t) ==> utc_timestamp_rfc3339(secs) == Some(t@),
{
    chrono::DateTime::<chrono::Utc>::from_timestamp(secs, 0).map(|d| d.to_rfc3339())
}

/// chrono's reading of an EXIF date (`"%Y:%m:%d %H:%M:%S"`) as a UTC
/// time, rendered by `to_rfc3339`, or `None` when chrono rejects the text.
pub uninterp spec fn exif_datetime_utc(s: Seq<char>) -> Option<Seq<char>>;

/// Calls `NaiveDateTime::parse_from_str` with `"%Y:%m:%d %H:%M:%S"`,
/// `DateTime::<Utc>::from_naive_utc_and_offset` and `to_rfc3339`; the
/// result is named `exif_datetime_utc`.
#[verifier::external_body]
pub(crate) fn format_exif_datetime(s: &str) -> (r: Option<String>)
    ensures
        r is Some == exif_datetime_utc(s@) is Some,
        r matches Some(t) ==> exif_datetime_utc(s@) == Some(t@),
{
    chrono::NaiveDateTime::parse_from_str(s, "%Y:%m:%d %H:%M:%S").ok().map(
        |d| chrono::DateTime::<chrono::Utc>::from_naive_utc_and_offset(d, chrono::Utc).to_rfc3339(),
    )
}

/// Calls `Utc::now` and `to_rfc3339`: the current time, of which nothing
/// is stated.
#[verifier::external_body]
pub(crate) fn now_rfc3339() -> (r: String) {
    chrono::Utc::now().to_rfc3339()
}

// ---------------------------------------------------------------------------
// std::str
// ---------------------------------------------------------------------------

/// The text some bytes encode in UTF-8, or `None` when they are not valid
/// UTF-8.
pub uninterp spec fn utf8_text_of(bytes: Seq<u8>) -> Option<Seq<char>>;

/// Calls `std::str::from_utf8`; the result is named `utf8_text_of`.
#[verifier::external_body]
pub(crate) fn utf8_text(bytes: &[u8]) -> (r: Option<String>)
    ensures
        r is Some == utf8_text_of(bytes@) is Some,
        r matches Some(t) ==> utf8_text_of(bytes@) == Some(t@),
{
    std::str::from_utf8(bytes).ok().map(|s| s.to_string())
}

// ---------------------------------------------------------------------------
// slug
// ---------------------------------------------------------------------------

/// What `slug::slugify` returns for a text.
pub uninterp spec fn slug_of(s: Seq<char>) -> Seq<char>;

pub open spec fn is_slug_char(c: char) -> bool {
    ('a' <= c && c <= 'z') || ('0' <= c && c <= '9') || c == '-'
}

/// The slug crate's rule on an ASCII character: letters and digits are kept
/// (letters lowercased), any other run becomes one `-`, and no `-` leads.
pub open spec fn ascii_slug_acc(s: Seq<char>) -> (Seq<char>, bool)
    decreases s.len(),
{
    if s.len() == 0 {
        (Seq::<char>::empty(), true)
    } else {
        let (o, prev_dash) = ascii_slug_acc(s.drop_last());
        let c = s.last();
        if ('a' <= c && c <= 'z') || ('0' <= c && c <= '9') {
            (o.push(c), false)
        } else if 'A' <= c && c <= 'Z' {
            (o.push(((c as u32) + 32) as char), false)
        } else if !prev_dash {
            (o.push('-'), true)
        } else {
            (o, prev_dash)
        }
    }
}

/// The slug of an ASCII text: the accumulated slug without a trailing `-`.
pub open spec fn ascii_slug(s: Seq<char>) -> Seq<char> {
    let o = ascii_slug_acc(s).0;
    if o.len() > 0 && o.last() == '-' {
        o.drop_last()
    } else {
        o
    }
}

/// Calls `slug::slugify`. The result is named `slug_of`; as the crate
/// documents, it holds only `a`–`z`, `0`–`9` and `-`, and never starts or
/// ends with `-`; for an ASCII text its source computes `ascii_slug`.
/// How non-ASCII characters are transliterated (by `deunicode`) is not
/// stated.
#[verifier::external_body]
pub(crate) fn slugify(s: &str) -> (r: String)
    ensures
        r@ == slug_of(s@),
        forall|i: int| 0 <= i < r@.len() ==> is_slug_char(#[trigger] r@[i]),
        r@.len() > 0 ==> r@[0] != '-' && r@.last() != '-',
        all_ascii(s@) ==> r@ == ascii_slug(s@),
{
    slug::slugify(s)
}

// ---------------------------------------------------------------------------
// blake3
// ---------------------------------------------------------------------------

/// The lowercase hex form of the BLAKE3 hash of some bytes.
pub uninterp spec fn blake3_hex_of(data: Seq<u8>) -> Seq<char>;

/// Calls `blake3::Hasher` (`new`, `update`, `finalize`, `to_hex`). The result
/// is named `blake3_hex_of`; it is 64 lowercase hex digits.
#[verifier::external_body]
pub(crate) fn blake3_hex(data: &[u8]) -> (r: String)
    ensures
        r@ == blake3_hex_of(data@),
        r@.len() == 64,
        forall|i: int|
            0 <= i < 64 ==> ('0' <= #[trigger] r@[i] && r@[i] <= '9') || ('a' <= r@[i] && r@[i]
                <= 'f'),
{
    let mut hasher = blake3::Hasher::new();
    hasher.update(data);
    hasher.finalize().to_hex().to_string()
}

// ---------------------------------------------------------------------------
// uuid
// ---------------------------------------------------------------------------

/// Calls `Uuid::new_v4` and renders it; the value is random, so only its
/// documented shape is stated: 36 characters, hyphens at positions 8, 13,
/// 18 and 23, lowercase hex digits elsewhere.
#[verifier::external_body]
pub(crate) fn new_uuid_string() -> (r: String)
    ensures
        r@.len() == 36,
        forall|i: int|
            0 <= i < 36 ==> if i == 8 || i == 13 || i == 18 || i == 23 {
                #[trigger] r@[i] == '-'
            } else {
                ('0' <= r@[i] && r@[i] <= '9') || ('a' <= r@[i] && r@[i] <= 'f')
            },
{
    uuid::Uuid::new_v4().to_string()
}


// ---------------------------------------------------------------------------
// serde_json
// ---------------------------------------------------------------------------

/// The list of strings a JSON text denotes, or `None` when `serde_json`
/// does not read it as an array of strings.
pub uninterp spec fn json_string_list(s: Seq<char>) -> Option<Seq<Seq<char>>>;

/// Calls `serde_json::from_str::<Vec<String>>`; the result is named
/// `json_string_list`.
#[verifier::external_body]
pub(crate) fn parse_string_list(s: &str) -> (r: Option<Vec<String>>)
    ensures
        r is Some == json_string_list(s@) is Some,
        r matches Some(v) ==> json_string_list(s@) == Some(string_views(v@)),
{
    serde_json::from_str::<Vec<String>>(s).ok()
}


/// The strings in the array under `key` of the JSON object `json` denotes,
/// in order, elements that are not strings left out; empty when the text
/// is not JSON or has no such array.
pub uninterp spec fn json_field_strings_of(json: Seq<char>, key: Seq<char>) -> Seq<Seq<char>>;

/// Calls `serde_json::from_str::<Value>`, takes the array under `key`
/// (`Value::get`, `as_array`) and hands over its string elements
/// (`as_str`); the result is named `json_field_strings_of`.
#[verifier::external_body]
pub(crate) fn json_field_strings(json: &str, key: &str) -> (r: Vec<String>)
    ensures
        string_views(r@) == json_field_strings_of(json@, key@),
{
    let v: serde_json::Value = serde_json::from_str(json).unwrap_or_default();
    let items = v.get(key).and_then(|a| a.as_array()).cloned().unwrap_or_default();
    items.iter().filter_map(|e| e.as_str()).map(|t| t.to_string()).collect()
}

/// For the JSON array `json` denotes, the string under `key` of each
/// element, in order, elements without one left out; empty when the text
/// is not JSON or not an array.
pub uninterp spec fn json_element_strings_of(json: Seq<char>, key: Seq<char>) -> Seq<Seq<char>>;

/// Calls `serde_json::from_str::<Value>`, takes it as an array
/// (`as_array`) and hands over the string under `key` of each element
/// (`Value::get`, `as_str`); the result is named `json_element_strings_of`.
#[verifier::external_body]
pub(crate) fn json_element_strings(json: &str, key: &str) -> (r: Vec<String>)
    ensures
        string_views(r@) == json_element_strings_of(json@, key@),
{
    let v: serde_json::Value = serde_json::from_str(json).unwrap_or_default();
    let items = v.as_array().cloned().unwrap_or_default();
    items.iter().filter_map(|e| e.get(key).and_then(|t| t.as_str())).map(|t| t.to_string()).collect()
}

/// Calls `serde_json::to_string` on a string, which cannot fail: a JSON
/// string literal, escaped by its table (`json_string`).
#[verifier::external_body]
pub(crate) fn json_string_text(s: &str) -> (r: String)
    ensures
        r@ == json_string(s@),
{
    serde_json::to_string(s).unwrap_or_default()
}

/// The compact JSON text `serde_json` writes for a list of strings: each
/// as a JSON string literal, separated by commas, in square brackets.
pub open spec fn json_list_text_of(items: Seq<Seq<char>>) -> Seq<char> {
    "["@ + join_seq(items.map_values(|t: Seq<char>| json_string(t)), ","@) + "]"@
}

/// Calls `serde_json::to_string` on a list of strings, which cannot fail
/// for strings. The text is the compact array (`json_list_text_of`), and
/// `serde_json` reads it back as the same list.
#[verifier::external_body]
pub(crate) fn json_list_text(items: &[String]) -> (r: String)
    ensures
        r@ == json_list_text_of(string_views(items@)),
        json_string_list(r@) == Some(string_views(items@)),
{
    serde_json::to_string(items).unwrap_or_default()
}

// ---------------------------------------------------------------------------
// std::path
// ---------------------------------------------------------------------------

/// Calls `Path::components` and hands each component over as a
/// `PathPart`. As the documentation of `Path` shows, `/` separates
/// components on every platform; repeated and trailing separators are
/// ignored; `.` is dropped except at the start of a relative path, where
/// it is the current-directory component; `..` is the parent component;
/// and a path that starts with `/` starts with the root component. So the
/// parts of a plain path (see `plain_path`) are compared by its
/// `path_keys`. Other paths (with `\`, `:` or a leading `//`) depend on the
/// platform's path syntax, and nothing is stated of them.
#[verifier::external_body]
pub(crate) fn path_components(path: &str) -> (r: Vec<PathPart>)
    ensures
        plain_path(path@) ==> r@.len() == path_keys(path@).len() && forall|k: int|
            0 <= k < r@.len() ==> part_key(#[trigger] r@[k]) == path_keys(path@)[k],
{
    let mut r = Vec::new();
    for c in std::path::Path::new(path).components() {
        r.push(match c {
            Component::Prefix(p) => PathPart::Prefix(p.as_os_str().to_string_lossy().into_owned()),
            Component::RootDir => PathPart::Root,
            Component::CurDir => PathPart::Current,
            Component::ParentDir => PathPart::Parent,
            Component::Normal(t) => PathPart::Normal(t.to_string_lossy().into_owned()),
        });
    }
    r
}

} // verus!
