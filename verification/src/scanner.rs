//! Scanning rules: which files a scan imports, how a file's quick hash is
//! formed, and the media record a scanned file becomes.
//!
//! Walking the folder tree and reading files happen around this module;
//! it decides on the values read.
use vstd::prelude::*;

use crate::models::{extension_media_type, Classification, Media, MediaType};
use crate::settings::JsonValue;
use crate::text::{
    eq_str, ascii_lower, ascii_lower_char, chars_of, clone_opt_string, contains, contains_seq, lowercase_of,
    string_views, to_lowercase,
};
use crate::trusted::{
    blake3_hex, blake3_hex_of, format_utc_timestamp, json_list_text, json_list_text_of,
    json_string_list, new_uuid_string, now_rfc3339, parse_string_list, utc_timestamp_rfc3339,
};

verus! {

// ---------------------------------------------------------------------------
// Extensions and exclude patterns from the settings
// ---------------------------------------------------------------------------

/// The extensions imported by default.
pub open spec fn default_extension_list() -> Seq<Seq<char>> {
    seq![
        "jpg"@, "jpeg"@, "png"@, "heic"@, "heif"@, "mov"@, "mp4"@, "m4v"@, "nef"@, "cr2"@,
        "arw"@, "dng"@,
    ]
}

/// The patterns excluded by default.
pub open spec fn default_exclude_list() -> Seq<Seq<char>> {
    seq!["**/.git/**"@, "**/node_modules/**"@, "**/__MACOSX/**"@]
}

/// Every extension imported by default has a known media kind: the first
/// five (jpg, jpeg, png, heic, heif) are images, the next three videos and
/// the last four raw photos; none is unknown.
pub proof fn lemma_default_extensions_known()
    ensures
        forall|i: int|
            0 <= i < 5 ==> extension_media_type(#[trigger] default_extension_list()[i])
                == MediaType::Image,
        forall|i: int|
            5 <= i < 8 ==> extension_media_type(#[trigger] default_extension_list()[i])
                == MediaType::Video,
        forall|i: int|
            8 <= i < 12 ==> extension_media_type(#[trigger] default_extension_list()[i])
                == MediaType::Raw,
        default_extension_list().len() == 12,
{
    reveal_strlit("webp");
    reveal_strlit("bmp");
    reveal_strlit("gif");
    reveal_strlit("tiff");
    reveal_strlit("tif");
    reveal_strlit("avi");
    reveal_strlit("mkv");
    reveal_strlit("webm");
    reveal_strlit("raf");
    reveal_strlit("orf");
    reveal_strlit("rw2");
    reveal_strlit("jpg");
    assert(default_extension_list()[0] == "jpg"@);
    assert("jpg"@[0] == 'j' && "jpg"@[2] == 'g');
    assert(extension_media_type("jpg"@) == MediaType::Image);
    reveal_strlit("jpeg");
    assert(default_extension_list()[1] == "jpeg"@);
    assert("jpeg"@[0] == 'j' && "jpeg"@[3] == 'g');
    assert(extension_media_type("jpeg"@) == MediaType::Image);
    reveal_strlit("png");
    assert(default_extension_list()[2] == "png"@);
    assert("png"@[0] == 'p' && "png"@[2] == 'g');
    assert(extension_media_type("png"@) == MediaType::Image);
    reveal_strlit("heic");
    assert(default_extension_list()[3] == "heic"@);
    assert("heic"@[0] == 'h' && "heic"@[3] == 'c');
    assert(extension_media_type("heic"@) == MediaType::Image);
    reveal_strlit("heif");
    assert(default_extension_list()[4] == "heif"@);
    assert("heif"@[0] == 'h' && "heif"@[3] == 'f');
    assert(extension_media_type("heif"@) == MediaType::Image);
    reveal_strlit("mov");
    assert(default_extension_list()[5] == "mov"@);
    assert("mov"@[0] == 'm' && "mov"@[2] == 'v');
    assert(extension_media_type("mov"@) == MediaType::Video);
    reveal_strlit("mp4");
    assert(default_extension_list()[6] == "mp4"@);
    assert("mp4"@[0] == 'm' && "mp4"@[2] == '4');
    assert(extension_media_type("mp4"@) == MediaType::Video);
    reveal_strlit("m4v");
    assert(default_extension_list()[7] == "m4v"@);
    assert("m4v"@[0] == 'm' && "m4v"@[2] == 'v');
    assert(extension_media_type("m4v"@) == MediaType::Video);
    reveal_strlit("nef");
    assert(default_extension_list()[8] == "nef"@);
    assert("nef"@[0] == 'n' && "nef"@[2] == 'f');
    assert(extension_media_type("nef"@) == MediaType::Raw);
    reveal_strlit("cr2");
    assert(default_extension_list()[9] == "cr2"@);
    assert("cr2"@[0] == 'c' && "cr2"@[2] == '2');
    assert(extension_media_type("cr2"@) == MediaType::Raw);
    reveal_strlit("arw");
    assert(default_extension_list()[10] == "arw"@);
    assert("arw"@[0] == 'a' && "arw"@[2] == 'w');
    assert(extension_media_type("arw"@) == MediaType::Raw);
    reveal_strlit("dng");
    assert(default_extension_list()[11] == "dng"@);
    assert("dng"@[0] == 'd' && "dng"@[2] == 'g');
    assert(extension_media_type("dng"@) == MediaType::Raw);
}

fn strings_of(items: &[&str]) -> (r: Vec<String>)
    ensures
        string_views(r@) == items@.map_values(|s: &str| s@),
{
    let mut r: Vec<String> = Vec::new();
    let mut i: usize = 0;
    while i < items.len()
        invariant
            i <= items@.len(),
            string_views(r@) =~= items@.map_values(|s: &str| s@).take(i as int),
        decreases items.len() - i,
    {
        let ghost before = r@;
        r.push(items[i].to_string());
        assert(string_views(r@) =~= string_views(before).push(items@[i as int]@));
        i += 1;
    }
    r
}

/// The default list of supported extensions.
pub fn supported_extensions() -> (r: Vec<String>)
    ensures
        string_views(r@) == default_extension_list(),
{
    let items = ["jpg", "jpeg", "png", "heic", "heif", "mov", "mp4", "m4v", "nef", "cr2", "arw", "dng"];
    let r = strings_of(&items);
    assert(items@.map_values(|s: &str| s@) =~= default_extension_list());
    r
}

/// The default list of exclude patterns.
pub fn default_exclude_patterns() -> (r: Vec<String>)
    ensures
        string_views(r@) == default_exclude_list(),
{
    let items = ["**/.git/**", "**/node_modules/**", "**/__MACOSX/**"];
    let r = strings_of(&items);
    assert(items@.map_values(|s: &str| s@) =~= default_exclude_list());
    r
}

/// The JSON text a list setting is read from: the JSON text of a stored
/// array, the text held in a string, or `[]` for any other value.
pub open spec fn setting_text(v: JsonValue) -> Seq<char> {
    match v {
        JsonValue::Str(s) => s@,
        JsonValue::Compound(t) => t@,
        _ => "[]"@,
    }
}

/// A list read from a setting (`None`: the setting is missing or could not
/// be read): the strings of the JSON array the setting's text holds, or the
/// default when the text is not such an array.
pub open spec fn list_setting(v: Option<JsonValue>, default: Seq<Seq<char>>) -> Seq<Seq<char>> {
    match v {
        None => default,
        Some(val) => match json_string_list(setting_text(val)) {
            Some(l) => l,
            None => default,
        },
    }
}

fn read_list_setting(value: &Option<JsonValue>, default: Vec<String>) -> (r: Vec<String>)
    ensures
        string_views(r@) == list_setting(*value, string_views(default@)),
{
    match value {
        None => default,
        Some(v) => {
            let parsed = match v {
                JsonValue::Str(s) => parse_string_list(s.as_str()),
                JsonValue::Compound(t) => parse_string_list(t.as_str()),
                _ => parse_string_list("[]"),
            };
            match parsed {
                Some(l) => l,
                None => default,
            }
        },
    }
}

/// The extensions to import, from the `scan.supported_extensions` setting.
pub fn read_supported_extensions_from_settings(value: &Option<JsonValue>) -> (r: Vec<String>)
    ensures
        string_views(r@) == list_setting(*value, default_extension_list()),
{
    read_list_setting(value, supported_extensions())
}

/// The exclude patterns, from the `scan.exclude_patterns` setting.
pub fn read_exclude_patterns_from_settings(value: &Option<JsonValue>) -> (r: Vec<String>)
    ensures
        string_views(r@) == list_setting(*value, default_exclude_list()),
{
    read_list_setting(value, default_exclude_patterns())
}

// ---------------------------------------------------------------------------
// Which files are imported
// ---------------------------------------------------------------------------

/// `s` with every `**` removed, matched left to right.
pub open spec fn drop_double_stars(s: Seq<char>) -> Seq<char>
    decreases s.len(),
{
    if s.len() < 2 {
        s
    } else if s[0] == '*' && s[1] == '*' {
        drop_double_stars(s.skip(2))
    } else {
        seq![s[0]] + drop_double_stars(s.skip(1))
    }
}

/// `s` without its `/` characters.
pub open spec fn drop_slashes(s: Seq<char>) -> Seq<char>
    decreases s.len(),
{
    if s.len() == 0 {
        s
    } else if s[0] == '/' {
        drop_slashes(s.skip(1))
    } else {
        seq![s[0]] + drop_slashes(s.skip(1))
    }
}

/// The text an exclude pattern is matched by: the pattern without `**`
/// and without `/`.
pub open spec fn pattern_core(p: Seq<char>) -> Seq<char> {
    drop_slashes(drop_double_stars(p))
}

/// A path is excluded when it contains the non-empty core of a pattern.
pub open spec fn excluded_by(path: Seq<char>, patterns: Seq<Seq<char>>) -> bool {
    exists|k: int|
        0 <= k < patterns.len() && pattern_core(#[trigger] patterns[k]).len() > 0 && contains_seq(
            path,
            pattern_core(patterns[k]),
        )
}

fn pattern_core_exec(p: &str) -> (r: Vec<char>)
    ensures
        r@ == pattern_core(p@),
{
    let v = chars_of(p);
    let mut a: Vec<char> = Vec::new();
    let mut i: usize = 0;
    assert(v@.skip(0) =~= v@);
    assert(a@ + drop_double_stars(v@) =~= drop_double_stars(v@));
    while i < v.len()
        invariant
            i <= v@.len(),
            v@ == p@,
            a@ + drop_double_stars(v@.skip(i as int)) == drop_double_stars(v@),
        decreases v.len() - i,
    {
        let ghost rest = v@.skip(i as int);
        if i + 1 < v.len() && v[i] == '*' && v[i + 1] == '*' {
            assert(rest.skip(2) =~= v@.skip(i + 2));
            i += 2;
        } else {
            assert(rest.skip(1) =~= v@.skip(i + 1));
            let ghost before = a@;
            a.push(v[i]);
            assert(a@ + drop_double_stars(v@.skip(i + 1)) =~= before + (seq![rest[0]]
                + drop_double_stars(rest.skip(1))));
            i += 1;
        }
    }
    assert(v@.skip(i as int) =~= seq![]);
    assert(a@ + seq![] =~= a@);
    let mut b: Vec<char> = Vec::new();
    let mut j: usize = 0;
    assert(a@.skip(0) =~= a@);
    assert(b@ + drop_slashes(a@) =~= drop_slashes(a@));
    while j < a.len()
        invariant
            j <= a@.len(),
            b@ + drop_slashes(a@.skip(j as int)) == drop_slashes(a@),
        decreases a.len() - j,
    {
        let ghost rest = a@.skip(j as int);
        assert(rest.skip(1) =~= a@.skip(j + 1));
        if a[j] != '/' {
            let ghost before = b@;
            b.push(a[j]);
            assert(b@ + drop_slashes(a@.skip(j + 1)) =~= before + (seq![rest[0]] + drop_slashes(
                rest.skip(1),
            )));
        }
        j += 1;
    }
    assert(a@.skip(j as int) =~= seq![]);
    assert(b@ + seq![] =~= b@);
    b
}

/// Is the path excluded by one of the patterns (see `excluded_by`)?
pub fn matches_excludes(path: &str, patterns: &[String]) -> (r: bool)
    ensures
        r == excluded_by(path@, string_views(patterns@)),
{
    let pv = chars_of(path);
    let ghost ps = string_views(patterns@);
    let mut k: usize = 0;
    while k < patterns.len()
        invariant
            k <= patterns@.len(),
            pv@ == path@,
            ps == string_views(patterns@),
            forall|m: int|
                0 <= m < k ==> !(pattern_core(#[trigger] ps[m]).len() > 0 && contains_seq(
                    path@,
                    pattern_core(ps[m]),
                )),
        decreases patterns.len() - k,
    {
        let core = pattern_core_exec(patterns[k].as_str());
        assert(ps[k as int] == patterns@[k as int]@);
        if core.len() > 0 && contains(&pv, &core) {
            return true;
        }
        k += 1;
    }
    false
}

/// Is the extension one of the list, ignoring ASCII case?
pub open spec fn extension_listed(ext: Seq<char>, list: Seq<Seq<char>>) -> bool {
    exists|k: int| 0 <= k < list.len() && ascii_lower(#[trigger] list[k]) == ascii_lower(ext)
}

/// `str::eq_ignore_ascii_case`.
pub fn eq_ignore_ascii_case(a: &str, b: &str) -> (r: bool)
    ensures
        r == (ascii_lower(a@) == ascii_lower(b@)),
{
    let va = chars_of(a);
    let vb = chars_of(b);
    if va.len() != vb.len() {
        proof {
            assert(ascii_lower(a@).len() != ascii_lower(b@).len());
        }
        return false;
    }
    let mut i: usize = 0;
    while i < va.len()
        invariant
            i <= va@.len(),
            va@.len() == vb@.len(),
            va@ == a@,
            vb@ == b@,
            forall|k: int| 0 <= k < i ==> ascii_lower_char(va@[k]) == ascii_lower_char(vb@[k]),
        decreases va.len() - i,
    {
        let x = va[i] as u32;
        let y = vb[i] as u32;
        let lx: u32 = if 65 <= x && x <= 90 {
            x + 32
        } else {
            x
        };
        let ly: u32 = if 65 <= y && y <= 90 {
            y + 32
        } else {
            y
        };
        assert(lx == ascii_lower_char(va@[i as int]) as u32);
        assert(ly == ascii_lower_char(vb@[i as int]) as u32);
        if lx != ly {
            assert(ascii_lower(a@)[i as int] != ascii_lower(b@)[i as int]);
            return false;
        }
        i += 1;
    }
    assert(ascii_lower(a@) =~= ascii_lower(b@));
    true
}

/// A scan imports a file when its path is not excluded and its extension
/// is listed.
pub open spec fn is_candidate_spec(
    path: Seq<char>,
    ext: Seq<char>,
    extensions: Seq<Seq<char>>,
    excludes: Seq<Seq<char>>,
) -> bool {
    !excluded_by(path, excludes) && extension_listed(ext, extensions)
}

/// Does a scan import the file at `path`, whose extension is `ext` (empty
/// when it has none)?
pub fn is_candidate(path: &str, ext: &str, extensions: &[String], excludes: &[String]) -> (r: bool)
    ensures
        r == is_candidate_spec(path@, ext@, string_views(extensions@), string_views(excludes@)),
{
    if matches_excludes(path, excludes) {
        return false;
    }
    let ghost ev = string_views(extensions@);
    let mut k: usize = 0;
    while k < extensions.len()
        invariant
            k <= extensions@.len(),
            ev == string_views(extensions@),
            !excluded_by(path@, string_views(excludes@)),
            forall|m: int| 0 <= m < k ==> ascii_lower(#[trigger] ev[m]) != ascii_lower(ext@),
        decreases extensions.len() - k,
    {
        assert(ev[k as int] == extensions@[k as int]@);
        if eq_ignore_ascii_case(extensions[k].as_str(), ext) {
            assert(ascii_lower(ev[k as int]) == ascii_lower(ext@));
            return true;
        }
        k += 1;
    }
    false
}

// ---------------------------------------------------------------------------
// Quick hash
// ---------------------------------------------------------------------------

/// The `n` low bytes of `v`, least significant first.
pub open spec fn le_bytes(v: nat, n: nat) -> Seq<u8>
    decreases n,
{
    if n == 0 {
        seq![]
    } else {
        seq![(v % 256) as u8] + le_bytes(v / 256, (n - 1) as nat)
    }
}

/// The quick hash of a file: BLAKE3 of its first bytes (up to 1 MiB, as
/// read) followed by its size as eight little-endian bytes, in hex.
pub fn quick_hash_of(prefix: &[u8], size: u64) -> (r: String)
    ensures
        r@ == blake3_hex_of(prefix@ + le_bytes(size as nat, 8)),
        r@.len() == 64,
        forall|i: int|
            0 <= i < 64 ==> ('0' <= #[trigger] r@[i] && r@[i] <= '9') || ('a' <= r@[i] && r@[i]
                <= 'f'),
{
    let mut bytes: Vec<u8> = Vec::new();
    let mut i: usize = 0;
    while i < prefix.len()
        invariant
            i <= prefix@.len(),
            bytes@ =~= prefix@.take(i as int),
        decreases prefix.len() - i,
    {
        bytes.push(prefix[i]);
        i += 1;
    }
    assert(prefix@.take(prefix@.len() as int) =~= prefix@);
    let mut v: u64 = size;
    let mut k: usize = 0;
    while k < 8
        invariant
            k <= 8,
            bytes@ + le_bytes(v as nat, (8 - k) as nat) == prefix@ + le_bytes(size as nat, 8),
        decreases 8 - k,
    {
        let ghost before = bytes@;
        bytes.push((v % 256) as u8);
        assert(bytes@ + le_bytes((v / 256) as nat, (8 - k - 1) as nat) =~= before + le_bytes(
            v as nat,
            (8 - k) as nat,
        ));
        v = v / 256;
        k += 1;
    }
    assert(bytes@ + seq![] =~= bytes@);
    blake3_hex(&bytes)
}

// ---------------------------------------------------------------------------
// The media record of a scanned file
// ---------------------------------------------------------------------------

/// What a scan read of one file.
pub struct FileFacts {
    /// The path, as text.
    pub path: String,
    pub file_name: String,
    /// The extension as found (empty when there is none).
    pub extension: String,
    pub file_size: i64,
    pub quick_hash: String,
    pub mime_type: Option<String>,
    /// The EXIF original date, when EXIF was read (see `reads_exif`).
    pub exif_datetime: Option<String>,
    /// The file's modification time, in seconds since the epoch.
    pub modified_secs: Option<i64>,
    pub source_folder: Option<String>,
    pub thumbnail_path: Option<String>,
}

/// What processing one scanned file did.
#[derive(Clone, Copy, Debug, PartialEq, Eq, Structural)]
pub enum ProcessOutcome {
    Inserted,
    Skipped,
    Duplicate,
}

/// EXIF is read for images and raw files only.
pub fn reads_exif(media_type: MediaType) -> (r: bool)
    ensures
        r == (media_type == MediaType::Image || media_type == MediaType::Raw),
{
    match media_type {
        MediaType::Image | MediaType::Raw => true,
        _ => false,
    }
}

/// The date a scanned file was taken: the EXIF original date, else the
/// modification time in UTC (empty text if chrono cannot render it).
pub open spec fn scanned_date(exif_datetime: Option<String>, modified_secs: Option<i64>) -> Option<
    Seq<char>,
> {
    match exif_datetime {
        Some(d) => Some(d@),
        None => match modified_secs {
            Some(s) => Some(
                match utc_timestamp_rfc3339(s) {
                    Some(t) => t,
                    None => seq![],
                },
            ),
            None => None,
        },
    }
}

/// The text of an optional string.
pub open spec fn opt_view(o: Option<String>) -> Option<Seq<char>> {
    match o {
        Some(s) => Some(s@),
        None => None,
    }
}

/// The media record of a scanned file, under `id`, imported at `now`;
/// `canonical` is the id of an earlier file with the same quick hash.
pub open spec fn is_scanned_media(
    m: Media,
    f: FileFacts,
    canonical: Option<Seq<char>>,
    id: Seq<char>,
    now: Seq<char>,
) -> bool {
    let ext = lowercase_of(f.extension@);
    &&& m.id@ == id
    &&& m.file_path@ == f.path@
    &&& m.file_name@ == f.file_name@
    &&& m.file_extension@ == ext
    &&& m.file_size == f.file_size
    &&& m.file_hash@ == f.quick_hash@
    &&& m.full_hash is None
    &&& m.mime_type == f.mime_type
    &&& m.media_type == extension_media_type(lowercase_of(ext))
    &&& m.width is None && m.height is None && m.duration_ms is None
    &&& m.thumbnail_path == f.thumbnail_path
    &&& m.preview_path is None
    &&& opt_view(m.date_taken) == scanned_date(f.exif_datetime, f.modified_secs)
    &&& m.date_imported@ == now
    &&& m.source_folder == f.source_folder
    &&& !m.is_private && !m.privacy_locked
    &&& m.classification == Classification::Unclassified
    &&& m.classification_confidence_ppm == 0
    &&& m.project_id is None
    &&& m.quality_score_ppm is None
    &&& m.is_duplicate == canonical is Some
    &&& opt_view(m.duplicate_of) == canonical
    &&& !m.is_starred
    &&& m.notes is None
    &&& m.created_at@ == now
    &&& m.updated_at@ == now
}

/// Builds the media record of a scanned file (see `is_scanned_media`).
pub fn media_record(f: &FileFacts, canonical: Option<&str>, id: &str, now: &str) -> (r: Media)
    ensures
        is_scanned_media(
            r,
            *f,
            match canonical {
                Some(c) => Some(c@),
                None => None,
            },
            id@,
            now@,
        ),
{
    let ext = to_lowercase(f.extension.as_str());
    let media_type = MediaType::from_extension(ext.as_str());
    let date_taken = match &f.exif_datetime {
        Some(d) => Some(d.clone()),
        None => match f.modified_secs {
            Some(s) => match format_utc_timestamp(s) {
                Some(t) => Some(t),
                None => Some(String::new()),
            },
            None => None,
        },
    };
    Media {
        id: id.to_string(),
        file_path: f.path.clone(),
        file_name: f.file_name.clone(),
        file_extension: ext,
        file_size: f.file_size,
        file_hash: f.quick_hash.clone(),
        full_hash: None,
        mime_type: clone_opt_string(&f.mime_type),
        media_type,
        width: None,
        height: None,
        duration_ms: None,
        thumbnail_path: clone_opt_string(&f.thumbnail_path),
        preview_path: None,
        date_taken,
        date_imported: now.to_string(),
        source_folder: clone_opt_string(&f.source_folder),
        is_private: false,
        privacy_locked: false,
        classification: Classification::Unclassified,
        classification_confidence_ppm: 0,
        project_id: None,
        quality_score_ppm: None,
        is_duplicate: canonical.is_some(),
        duplicate_of: match canonical {
            Some(c) => Some(c.to_string()),
            None => None,
        },
        is_starred: false,
        notes: None,
        created_at: now.to_string(),
        updated_at: now.to_string(),
    }
}

/// Processes a scanned file against the ids of earlier media with the same
/// quick hash: the record to insert under a fresh id, imported now, and
/// the outcome (a duplicate of the first of them, if any).
pub fn process_one_file(f: &FileFacts, same_hash: &[String]) -> (r: (Media, ProcessOutcome))
    ensures
        is_scanned_media(
            r.0,
            *f,
            if same_hash@.len() > 0 {
                Some(same_hash@[0]@)
            } else {
                None
            },
            r.0.id@,
            r.0.created_at@,
        ),
        r.1 == if same_hash@.len() > 0 {
            ProcessOutcome::Duplicate
        } else {
            ProcessOutcome::Inserted
        },
{
    let id = new_uuid_string();
    let now = now_rfc3339();
    if same_hash.len() > 0 {
        (media_record(f, Some(same_hash[0].as_str()), id.as_str(), now.as_str()), ProcessOutcome::Duplicate)
    } else {
        (media_record(f, None, id.as_str(), now.as_str()), ProcessOutcome::Inserted)
    }
}

// ---------------------------------------------------------------------------
// Watched folders
// ---------------------------------------------------------------------------

/// A request to scan a folder.
#[derive(Clone, Debug)]
pub struct ScanRequest {
    pub folder: String,
}

/// The JSON text the watched folders are read from: the
/// `scan.watch_folders` setting's string or stored array, or `[]`.
pub open spec fn watch_list_text(v: Option<JsonValue>) -> Seq<char> {
    match v {
        Some(JsonValue::Str(s)) => s@,
        Some(JsonValue::Compound(t)) => t@,
        _ => "[]"@,
    }
}

/// The watched folders, from the `scan.watch_folders` setting (`None`:
/// missing); `None` when its text is not a JSON array of strings.
pub fn watched_folders(value: &Option<JsonValue>) -> (r: Option<Vec<String>>)
    ensures
        match r {
            Some(l) => json_string_list(watch_list_text(*value)) == Some(string_views(l@)),
            None => json_string_list(watch_list_text(*value)) is None,
        },
{
    match value {
        Some(JsonValue::Str(s)) => parse_string_list(s.as_str()),
        Some(JsonValue::Compound(t)) => parse_string_list(t.as_str()),
        _ => parse_string_list("[]"),
    }
}

/// Is the folder in the list?
pub fn contains_folder(list: &[String], folder: &str) -> (r: bool)
    ensures
        r == string_views(list@).contains(folder@),
{
    let ghost lv = string_views(list@);
    let mut k: usize = 0;
    while k < list.len()
        invariant
            k <= list@.len(),
            lv == string_views(list@),
            forall|m: int| 0 <= m < k ==> lv[m] != folder@,
        decreases list.len() - k,
    {
        if eq_str(list[k].as_str(), folder) {
            assert(lv[k as int] == folder@);
            return true;
        }
        k += 1;
    }
    false
}

/// The watched folders with `folder` added at the end; `None` when it is
/// already watched (nothing to store).
pub fn with_watch_folder(current: &Vec<String>, folder: &str) -> (r: Option<Vec<String>>)
    ensures
        string_views(current@).contains(folder@) <==> r is None,
        r matches Some(l) ==> string_views(l@) == string_views(current@).push(folder@),
{
    if contains_folder(current.as_slice(), folder) {
        None
    } else {
        let mut l = crate::text::clone_strings(current);
        l.push(folder.to_string());
        assert(string_views(l@) =~= string_views(current@).push(folder@));
        Some(l)
    }
}

/// The watched folders without `folder`, in order.
pub fn without_watch_folder(current: &Vec<String>, folder: &str) -> (r: Vec<String>)
    ensures
        string_views(r@) == string_views(current@).filter(|f: Seq<char>| f != folder@),
{
    let ghost cv = string_views(current@);
    let ghost keep = |f: Seq<char>| f != folder@;
    let mut r: Vec<String> = Vec::new();
    let mut k: usize = 0;
    while k < current.len()
        invariant
            k <= current@.len(),
            cv == string_views(current@),
            keep == (|f: Seq<char>| f != folder@),
            string_views(r@) == cv.take(k as int).filter(keep),
        decreases current.len() - k,
    {
        let ghost before = r@;
        assert(cv.take(k as int + 1).drop_last() =~= cv.take(k as int));
        reveal(Seq::filter);
        if !eq_str(current[k].as_str(), folder) {
            r.push(current[k].clone());
            assert(string_views(r@) =~= string_views(before).push(cv[k as int]));
        }
        k += 1;
    }
    assert(cv.take(current@.len() as int) =~= cv);
    r
}

/// The JSON text the watched folders are stored as; stored as the
/// setting's string, it reads back as the same list.
pub fn watch_list_json(list: &[String]) -> (r: String)
    ensures
        r@ == json_list_text_of(string_views(list@)),
        json_string_list(watch_list_text(Some(JsonValue::Str(r)))) == Some(string_views(list@)),
{
    json_list_text(list)
}

/// What adding a folder keeps: the folder is watched afterwards, and
/// every folder watched before still is.
pub proof fn lemma_add_watch_folder(current: Seq<Seq<char>>, folder: Seq<char>)
    ensures
        current.push(folder).contains(folder),
        forall|f: Seq<char>| current.contains(f) ==> current.push(folder).contains(f),
{
    assert(current.push(folder)[current.len() as int] == folder);
    assert forall|f: Seq<char>| current.contains(f) implies current.push(folder).contains(f) by {
        let k = choose|k: int| 0 <= k < current.len() && current[k] == f;
        assert(current.push(folder)[k] == f);
    }
}

/// What removing a folder keeps: the folder is no longer watched, and
/// every other folder watched before still is.
pub proof fn lemma_remove_watch_folder(current: Seq<Seq<char>>, folder: Seq<char>)
    ensures
        !current.filter(|f: Seq<char>| f != folder).contains(folder),
        forall|g: Seq<char>|
            current.contains(g) && g != folder ==> current.filter(|f: Seq<char>| f != folder).contains(g),
{
    let keep = |f: Seq<char>| f != folder;
    let out = current.filter(keep);
    broadcast use vstd::seq_lib::group_filter_ensures;

    if out.contains(folder) {
        let k = choose|k: int| 0 <= k < out.len() && out[k] == folder;
        assert(keep(out[k]));
    }
    assert forall|g: Seq<char>| current.contains(g) && g != folder implies out.contains(g) by {
        let k = choose|k: int| 0 <= k < current.len() && current[k] == g;
        current.lemma_filter_contains(keep, k);
    }
}

} // verus!
