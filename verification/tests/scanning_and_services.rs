use realisation_manager::exif::{
    flash_fired, format_shutter, get_datetime, get_int, get_string, ExifField, ExifValue,
};
use realisation_manager::job_registry::{CancelToken, JobRegistry};
use realisation_manager::models::{Classification, JobStatus, MediaType};
use realisation_manager::queries::{
    media_list_query, project_list_query, set_status_query, MediaFilter, ProjectFilter, SqlArg,
};
use realisation_manager::scanner::{
    default_exclude_patterns, eq_ignore_ascii_case, is_candidate, matches_excludes, media_record,
    process_one_file, quick_hash_of, read_exclude_patterns_from_settings,
    read_supported_extensions_from_settings, reads_exif, supported_extensions, watch_list_json,
    watched_folders, with_watch_folder, without_watch_folder, FileFacts, ProcessOutcome, ScanRequest,
};
use realisation_manager::search::{search_media, search_projects, MediaSearch, ProjectSearch, SearchQuery};
use realisation_manager::settings::JsonValue;
use realisation_manager::thumbnails::{ffmpeg_args, thumbnail_file_name, thumbnail_method, ThumbnailMethod};

fn strings(v: &[&str]) -> Vec<String> {
    v.iter().map(|s| s.to_string()).collect()
}

#[test]
fn default_scan_lists() {
    assert_eq!(
        supported_extensions(),
        strings(&["jpg", "jpeg", "png", "heic", "heif", "mov", "mp4", "m4v", "nef", "cr2", "arw", "dng"])
    );
    assert_eq!(default_exclude_patterns(), strings(&["**/.git/**", "**/node_modules/**", "**/__MACOSX/**"]));
}

#[test]
fn list_settings_are_read_from_a_json_string() {
    assert_eq!(read_supported_extensions_from_settings(&None), supported_extensions());
    let s = Some(JsonValue::Str("[\"jpg\",\"cr3\"]".to_string()));
    assert_eq!(read_supported_extensions_from_settings(&s), strings(&["jpg", "cr3"]));
    // a stored array is read as the list it holds
    let a = Some(JsonValue::Compound("[\"jpg\"]".to_string()));
    assert_eq!(read_supported_extensions_from_settings(&a), strings(&["jpg"]));
    let e = Some(JsonValue::Compound("[\"**/tmp/**\"]".to_string()));
    assert_eq!(read_exclude_patterns_from_settings(&e), strings(&["**/tmp/**"]));
    // text that is no list of strings falls back to the defaults
    let bad = Some(JsonValue::Str("not json".to_string()));
    assert_eq!(read_exclude_patterns_from_settings(&bad), default_exclude_patterns());
}

#[test]
fn exclude_patterns_match_their_core() {
    let ex = default_exclude_patterns();
    assert!(matches_excludes("/home/u/project/.git/config", &ex));
    assert!(matches_excludes("/a/node_modules/b.jpg", &ex));
    assert!(!matches_excludes("/home/u/photos/a.jpg", &ex));
    assert!(!matches_excludes("/anything", &strings(&["**", "/", "**/**"])));
    assert!(matches_excludes("/x/tmp/y", &strings(&["**/tmp/**"])));
}

#[test]
fn candidates_need_a_listed_extension() {
    let ext = supported_extensions();
    let ex = default_exclude_patterns();
    assert!(is_candidate("/p/a.JPG", "JPG", &ext, &ex));
    assert!(!is_candidate("/p/a.txt", "txt", &ext, &ex));
    assert!(!is_candidate("/p/.git/a.jpg", "jpg", &ext, &ex));
    assert!(!is_candidate("/p/a", "", &ext, &ex));
    assert!(eq_ignore_ascii_case("HeIc", "heic"));
    assert!(!eq_ignore_ascii_case("heic", "heif"));
    assert!(!eq_ignore_ascii_case("É", "é"));
}

#[test]
fn quick_hash_covers_prefix_and_size() {
    let data = b"hello world".to_vec();
    let h = quick_hash_of(&data, 11);
    let mut hasher = blake3::Hasher::new();
    hasher.update(&data);
    hasher.update(&11u64.to_le_bytes());
    assert_eq!(h, hasher.finalize().to_hex().to_string());
    assert_eq!(h.len(), 64);
    assert!(h.chars().all(|c| c.is_ascii_digit() || ('a'..='f').contains(&c)));
    assert_ne!(h, quick_hash_of(&data, 12));
}

fn facts(ext: &str) -> FileFacts {
    FileFacts {
        path: format!("/p/IMG_1.{}", ext),
        file_name: format!("IMG_1.{}", ext),
        extension: ext.to_string(),
        file_size: 42,
        quick_hash: "abc".to_string(),
        mime_type: Some("image/jpeg".to_string()),
        exif_datetime: None,
        modified_secs: Some(0),
        source_folder: Some("/p".to_string()),
        thumbnail_path: None,
    }
}

#[test]
fn scanned_media_records() {
    let f = facts("JPG");
    let m = media_record(&f, None, "id-1", "now");
    assert_eq!(m.file_extension, "jpg");
    assert_eq!(m.media_type, MediaType::Image);
    assert_eq!(m.date_taken.as_deref(), Some("1970-01-01T00:00:00+00:00"));
    assert_eq!(m.classification, Classification::Unclassified);
    assert!(!m.is_duplicate);
    let d = media_record(&f, Some("first"), "id-2", "now");
    assert!(d.is_duplicate);
    assert_eq!(d.duplicate_of.as_deref(), Some("first"));
    let mut g = facts("cr2");
    g.exif_datetime = Some("2023-07-14T09:30:00+00:00".to_string());
    let r = media_record(&g, None, "id-3", "now");
    assert_eq!(r.media_type, MediaType::Raw);
    assert_eq!(r.date_taken.as_deref(), Some("2023-07-14T09:30:00+00:00"));
    assert!(reads_exif(MediaType::Raw) && reads_exif(MediaType::Image) && !reads_exif(MediaType::Video));
    let (n, o) = process_one_file(&f, &strings(&["canon", "other"]));
    assert_eq!(o, ProcessOutcome::Duplicate);
    assert_eq!(n.duplicate_of.as_deref(), Some("canon"));
    assert_eq!(n.id.len(), 36);
    let (_, o2) = process_one_file(&f, &[]);
    assert_eq!(o2, ProcessOutcome::Inserted);
}

#[test]
fn watched_folders_add_and_remove() {
    let req = ScanRequest { folder: "/p".to_string() };
    assert_eq!(req.folder, "/p");
    assert_eq!(watched_folders(&None), Some(vec![]));
    let stored = Some(JsonValue::Str("[\"/a\",\"/b\"]".to_string()));
    let cur = watched_folders(&stored).unwrap();
    assert_eq!(cur, strings(&["/a", "/b"]));
    assert_eq!(watched_folders(&Some(JsonValue::Str("{".to_string()))), None);
    assert_eq!(with_watch_folder(&cur, "/c"), Some(strings(&["/a", "/b", "/c"])));
    assert_eq!(with_watch_folder(&cur, "/a"), None);
    assert_eq!(without_watch_folder(&strings(&["/a", "/b", "/a"]), "/a"), strings(&["/b"]));
    assert_eq!(watch_list_json(&cur), "[\"/a\",\"/b\"]");
    assert_eq!(watch_list_json(&[]), "[]");
}

#[test]
fn stored_watch_lists_read_back_unchanged() {
    let cur = strings(&["/a", "C:\\Foto's \"nieuw\"", "/é/\n/x", ""]);
    let added = with_watch_folder(&cur, "/d").unwrap();
    let text = watch_list_json(&added);
    assert_eq!(text, "[\"/a\",\"C:\\\\Foto's \\\"nieuw\\\"\",\"/é/\\n/x\",\"\",\"/d\"]");
    assert_eq!(watched_folders(&Some(JsonValue::Str(text))), Some(added.clone()));
    // adding the same folder again changes nothing
    assert_eq!(with_watch_folder(&added, "/d"), None);
}

fn field(value: ExifValue, display: &str) -> ExifField {
    ExifField { value, display: display.to_string() }
}

#[test]
fn exif_fields() {
    assert_eq!(get_int(Some(&field(ExifValue::Short(vec![5, 6]), "5"))), Some(5));
    assert_eq!(get_int(Some(&field(ExifValue::Long(vec![70000]), ""))), Some(70000));
    assert_eq!(get_int(Some(&field(ExifValue::Rational(vec![(7, 2)]), ""))), Some(3));
    assert_eq!(get_int(Some(&field(ExifValue::Rational(vec![(1, 0)]), ""))), Some(i64::MAX));
    assert_eq!(get_int(Some(&field(ExifValue::Rational(vec![(0, 0)]), ""))), Some(0));
    assert_eq!(get_int(Some(&field(ExifValue::Short(vec![]), ""))), None);
    assert_eq!(get_int(Some(&field(ExifValue::Other, "3"))), None);
    assert_eq!(get_int(None), None);
    assert_eq!(get_string(Some(&field(ExifValue::Other, "Canon"))), Some("Canon".to_string()));
    assert_eq!(get_string(None), None);
    assert_eq!(flash_fired(Some(0x19)), Some(true));
    assert_eq!(flash_fired(Some(16)), Some(false));
    assert_eq!(flash_fired(None), None);
    assert_eq!(format_shutter("  1/200 s \n".to_string()), "1/200 s");
    let dt = field(ExifValue::Ascii(vec![b"2023:07:14 09:30:00".to_vec()]), "");
    assert_eq!(get_datetime(Some(&dt)), Some("2023-07-14T09:30:00+00:00".to_string()));
    let bad = field(ExifValue::Ascii(vec![b"yesterday".to_vec()]), "");
    assert_eq!(get_datetime(Some(&bad)), None);
}

#[test]
fn job_lifecycle() {
    let mut reg = JobRegistry::new();
    let id = reg.start();
    assert_eq!(id.len(), 36);
    assert!(!reg.is_cancelled(&id));
    assert!(reg.cancel(&id));
    assert!(reg.is_cancelled(&id));
    reg.complete(&id);
    assert!(!reg.is_cancelled(&id));
    assert!(!reg.cancel(&id));
    assert!(!reg.cancel("unknown"));
    let other = reg.start();
    assert_ne!(other, id);
    assert!(!reg.is_cancelled(&other));
    let mut d = JobRegistry::default();
    assert!(!d.cancel(&other));
    let third = d.start();
    assert!(d.cancel(&third));
}

#[test]
fn cancel_tokens_are_shared_by_clones() {
    let t = CancelToken::new();
    let u = t.clone();
    assert!(!u.is_cancelled());
    t.cancel();
    assert!(u.is_cancelled());
}

fn arg_text(a: &SqlArg) -> String {
    match a {
        SqlArg::Text(s) => format!("T:{}", s),
        SqlArg::Int(n) => format!("I:{}", n),
        SqlArg::Null => "NULL".to_string(),
    }
}

#[test]
fn media_listing_sql() {
    let q = media_list_query(&MediaFilter::new());
    assert_eq!(q.sql, "SELECT * FROM media WHERE 1=1 ORDER BY date_taken DESC");
    assert!(q.args.is_empty());
    let mut f = MediaFilter::new();
    f.classification = Some(Classification::Business);
    f.is_private = Some(false);
    f.limit = Some(10);
    f.order_by = Some("file_name ASC".to_string());
    let q = media_list_query(&f);
    assert_eq!(
        q.sql,
        "SELECT * FROM media WHERE 1=1 AND classification = ? AND is_private = ? ORDER BY file_name ASC LIMIT ?"
    );
    let args: Vec<String> = q.args.iter().map(arg_text).collect();
    assert_eq!(args, strings(&["T:business", "I:0", "I:10"]));
}

#[test]
fn project_listing_sql() {
    let f = ProjectFilter { status: None, project_type: None, is_private: Some(true), limit: None, offset: Some(20) };
    let q = project_list_query(&f);
    assert_eq!(q.sql, "SELECT * FROM projects WHERE 1=1 AND is_private = ? ORDER BY updated_at DESC OFFSET ?");
    let args: Vec<String> = q.args.iter().map(arg_text).collect();
    assert_eq!(args, strings(&["I:1", "I:20"]));
}

#[test]
fn job_status_updates() {
    let q = set_status_query("j1", JobStatus::Running, None, "t0");
    assert_eq!(q.sql, "UPDATE jobs SET status=?, started_at=?, updated_at=datetime('now') WHERE id=?");
    let args: Vec<String> = q.args.iter().map(arg_text).collect();
    assert_eq!(args, strings(&["T:running", "T:t0", "T:j1"]));
    let q = set_status_query("j1", JobStatus::Failed, Some("boom"), "t1");
    let args: Vec<String> = q.args.iter().map(arg_text).collect();
    assert_eq!(args, strings(&["T:failed", "T:boom", "T:t1", "T:j1"]));
    let q = set_status_query("j1", JobStatus::Completed, None, "t2");
    let args: Vec<String> = q.args.iter().map(arg_text).collect();
    assert_eq!(args, strings(&["T:completed", "NULL", "T:t2", "T:j1"]));
    let q = set_status_query("j1", JobStatus::Pending, None, "t3");
    assert_eq!(q.sql, "UPDATE jobs SET status=?, updated_at=datetime('now') WHERE id=?");
    assert_eq!(q.args.len(), 2);
}

fn query(text: Option<&str>, limit: Option<i64>) -> SearchQuery {
    SearchQuery {
        query: text.map(|t| t.to_string()),
        classification: Some(Classification::Business),
        media_type: None,
        project_id: None,
        is_private: None,
        date_from: None,
        date_to: None,
        source_folder: None,
        limit,
    }
}

#[test]
fn searches_pick_text_or_filters() {
    match search_media(&query(Some("ketel"), None)) {
        MediaSearch::Text { text, limit } => {
            assert_eq!(text, "ketel");
            assert_eq!(limit, 100);
        }
        MediaSearch::Filter(_) => panic!("expected a text search"),
    }
    match search_media(&query(Some("  \t"), Some(5))) {
        MediaSearch::Filter(f) => {
            assert_eq!(f.classification, Some(Classification::Business));
            assert_eq!(f.limit, Some(5));
            assert!(f.order_by.is_none());
        }
        MediaSearch::Text { .. } => panic!("expected a filtered listing"),
    }
    match search_projects(" ", 7) {
        ProjectSearch::Filter(f) => assert_eq!(f.limit, Some(7)),
        ProjectSearch::Text { .. } => panic!("expected a listing"),
    }
    match search_projects("badkamer", 7) {
        ProjectSearch::Text { text, limit } => {
            assert_eq!(text, "badkamer");
            assert_eq!(limit, 7);
        }
        ProjectSearch::Filter(_) => panic!("expected a text search"),
    }
}

#[test]
fn thumbnail_methods() {
    assert_eq!(thumbnail_method("JPG"), ThumbnailMethod::Resize);
    assert_eq!(thumbnail_method("heic"), ThumbnailMethod::Ffmpeg);
    assert_eq!(thumbnail_method("MOV"), ThumbnailMethod::Ffmpeg);
    assert_eq!(thumbnail_method("txt"), ThumbnailMethod::Unsupported);
    assert_eq!(
        ffmpeg_args("in.mov", "out.jpg"),
        strings(&[
            "-y",
            "-i",
            "in.mov",
            "-vframes",
            "1",
            "-vf",
            "scale=400:400:force_original_aspect_ratio=decrease",
            "-q:v",
            "3",
            "out.jpg"
        ])
    );
    let n = thumbnail_file_name();
    assert_eq!(n.len(), 40);
    assert!(n.ends_with(".jpg"));
}
