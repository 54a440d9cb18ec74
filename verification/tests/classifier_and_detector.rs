use realisation_manager::ai_pipeline::{
    analysis_decision, brand_strings, brands_from, collect_brands_from, label_strings, labels_from,
    AnalysisResult, DetectedObject,
};
use realisation_manager::classifier::{
    apply_folder_rules, classify, classify_with_rules, component_keys, depth_below_exec,
    select_folder_rule,
};
use realisation_manager::models::{
    Classification, FolderClassification, FolderRule, Media, MediaType, ProjectStatus, ProjectType,
};
use realisation_manager::project_detector::{
    build_detected_project, build_name, cluster_by_date, compute_confidence, date_clusters_of,
    infer_type_and_tags, last_path_part, project_from_detected, project_groups, refine_by_signals,
    split_project, split_project_record, within_three_days,
};

fn media_with(id: &str, folder: Option<&str>, date: Option<&str>) -> Media {
    Media {
        id: id.to_string(),
        file_path: format!("/photos/{}.jpg", id),
        file_name: format!("{}.jpg", id),
        file_extension: "jpg".to_string(),
        file_size: 1000,
        file_hash: "h".to_string(),
        full_hash: None,
        mime_type: None,
        media_type: MediaType::Image,
        width: None,
        height: None,
        duration_ms: None,
        thumbnail_path: None,
        preview_path: None,
        date_taken: date.map(|d| d.to_string()),
        date_imported: "2024-01-01T00:00:00+00:00".to_string(),
        source_folder: folder.map(|f| f.to_string()),
        is_private: false,
        privacy_locked: false,
        classification: Classification::Unclassified,
        classification_confidence_ppm: 0,
        project_id: None,
        quality_score_ppm: None,
        is_duplicate: false,
        duplicate_of: None,
        is_starred: false,
        notes: None,
        created_at: "2024-01-01T00:00:00+00:00".to_string(),
        updated_at: "2024-01-01T00:00:00+00:00".to_string(),
    }
}

fn result_with(objects: &[(&str, u32)], tags: &[&str], brands: &[&str]) -> AnalysisResult {
    AnalysisResult {
        media_id: "m".to_string(),
        objects: objects
            .iter()
            .map(|(l, c)| DetectedObject { label: l.to_string(), confidence_ppm: *c, bbox_ppm: [0, 0, 0, 0] })
            .collect(),
        scene_tags: tags.iter().map(|t| t.to_string()).collect(),
        brands: brands.iter().map(|b| b.to_string()).collect(),
        ocr_text: None,
        quality_score_ppm: 0,
        classification: Classification::Unclassified,
        classification_confidence_ppm: 0,
        processing_time_ms: 0,
    }
}

fn rule(folder: &str, c: FolderClassification, recursive: bool, priority: i64) -> FolderRule {
    FolderRule {
        id: folder.to_string(),
        folder_path: folder.to_string(),
        classification: c,
        recursive,
        priority,
        notes: None,
        created_at: String::new(),
        updated_at: String::new(),
    }
}

#[test]
fn classify_business_signals_win_with_full_confidence() {
    let m = media_with("a", Some("D:/Werk/Klant Jansen"), None);
    let r = result_with(&[("boiler", 900_000)], &[], &["Vaillant"]);
    assert_eq!(classify(&m, &r, None), (Classification::Business, 1_000_000));
}

#[test]
fn classify_private_folder_and_tags() {
    let m = media_with("a", Some("/fotos/Vakantie 2023"), None);
    let r = result_with(&[], &["natuur"], &[]);
    assert_eq!(classify(&m, &r, None), (Classification::Private, 1_000_000));
}

#[test]
fn classify_weekday_daytime_alone_reaches_the_minimum() {
    let m = media_with("a", None, Some("2024-03-05T10:00:00+01:00"));
    let r = result_with(&[], &[], &[]);
    assert_eq!(classify(&m, &r, None), (Classification::Business, 1_000_000));
}

#[test]
fn classify_without_signals_is_unclassified() {
    let m = media_with("a", None, None);
    let r = result_with(&[], &[], &[]);
    assert_eq!(classify(&m, &r, None), (Classification::Unclassified, 0));
}

#[test]
fn classify_close_call_stays_unclassified() {
    // business 0.5 (werk), private 0.6 (prive): share 0.6/1.1 is below 0.55.
    let m = media_with("a", Some("werk_prive"), None);
    let r = result_with(&[], &[], &[]);
    assert_eq!(classify(&m, &r, None), (Classification::Unclassified, 545_454));
    // with a lower threshold the private side wins
    assert_eq!(classify(&m, &r, Some(500_000)), (Classification::Private, 545_454));
}

#[test]
fn classify_locked_media_keeps_its_verdict() {
    let mut m = media_with("a", Some("vakantie"), None);
    m.privacy_locked = true;
    m.is_private = false;
    let r = result_with(&[("person", 1_000_000)], &[], &[]);
    assert_eq!(classify(&m, &r, None), (Classification::Business, 1_000_000));
}

#[test]
fn folder_rules_pick_the_best_scoring_rule() {
    let rules = vec![
        rule("/data/werk", FolderClassification::Business, true, 1),
        rule("/data/werk/prive", FolderClassification::Private, true, 1),
    ];
    // depths 2 and 1: the closer rule scores higher
    assert_eq!(
        select_folder_rule(&rules, &[Some(2), Some(1)]),
        Some((Classification::Private, 1_000_000))
    );
    assert_eq!(select_folder_rule(&rules, &[None, None]), None);
    // a higher priority beats depth
    let rules2 = vec![
        rule("/data", FolderClassification::Exclude, true, 5),
        rule("/data/werk", FolderClassification::Business, true, 1),
    ];
    assert_eq!(
        select_folder_rule(&rules2, &[Some(3), Some(2)]),
        Some((Classification::Unclassified, 1_000_000))
    );
    // a non-recursive rule only matches its own path
    let rules3 = vec![rule("/data", FolderClassification::Business, false, 1)];
    assert_eq!(select_folder_rule(&rules3, &[Some(1)]), None);
    assert_eq!(select_folder_rule(&rules3, &[Some(0)]), Some((Classification::Business, 1_000_000)));
}

#[test]
fn folder_rules_on_paths() {
    let rules = vec![
        rule("/data/werk", FolderClassification::Business, true, 1),
        rule("/data/werk/prive", FolderClassification::Private, true, 1),
    ];
    let mut m = media_with("a", None, None);
    m.file_path = "/data/werk/prive/a.jpg".to_string();
    assert_eq!(apply_folder_rules(&m, &rules), Some((Classification::Private, 1_000_000)));
    m.file_path = "/elders/a.jpg".to_string();
    assert_eq!(apply_folder_rules(&m, &rules), None);
    let r = result_with(&[], &[], &[]);
    m.file_path = "/data/werk/a.jpg".to_string();
    assert_eq!(
        classify_with_rules(&m, &rules, &r, None),
        (Classification::Business, 1_000_000, Some(false))
    );
    // a relative rule folder does not hold an absolute file path
    let rel = vec![rule("data/werk", FolderClassification::Business, true, 1)];
    assert_eq!(apply_folder_rules(&m, &rel), None);
}

#[test]
fn plain_paths_split_at_slashes() {
    let keys = |p: &str| component_keys(p);
    assert_eq!(keys("/data/werk/a.jpg"), vec!["/", "data", "werk", "a.jpg"]);
    assert_eq!(keys("data/werk"), vec!["data", "werk"]);
    // repeated and trailing separators are ignored
    assert_eq!(keys("/data//werk/"), vec!["/", "data", "werk"]);
    assert_eq!(keys("/data/./werk"), vec!["/", "data", "werk"]);
    assert_eq!(keys("./data/."), vec![".", "data"]);
    assert_eq!(keys("a/../b"), vec!["a", "..", "b"]);
    assert_eq!(keys("/"), vec!["/"]);
    assert!(keys("").is_empty());
}

#[test]
fn folder_rules_rank_negative_priorities() {
    let rules = vec![
        rule("/data", FolderClassification::Private, true, -5),
        rule("/data/werk", FolderClassification::Business, true, -7),
    ];
    let mut m = media_with("a", None, None);
    m.file_path = "/data/werk/a.jpg".to_string();
    // -5 outranks -7, whatever the depth
    assert_eq!(apply_folder_rules(&m, &rules), Some((Classification::Private, 1_000_000)));
    // repeated and trailing separators and inner `.` do not change the depth
    m.file_path = "/data//werk/./a.jpg".to_string();
    assert_eq!(apply_folder_rules(&m, &rules), Some((Classification::Private, 1_000_000)));
    let only = vec![rule("/data/werk/", FolderClassification::Business, false, 0)];
    m.file_path = "/data/werk/a.jpg".to_string();
    assert_eq!(apply_folder_rules(&m, &only), None);
    m.file_path = "/data/werk/".to_string();
    assert_eq!(apply_folder_rules(&m, &only), Some((Classification::Business, 1_000_000)));
}

#[test]
fn analysis_decisions_respect_the_privacy_lock() {
    let rules = vec![rule("/photos", FolderClassification::Business, true, 1)];
    let r = result_with(&[], &[], &[]);
    let mut m = media_with("a", None, None);
    let d = analysis_decision(&m, &rules, &r, None);
    assert_eq!(d.classification, Classification::Business);
    assert_eq!(d.confidence_ppm, 1_000_000);
    assert_eq!(d.update.classification, Some((Classification::Business, 1_000_000)));
    assert_eq!(d.update.privacy, Some(false));
    // a locked file keeps its verdict, whatever the rules say, and nothing is stored
    m.privacy_locked = true;
    m.is_private = true;
    let locked = analysis_decision(&m, &rules, &r, None);
    assert_eq!(locked.classification, Classification::Private);
    assert_eq!(locked.confidence_ppm, 1_000_000);
    assert!(locked.update.classification.is_none());
    assert!(locked.update.privacy.is_none());
    // without a matching rule the signals decide and no privacy flag is stored
    let mut n = media_with("b", None, None);
    n.file_path = "/elders/b.jpg".to_string();
    let free = analysis_decision(&n, &rules, &r, None);
    let c = classify(&n, &r, None);
    assert_eq!((free.classification, free.confidence_ppm), c);
    assert_eq!(free.update.classification, Some(c));
    assert!(free.update.privacy.is_none());
}

#[test]
fn stored_analysis_results_are_read() {
    let brand = r#"{"brands":["Vaillant",3,"Nefit"],"text":"x"}"#;
    let objects = r#"[{"label":"boiler","confidence":0.9},{"x":1},{"label":"pipe"}]"#;
    assert_eq!(brand_strings(brand), vec!["Vaillant", "Nefit"]);
    assert_eq!(label_strings(objects), vec!["boiler", "pipe"]);
    assert!(brand_strings("not json").is_empty());
    assert!(label_strings(brand).is_empty());
    assert!(brand_strings(objects).is_empty());
    let rows = vec![objects.to_string(), brand.to_string(), r#"{"brands":["Atag","Nefit"]}"#.to_string()];
    assert_eq!(labels_from(&rows), vec!["boiler", "pipe"]);
    assert_eq!(brands_from(&rows), vec!["Vaillant", "Nefit", "Atag", "Nefit"]);
    assert_eq!(collect_brands_from(&rows), vec!["Atag", "Nefit", "Vaillant"]);
}

#[test]
fn depth_below_counts_components() {
    let p: Vec<String> = ["/", "data", "werk", "a.jpg"].iter().map(|s| s.to_string()).collect();
    let f: Vec<String> = ["/", "data"].iter().map(|s| s.to_string()).collect();
    let g: Vec<String> = ["/", "other"].iter().map(|s| s.to_string()).collect();
    assert_eq!(depth_below_exec(&p, &f), Some(2));
    assert_eq!(depth_below_exec(&p, &g), None);
    assert_eq!(depth_below_exec(&f, &p), None);
}

const DAY: i64 = 86_400;

#[test]
fn date_clusters_join_within_three_days() {
    let inst = vec![
        Some((0, 0)),
        Some((3 * DAY, 0)),
        Some((10 * DAY, 0)),
        None,
        Some((4 * DAY - 1, 0)),
    ];
    assert_eq!(cluster_by_date(&inst), vec![vec![0, 1, 4], vec![2]]);
}

#[test]
fn four_days_apart_is_too_far() {
    assert!(within_three_days((4 * DAY - 1, 999_999_999), (0, 0)));
    assert!(!within_three_days((4 * DAY, 0), (0, 0)));
    assert!(!within_three_days((0, 0), (4 * DAY, 0)));
    let inst = vec![Some((0, 0)), Some((4 * DAY, 0))];
    assert_eq!(cluster_by_date(&inst), vec![vec![0], vec![1]]);
}

#[test]
fn date_clusters_of_media_read_their_dates() {
    let media = vec![
        media_with("a", None, Some("2024-03-01T10:00:00+00:00")),
        media_with("b", None, None),
        media_with("c", None, Some("2024-03-03T10:00:00+02:00")),
        media_with("d", None, Some("not a date")),
        media_with("e", None, Some("2024-04-01T10:00:00+00:00")),
    ];
    assert_eq!(date_clusters_of(&media), vec![vec![0, 2], vec![4]]);
}

#[test]
fn location_groups_split_far_apart_photos() {
    let has_gps = vec![true, true, false, true];
    let mut near = vec![vec![false; 4]; 4];
    near[0][3] = true;
    near[3][0] = true;
    // a photo without a position joins the first group
    assert_eq!(refine_by_signals(&has_gps, &near), vec![vec![0, 2, 3], vec![1]]);
    // positions are compared with every member that has one, not only the first
    assert_eq!(refine_by_signals(&[false, true, true], &[]), vec![vec![0, 1], vec![2]]);
    let mut chain = vec![vec![false; 3]; 3];
    chain[0][1] = true;
    chain[1][0] = true;
    chain[1][2] = true;
    chain[2][1] = true;
    assert_eq!(refine_by_signals(&[true, true, true], &chain), vec![vec![0, 1], vec![2]]);
    assert_eq!(refine_by_signals(&[false, false], &[]), vec![vec![0, 1]]);
}

#[test]
fn project_groups_keep_groups_of_two_or_more() {
    let cluster = vec![4, 7, 9];
    let groups = vec![vec![0, 2], vec![1]];
    assert_eq!(project_groups(&cluster, &groups), vec![vec![4, 9]]);
}

#[test]
fn type_and_tags_follow_the_most_frequent_object() {
    let objects: Vec<String> =
        ["boiler", "pipe", "boiler", "radiator", "radiator"].iter().map(|s| s.to_string()).collect();
    let brands = vec!["Vaillant".to_string()];
    let (t, tags) = infer_type_and_tags(&objects, &brands);
    assert_eq!(t, ProjectType::Radiator);
    assert_eq!(tags, vec!["Vaillant", "boiler", "pipe", "radiator"]);
    let (t2, tags2) = infer_type_and_tags(&[], &[]);
    assert_eq!(t2, ProjectType::Mixed);
    assert!(tags2.is_empty());
    let bath: Vec<String> = ["shower"].iter().map(|s| s.to_string()).collect();
    assert_eq!(infer_type_and_tags(&bath, &[]).0, ProjectType::SanitaryBathroom);
}

#[test]
fn tags_take_the_first_eight_objects() {
    let objects: Vec<String> = ["j", "i", "h", "g", "f", "e", "d", "c", "b", "a"]
        .iter()
        .map(|s| s.to_string())
        .collect();
    let (_, tags) = infer_type_and_tags(&objects, &["c".to_string()]);
    assert_eq!(tags, vec!["c", "d", "e", "f", "g", "h", "i", "j"]);
}

#[test]
fn names_of_detected_projects() {
    let cluster = vec![media_with("a", Some("C:\\Klanten\\Jansen"), None)];
    assert_eq!(
        build_name(ProjectType::CvBoiler, Some("2024-03-05T10:00:00+00:00"), &cluster),
        "CV-ketel installatie 2024-03 - Jansen"
    );
    assert_eq!(build_name(ProjectType::Unknown, None, &[]), "Installatieproject zonder-datum - klant");
    let c2 = vec![media_with("a", Some("/werk/"), None)];
    assert_eq!(build_name(ProjectType::Airco, Some("garbage"), &c2), "Airco installatie zonder-datum - ");
    assert_eq!(last_path_part("a/b\\c"), vec!['c']);
    let klant = vec![media_with("k", Some("/fotos/Klant"), None)];
    assert_eq!(
        build_name(ProjectType::SanitaryBathroom, Some("2026-03-10T09:00:00+00:00"), &klant),
        "Badamer renovatie 2026-03 - Klant"
    );
}

#[test]
fn confidence_of_detected_projects() {
    assert_eq!(compute_confidence(5, Some(((0, 0), (2 * DAY, 0))), true), 850_000);
    assert_eq!(compute_confidence(10, Some(((0, 0), (2 * DAY, 0))), true), 1_000_000);
    assert_eq!(compute_confidence(2, Some(((0, 0), (20 * DAY, 0))), false), 250_000);
    assert_eq!(compute_confidence(2, Some(((0, 0), (40 * DAY, 0))), false), 100_000);
    assert_eq!(compute_confidence(3, None, false), 150_000);
}

#[test]
fn detected_project_of_a_cluster() {
    let cluster = vec![
        media_with("m1", Some("/klanten/De Vries"), Some("2024-05-02T09:00:00+02:00")),
        media_with("m2", None, Some("2024-05-01T12:00:00+00:00")),
        media_with("m3", None, Some("2024-05-03T08:00:00+00:00")),
    ];
    let objects: Vec<String> = ["heat_pump", "heat_pump", "pipe"].iter().map(|s| s.to_string()).collect();
    let d = build_detected_project(&cluster, &objects, &[], Some((52_000_000, 5_000_000))).unwrap();
    assert_eq!(d.project_type, ProjectType::HeatPump);
    assert_eq!(d.start_date.as_deref(), Some("2024-05-01T12:00:00+00:00"));
    assert_eq!(d.end_date.as_deref(), Some("2024-05-03T08:00:00+00:00"));
    assert_eq!(d.name, "Warmtepomp installatie 2024-05 - De Vries");
    assert_eq!(d.confidence_ppm, 150_000 + 300_000 + 300_000);
    assert_eq!(d.media_ids, vec!["m1", "m2", "m3"]);
    assert_eq!(d.latitude_micro, Some(52_000_000));
    assert_eq!(d.suggested_tags, vec!["heat_pump", "pipe"]);
    assert!(build_detected_project(&[], &[], &[], None).is_none());

    let p = project_from_detected(&d, "0123456789abcdef", "2024-06-01T00:00:00+00:00");
    assert_eq!(p.slug, "warmtepomp-installatie-2024-05-de-vries-01234567");
    assert_eq!(p.status, ProjectStatus::Detected);
    assert_eq!(p.cover_media_id.as_deref(), Some("m1"));
    assert_eq!(p.confidence_ppm, d.confidence_ppm);
    assert_eq!(p.created_at, "2024-06-01T00:00:00+00:00");
}

#[test]
fn split_projects() {
    let ids = vec!["x".to_string(), "y".to_string()];
    let p = split_project_record("Nieuw Project", &ids, "abcdef0123456789", "now");
    assert_eq!(p.slug, "nieuw-project-abcdef01");
    assert_eq!(p.project_type, ProjectType::Unknown);
    assert_eq!(p.confidence_ppm, 500_000);
    assert_eq!(p.cover_media_id.as_deref(), Some("x"));
    let q = split_project("Badkamer", &[]);
    assert_eq!(q.id.len(), 36);
    assert!(q.slug.starts_with("badkamer-"));
    assert_eq!(&q.slug[9..], &q.id[..8]);
    assert!(q.cover_media_id.is_none());
}
