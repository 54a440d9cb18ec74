use realisation_manager::ai_pipeline::{
    brand_record, classification_record, detect_brands, embedding_record, model_file_names,
    object_detection_record, ocr_record, quality_record, yolo_labels, AnalysisPayload, AnalysisResult,
    DetectedObject,
};
use realisation_manager::models::AnalysisType;
use realisation_manager::models::{Classification, Media, MediaType, Project, ProjectStatus, ProjectType, SeoStatus};
use realisation_manager::seo_generator::{
    build_body_markdown, bold_inline, collect_brands, generate_seo_content, latest_objects, markdown_to_html,
    type_label_dutch, MediaObjects, SeoSettings,
};
use realisation_manager::settings::{JsonValue, SettingsCache};
use realisation_manager::sorting::sort_dedup_set;

fn strings(v: &[&str]) -> Vec<String> {
    v.iter().map(|s| s.to_string()).collect()
}

#[test]
fn bold_markers_become_strong_once() {
    assert_eq!(bold_inline("a **b** c **d**"), "a <strong>b</strong> c **d**");
    assert_eq!(bold_inline("x **y"), "x **y");
    assert_eq!(bold_inline("plain"), "plain");
}

#[test]
fn markdown_subset_to_html() {
    assert_eq!(
        markdown_to_html("# T\n\n- a **b**\n- c\ntext"),
        "<h1>T</h1>\n<p></p>\n<ul>\n<li>a <strong>b</strong></li>\n<li>c</li>\n</ul>\n<p>text</p>\n"
    );
    assert_eq!(markdown_to_html("## Kop  \n- x\n"), "<h2>Kop</h2>\n<ul>\n<li>x</li>\n</ul>\n");
    assert_eq!(markdown_to_html(""), "");
}

#[test]
fn dutch_type_labels() {
    assert_eq!(type_label_dutch(&ProjectType::CvBoiler), "CV-ketel installatie");
    assert_eq!(type_label_dutch(&ProjectType::SanitaryBathroom), "Badamer renovatie");
    assert_eq!(type_label_dutch(&ProjectType::Unknown), "Installatieproject");
}

fn project() -> Project {
    Project {
        id: "0123456789abcdef".to_string(),
        name: "Ketel Jansen".to_string(),
        slug: "ketel-jansen".to_string(),
        description: None,
        project_type: ProjectType::CvBoiler,
        status: ProjectStatus::Approved,
        location_label: Some("Utrecht".to_string()),
        latitude_micro: None,
        longitude_micro: None,
        start_date: None,
        end_date: None,
        customer_name: None,
        customer_email: None,
        customer_phone: None,
        tags: vec![],
        cover_media_id: None,
        confidence_ppm: 1_000_000,
        is_private: false,
        created_at: String::new(),
        updated_at: String::new(),
    }
}

fn media(id: &str) -> Media {
    Media {
        id: id.to_string(),
        file_path: String::new(),
        file_name: String::new(),
        file_extension: String::new(),
        file_size: 0,
        file_hash: String::new(),
        full_hash: None,
        mime_type: None,
        media_type: MediaType::Image,
        width: None,
        height: None,
        duration_ms: None,
        thumbnail_path: None,
        preview_path: None,
        date_taken: None,
        date_imported: String::new(),
        source_folder: None,
        is_private: false,
        privacy_locked: false,
        classification: Classification::Business,
        classification_confidence_ppm: 0,
        project_id: None,
        quality_score_ppm: None,
        is_duplicate: false,
        duplicate_of: None,
        is_starred: false,
        notes: None,
        created_at: String::new(),
        updated_at: String::new(),
    }
}

#[test]
fn seo_page_of_a_project() {
    let p = project();
    let items = vec![MediaObjects { media: media("m1"), objects: strings(&["boiler", "pipe"]) }];
    let settings = SeoSettings { brand_name: None, website_url: None, contact_email: None, contact_phone: None };
    let brands = strings(&["Vaillant"]);
    let g = generate_seo_content(&p, &items, &brands, &settings, None, "seo-1", "now").unwrap();
    let s = &g.seo;
    let brand = "Mariën Sanitair en Centrale Verwarming";
    assert!(g.warnings.is_empty());
    assert_eq!(s.id, "seo-1");
    assert_eq!(s.title, "CV-ketel installatie in Utrecht");
    assert_eq!(s.slug, "cv-ketel-installatie-utrecht-01234567");
    let mut meta = format!(
        "Recente cv-ketel installatie uitgevoerd door {} in Utrecht. Bekijk foto's en specificaties met merken zoals Vaillant van dit project.",
        brand
    );
    let chars: Vec<char> = meta.chars().collect();
    if chars.len() > 160 {
        meta = chars[..157].iter().collect::<String>();
        meta.push_str("...");
    }
    assert_eq!(s.meta_description, meta);
    assert_eq!(
        s.keywords,
        strings(&[
            "CV-ketel installatie",
            brand,
            "Utrecht",
            "Vaillant",
            "Vaillant installatie",
            "centrale verwarming",
            "cv-ketel installatie",
            "installatie",
            "project",
            "realisatie",
        ])
    );
    assert_eq!(s.canonical_url.as_deref(), Some("https://www.mariensanitair.nl/projecten/ketel-jansen"));
    assert_eq!(s.og_title.as_deref(), Some("CV-ketel installatie — Utrecht"));
    assert_eq!(s.og_description.as_deref(), Some(format!("Project van {} in Utrecht", brand).as_str()));
    assert_eq!(s.og_image_media_id.as_deref(), Some("m1"));
    assert_eq!(s.alt_texts.len(), 1);
    assert_eq!(s.alt_texts[0].0, "m1");
    assert_eq!(s.alt_texts[0].1, "boiler, pipe tijdens cv-ketel installatie in Utrecht van Vaillant");
    assert_eq!(s.status, SeoStatus::Draft);
    assert!(s.title.chars().count() <= 60 && s.meta_description.chars().count() <= 160);
    assert!(s.keywords.len() >= 5 && s.keywords.len() <= 10);
    assert_eq!(s.language, "nl-NL");
    assert_eq!(s.created_at, "now");
    let md = s.body_markdown.clone().unwrap();
    assert!(md.starts_with("# CV-ketel installatie: Ketel Jansen in Utrecht\n\nIn recent heeft **"));
    assert_eq!(s.body_html.clone().unwrap(), markdown_to_html(&md));
    let words = md.split_whitespace().count() as i64;
    assert_eq!(s.word_count, Some(words));
    assert_eq!(s.reading_time_min, Some(std::cmp::max(words / 200, 1)));
}

#[test]
fn seo_title_carries_the_start_month() {
    let mut p = project();
    p.start_date = Some("2024-03-05T10:00:00+01:00".to_string());
    p.cover_media_id = Some("cover".to_string());
    let settings = SeoSettings {
        brand_name: Some("Jansen".to_string()),
        website_url: Some("https://x.nl".to_string()),
        contact_email: None,
        contact_phone: None,
    };
    let g = generate_seo_content(&p, &[], &[], &settings, None, "seo-2", "now").unwrap();
    assert_eq!(g.seo.title, "CV-ketel installatie in Utrecht (March 2024) | Jansen");
    assert_eq!(g.seo.og_image_media_id.as_deref(), Some("cover"));
    assert_eq!(g.seo.canonical_url.as_deref(), Some("https://x.nl/projecten/ketel-jansen"));
    assert!(g.seo.body_markdown.unwrap().contains("In March 2024 heeft **Jansen**"));
}

#[test]
fn body_markdown_sections() {
    let p = project();
    let md = build_body_markdown(&p, "Jansen", "Utrecht", &strings(&["Nefit", "Atag"]), "CV-ketel installatie", &[media("a"), media("b")]);
    assert!(md.starts_with(
        "# CV-ketel installatie: Ketel Jansen in Utrecht\n\nIn recent heeft **Jansen** een cv-ketel installatie uitgevoerd in Utrecht. Voor dit project zijn producten van Nefit, Atag gebruikt.\n\n## Projectomschrijving\n\n"
    ));
    assert!(md.contains("- **Nefit** — betrouwbaar en energiezuinig\n- **Atag** — betrouwbaar en energiezuinig\n\n"));
    assert!(md.contains("Hieronder vindt u een selectie van 2 foto's van dit project."));
    assert!(md.contains("Wij zijn actief in Utrecht en omliggende gebieden."));
    assert!(md.ends_with("Wilt u ook een cv-ketel installatie laten uitvoeren? Neem contact op met **Jansen** voor een vrijblijvende offerte.\n"));
    let plain = build_body_markdown(&p, "Jansen", "Utrecht", &[], "CV-ketel installatie", &[]);
    assert!(plain.contains("Voor dit project is gebruikgemaakt van hoogwaardige materialen uit ons standaardassortiment.\n\n"));
    assert!(plain.contains("uitgevoerd in Utrecht.\n\n"));
}

#[test]
fn seo_texts_are_cut_by_characters() {
    let settings = SeoSettings { brand_name: None, website_url: None, contact_email: None, contact_phone: None };
    let mut p = project();
    // the 60th character of the title is the two-byte 'é'
    let loc = format!("{}éb", "a".repeat(35));
    p.location_label = Some(loc.clone());
    let g = generate_seo_content(&p, &[], &[], &settings, None, "s", "now").unwrap();
    assert_eq!(g.seo.title, format!("CV-ketel installatie in {}é", "a".repeat(35)));
    assert_eq!(g.seo.title.chars().count(), 60);
    assert_eq!(g.seo.title.len(), 61);
    // a description of 160 characters and 161 bytes is kept whole
    let mut p2 = project();
    let loc2 = "b".repeat(25);
    p2.location_label = Some(loc2.clone());
    let g2 = generate_seo_content(&p2, &[], &[], &settings, None, "s", "now").unwrap();
    let full = format!(
        "Recente cv-ketel installatie uitgevoerd door Mariën Sanitair en Centrale Verwarming in {}. Bekijk foto's en specificatiesvan dit project.",
        loc2
    );
    assert_eq!(full.chars().count(), 160);
    assert_eq!(full.len(), 161);
    assert_eq!(g2.seo.meta_description, full);
    // one character more: 157 characters and "..."
    let mut p3 = project();
    p3.location_label = Some("b".repeat(26));
    let g3 = generate_seo_content(&p3, &[], &[], &settings, None, "s", "now").unwrap();
    assert_eq!(g3.seo.meta_description.chars().count(), 160);
    assert!(g3.seo.meta_description.ends_with("..."));
    let long = full.replacen(&loc2, &"b".repeat(26), 1);
    let full3: String = long.chars().take(157).collect();
    assert_eq!(g3.seo.meta_description, format!("{}...", full3));
    // an id shorter than eight characters gives no page
    let mut q = project();
    q.id = "abc".to_string();
    assert!(generate_seo_content(&q, &[], &[], &settings, None, "s", "now").is_none());
}

#[test]
fn seo_keywords_are_capped_at_ten() {
    let p = project();
    let settings = SeoSettings { brand_name: None, website_url: None, contact_email: None, contact_phone: None };
    let brands = strings(&["Atag", "Nefit", "Vaillant"]);
    let g = generate_seo_content(&p, &[], &brands, &settings, None, "s", "now").unwrap();
    assert_eq!(g.seo.keywords.len(), 10);
    let mut sorted = g.seo.keywords.clone();
    sorted.sort();
    sorted.dedup();
    assert_eq!(sorted, g.seo.keywords);
    assert_eq!(g.seo.keywords[0], "Atag");
}

#[test]
fn brands_and_objects_are_sorted_sets() {
    let lists = vec![strings(&["Vaillant", "Daikin"]), strings(&["Daikin"]), vec![]];
    assert_eq!(collect_brands(&lists), strings(&["Daikin", "Vaillant"]));
    assert_eq!(latest_objects(&strings(&["pipe", "boiler", "pipe"])), strings(&["boiler", "pipe"]));
    assert_eq!(sort_dedup_set(&strings(&["b", "a", "b", "B"])), strings(&["B", "a", "b"]));
}

fn cache() -> SettingsCache {
    SettingsCache {
        map: vec![
            ("a".to_string(), JsonValue::Bool(true)),
            ("n".to_string(), JsonValue::PosInt(5)),
            ("m".to_string(), JsonValue::NegInt(-3)),
            ("s".to_string(), JsonValue::Str("x".to_string())),
            ("brands.known".to_string(), JsonValue::Str("[\"Daikin\",\"Vaillant\"]".to_string())),
        ],
    }
}

#[test]
fn settings_getters() {
    let c = cache();
    assert!(c.get_bool("a"));
    assert!(!c.get_bool("s"));
    assert!(!c.get_bool("missing"));
    assert_eq!(c.get_int("n"), Some(5));
    assert_eq!(c.get_int("m"), Some(-3));
    assert_eq!(c.get_int("s"), None);
    assert_eq!(c.get_string("s"), Some("x".to_string()));
    assert_eq!(c.get_string("n"), None);
    assert!(c.get("missing").is_none());
}

#[test]
fn brands_found_in_ocr_and_labels() {
    let result = AnalysisResult {
        media_id: "m".to_string(),
        objects: vec![DetectedObject { label: "daikin_unit".to_string(), confidence_ppm: 0, bbox_ppm: [0; 4] }],
        scene_tags: vec![],
        brands: vec![],
        ocr_text: Some("VAILLANT ecoTEC".to_string()),
        quality_score_ppm: 0,
        classification: Classification::Unclassified,
        classification_confidence_ppm: 0,
        processing_time_ms: 0,
    };
    assert_eq!(detect_brands(&cache(), &result), strings(&["Daikin", "Vaillant"]));
    // the known brands stored as a JSON array, as the seeded settings hold them
    let seeded = SettingsCache {
        map: vec![("brands.known".to_string(), JsonValue::Compound("[\"Daikin\",\"Vaillant\"]".to_string()))],
    };
    assert_eq!(detect_brands(&seeded, &result), strings(&["Daikin", "Vaillant"]));
    let empty = SettingsCache { map: vec![] };
    assert!(detect_brands(&empty, &result).is_empty());
}

#[test]
fn yolo_label_order() {
    let labels = yolo_labels();
    assert_eq!(labels.len(), 25);
    assert_eq!(labels[0], "boiler");
    assert_eq!(labels[24], "interior");
}

fn obj(label: &str, c: u32) -> DetectedObject {
    DetectedObject { label: label.to_string(), confidence_ppm: c, bbox_ppm: [1, 2, 3, 4] }
}

#[test]
fn analysis_records() {
    assert!(object_detection_record(&[]).is_none());
    let r = object_detection_record(&[obj("pipe", 500_000), obj("boiler", 920_000), obj("tool", 460_000)]).unwrap();
    assert_eq!(r.analysis_type, AnalysisType::ObjectDetection);
    assert_eq!(r.model_name, "yolov8");
    assert_eq!(r.confidence_ppm, 920_000);
    match r.payload {
        AnalysisPayload::Objects(v) => assert_eq!(v.len(), 3),
        _ => panic!("expected objects"),
    }
    assert!(ocr_record(" \n\t").is_none());
    let o = ocr_record("NEFIT").unwrap();
    assert_eq!((o.analysis_type, o.confidence_ppm), (AnalysisType::Ocr, 800_000));
    assert!(brand_record(&vec![]).is_none());
    assert_eq!(brand_record(&strings(&["Atag"])).unwrap().confidence_ppm, 750_000);
    assert_eq!(quality_record(420_000).confidence_ppm, 1_000_000);
    let c = classification_record(Classification::Private, 610_000);
    assert_eq!((c.analysis_type, c.model_name.as_str(), c.confidence_ppm), (AnalysisType::Classification, "rule-based", 610_000));
    let e = embedding_record(&strings(&["bad"]), 512);
    assert_eq!((e.model_name.as_str(), e.model_version.as_str(), e.confidence_ppm), ("clip", "vit-base", 850_000));
}

#[test]
fn model_files_from_settings() {
    assert_eq!(model_file_names(&SettingsCache { map: vec![] }), ("yolov8n.onnx".to_string(), "clip-vit-base.onnx".to_string()));
    let c = SettingsCache { map: vec![("ai.model_classification".to_string(), JsonValue::Str("c.onnx".to_string()))] };
    assert_eq!(model_file_names(&c), ("yolov8n.onnx".to_string(), "c.onnx".to_string()));
}
