use realisation_manager::models::{
    AnalysisType, Classification, FolderClassification, JobStatus, JobType, Media, MediaType,
    ProjectStatus, ProjectType, SeoStatus,
};

fn media_with(id: &str, folder: Option<&str>, date: Option<&str>) -> Media {
    Media {
        id: id.to_string(),
        file_path: format!("/photos/{}.jpg", id),
        file_name: format!("{}.jpg", id),
        file_extension: "jpg".to_string(),
        file_size: 1000,
        file_hash: "h".to_string(),
        full_hash: None,
        mime_type: None,
        media_type: MediaType::Image,
        width: None,
        height: None,
        duration_ms: None,
        thumbnail_path: None,
        preview_path: None,
        date_taken: date.map(|d| d.to_string()),
        date_imported: "2024-01-01T00:00:00+00:00".to_string(),
        source_folder: folder.map(|f| f.to_string()),
        is_private: false,
        privacy_locked: false,
        classification: Classification::Unclassified,
        classification_confidence_ppm: 0,
        project_id: None,
        quality_score_ppm: None,
        is_duplicate: false,
        duplicate_of: None,
        is_starred: false,
        notes: None,
        created_at: "2024-01-01T00:00:00+00:00".to_string(),
        updated_at: "2024-01-01T00:00:00+00:00".to_string(),
    }
}

#[test]
fn project_type_db_texts_round_trip() {
    let all = [
        ProjectType::SanitaryBathroom,
        ProjectType::CvBoiler,
        ProjectType::HeatPump,
        ProjectType::Radiator,
        ProjectType::Ventilation,
        ProjectType::Airco,
        ProjectType::WaterSoftener,
        ProjectType::TechnicalRoom,
        ProjectType::Mixed,
        ProjectType::Unknown,
    ];
    for t in all {
        assert_eq!(ProjectType::from_db(t.as_db()), t);
    }
    assert_eq!(ProjectType::CvBoiler.as_db(), "cv_boiler");
    assert_eq!(ProjectType::from_db("no-such-type"), ProjectType::Unknown);
}

#[test]
fn status_and_kind_db_texts_round_trip() {
    for s in [
        ProjectStatus::Detected,
        ProjectStatus::Approved,
        ProjectStatus::Rejected,
        ProjectStatus::Archived,
        ProjectStatus::Deleted,
    ] {
        assert_eq!(ProjectStatus::from_db(s.as_db()), s);
    }
    for c in [
        Classification::Business,
        Classification::Private,
        Classification::Unclassified,
        Classification::Mixed,
    ] {
        assert_eq!(Classification::from_db(c.as_db()), c);
    }
    for m in [MediaType::Image, MediaType::Video, MediaType::Raw, MediaType::Unknown] {
        assert_eq!(MediaType::from_db(m.as_db()), m);
    }
    for s in [SeoStatus::Draft, SeoStatus::Ready, SeoStatus::Published, SeoStatus::Archived] {
        assert_eq!(SeoStatus::from_db(s.as_db()), s);
    }
    for f in [FolderClassification::Business, FolderClassification::Private, FolderClassification::Exclude] {
        assert_eq!(FolderClassification::from_db(f.as_db()), f);
    }
    for a in [
        AnalysisType::ObjectDetection,
        AnalysisType::Scene,
        AnalysisType::Brand,
        AnalysisType::Ocr,
        AnalysisType::Embedding,
        AnalysisType::Quality,
        AnalysisType::Duplicate,
        AnalysisType::Classification,
    ] {
        assert_eq!(AnalysisType::from_db(a.as_db()), a);
    }
    for j in [
        JobType::Scan,
        JobType::Import,
        JobType::AiAnalyze,
        JobType::SeoGenerate,
        JobType::ProjectDetect,
        JobType::Dedup,
    ] {
        assert_eq!(JobType::from_db(j.as_db()), j);
    }
    for s in [
        JobStatus::Pending,
        JobStatus::Running,
        JobStatus::Completed,
        JobStatus::Failed,
        JobStatus::Cancelled,
    ] {
        assert_eq!(JobStatus::from_db(s.as_db()), s);
    }
    assert_eq!(Classification::from_db("nonsense"), Classification::Unclassified);
}

#[test]
fn media_type_from_extension_ignores_case() {
    assert_eq!(MediaType::from_extension("JPG"), MediaType::Image);
    assert_eq!(MediaType::from_extension("heic"), MediaType::Image);
    assert_eq!(MediaType::from_extension("Mp4"), MediaType::Video);
    assert_eq!(MediaType::from_extension("nef"), MediaType::Raw);
    assert_eq!(MediaType::from_extension("txt"), MediaType::Unknown);
    assert_eq!(MediaType::from_extension(""), MediaType::Unknown);
}

#[test]
fn media_helper_builds_dated_media() {
    let m = media_with("a", Some("/werk"), Some("2024-03-05T10:00:00+01:00"));
    assert_eq!(m.date_taken.as_deref(), Some("2024-03-05T10:00:00+01:00"));
}
