//! Domain values: the enumerations stored as text in the database, with their
//! exact text forms, and the records the rest of the library works on.
use vstd::prelude::*;

use crate::text::{all_ascii, ascii_lower, eq_str, is_ascii_char, lowercase_of, to_lowercase};

verus! {

/// Kind of installation project.
#[derive(Clone, Copy, Debug, PartialEq, Eq, Structural)]
pub enum ProjectType {
    SanitaryBathroom,
    CvBoiler,
    HeatPump,
    Radiator,
    Ventilation,
    Airco,
    WaterSoftener,
    TechnicalRoom,
    Mixed,
    Unknown,
}

impl ProjectType {
    /// The text stored in the database for this value.
    pub open spec fn db_text(self) -> Seq<char> {
        match self {
            ProjectType::SanitaryBathroom => "sanitary_bathroom"@,
            ProjectType::CvBoiler => "cv_boiler"@,
            ProjectType::HeatPump => "heat_pump"@,
            ProjectType::Radiator => "radiator"@,
            ProjectType::Ventilation => "ventilation"@,
            ProjectType::Airco => "airco"@,
            ProjectType::WaterSoftener => "water_softener"@,
            ProjectType::TechnicalRoom => "technical_room"@,
            ProjectType::Mixed => "mixed"@,
            ProjectType::Unknown => "unknown"@,
        }
    }

    /// The value a database text denotes; unknown texts give `Unknown`.
    pub open spec fn parse_db(s: Seq<char>) -> ProjectType {
        if s == "sanitary_bathroom"@ {
            ProjectType::SanitaryBathroom
        } else if s == "cv_boiler"@ {
            ProjectType::CvBoiler
        } else if s == "heat_pump"@ {
            ProjectType::HeatPump
        } else if s == "radiator"@ {
            ProjectType::Radiator
        } else if s == "ventilation"@ {
            ProjectType::Ventilation
        } else if s == "airco"@ {
            ProjectType::Airco
        } else if s == "water_softener"@ {
            ProjectType::WaterSoftener
        } else if s == "technical_room"@ {
            ProjectType::TechnicalRoom
        } else if s == "mixed"@ {
            ProjectType::Mixed
        } else {
            ProjectType::Unknown
        }
    }

    pub fn as_db(&self) -> (r: &'static str)
        ensures
            r@ == self.db_text(),
    {
        match self {
            ProjectType::SanitaryBathroom => "sanitary_bathroom",
            ProjectType::CvBoiler => "cv_boiler",
            ProjectType::HeatPump => "heat_pump",
            ProjectType::Radiator => "radiator",
            ProjectType::Ventilation => "ventilation",
            ProjectType::Airco => "airco",
            ProjectType::WaterSoftener => "water_softener",
            ProjectType::TechnicalRoom => "technical_room",
            ProjectType::Mixed => "mixed",
            ProjectType::Unknown => "unknown",
        }
    }

    pub fn from_db(s: &str) -> (r: ProjectType)
        ensures
            r == ProjectType::parse_db(s@),
    {
        if eq_str(s, "sanitary_bathroom") {
            ProjectType::SanitaryBathroom
        } else if eq_str(s, "cv_boiler") {
            ProjectType::CvBoiler
        } else if eq_str(s, "heat_pump") {
            ProjectType::HeatPump
        } else if eq_str(s, "radiator") {
            ProjectType::Radiator
        } else if eq_str(s, "ventilation") {
            ProjectType::Ventilation
        } else if eq_str(s, "airco") {
            ProjectType::Airco
        } else if eq_str(s, "water_softener") {
            ProjectType::WaterSoftener
        } else if eq_str(s, "technical_room") {
            ProjectType::TechnicalRoom
        } else if eq_str(s, "mixed") {
            ProjectType::Mixed
        } else {
            ProjectType::Unknown
        }
    }
}

/// Reading back the stored text of a `ProjectType` gives the same value,
/// and distinct values are stored as distinct texts.
pub proof fn lemma_project_type_db_roundtrip(x: ProjectType, y: ProjectType)
    ensures
        ProjectType::parse_db(x.db_text()) == x,
        x.db_text() == y.db_text() ==> x == y,
{
    reveal_strlit("sanitary_bathroom");
    assert("sanitary_bathroom"@ =~= seq!['s', 'a', 'n', 'i', 't', 'a', 'r', 'y', '_', 'b', 'a', 't', 'h', 'r', 'o', 'o', 'm']);
    reveal_strlit("cv_boiler");
    assert("cv_boiler"@ =~= seq!['c', 'v', '_', 'b', 'o', 'i', 'l', 'e', 'r']);
    reveal_strlit("heat_pump");
    assert("heat_pump"@ =~= seq!['h', 'e', 'a', 't', '_', 'p', 'u', 'm', 'p']);
    reveal_strlit("radiator");
    assert("radiator"@ =~= seq!['r', 'a', 'd', 'i', 'a', 't', 'o', 'r']);
    reveal_strlit("ventilation");
    assert("ventilation"@ =~= seq!['v', 'e', 'n', 't', 'i', 'l', 'a', 't', 'i', 'o', 'n']);
    reveal_strlit("airco");
    assert("airco"@ =~= seq!['a', 'i', 'r', 'c', 'o']);
    reveal_strlit("water_softener");
    assert("water_softener"@ =~= seq!['w', 'a', 't', 'e', 'r', '_', 's', 'o', 'f', 't', 'e', 'n', 'e', 'r']);
    reveal_strlit("technical_room");
    assert("technical_room"@ =~= seq!['t', 'e', 'c', 'h', 'n', 'i', 'c', 'a', 'l', '_', 'r', 'o', 'o', 'm']);
    reveal_strlit("mixed");
    assert("mixed"@ =~= seq!['m', 'i', 'x', 'e', 'd']);
    reveal_strlit("unknown");
    assert("unknown"@ =~= seq!['u', 'n', 'k', 'n', 'o', 'w', 'n']);
}

/// Review status of a project.
#[derive(Clone, Copy, Debug, PartialEq, Eq, Structural)]
pub enum ProjectStatus {
    Detected,
    Approved,
    Rejected,
    Archived,
    Deleted,
}

impl ProjectStatus {
    /// The text stored in the database for this value.
    pub open spec fn db_text(self) -> Seq<char> {
        match self {
            ProjectStatus::Detected => "detected"@,
            ProjectStatus::Approved => "approved"@,
            ProjectStatus::Rejected => "rejected"@,
            ProjectStatus::Archived => "archived"@,
            ProjectStatus::Deleted => "deleted"@,
        }
    }

    /// The value a database text denotes; unknown texts give `Detected`.
    pub open spec fn parse_db(s: Seq<char>) -> ProjectStatus {
        if s == "approved"@ {
            ProjectStatus::Approved
        } else if s == "rejected"@ {
            ProjectStatus::Rejected
        } else if s == "archived"@ {
            ProjectStatus::Archived
        } else if s == "deleted"@ {
            ProjectStatus::Deleted
        } else {
            ProjectStatus::Detected
        }
    }

    pub fn as_db(&self) -> (r: &'static str)
        ensures
            r@ == self.db_text(),
    {
        match self {
            ProjectStatus::Detected => "detected",
            ProjectStatus::Approved => "approved",
            ProjectStatus::Rejected => "rejected",
            ProjectStatus::Archived => "archived",
            ProjectStatus::Deleted => "deleted",
        }
    }

    pub fn from_db(s: &str) -> (r: ProjectStatus)
        ensures
            r == ProjectStatus::parse_db(s@),
    {
        if eq_str(s, "approved") {
            ProjectStatus::Approved
        } else if eq_str(s, "rejected") {
            ProjectStatus::Rejected
        } else if eq_str(s, "archived") {
            ProjectStatus::Archived
        } else if eq_str(s, "deleted") {
            ProjectStatus::Deleted
        } else {
            ProjectStatus::Detected
        }
    }
}

/// Reading back the stored text of a `ProjectStatus` gives the same value,
/// and distinct values are stored as distinct texts.
pub proof fn lemma_project_status_db_roundtrip(x: ProjectStatus, y: ProjectStatus)
    ensures
        ProjectStatus::parse_db(x.db_text()) == x,
        x.db_text() == y.db_text() ==> x == y,
{
    reveal_strlit("detected");
    assert("detected"@ =~= seq!['d', 'e', 't', 'e', 'c', 't', 'e', 'd']);
    reveal_strlit("approved");
    assert("approved"@ =~= seq!['a', 'p', 'p', 'r', 'o', 'v', 'e', 'd']);
    reveal_strlit("rejected");
    assert("rejected"@ =~= seq!['r', 'e', 'j', 'e', 'c', 't', 'e', 'd']);
    reveal_strlit("archived");
    assert("archived"@ =~= seq!['a', 'r', 'c', 'h', 'i', 'v', 'e', 'd']);
    reveal_strlit("deleted");
    assert("deleted"@ =~= seq!['d', 'e', 'l', 'e', 't', 'e', 'd']);
}

/// Kind of media file.
#[derive(Clone, Copy, Debug, PartialEq, Eq, Structural)]
pub enum MediaType {
    Image,
    Video,
    Raw,
    Unknown,
}

impl MediaType {
    /// The text stored in the database for this value.
    pub open spec fn db_text(self) -> Seq<char> {
        match self {
            MediaType::Image => "image"@,
            MediaType::Video => "video"@,
            MediaType::Raw => "raw"@,
            MediaType::Unknown => "unknown"@,
        }
    }

    /// The value a database text denotes; unknown texts give `Unknown`.
    pub open spec fn parse_db(s: Seq<char>) -> MediaType {
        if s == "image"@ {
            MediaType::Image
        } else if s == "video"@ {
            MediaType::Video
        } else if s == "raw"@ {
            MediaType::Raw
        } else {
            MediaType::Unknown
        }
    }

    pub fn as_db(&self) -> (r: &'static str)
        ensures
            r@ == self.db_text(),
    {
        match self {
            MediaType::Image => "image",
            MediaType::Video => "video",
            MediaType::Raw => "raw",
            MediaType::Unknown => "unknown",
        }
    }

    pub fn from_db(s: &str) -> (r: MediaType)
        ensures
            r == MediaType::parse_db(s@),
    {
        if eq_str(s, "image") {
            MediaType::Image
        } else if eq_str(s, "video") {
            MediaType::Video
        } else if eq_str(s, "raw") {
            MediaType::Raw
        } else {
            MediaType::Unknown
        }
    }
}

/// Reading back the stored text of a `MediaType` gives the same value,
/// and distinct values are stored as distinct texts.
pub proof fn lemma_media_type_db_roundtrip(x: MediaType, y: MediaType)
    ensures
        MediaType::parse_db(x.db_text()) == x,
        x.db_text() == y.db_text() ==> x == y,
{
    reveal_strlit("image");
    assert("image"@ =~= seq!['i', 'm', 'a', 'g', 'e']);
    reveal_strlit("video");
    assert("video"@ =~= seq!['v', 'i', 'd', 'e', 'o']);
    reveal_strlit("raw");
    assert("raw"@ =~= seq!['r', 'a', 'w']);
    reveal_strlit("unknown");
    assert("unknown"@ =~= seq!['u', 'n', 'k', 'n', 'o', 'w', 'n']);
}

/// Business / private verdict of a media file.
#[derive(Clone, Copy, Debug, PartialEq, Eq, Structural)]
pub enum Classification {
    Business,
    Private,
    Unclassified,
    Mixed,
}

impl Classification {
    /// The text stored in the database for this value.
    pub open spec fn db_text(self) -> Seq<char> {
        match self {
            Classification::Business => "business"@,
            Classification::Private => "private"@,
            Classification::Unclassified => "unclassified"@,
            Classification::Mixed => "mixed"@,
        }
    }

    /// The value a database text denotes; unknown texts give `Unclassified`.
    pub open spec fn parse_db(s: Seq<char>) -> Classification {
        if s == "business"@ {
            Classification::Business
        } else if s == "private"@ {
            Classification::Private
        } else if s == "mixed"@ {
            Classification::Mixed
        } else {
            Classification::Unclassified
        }
    }

    pub fn as_db(&self) -> (r: &'static str)
        ensures
            r@ == self.db_text(),
    {
        match self {
            Classification::Business => "business",
            Classification::Private => "private",
            Classification::Unclassified => "unclassified",
            Classification::Mixed => "mixed",
        }
    }

    pub fn from_db(s: &str) -> (r: Classification)
        ensures
            r == Classification::parse_db(s@),
    {
        if eq_str(s, "business") {
            Classification::Business
        } else if eq_str(s, "private") {
            Classification::Private
        } else if eq_str(s, "mixed") {
            Classification::Mixed
        } else {
            Classification::Unclassified
        }
    }
}

/// Reading back the stored text of a `Classification` gives the same value,
/// and distinct values are stored as distinct texts.
pub proof fn lemma_classification_db_roundtrip(x: Classification, y: Classification)
    ensures
        Classification::parse_db(x.db_text()) == x,
        x.db_text() == y.db_text() ==> x == y,
{
    reveal_strlit("business");
    assert("business"@ =~= seq!['b', 'u', 's', 'i', 'n', 'e', 's', 's']);
    reveal_strlit("private");
    assert("private"@ =~= seq!['p', 'r', 'i', 'v', 'a', 't', 'e']);
    reveal_strlit("unclassified");
    assert("unclassified"@ =~= seq!['u', 'n', 'c', 'l', 'a', 's', 's', 'i', 'f', 'i', 'e', 'd']);
    reveal_strlit("mixed");
    assert("mixed"@ =~= seq!['m', 'i', 'x', 'e', 'd']);
}

/// Kind of stored AI analysis.
#[derive(Clone, Copy, Debug, PartialEq, Eq, Structural)]
pub enum AnalysisType {
    ObjectDetection,
    Scene,
    Brand,
    Ocr,
    Embedding,
    Quality,
    Duplicate,
    Classification,
}

impl AnalysisType {
    /// The text stored in the database for this value.
    pub open spec fn db_text(self) -> Seq<char> {
        match self {
            AnalysisType::ObjectDetection => "object_detection"@,
            AnalysisType::Scene => "scene"@,
            AnalysisType::Brand => "brand"@,
            AnalysisType::Ocr => "ocr"@,
            AnalysisType::Embedding => "embedding"@,
            AnalysisType::Quality => "quality"@,
            AnalysisType::Duplicate => "duplicate"@,
            AnalysisType::Classification => "classification"@,
        }
    }

    /// The value a database text denotes; unknown texts give `ObjectDetection`.
    pub open spec fn parse_db(s: Seq<char>) -> AnalysisType {
        if s == "scene"@ {
            AnalysisType::Scene
        } else if s == "brand"@ {
            AnalysisType::Brand
        } else if s == "ocr"@ {
            AnalysisType::Ocr
        } else if s == "embedding"@ {
            AnalysisType::Embedding
        } else if s == "quality"@ {
            AnalysisType::Quality
        } else if s == "duplicate"@ {
            AnalysisType::Duplicate
        } else if s == "classification"@ {
            AnalysisType::Classification
        } else {
            AnalysisType::ObjectDetection
        }
    }

    pub fn as_db(&self) -> (r: &'static str)
        ensures
            r@ == self.db_text(),
    {
        match self {
            AnalysisType::ObjectDetection => "object_detection",
            AnalysisType::Scene => "scene",
            AnalysisType::Brand => "brand",
            AnalysisType::Ocr => "ocr",
            AnalysisType::Embedding => "embedding",
            AnalysisType::Quality => "quality",
            AnalysisType::Duplicate => "duplicate",
            AnalysisType::Classification => "classification",
        }
    }

    pub fn from_db(s: &str) -> (r: AnalysisType)
        ensures
            r == AnalysisType::parse_db(s@),
    {
        if eq_str(s, "scene") {
            AnalysisType::Scene
        } else if eq_str(s, "brand") {
            AnalysisType::Brand
        } else if eq_str(s, "ocr") {
            AnalysisType::Ocr
        } else if eq_str(s, "embedding") {
            AnalysisType::Embedding
        } else if eq_str(s, "quality") {
            AnalysisType::Quality
        } else if eq_str(s, "duplicate") {
            AnalysisType::Duplicate
        } else if eq_str(s, "classification") {
            AnalysisType::Classification
        } else {
            AnalysisType::ObjectDetection
        }
    }
}

/// Reading back the stored text of a `AnalysisType` gives the same value,
/// and distinct values are stored as distinct texts.
pub proof fn lemma_analysis_type_db_roundtrip(x: AnalysisType, y: AnalysisType)
    ensures
        AnalysisType::parse_db(x.db_text()) == x,
        x.db_text() == y.db_text() ==> x == y,
{
    reveal_strlit("object_detection");
    assert("object_detection"@ =~= seq!['o', 'b', 'j', 'e', 'c', 't', '_', 'd', 'e', 't', 'e', 'c', 't', 'i', 'o', 'n']);
    reveal_strlit("scene");
    assert("scene"@ =~= seq!['s', 'c', 'e', 'n', 'e']);
    reveal_strlit("brand");
    assert("brand"@ =~= seq!['b', 'r', 'a', 'n', 'd']);
    reveal_strlit("ocr");
    assert("ocr"@ =~= seq!['o', 'c', 'r']);
    reveal_strlit("embedding");
    assert("embedding"@ =~= seq!['e', 'm', 'b', 'e', 'd', 'd', 'i', 'n', 'g']);
    reveal_strlit("quality");
    assert("quality"@ =~= seq!['q', 'u', 'a', 'l', 'i', 't', 'y']);
    reveal_strlit("duplicate");
    assert("duplicate"@ =~= seq!['d', 'u', 'p', 'l', 'i', 'c', 'a', 't', 'e']);
    reveal_strlit("classification");
    assert("classification"@ =~= seq!['c', 'l', 'a', 's', 's', 'i', 'f', 'i', 'c', 'a', 't', 'i', 'o', 'n']);
}

/// Publication status of SEO content.
#[derive(Clone, Copy, Debug, PartialEq, Eq, Structural)]
pub enum SeoStatus {
    Draft,
    Ready,
    Published,
    Archived,
}

impl SeoStatus {
    /// The text stored in the database for this value.
    pub open spec fn db_text(self) -> Seq<char> {
        match self {
            SeoStatus::Draft => "draft"@,
            SeoStatus::Ready => "ready"@,
            SeoStatus::Published => "published"@,
            SeoStatus::Archived => "archived"@,
        }
    }

    /// The value a database text denotes; unknown texts give `Draft`.
    pub open spec fn parse_db(s: Seq<char>) -> SeoStatus {
        if s == "ready"@ {
            SeoStatus::Ready
        } else if s == "published"@ {
            SeoStatus::Published
        } else if s == "archived"@ {
            SeoStatus::Archived
        } else {
            SeoStatus::Draft
        }
    }

    pub fn as_db(&self) -> (r: &'static str)
        ensures
            r@ == self.db_text(),
    {
        match self {
            SeoStatus::Draft => "draft",
            SeoStatus::Ready => "ready",
            SeoStatus::Published => "published",
            SeoStatus::Archived => "archived",
        }
    }

    pub fn from_db(s: &str) -> (r: SeoStatus)
        ensures
            r == SeoStatus::parse_db(s@),
    {
        if eq_str(s, "ready") {
            SeoStatus::Ready
        } else if eq_str(s, "published") {
            SeoStatus::Published
        } else if eq_str(s, "archived") {
            SeoStatus::Archived
        } else {
            SeoStatus::Draft
        }
    }
}

/// Reading back the stored text of a `SeoStatus` gives the same value,
/// and distinct values are stored as distinct texts.
pub proof fn lemma_seo_status_db_roundtrip(x: SeoStatus, y: SeoStatus)
    ensures
        SeoStatus::parse_db(x.db_text()) == x,
        x.db_text() == y.db_text() ==> x == y,
{
    reveal_strlit("draft");
    assert("draft"@ =~= seq!['d', 'r', 'a', 'f', 't']);
    reveal_strlit("ready");
    assert("ready"@ =~= seq!['r', 'e', 'a', 'd', 'y']);
    reveal_strlit("published");
    assert("published"@ =~= seq!['p', 'u', 'b', 'l', 'i', 's', 'h', 'e', 'd']);
    reveal_strlit("archived");
    assert("archived"@ =~= seq!['a', 'r', 'c', 'h', 'i', 'v', 'e', 'd']);
}

/// Verdict a folder rule imposes.
#[derive(Clone, Copy, Debug, PartialEq, Eq, Structural)]
pub enum FolderClassification {
    Business,
    Private,
    Exclude,
}

impl FolderClassification {
    /// The text stored in the database for this value.
    pub open spec fn db_text(self) -> Seq<char> {
        match self {
            FolderClassification::Business => "business"@,
            FolderClassification::Private => "private"@,
            FolderClassification::Exclude => "exclude"@,
        }
    }

    /// The value a database text denotes; unknown texts give `Exclude`.
    pub open spec fn parse_db(s: Seq<char>) -> FolderClassification {
        if s == "business"@ {
            FolderClassification::Business
        } else if s == "private"@ {
            FolderClassification::Private
        } else {
            FolderClassification::Exclude
        }
    }

    pub fn as_db(&self) -> (r: &'static str)
        ensures
            r@ == self.db_text(),
    {
        match self {
            FolderClassification::Business => "business",
            FolderClassification::Private => "private",
            FolderClassification::Exclude => "exclude",
        }
    }

    pub fn from_db(s: &str) -> (r: FolderClassification)
        ensures
            r == FolderClassification::parse_db(s@),
    {
        if eq_str(s, "business") {
            FolderClassification::Business
        } else if eq_str(s, "private") {
            FolderClassification::Private
        } else {
            FolderClassification::Exclude
        }
    }
}

/// Reading back the stored text of a `FolderClassification` gives the same value,
/// and distinct values are stored as distinct texts.
pub proof fn lemma_folder_classification_db_roundtrip(x: FolderClassification, y: FolderClassification)
    ensures
        FolderClassification::parse_db(x.db_text()) == x,
        x.db_text() == y.db_text() ==> x == y,
{
    reveal_strlit("business");
    assert("business"@ =~= seq!['b', 'u', 's', 'i', 'n', 'e', 's', 's']);
    reveal_strlit("private");
    assert("private"@ =~= seq!['p', 'r', 'i', 'v', 'a', 't', 'e']);
    reveal_strlit("exclude");
    assert("exclude"@ =~= seq!['e', 'x', 'c', 'l', 'u', 'd', 'e']);
}

/// Kind of background job.
#[derive(Clone, Copy, Debug, PartialEq, Eq, Structural)]
pub enum JobType {
    Scan,
    Import,
    AiAnalyze,
    SeoGenerate,
    ProjectDetect,
    Dedup,
}

impl JobType {
    /// The text stored in the database for this value.
    pub open spec fn db_text(self) -> Seq<char> {
        match self {
            JobType::Scan => "scan"@,
            JobType::Import => "import"@,
            JobType::AiAnalyze => "ai_analyze"@,
            JobType::SeoGenerate => "seo_generate"@,
            JobType::ProjectDetect => "project_detect"@,
            JobType::Dedup => "dedup"@,
        }
    }

    /// The value a database text denotes; unknown texts give `Scan`.
    pub open spec fn parse_db(s: Seq<char>) -> JobType {
        if s == "import"@ {
            JobType::Import
        } else if s == "ai_analyze"@ {
            JobType::AiAnalyze
        } else if s == "seo_generate"@ {
            JobType::SeoGenerate
        } else if s == "project_detect"@ {
            JobType::ProjectDetect
        } else if s == "dedup"@ {
            JobType::Dedup
        } else {
            JobType::Scan
        }
    }

    pub fn as_db(&self) -> (r: &'static str)
        ensures
            r@ == self.db_text(),
    {
        match self {
            JobType::Scan => "scan",
            JobType::Import => "import",
            JobType::AiAnalyze => "ai_analyze",
            JobType::SeoGenerate => "seo_generate",
            JobType::ProjectDetect => "project_detect",
            JobType::Dedup => "dedup",
        }
    }

    pub fn from_db(s: &str) -> (r: JobType)
        ensures
            r == JobType::parse_db(s@),
    {
        if eq_str(s, "import") {
            JobType::Import
        } else if eq_str(s, "ai_analyze") {
            JobType::AiAnalyze
        } else if eq_str(s, "seo_generate") {
            JobType::SeoGenerate
        } else if eq_str(s, "project_detect") {
            JobType::ProjectDetect
        } else if eq_str(s, "dedup") {
            JobType::Dedup
        } else {
            JobType::Scan
        }
    }
}

/// Reading back the stored text of a `JobType` gives the same value,
/// and distinct values are stored as distinct texts.
pub proof fn lemma_job_type_db_roundtrip(x: JobType, y: JobType)
    ensures
        JobType::parse_db(x.db_text()) == x,
        x.db_text() == y.db_text() ==> x == y,
{
    reveal_strlit("scan");
    assert("scan"@ =~= seq!['s', 'c', 'a', 'n']);
    reveal_strlit("import");
    assert("import"@ =~= seq!['i', 'm', 'p', 'o', 'r', 't']);
    reveal_strlit("ai_analyze");
    assert("ai_analyze"@ =~= seq!['a', 'i', '_', 'a', 'n', 'a', 'l', 'y', 'z', 'e']);
    reveal_strlit("seo_generate");
    assert("seo_generate"@ =~= seq!['s', 'e', 'o', '_', 'g', 'e', 'n', 'e', 'r', 'a', 't', 'e']);
    reveal_strlit("project_detect");
    assert("project_detect"@ =~= seq!['p', 'r', 'o', 'j', 'e', 'c', 't', '_', 'd', 'e', 't', 'e', 'c', 't']);
    reveal_strlit("dedup");
    assert("dedup"@ =~= seq!['d', 'e', 'd', 'u', 'p']);
}

/// State of a background job.
#[derive(Clone, Copy, Debug, PartialEq, Eq, Structural)]
pub enum JobStatus {
    Pending,
    Running,
    Completed,
    Failed,
    Cancelled,
}

impl JobStatus {
    /// The text stored in the database for this value.
    pub open spec fn db_text(self) -> Seq<char> {
        match self {
            JobStatus::Pending => "pending"@,
            JobStatus::Running => "running"@,
            JobStatus::Completed => "completed"@,
            JobStatus::Failed => "failed"@,
            JobStatus::Cancelled => "cancelled"@,
        }
    }

    /// The value a database text denotes; unknown texts give `Pending`.
    pub open spec fn parse_db(s: Seq<char>) -> JobStatus {
        if s == "running"@ {
            JobStatus::Running
        } else if s == "completed"@ {
            JobStatus::Completed
        } else if s == "failed"@ {
            JobStatus::Failed
        } else if s == "cancelled"@ {
            JobStatus::Cancelled
        } else {
            JobStatus::Pending
        }
    }

    pub fn as_db(&self) -> (r: &'static str)
        ensures
            r@ == self.db_text(),
    {
        match self {
            JobStatus::Pending => "pending",
            JobStatus::Running => "running",
            JobStatus::Completed => "completed",
            JobStatus::Failed => "failed",
            JobStatus::Cancelled => "cancelled",
        }
    }

    pub fn from_db(s: &str) -> (r: JobStatus)
        ensures
            r == JobStatus::parse_db(s@),
    {
        if eq_str(s, "running") {
            JobStatus::Running
        } else if eq_str(s, "completed") {
            JobStatus::Completed
        } else if eq_str(s, "failed") {
            JobStatus::Failed
        } else if eq_str(s, "cancelled") {
            JobStatus::Cancelled
        } else {
            JobStatus::Pending
        }
    }
}

/// Reading back the stored text of a `JobStatus` gives the same value,
/// and distinct values are stored as distinct texts.
pub proof fn lemma_job_status_db_roundtrip(x: JobStatus, y: JobStatus)
    ensures
        JobStatus::parse_db(x.db_text()) == x,
        x.db_text() == y.db_text() ==> x == y,
{
    reveal_strlit("pending");
    assert("pending"@ =~= seq!['p', 'e', 'n', 'd', 'i', 'n', 'g']);
    reveal_strlit("running");
    assert("running"@ =~= seq!['r', 'u', 'n', 'n', 'i', 'n', 'g']);
    reveal_strlit("completed");
    assert("completed"@ =~= seq!['c', 'o', 'm', 'p', 'l', 'e', 't', 'e', 'd']);
    reveal_strlit("failed");
    assert("failed"@ =~= seq!['f', 'a', 'i', 'l', 'e', 'd']);
    reveal_strlit("cancelled");
    assert("cancelled"@ =~= seq!['c', 'a', 'n', 'c', 'e', 'l', 'l', 'e', 'd']);
}
/// The media kind of a (lowercased) file extension.
pub open spec fn extension_media_type(e: Seq<char>) -> MediaType {
    if e == "jpg"@ || e == "jpeg"@ || e == "png"@ || e == "webp"@ || e == "bmp"@ || e == "gif"@
        || e == "tiff"@ || e == "tif"@ || e == "heic"@ || e == "heif"@ {
        MediaType::Image
    } else if e == "mov"@ || e == "mp4"@ || e == "m4v"@ || e == "avi"@ || e == "mkv"@ || e
        == "webm"@ {
        MediaType::Video
    } else if e == "nef"@ || e == "cr2"@ || e == "arw"@ || e == "dng"@ || e == "raf"@ || e
        == "orf"@ || e == "rw2"@ {
        MediaType::Raw
    } else {
        MediaType::Unknown
    }
}

/// The case of an ASCII extension is ignored: lowercasing it first leaves
/// its media kind unchanged, and two extensions that differ only in case
/// have the same kind.
pub proof fn lemma_extension_case_ignored(a: Seq<char>, b: Seq<char>)
    requires
        all_ascii(a),
        all_ascii(b),
    ensures
        all_ascii(ascii_lower(a)),
        extension_media_type(ascii_lower(ascii_lower(a))) == extension_media_type(ascii_lower(a)),
        ascii_lower(a) == ascii_lower(b) ==> extension_media_type(ascii_lower(a))
            == extension_media_type(ascii_lower(b)),
{
    assert forall|i: int| 0 <= i < ascii_lower(a).len() implies is_ascii_char(
        #[trigger] ascii_lower(a)[i],
    ) by {
        assert(is_ascii_char(a[i]));
    }
    assert(ascii_lower(ascii_lower(a)) =~= ascii_lower(a));
}

/// Every format the importer handles has its media kind, in any ASCII
/// case: the image formats (jpg, jpeg, png, webp, bmp, gif, tiff, tif,
/// heic, heif) are images, the video formats (mov, mp4, m4v, avi, mkv,
/// webm) videos, and the raw formats (nef, cr2, arw, dng, raf, orf, rw2)
/// raw photos.
pub proof fn lemma_known_extensions(ext: Seq<char>)
    requires
        all_ascii(ext),
    ensures
        ({
            let e = ascii_lower(ext);
            e == "jpg"@ || e == "jpeg"@ || e == "png"@ || e == "webp"@ || e == "bmp"@ || e == "gif"@
                || e == "tiff"@ || e == "tif"@ || e == "heic"@ || e == "heif"@
        }) ==> extension_media_type(ascii_lower(ext)) == MediaType::Image,
        ({
            let e = ascii_lower(ext);
            e == "mov"@ || e == "mp4"@ || e == "m4v"@ || e == "avi"@ || e == "mkv"@ || e == "webm"@
        }) ==> extension_media_type(ascii_lower(ext)) == MediaType::Video,
        ({
            let e = ascii_lower(ext);
            e == "nef"@ || e == "cr2"@ || e == "arw"@ || e == "dng"@ || e == "raf"@ || e == "orf"@
                || e == "rw2"@
        }) ==> extension_media_type(ascii_lower(ext)) == MediaType::Raw,
{
    reveal_strlit("jpg");
    reveal_strlit("jpeg");
    reveal_strlit("png");
    reveal_strlit("webp");
    reveal_strlit("bmp");
    reveal_strlit("gif");
    reveal_strlit("tiff");
    reveal_strlit("tif");
    reveal_strlit("heic");
    reveal_strlit("heif");
    reveal_strlit("mov");
    reveal_strlit("mp4");
    reveal_strlit("m4v");
    reveal_strlit("avi");
    reveal_strlit("mkv");
    reveal_strlit("webm");
    reveal_strlit("nef");
    reveal_strlit("cr2");
    reveal_strlit("arw");
    reveal_strlit("dng");
    reveal_strlit("raf");
    reveal_strlit("orf");
    reveal_strlit("rw2");
    let e = ascii_lower(ext);
    if e == "mov"@ {
        assert(e[0] == 'm' && e[2] == 'v');
        assert(extension_media_type(e) == MediaType::Video);
    } else if e == "mp4"@ {
        assert(e[0] == 'm' && e[2] == '4');
        assert(extension_media_type(e) == MediaType::Video);
    } else if e == "m4v"@ {
        assert(e[0] == 'm' && e[2] == 'v');
        assert(extension_media_type(e) == MediaType::Video);
    } else if e == "avi"@ {
        assert(e[0] == 'a' && e[2] == 'i');
        assert(extension_media_type(e) == MediaType::Video);
    } else if e == "mkv"@ {
        assert(e[0] == 'm' && e[2] == 'v');
        assert(extension_media_type(e) == MediaType::Video);
    } else if e == "webm"@ {
        assert(e[0] == 'w' && e[3] == 'm');
        assert(extension_media_type(e) == MediaType::Video);
    } else if e == "nef"@ {
        assert(e[0] == 'n' && e[2] == 'f');
        assert(extension_media_type(e) == MediaType::Raw);
    } else if e == "cr2"@ {
        assert(e[0] == 'c' && e[2] == '2');
        assert(extension_media_type(e) == MediaType::Raw);
    } else if e == "arw"@ {
        assert(e[0] == 'a' && e[2] == 'w');
        assert(extension_media_type(e) == MediaType::Raw);
    } else if e == "dng"@ {
        assert(e[0] == 'd' && e[2] == 'g');
        assert(extension_media_type(e) == MediaType::Raw);
    } else if e == "raf"@ {
        assert(e[0] == 'r' && e[2] == 'f');
        assert(extension_media_type(e) == MediaType::Raw);
    } else if e == "orf"@ {
        assert(e[0] == 'o' && e[2] == 'f');
        assert(extension_media_type(e) == MediaType::Raw);
    } else if e == "rw2"@ {
        assert(e[0] == 'r' && e[2] == '2');
        assert(extension_media_type(e) == MediaType::Raw);
    }
}

/// Only the listed formats have a media kind: an extension recognised as
/// an image, video or raw photo is one of the formats of that kind, and
/// any other extension is unknown.
pub proof fn lemma_only_listed_extensions(e: Seq<char>)
    ensures
        extension_media_type(e) == MediaType::Image ==> e == "jpg"@ || e == "jpeg"@ || e == "png"@
            || e == "webp"@ || e == "bmp"@ || e == "gif"@ || e == "tiff"@ || e == "tif"@ || e
            == "heic"@ || e == "heif"@,
        extension_media_type(e) == MediaType::Video ==> e == "mov"@ || e == "mp4"@ || e == "m4v"@
            || e == "avi"@ || e == "mkv"@ || e == "webm"@,
        extension_media_type(e) == MediaType::Raw ==> e == "nef"@ || e == "cr2"@ || e == "arw"@
            || e == "dng"@ || e == "raf"@ || e == "orf"@ || e == "rw2"@,
{
}

/// Is `s` one of the options?
pub fn is_one_of(s: &str, options: &[&str]) -> (r: bool)
    ensures
        r == exists|i: int| 0 <= i < options@.len() && s@ == (#[trigger] options@[i])@,
{
    let mut i: usize = 0;
    while i < options.len()
        invariant
            i <= options.len(),
            forall|j: int| 0 <= j < i ==> s@ != (#[trigger] options@[j])@,
        decreases options.len() - i,
    {
        if eq_str(s, options[i]) {
            return true;
        }
        i += 1;
    }
    false
}

impl MediaType {
    /// The media kind of a file extension, compared case-insensitively.
    pub fn from_extension(ext: &str) -> (r: MediaType)
        ensures
            r == extension_media_type(lowercase_of(ext@)),
            all_ascii(ext@) ==> r == extension_media_type(ascii_lower(ext@)),
            all_ascii(ext@) && ({
                let e = ascii_lower(ext@);
                e == "jpg"@ || e == "jpeg"@ || e == "png"@ || e == "webp"@ || e == "bmp"@ || e
                    == "gif"@ || e == "tiff"@ || e == "tif"@ || e == "heic"@ || e == "heif"@
            }) ==> r == MediaType::Image,
    {
        proof {
            if all_ascii(ext@) {
                lemma_known_extensions(ext@);
            }
        }
        let lower = to_lowercase(ext);
        let e = lower.as_str();
        if is_one_of(e, &["jpg", "jpeg", "png", "webp", "bmp", "gif", "tiff", "tif", "heic", "heif"]) {
            MediaType::Image
        } else if is_one_of(e, &["mov", "mp4", "m4v", "avi", "mkv", "webm"]) {
            MediaType::Video
        } else if is_one_of(e, &["nef", "cr2", "arw", "dng", "raf", "orf", "rw2"]) {
            MediaType::Raw
        } else {
            MediaType::Unknown
        }
    }
}


// ---------------------------------------------------------------------------
// Records
// ---------------------------------------------------------------------------
//
// Fractional quantities are held as integers: scores and confidences in
// millionths (`_ppm`, 1_000_000 = 1.0) and coordinates in microdegrees
// (`_micro`).

/// An installation project.
#[derive(Clone, Debug)]
pub struct Project {
    pub id: String,
    pub name: String,
    pub slug: String,
    pub description: Option<String>,
    pub project_type: ProjectType,
    pub status: ProjectStatus,
    pub location_label: Option<String>,
    pub latitude_micro: Option<i64>,
    pub longitude_micro: Option<i64>,
    pub start_date: Option<String>,
    pub end_date: Option<String>,
    pub customer_name: Option<String>,
    pub customer_email: Option<String>,
    pub customer_phone: Option<String>,
    pub tags: Vec<String>,
    pub cover_media_id: Option<String>,
    pub confidence_ppm: u32,
    pub is_private: bool,
    pub created_at: String,
    pub updated_at: String,
}

/// An imported photo or video.
#[derive(Clone, Debug)]
pub struct Media {
    pub id: String,
    pub file_path: String,
    pub file_name: String,
    pub file_extension: String,
    pub file_size: i64,
    pub file_hash: String,
    pub full_hash: Option<String>,
    pub mime_type: Option<String>,
    pub media_type: MediaType,
    pub width: Option<i64>,
    pub height: Option<i64>,
    pub duration_ms: Option<i64>,
    pub thumbnail_path: Option<String>,
    pub preview_path: Option<String>,
    pub date_taken: Option<String>,
    pub date_imported: String,
    pub source_folder: Option<String>,
    pub is_private: bool,
    pub privacy_locked: bool,
    pub classification: Classification,
    pub classification_confidence_ppm: u32,
    pub project_id: Option<String>,
    pub quality_score_ppm: Option<u32>,
    pub is_duplicate: bool,
    pub duplicate_of: Option<String>,
    pub is_starred: bool,
    pub notes: Option<String>,
    pub created_at: String,
    pub updated_at: String,
}

/// Generated SEO content of a project. `alt_texts` pairs a media id with its
/// alt text, in media order.
#[derive(Clone, Debug)]
pub struct Seo {
    pub id: String,
    pub project_id: String,
    pub title: String,
    pub slug: String,
    pub meta_description: String,
    pub keywords: Vec<String>,
    pub canonical_url: Option<String>,
    pub og_title: Option<String>,
    pub og_description: Option<String>,
    pub og_image_media_id: Option<String>,
    pub body_html: Option<String>,
    pub body_markdown: Option<String>,
    pub alt_texts: Vec<(String, String)>,
    pub schema_org_json: Option<String>,
    pub language: String,
    pub reading_time_min: Option<i64>,
    pub word_count: Option<i64>,
    pub status: SeoStatus,
    pub generated_by: String,
    pub prompt_template: Option<String>,
    pub created_at: String,
    pub updated_at: String,
}

/// A user-defined rule that classifies everything below a folder.
#[derive(Clone, Debug)]
pub struct FolderRule {
    pub id: String,
    pub folder_path: String,
    pub classification: FolderClassification,
    pub recursive: bool,
    pub priority: i64,
    pub notes: Option<String>,
    pub created_at: String,
    pub updated_at: String,
}

} // verus!
