//! Results of the AI analysis of a media file, the rule-based brand
//! recognition that runs on them, what an analysis decides to store, and
//! reading stored results back.
use vstd::prelude::*;

use crate::classifier::{
    classify, classify_spec, classify_with_rules, paths_plain, plain_depths, rules_verdict_spec,
};
use crate::models::{AnalysisType, Classification, FolderRule, Media};
use crate::settings::{JsonValue, SettingsCache};
use crate::sorting::{sort_dedup_set, sorted_set};
use crate::text::{
    chars_of, clone_strings, contains, contains_seq, join_seq, join_strings, lowercase_of, push_str,
    string_views, to_lowercase, trim_seq, trim_vec,
};
use crate::trusted::{
    json_element_strings, json_element_strings_of, json_field_strings, json_field_strings_of,
    json_string_list, parse_string_list,
};

verus! {

/// State of the local AI models.
pub struct AiStatus {
    pub object_detection_loaded: bool,
    pub clip_loaded: bool,
    pub ocr_available: bool,
    pub device: String,
    pub model_dir: String,
    pub errors: Vec<String>,
}

/// An object found in an image; confidence in millionths, box corners and
/// sizes in millionths of the image.
#[derive(Clone, Debug)]
pub struct DetectedObject {
    pub label: String,
    pub confidence_ppm: u32,
    pub bbox_ppm: [i64; 4],
}

/// Everything the pipeline learned about one media file.
pub struct AnalysisResult {
    pub media_id: String,
    pub objects: Vec<DetectedObject>,
    pub scene_tags: Vec<String>,
    pub brands: Vec<String>,
    pub ocr_text: Option<String>,
    pub quality_score_ppm: u32,
    pub classification: Classification,
    pub classification_confidence_ppm: u32,
    pub processing_time_ms: u64,
}

/// The labels the object detector reports, in class order.
pub open spec fn yolo_label_list() -> Seq<Seq<char>> {
    seq![
        "boiler"@, "heat_pump"@, "radiator"@,
        "toilet"@, "sink"@, "shower"@, "bathtub"@,
        "bathroom"@, "kitchen"@, "pipe"@, "valve"@,
        "ventilation"@, "airco"@, "water_softener"@,
        "technical_room"@, "nameplate"@, "tool"@,
        "person"@, "vehicle"@, "pet"@,
        "food"@, "nature"@, "document"@,
        "building"@, "interior"@,
    ]
}

fn owned(s: &str) -> (r: String)
    ensures
        r@ == s@,
{
    let mut r = String::new();
    push_str(&mut r, s);
    r
}

/// Default object-detection labels (sanitary / HVAC specific).
pub fn yolo_labels() -> (r: Vec<String>)
    ensures
        string_views(r@) == yolo_label_list(),
{
    let names = [
        "boiler", "heat_pump", "radiator",
        "toilet", "sink", "shower", "bathtub",
        "bathroom", "kitchen", "pipe", "valve",
        "ventilation", "airco", "water_softener",
        "technical_room", "nameplate", "tool",
        "person", "vehicle", "pet",
        "food", "nature", "document",
        "building", "interior",
    ];
    let mut r: Vec<String> = Vec::new();
    let mut i: usize = 0;
    while i < names.len()
        invariant
            i <= names@.len(),
            names@.len() == 25,
            forall|k: int| 0 <= k < i ==> (#[trigger] r@[k])@ == names@[k]@,
            r@.len() == i,
        decreases names.len() - i,
    {
        r.push(owned(names[i]));
        i += 1;
    }
    assert(string_views(r@) =~= yolo_label_list());
    r
}

/// The brands the settings list under `brands.known`: the strings of the
/// JSON array stored there (as an array, or as a string holding its JSON
/// text); nothing when the value is missing or is no array of strings.
pub open spec fn known_brands_spec(settings: SettingsCache) -> Seq<Seq<char>> {
    match settings.lookup("brands.known"@) {
        Some(JsonValue::Str(s)) => match json_string_list(s@) {
            Some(l) => l,
            None => Seq::<Seq<char>>::empty(),
        },
        Some(JsonValue::Compound(t)) => match json_string_list(t@) {
            Some(l) => l,
            None => Seq::<Seq<char>>::empty(),
        },
        _ => Seq::<Seq<char>>::empty(),
    }
}

/// The known brand names from the settings.
pub fn known_brands(settings: &SettingsCache) -> (r: Vec<String>)
    requires
        settings.wf(),
    ensures
        string_views(r@) == known_brands_spec(*settings),
{
    match settings.get("brands.known") {
        Some(JsonValue::Str(s)) => match parse_string_list(s.as_str()) {
            Some(l) => l,
            None => Vec::new(),
        },
        Some(JsonValue::Compound(t)) => match parse_string_list(t.as_str()) {
            Some(l) => l,
            None => Vec::new(),
        },
        _ => Vec::new(),
    }
}

/// The text brands are searched in: the OCR text, a space, and the object
/// labels separated by spaces.
pub open spec fn brand_haystack(ocr: Option<String>, labels: Seq<Seq<char>>) -> Seq<char> {
    let o = match ocr {
        Some(t) => t@,
        None => Seq::<char>::empty(),
    };
    o + " "@ + join_seq(labels, " "@)
}

pub open spec fn object_labels(objs: Seq<DetectedObject>) -> Seq<Seq<char>> {
    objs.map_values(|o: DetectedObject| o.label@)
}

/// The known brands whose lowercase form occurs in the lowercase haystack.
pub open spec fn brands_found_in(known: Seq<Seq<char>>, hay: Seq<char>) -> Seq<Seq<char>>
    decreases known.len(),
{
    if known.len() == 0 {
        Seq::<Seq<char>>::empty()
    } else {
        let rest = brands_found_in(known.drop_last(), hay);
        if contains_seq(lowercase_of(hay), lowercase_of(known.last())) {
            rest.push(known.last())
        } else {
            rest
        }
    }
}

/// Brand recognition: the known brands named in the OCR text or the object
/// labels (case-insensitively), sorted, each once.
pub fn detect_brands(settings: &SettingsCache, result: &AnalysisResult) -> (r: Vec<String>)
    requires
        settings.wf(),
    ensures
        string_views(r@) == sorted_set(
            brands_found_in(
                known_brands_spec(*settings),
                brand_haystack(result.ocr_text, object_labels(result.objects@)),
            ),
        ),
{
    let known = known_brands(settings);
    let mut labels: Vec<String> = Vec::new();
    let mut i: usize = 0;
    while i < result.objects.len()
        invariant
            i <= result.objects@.len(),
            string_views(labels@) == object_labels(result.objects@).take(i as int),
        decreases result.objects.len() - i,
    {
        let ghost before = labels@;
        labels.push(owned(result.objects[i].label.as_str()));
        assert(string_views(labels@) =~= string_views(before).push(result.objects@[i as int].label@));
        assert(object_labels(result.objects@).take(i + 1) =~= object_labels(result.objects@).take(
            i as int,
        ).push(result.objects@[i as int].label@));
        i += 1;
    }
    assert(object_labels(result.objects@).take(result.objects@.len() as int) == object_labels(
        result.objects@,
    ));
    let mut hay = String::new();
    match &result.ocr_text {
        Some(t) => push_str(&mut hay, t.as_str()),
        None => {},
    }
    push_str(&mut hay, " ");
    let joined = join_strings(&labels, " ");
    push_str(&mut hay, joined.as_str());
    let lower_hay = chars_of(to_lowercase(hay.as_str()).as_str());
    let ghost kv = string_views(known@);
    let mut found: Vec<String> = Vec::new();
    let mut k: usize = 0;
    while k < known.len()
        invariant
            k <= known@.len(),
            kv == string_views(known@),
            lower_hay@ == lowercase_of(hay@),
            string_views(found@) == brands_found_in(kv.take(k as int), hay@),
        decreases known.len() - k,
    {
        assert(kv.take(k + 1).drop_last() == kv.take(k as int));
        let lb = chars_of(to_lowercase(known[k].as_str()).as_str());
        if contains(&lower_hay, &lb) {
            found.push(owned(known[k].as_str()));
            assert(string_views(found@) =~= brands_found_in(kv.take(k as int), hay@).push(kv[k as int]));
        }
        k += 1;
    }
    assert(kv.take(known@.len() as int) == kv);
    sort_dedup_set(&found)
}

// ---------------------------------------------------------------------------
// Model files and stored analyses
// ---------------------------------------------------------------------------

/// A string setting, or a default when it is missing or not a string.
pub open spec fn string_setting_or(settings: SettingsCache, key: Seq<char>, default: Seq<char>) -> Seq<char> {
    match settings.lookup(key) {
        Some(JsonValue::Str(s)) => s@,
        _ => default,
    }
}

/// The file names of the object-detection and CLIP models: the
/// `ai.model_object_detection` and `ai.model_classification` settings, by
/// default `yolov8n.onnx` and `clip-vit-base.onnx`.
pub fn model_file_names(settings: &SettingsCache) -> (r: (String, String))
    requires
        settings.wf(),
    ensures
        r.0@ == string_setting_or(*settings, "ai.model_object_detection"@, "yolov8n.onnx"@),
        r.1@ == string_setting_or(*settings, "ai.model_classification"@, "clip-vit-base.onnx"@),
{
    let od = match settings.get_string("ai.model_object_detection") {
        Some(s) => s,
        None => owned("yolov8n.onnx"),
    };
    let clip = match settings.get_string("ai.model_classification") {
        Some(s) => s,
        None => owned("clip-vit-base.onnx"),
    };
    (od, clip)
}

/// What a stored analysis found.
pub enum AnalysisPayload {
    Objects(Vec<DetectedObject>),
    Embedding { tags: Vec<String>, dimensions: usize },
    Text(String),
    Brands(Vec<String>),
    Quality(u32),
    Verdict(Classification, u32),
}

/// An analysis to store: its kind, the model that made it, its confidence
/// in millionths, and what it found.
pub struct AnalysisRecord {
    pub analysis_type: AnalysisType,
    pub model_name: String,
    pub model_version: String,
    pub confidence_ppm: u32,
    pub payload: AnalysisPayload,
}

/// The highest confidence among the objects (0 for none).
pub open spec fn max_confidence(objs: Seq<DetectedObject>) -> u32
    decreases objs.len(),
{
    if objs.len() == 0 {
        0
    } else {
        let rest = max_confidence(objs.drop_last());
        if objs.last().confidence_ppm > rest {
            objs.last().confidence_ppm
        } else {
            rest
        }
    }
}

/// Does a record carry this kind, model and confidence?
pub open spec fn record_is(
    r: AnalysisRecord,
    t: AnalysisType,
    model: Seq<char>,
    version: Seq<char>,
    confidence_ppm: u32,
) -> bool {
    r.analysis_type == t && r.model_name@ == model && r.model_version@ == version && r.confidence_ppm
        == confidence_ppm
}

fn record(t: AnalysisType, model: &str, version: &str, confidence_ppm: u32, payload: AnalysisPayload) -> (r: AnalysisRecord)
    ensures
        record_is(r, t, model@, version@, confidence_ppm),
        r.payload == payload,
{
    AnalysisRecord { analysis_type: t, model_name: owned(model), model_version: owned(version), confidence_ppm, payload }
}

fn copy_object(o: &DetectedObject) -> (r: DetectedObject)
    ensures
        r == *o,
{
    DetectedObject { label: o.label.clone(), confidence_ppm: o.confidence_ppm, bbox_ppm: o.bbox_ppm }
}

/// The object-detection record: none when nothing was detected; its
/// confidence is the highest object confidence.
pub fn object_detection_record(objects: &[DetectedObject]) -> (r: Option<AnalysisRecord>)
    ensures
        r is None <==> objects@.len() == 0,
        r matches Some(rec) ==> record_is(rec, AnalysisType::ObjectDetection, "yolov8"@, "n"@, max_confidence(objects@))
            && (rec.payload matches AnalysisPayload::Objects(v) && v@ == objects@),
{
    if objects.len() == 0 {
        return None;
    }
    let mut best: u32 = 0;
    let mut copies: Vec<DetectedObject> = Vec::new();
    let mut i: usize = 0;
    while i < objects.len()
        invariant
            i <= objects@.len(),
            best == max_confidence(objects@.take(i as int)),
            copies@ =~= objects@.take(i as int),
        decreases objects.len() - i,
    {
        assert(objects@.take(i as int + 1).drop_last() =~= objects@.take(i as int));
        if objects[i].confidence_ppm > best {
            best = objects[i].confidence_ppm;
        }
        copies.push(copy_object(&objects[i]));
        i += 1;
    }
    assert(objects@.take(objects@.len() as int) =~= objects@);
    Some(record(AnalysisType::ObjectDetection, "yolov8", "n", best, AnalysisPayload::Objects(copies)))
}

/// The embedding record of a CLIP run.
pub fn embedding_record(tags: &Vec<String>, dimensions: usize) -> (r: AnalysisRecord)
    ensures
        record_is(r, AnalysisType::Embedding, "clip"@, "vit-base"@, 850_000),
        r.payload matches AnalysisPayload::Embedding { tags: t, dimensions: d } && t@ == tags@ && d == dimensions,
{
    record(
        AnalysisType::Embedding,
        "clip",
        "vit-base",
        850_000,
        AnalysisPayload::Embedding { tags: clone_strings(tags), dimensions },
    )
}

/// The OCR record: none when the text is blank.
pub fn ocr_record(text: &str) -> (r: Option<AnalysisRecord>)
    ensures
        r is None <==> trim_seq(text@).len() == 0,
        r matches Some(rec) ==> record_is(rec, AnalysisType::Ocr, "tesseract"@, "5"@, 800_000)
            && (rec.payload matches AnalysisPayload::Text(t) && t@ == text@),
{
    let v = chars_of(text);
    if trim_vec(&v).len() == 0 {
        None
    } else {
        Some(record(AnalysisType::Ocr, "tesseract", "5", 800_000, AnalysisPayload::Text(owned(text))))
    }
}

/// The brand record: none when no brand was found.
pub fn brand_record(brands: &Vec<String>) -> (r: Option<AnalysisRecord>)
    ensures
        r is None <==> brands@.len() == 0,
        r matches Some(rec) ==> record_is(rec, AnalysisType::Brand, "rule-based"@, "1"@, 750_000)
            && (rec.payload matches AnalysisPayload::Brands(b) && b@ == brands@),
{
    if brands.len() == 0 {
        None
    } else {
        Some(record(AnalysisType::Brand, "rule-based", "1", 750_000, AnalysisPayload::Brands(clone_strings(brands))))
    }
}

/// The quality record, always stored.
pub fn quality_record(quality_ppm: u32) -> (r: AnalysisRecord)
    ensures
        record_is(r, AnalysisType::Quality, "heuristic"@, "1"@, 1_000_000),
        r.payload == AnalysisPayload::Quality(quality_ppm),
{
    record(AnalysisType::Quality, "heuristic", "1", 1_000_000, AnalysisPayload::Quality(quality_ppm))
}

/// The classification record, always stored; its confidence is the
/// verdict's.
pub fn classification_record(c: Classification, confidence_ppm: u32) -> (r: AnalysisRecord)
    ensures
        record_is(r, AnalysisType::Classification, "rule-based"@, "1"@, confidence_ppm),
        r.payload == AnalysisPayload::Verdict(c, confidence_ppm),
{
    record(AnalysisType::Classification, "rule-based", "1", confidence_ppm, AnalysisPayload::Verdict(c, confidence_ppm))
}

// ---------------------------------------------------------------------------
// Stored analysis results
// ---------------------------------------------------------------------------

/// The brands a stored brand result lists (its `brands` array).
pub open spec fn brands_in(json: Seq<char>) -> Seq<Seq<char>> {
    json_field_strings_of(json, "brands"@)
}

/// The object labels a stored object-detection result lists (the `label`
/// of each detection).
pub open spec fn labels_in(json: Seq<char>) -> Seq<Seq<char>> {
    json_element_strings_of(json, "label"@)
}

/// The brands of several stored results, in order.
pub open spec fn brands_of_results(results: Seq<Seq<char>>) -> Seq<Seq<char>>
    decreases results.len(),
{
    if results.len() == 0 {
        Seq::<Seq<char>>::empty()
    } else {
        brands_of_results(results.drop_last()) + brands_in(results.last())
    }
}

/// The object labels of several stored results, in order.
pub open spec fn labels_of_results(results: Seq<Seq<char>>) -> Seq<Seq<char>>
    decreases results.len(),
{
    if results.len() == 0 {
        Seq::<Seq<char>>::empty()
    } else {
        labels_of_results(results.drop_last()) + labels_in(results.last())
    }
}

/// The brands a stored brand result lists.
pub fn brand_strings(result: &str) -> (r: Vec<String>)
    ensures
        string_views(r@) == brands_in(result@),
{
    json_field_strings(result, "brands")
}

/// The object labels a stored object-detection result lists.
pub fn label_strings(result: &str) -> (r: Vec<String>)
    ensures
        string_views(r@) == labels_in(result@),
{
    json_element_strings(result, "label")
}

fn append_strings(r: &mut Vec<String>, more: Vec<String>)
    ensures
        string_views(final(r)@) == string_views(old(r)@) + string_views(more@),
{
    let ghost before = string_views(r@);
    let mut k: usize = 0;
    while k < more.len()
        invariant
            k <= more@.len(),
            string_views(r@) == before + string_views(more@).take(k as int),
        decreases more.len() - k,
    {
        let ghost prev = r@;
        r.push(more[k].clone());
        assert(string_views(more@).take(k as int + 1) =~= string_views(more@).take(k as int).push(
            more@[k as int]@,
        ));
        assert(string_views(r@) =~= string_views(prev).push(more@[k as int]@));
        k += 1;
    }
    assert(string_views(more@).take(more@.len() as int) =~= string_views(more@));
}

/// The brands listed by several stored results, in order.
pub fn brands_from(results: &[String]) -> (r: Vec<String>)
    ensures
        string_views(r@) == brands_of_results(string_views(results@)),
{
    let ghost rv = string_views(results@);
    let mut r: Vec<String> = Vec::new();
    let mut i: usize = 0;
    while i < results.len()
        invariant
            i <= results@.len(),
            rv == string_views(results@),
            string_views(r@) == brands_of_results(rv.take(i as int)),
        decreases results.len() - i,
    {
        assert(rv.take(i as int + 1).drop_last() =~= rv.take(i as int));
        let b = brand_strings(results[i].as_str());
        append_strings(&mut r, b);
        i += 1;
    }
    assert(rv.take(results@.len() as int) =~= rv);
    r
}

/// The object labels listed by several stored results, in order.
pub fn labels_from(results: &[String]) -> (r: Vec<String>)
    ensures
        string_views(r@) == labels_of_results(string_views(results@)),
{
    let ghost rv = string_views(results@);
    let mut r: Vec<String> = Vec::new();
    let mut i: usize = 0;
    while i < results.len()
        invariant
            i <= results@.len(),
            rv == string_views(results@),
            string_views(r@) == labels_of_results(rv.take(i as int)),
        decreases results.len() - i,
    {
        assert(rv.take(i as int + 1).drop_last() =~= rv.take(i as int));
        let b = label_strings(results[i].as_str());
        append_strings(&mut r, b);
        i += 1;
    }
    assert(rv.take(results@.len() as int) =~= rv);
    r
}

/// The brands of a project's stored brand results, sorted without repeats.
pub fn collect_brands_from(results: &[String]) -> (r: Vec<String>)
    ensures
        string_views(r@) == sorted_set(brands_of_results(string_views(results@))),
{
    let all = brands_from(results);
    sort_dedup_set(&all)
}

// ---------------------------------------------------------------------------
// What an analysis changes
// ---------------------------------------------------------------------------

/// The stored fields an analysis changes: the classification with its
/// confidence, and the privacy flag (stored locked).
pub struct MediaUpdate {
    pub classification: Option<(Classification, u32)>,
    pub privacy: Option<bool>,
}

/// The verdict an analysis reports, and what it changes.
pub struct AnalysisDecision {
    pub classification: Classification,
    pub confidence_ppm: u32,
    pub update: MediaUpdate,
}

/// An unlocked media file takes the verdict `v` and stores it, with the
/// privacy flag when a folder rule decided.
pub open spec fn takes_verdict(d: AnalysisDecision, v: (Classification, int, Option<bool>)) -> bool {
    &&& d.classification == v.0
    &&& d.confidence_ppm as int == v.1
    &&& d.update.classification == Some((v.0, d.confidence_ppm))
    &&& d.update.privacy == v.2
}

/// What the analysis of a media file decides: a file whose privacy is
/// locked keeps its verdict (private or business, full confidence) and
/// nothing is stored for it; otherwise the folder rules decide first, then
/// the analysis signals, and the verdict is stored (see
/// `classify_with_rules`).
pub fn analysis_decision(
    media: &Media,
    rules: &[FolderRule],
    result: &AnalysisResult,
    threshold_ppm: Option<u32>,
) -> (d: AnalysisDecision)
    ensures
        media.privacy_locked ==> d.classification == classify_spec(*media, *result, threshold_ppm).0
            && d.confidence_ppm as nat == classify_spec(*media, *result, threshold_ppm).1
            && d.update.classification is None && d.update.privacy is None,
        !media.privacy_locked ==> exists|dp: Seq<Option<usize>>|
            dp.len() == rules@.len() && takes_verdict(
                d,
                #[trigger] rules_verdict_spec(*media, rules@, *result, threshold_ppm, dp),
            ),
        !media.privacy_locked && paths_plain(media.file_path@, rules@) ==> takes_verdict(
            d,
            rules_verdict_spec(
                *media,
                rules@,
                *result,
                threshold_ppm,
                plain_depths(media.file_path@, rules@),
            ),
        ),
{
    if media.privacy_locked {
        let (c, conf) = classify(media, result, threshold_ppm);
        AnalysisDecision {
            classification: c,
            confidence_ppm: conf,
            update: MediaUpdate { classification: None, privacy: None },
        }
    } else {
        let (c, conf, privacy) = classify_with_rules(media, rules, result, threshold_ppm);
        AnalysisDecision {
            classification: c,
            confidence_ppm: conf,
            update: MediaUpdate { classification: Some((c, conf)), privacy },
        }
    }
}

} // verus!
