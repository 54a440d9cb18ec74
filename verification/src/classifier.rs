//! Business vs private classifier.
//!
//! Combines the signals of an analysis into a verdict and a confidence:
//! folder rules (user-defined, highest priority), detected objects, brands
//! read by OCR, scene tags, the source folder name, and the weekday and hour
//! the photo was taken. A media file whose privacy is locked keeps its
//! verdict.
//!
//! Scores are counted in units of 10⁻⁷ (so a weight of 0.7 on a confidence
//! of `c` millionths adds `7 * c` units); confidences are in millionths.
use vstd::prelude::*;

use crate::ai_pipeline::{AnalysisResult, DetectedObject};
use crate::models::{Classification, FolderClassification, FolderRule, Media};
use crate::text::{
    chars_of, contains, contains_seq, eq_str, lowercase_of, push_str, string_views, to_lowercase,
};
use crate::trusted::{parse_rfc3339_weekday_hour, path_components, rfc3339_weekday_hour};

verus! {

/// One unit of score is 10⁻⁷; a score of 1.0 is this many units.
pub open spec fn score_one() -> nat {
    10_000_000
}

pub open spec fn business_objects() -> Seq<Seq<char>> {
    seq![
        "boiler"@, "heat_pump"@, "radiator"@, "pipe"@, "valve"@,
        "toilet"@, "sink"@, "shower"@, "bathtub"@, "bathroom"@,
        "ventilation"@, "airco"@, "water_softener"@, "technical_room"@,
        "nameplate"@, "tool"@,
    ]
}

pub open spec fn private_objects() -> Seq<Seq<char>> {
    seq!["person"@, "pet"@, "food"@, "nature"@, "document"@]
}

pub open spec fn business_scene_tags() -> Seq<Seq<char>> {
    seq![
        "cv-ketel"@, "warmtepomp"@, "radiator"@, "toilet"@, "wastafel"@,
        "douche"@, "bad"@, "technische_ruimte"@, "ventilatie"@, "airco"@,
        "waterontharder"@, "bouwplaats"@, "werkplaats"@, "nameplate"@, "gereedschap"@,
    ]
}

pub open spec fn private_scene_tags() -> Seq<Seq<char>> {
    seq!["natuur"@, "buiten"@, "eten"@, "huisdier"@, "portret"@, "feest"@]
}

pub open spec fn business_folder_words() -> Seq<Seq<char>> {
    seq!["werk"@, "project"@, "klant"@, "realisatie"@]
}

pub open spec fn private_folder_words() -> Seq<Seq<char>> {
    seq!["prive"@, "privé"@, "familie"@, "vakantie"@]
}

/// Some keyword occurs in `s`.
pub open spec fn matches_any(s: Seq<char>, kws: Seq<Seq<char>>) -> bool {
    exists|k: int| 0 <= k < kws.len() && contains_seq(s, #[trigger] kws[k])
}

/// (business, private) score of the detected objects: a business object
/// adds its confidence, a private one 0.7 times it.
pub open spec fn object_scores(objs: Seq<DetectedObject>) -> (nat, nat)
    decreases objs.len(),
{
    if objs.len() == 0 {
        (0, 0)
    } else {
        let (b, p) = object_scores(objs.drop_last());
        let o = objs.last();
        let l = lowercase_of(o.label@);
        let c = o.confidence_ppm as nat;
        (
            b + if matches_any(l, business_objects()) {
                10 * c
            } else {
                0
            },
            p + if matches_any(l, private_objects()) {
                7 * c
            } else {
                0
            },
        )
    }
}

/// (business, private) score of the scene tags: 0.3 per matching tag.
pub open spec fn tag_scores(tags: Seq<Seq<char>>) -> (nat, nat)
    decreases tags.len(),
{
    if tags.len() == 0 {
        (0, 0)
    } else {
        let (b, p) = tag_scores(tags.drop_last());
        let t = lowercase_of(tags.last());
        (
            b + if matches_any(t, business_scene_tags()) {
                3_000_000nat
            } else {
                0nat
            },
            p + if matches_any(t, private_scene_tags()) {
                3_000_000nat
            } else {
                0nat
            },
        )
    }
}

/// (business, private) score of the source folder name.
pub open spec fn folder_scores(folder: Option<Seq<char>>) -> (nat, nat) {
    match folder {
        None => (0, 0),
        Some(f) => {
            let l = lowercase_of(f);
            let b1: nat = if matches_any(l, business_folder_words()) {
                5_000_000
            } else {
                0
            };
            let p: nat = if matches_any(l, private_folder_words()) {
                6_000_000
            } else {
                0
            };
            let b2: nat = if contains_seq(l, "icloud"@) && contains_seq(l, "photos"@) {
                500_000
            } else {
                0
            };
            (b1 + b2, p)
        },
    }
}

/// (business, private) score of when the photo was taken: weekday daytime
/// (08–18h) adds 0.1 to business, the weekend 0.15 to private.
pub open spec fn date_scores(date: Option<Seq<char>>) -> (nat, nat) {
    match date {
        None => (0, 0),
        Some(d) => match rfc3339_weekday_hour(d) {
            None => (0, 0),
            Some(wh) => {
                let weekday = wh.0 < 5;
                let daytime = 8 <= wh.1 <= 18;
                if weekday && daytime {
                    (1_000_000, 0)
                } else if !weekday {
                    (0, 1_500_000)
                } else {
                    (0, 0)
                }
            },
        },
    }
}

pub open spec fn opt_text(o: Option<String>) -> Option<Seq<char>> {
    match o {
        Some(s) => Some(s@),
        None => None,
    }
}

pub open spec fn tag_views(v: Seq<String>) -> Seq<Seq<char>> {
    v.map_values(|s: String| s@)
}

/// Total business score of a media file and its analysis.
pub open spec fn business_score(media: Media, result: AnalysisResult) -> nat {
    object_scores(result.objects@).0 + (if result.brands@.len() > 0 {
        9_000_000nat
    } else {
        0nat
    }) + tag_scores(tag_views(result.scene_tags@)).0 + folder_scores(
        opt_text(media.source_folder),
    ).0 + date_scores(opt_text(media.date_taken)).0
}

/// Total private score of a media file and its analysis.
pub open spec fn private_score(media: Media, result: AnalysisResult) -> nat {
    object_scores(result.objects@).1 + tag_scores(tag_views(result.scene_tags@)).1
        + folder_scores(opt_text(media.source_folder)).1 + date_scores(
        opt_text(media.date_taken),
    ).1
}

/// The default confidence threshold, 0.55.
pub open spec fn default_threshold_ppm() -> nat {
    550_000
}

/// The verdict from two scores: nothing below a total of 0.1; else the
/// larger score (private on a tie) wins when its share of the total reaches
/// the threshold. The confidence is that share in millionths, rounded down.
pub open spec fn verdict(b: nat, p: nat, threshold_ppm: nat) -> (Classification, nat) {
    let total = b + p;
    if total < 1_000_000 {
        (Classification::Unclassified, 0)
    } else if b > p {
        let conf = (b * 1_000_000) / total;
        if b * 1_000_000 >= threshold_ppm * total {
            (Classification::Business, conf)
        } else {
            (Classification::Unclassified, conf)
        }
    } else {
        let conf = (p * 1_000_000) / total;
        if p * 1_000_000 >= threshold_ppm * total {
            (Classification::Private, conf)
        } else {
            (Classification::Unclassified, conf)
        }
    }
}

/// What `classify` returns.
pub open spec fn classify_spec(
    media: Media,
    result: AnalysisResult,
    threshold_ppm: Option<u32>,
) -> (Classification, nat) {
    if media.privacy_locked {
        (
            if media.is_private {
                Classification::Private
            } else {
                Classification::Business
            },
            1_000_000,
        )
    } else {
        let t = match threshold_ppm {
            Some(t) => t as nat,
            None => default_threshold_ppm(),
        };
        verdict(business_score(media, result), private_score(media, result), t)
    }
}

/// A verdict's confidence never exceeds 1 (a million millionths), and a
/// media file whose privacy is locked keeps its verdict with full
/// confidence.
pub proof fn lemma_classify_bounds(media: Media, result: AnalysisResult, threshold_ppm: Option<u32>)
    ensures
        classify_spec(media, result, threshold_ppm).1 <= 1_000_000,
        media.privacy_locked ==> classify_spec(media, result, threshold_ppm) == (
            if media.is_private {
                Classification::Private
            } else {
                Classification::Business
            },
            1_000_000nat,
        ),
{
    if !media.privacy_locked {
        let b = business_score(media, result);
        let p = private_score(media, result);
        let total = b + p;
        if total >= 1_000_000 {
            assert(b * 1_000_000 / total <= 1_000_000) by (nonlinear_arith)
                requires
                    b <= total,
                    total > 0,
            {
                assert(b * 1_000_000 <= total * 1_000_000);
            }
            assert(p * 1_000_000 / total <= 1_000_000) by (nonlinear_arith)
                requires
                    p <= total,
                    total > 0,
            {
                assert(p * 1_000_000 <= total * 1_000_000);
            }
        }
    }
}

/// A recognised brand raises the business score by 0.9 and leaves the
/// private score alone: two analyses that differ only in whether brands
/// were found score 0.9 apart.
pub proof fn lemma_brand_adds_business(media: Media, with: AnalysisResult, without: AnalysisResult)
    requires
        with.objects@ == without.objects@,
        with.scene_tags@ == without.scene_tags@,
        with.brands@.len() > 0,
        without.brands@.len() == 0,
    ensures
        business_score(media, with) == business_score(media, without) + 9_000_000,
        private_score(media, with) == private_score(media, without),
{
}

/// A brand alone is enough: an unlocked media file with no folder, no
/// date, no objects and no scene tags, but a recognised brand, is
/// business with full confidence at the default threshold.
pub proof fn lemma_brand_alone_is_business(media: Media, result: AnalysisResult)
    requires
        !media.privacy_locked,
        media.source_folder is None,
        media.date_taken is None,
        result.objects@.len() == 0,
        result.scene_tags@.len() == 0,
        result.brands@.len() > 0,
    ensures
        classify_spec(media, result, None) == (Classification::Business, 1_000_000nat),
{
    assert(tag_views(result.scene_tags@).len() == 0);
    assert(business_score(media, result) == 9_000_000);
    assert(private_score(media, result) == 0);
    assert((9_000_000nat * 1_000_000) / 9_000_000nat == 1_000_000) by (nonlinear_arith);
}

/// When the evidence reaches 0.1 in total, the larger score wins exactly
/// when its share of the total reaches the threshold (private on a tie),
/// with that share, in millionths rounded down, as its confidence; below
/// 0.1 nothing is decided.
pub proof fn lemma_verdict_decides(b: nat, p: nat, threshold_ppm: nat)
    ensures
        b + p < 1_000_000 ==> verdict(b, p, threshold_ppm) == (Classification::Unclassified, 0nat),
        b + p >= 1_000_000 && b > p && b * 1_000_000 >= threshold_ppm * (b + p) ==> verdict(
            b,
            p,
            threshold_ppm,
        ) == (Classification::Business, (b * 1_000_000) / (b + p)),
        b + p >= 1_000_000 && p >= b && p * 1_000_000 >= threshold_ppm * (b + p) ==> verdict(
            b,
            p,
            threshold_ppm,
        ) == (Classification::Private, (p * 1_000_000) / (b + p)),
        b + p >= 1_000_000 && b > p && b * 1_000_000 < threshold_ppm * (b + p) ==> verdict(
            b,
            p,
            threshold_ppm,
        ).0 == Classification::Unclassified,
        b + p >= 1_000_000 && p >= b && p * 1_000_000 < threshold_ppm * (b + p) ==> verdict(
            b,
            p,
            threshold_ppm,
        ).0 == Classification::Unclassified,
{
}

/// Each more detected object adds its confidence to the business score
/// when it is a business object, and 0.7 times it to the private score
/// when it is a private one; each more scene tag adds 0.3 to the side it
/// names.
pub proof fn lemma_signals_add(objs: Seq<DetectedObject>, o: DetectedObject, tags: Seq<Seq<char>>, t: Seq<char>)
    ensures
        object_scores(objs.push(o)).0 == object_scores(objs).0 + if matches_any(
            lowercase_of(o.label@),
            business_objects(),
        ) {
            10 * (o.confidence_ppm as nat)
        } else {
            0
        },
        object_scores(objs.push(o)).1 == object_scores(objs).1 + if matches_any(
            lowercase_of(o.label@),
            private_objects(),
        ) {
            7 * (o.confidence_ppm as nat)
        } else {
            0
        },
        tag_scores(tags.push(t)).0 == tag_scores(tags).0 + if matches_any(
            lowercase_of(t),
            business_scene_tags(),
        ) {
            3_000_000nat
        } else {
            0nat
        },
        tag_scores(tags.push(t)).1 == tag_scores(tags).1 + if matches_any(
            lowercase_of(t),
            private_scene_tags(),
        ) {
            3_000_000nat
        } else {
            0nat
        },
{
    assert(objs.push(o).drop_last() =~= objs);
    assert(tags.push(t).drop_last() =~= tags);
}

/// A verdict other than unclassified needs a total score of at least 0.1,
/// and the winning side's share reaching the threshold.
pub proof fn lemma_verdict_needs_evidence(b: nat, p: nat, threshold_ppm: nat)
    ensures
        verdict(b, p, threshold_ppm).0 == Classification::Business ==> b + p >= 1_000_000 && b > p
            && b * 1_000_000 >= threshold_ppm * (b + p),
        verdict(b, p, threshold_ppm).0 == Classification::Private ==> b + p >= 1_000_000 && p >= b
            && p * 1_000_000 >= threshold_ppm * (b + p),
{
}

fn keyword_views(kws: &[&str]) -> (r: Ghost<Seq<Seq<char>>>)
    ensures
        r@.len() == kws@.len(),
        forall|i: int| 0 <= i < kws@.len() ==> (#[trigger] r@[i]) == kws@[i]@,
{
    Ghost(kws@.map_values(|k: &str| k@))
}

/// Does any keyword occur in `s`?
fn matches_any_exec(s: &[char], kws: &[&str], Ghost(kv): Ghost<Seq<Seq<char>>>) -> (r: bool)
    requires
        kv.len() == kws@.len(),
        forall|i: int| 0 <= i < kws@.len() ==> (#[trigger] kv[i]) == kws@[i]@,
    ensures
        r == matches_any(s@, kv),
{
    let mut i: usize = 0;
    while i < kws.len()
        invariant
            i <= kws@.len(),
            kv.len() == kws@.len(),
            forall|k: int| 0 <= k < kws@.len() ==> (#[trigger] kv[k]) == kws@[k]@,
            forall|k: int| 0 <= k < i ==> !contains_seq(s@, #[trigger] kv[k]),
        decreases kws.len() - i,
    {
        let k = chars_of(kws[i]);
        if contains(s, &k) {
            assert(contains_seq(s@, kv[i as int]));
            return true;
        }
        i += 1;
    }
    false
}

fn object_scores_exec(objs: &[DetectedObject]) -> (r: (u128, u128))
    ensures
        r.0 as nat == object_scores(objs@).0,
        r.1 as nat == object_scores(objs@).1,
        r.0 <= objs@.len() * 10 * (u32::MAX as nat),
        r.1 <= objs@.len() * 7 * (u32::MAX as nat),
{
    let bo = [
    "boiler", "heat_pump", "radiator", "pipe", "valve",
    "toilet", "sink", "shower", "bathtub", "bathroom",
    "ventilation", "airco", "water_softener", "technical_room",
    "nameplate", "tool",
];
    let po = ["person", "pet", "food", "nature", "document"];
    let bk = keyword_views(&bo);
    let pk = keyword_views(&po);
    assert(bk@ =~= business_objects());
    assert(pk@ =~= private_objects());
    let mut b: u128 = 0;
    let mut p: u128 = 0;
    let mut i: usize = 0;
    while i < objs.len()
        invariant
            i <= objs@.len(),
            bk@ == business_objects(),
            pk@ == private_objects(),
            bk@.len() == bo@.len(),
            pk@.len() == po@.len(),
            forall|k: int| 0 <= k < bo@.len() ==> (#[trigger] bk@[k]) == bo@[k]@,
            forall|k: int| 0 <= k < po@.len() ==> (#[trigger] pk@[k]) == po@[k]@,
            b as nat == object_scores(objs@.take(i as int)).0,
            p as nat == object_scores(objs@.take(i as int)).1,
            b <= i * 10 * (u32::MAX as nat),
            p <= i * 7 * (u32::MAX as nat),
        decreases objs.len() - i,
    {
        assert(objs@.take(i + 1).drop_last() == objs@.take(i as int));
        let l = chars_of(to_lowercase(objs[i].label.as_str()).as_str());
        let c = objs[i].confidence_ppm as u128;
        if matches_any_exec(&l, &bo, bk) {
            b = b + 10 * c;
        }
        if matches_any_exec(&l, &po, pk) {
            p = p + 7 * c;
        }
        assert((i + 1) * 10 * (u32::MAX as nat) == i * 10 * (u32::MAX as nat) + 10 * (
        u32::MAX as nat)) by (nonlinear_arith);
        assert((i + 1) * 7 * (u32::MAX as nat) == i * 7 * (u32::MAX as nat) + 7 * (u32::MAX as nat))
            by (nonlinear_arith);
        i += 1;
    }
    assert(objs@.take(objs@.len() as int) == objs@);
    (b, p)
}

fn tag_scores_exec(tags: &[String]) -> (r: (u128, u128))
    ensures
        r.0 as nat == tag_scores(tag_views(tags@)).0,
        r.1 as nat == tag_scores(tag_views(tags@)).1,
        r.0 <= tags@.len() * 3_000_000,
        r.1 <= tags@.len() * 3_000_000,
{
    let bt = [
    "cv-ketel", "warmtepomp", "radiator", "toilet", "wastafel",
    "douche", "bad", "technische_ruimte", "ventilatie", "airco",
    "waterontharder", "bouwplaats", "werkplaats", "nameplate", "gereedschap",
];
    let pt = ["natuur", "buiten", "eten", "huisdier", "portret", "feest"];
    let bk = keyword_views(&bt);
    let pk = keyword_views(&pt);
    assert(bk@ =~= business_scene_tags());
    assert(pk@ =~= private_scene_tags());
    let ghost tv = tag_views(tags@);
    let mut b: u128 = 0;
    let mut p: u128 = 0;
    let mut i: usize = 0;
    while i < tags.len()
        invariant
            i <= tags@.len(),
            tv == tag_views(tags@),
            bk@ == business_scene_tags(),
            pk@ == private_scene_tags(),
            bk@.len() == bt@.len(),
            pk@.len() == pt@.len(),
            forall|k: int| 0 <= k < bt@.len() ==> (#[trigger] bk@[k]) == bt@[k]@,
            forall|k: int| 0 <= k < pt@.len() ==> (#[trigger] pk@[k]) == pt@[k]@,
            b as nat == tag_scores(tv.take(i as int)).0,
            p as nat == tag_scores(tv.take(i as int)).1,
            b <= i * 3_000_000,
            p <= i * 3_000_000,
        decreases tags.len() - i,
    {
        assert(tv.take(i + 1).drop_last() == tv.take(i as int));
        let t = chars_of(to_lowercase(tags[i].as_str()).as_str());
        if matches_any_exec(&t, &bt, bk) {
            b = b + 3_000_000;
        }
        if matches_any_exec(&t, &pt, pk) {
            p = p + 3_000_000;
        }
        i += 1;
    }
    assert(tv.take(tags@.len() as int) == tv);
    (b, p)
}

fn folder_scores_exec(folder: &Option<String>) -> (r: (u128, u128))
    ensures
        r.0 as nat == folder_scores(opt_text(*folder)).0,
        r.1 as nat == folder_scores(opt_text(*folder)).1,
        r.0 <= 5_500_000,
        r.1 <= 6_000_000,
{
    match folder {
        None => (0, 0),
        Some(f) => {
            let l = chars_of(to_lowercase(f.as_str()).as_str());
            let bw = ["werk", "project", "klant", "realisatie"];
            let pw = ["prive", "privé", "familie", "vakantie"];
            let bk = keyword_views(&bw);
            let pk = keyword_views(&pw);
            assert(bk@ =~= business_folder_words());
            assert(pk@ =~= private_folder_words());
            let mut b: u128 = 0;
            let mut p: u128 = 0;
            if matches_any_exec(&l, &bw, bk) {
                b = b + 5_000_000;
            }
            if matches_any_exec(&l, &pw, pk) {
                p = p + 6_000_000;
            }
            if contains(&l, &chars_of("icloud")) && contains(&l, &chars_of("photos")) {
                b = b + 500_000;
            }
            (b, p)
        },
    }
}

fn date_scores_exec(date: &Option<String>) -> (r: (u128, u128))
    ensures
        r.0 as nat == date_scores(opt_text(*date)).0,
        r.1 as nat == date_scores(opt_text(*date)).1,
        r.0 <= 1_000_000,
        r.1 <= 1_500_000,
{
    match date {
        None => (0, 0),
        Some(d) => match parse_rfc3339_weekday_hour(d.as_str()) {
            None => (0, 0),
            Some((weekday_index, hour)) => {
                let weekday = weekday_index < 5;
                let daytime = 8 <= hour && hour <= 18;
                if weekday && daytime {
                    (1_000_000, 0)
                } else if !weekday {
                    (0, 1_500_000)
                } else {
                    (0, 0)
                }
            },
        },
    }
}

/// Classifies a media file as business or private from its analysis.
/// `threshold_ppm` is the `ai.confidence_threshold` setting in millionths,
/// `None` when it is not set (0.55 is used then). Returns the verdict and
/// its confidence in millionths.
pub fn classify(media: &Media, result: &AnalysisResult, threshold_ppm: Option<u32>) -> (r: (
    Classification,
    u32,
))
    ensures
        r.0 == classify_spec(*media, *result, threshold_ppm).0,
        r.1 as nat == classify_spec(*media, *result, threshold_ppm).1,
        !media.privacy_locked && media.source_folder is None && media.date_taken is None
            && result.objects@.len() == 0 && result.scene_tags@.len() == 0 && result.brands@.len()
            > 0 && threshold_ppm is None ==> r == (Classification::Business, 1_000_000u32),
{
    proof {
        if !media.privacy_locked && media.source_folder is None && media.date_taken is None
            && result.objects@.len() == 0 && result.scene_tags@.len() == 0 && result.brands@.len()
            > 0 && threshold_ppm is None {
            lemma_brand_alone_is_business(*media, *result);
        }
    }
    if media.privacy_locked {
        return (
            if media.is_private {
                Classification::Private
            } else {
                Classification::Business
            },
            1_000_000,
        );
    }
    let (ob, op) = object_scores_exec(&result.objects);
    let (tb, tp) = tag_scores_exec(&result.scene_tags);
    let (fb, fp) = folder_scores_exec(&media.source_folder);
    let (db, dp) = date_scores_exec(&media.date_taken);
    let brand: u128 = if result.brands.len() > 0 {
        9_000_000
    } else {
        0
    };
    proof {
        assert(result.objects@.len() == result.objects.len());
        assert(result.scene_tags@.len() == result.scene_tags.len());
        assert(ob <= 0xffff_ffff_ffff_ffffnat * 10 * 0xffff_ffffnat);
        assert(op <= 0xffff_ffff_ffff_ffffnat * 7 * 0xffff_ffffnat);
        assert(tb <= 0xffff_ffff_ffff_ffffnat * 3_000_000);
        assert(tp <= 0xffff_ffff_ffff_ffffnat * 3_000_000);
    }
    let b: u128 = ob + brand + tb + fb + db;
    let p: u128 = op + tp + fp + dp;
    let t0: u128 = match threshold_ppm {
        Some(t) => t as u128,
        None => 550_000,
    };
    // a threshold above 1.0 is never reached; cap it so products stay small
    let t: u128 = if t0 > 1_000_001 {
        1_000_001
    } else {
        t0
    };
    let total = b + p;
    proof {
        assert(t * total <= 1_000_001 * total) by (nonlinear_arith)
            requires
                t <= 1_000_001,
        ;
    }
    let (cls, conf) = if total < 1_000_000 {
        (Classification::Unclassified, 0u128)
    } else if b > p {
        let conf = (b * 1_000_000) / total;
        if b * 1_000_000 >= t * total {
            (Classification::Business, conf)
        } else {
            (Classification::Unclassified, conf)
        }
    } else {
        let conf = (p * 1_000_000) / total;
        if p * 1_000_000 >= t * total {
            (Classification::Private, conf)
        } else {
            (Classification::Unclassified, conf)
        }
    };
    proof {
        if total >= 1_000_000 && t0 > 1_000_001 {
            assert(b * 1_000_000 <= total * 1_000_000) by (nonlinear_arith)
                requires
                    b <= total,
            ;
            assert(p * 1_000_000 <= total * 1_000_000) by (nonlinear_arith)
                requires
                    p <= total,
            ;
            assert(total * 1_000_000 < 1_000_001 * total);
            assert(1_000_001 * total <= t0 * total) by (nonlinear_arith)
                requires
                    1_000_001 <= t0,
            ;
        }
        if total >= 1_000_000 {
            if b > p {
                assert(b * 1_000_000 <= total * 1_000_000) by (nonlinear_arith)
                    requires
                        b <= total,
                ;
                assert((b * 1_000_000) / (total as int) <= 1_000_000) by (nonlinear_arith)
                    requires
                        b * 1_000_000 <= total * 1_000_000,
                        total > 0,
                ;
            } else {
                assert(p * 1_000_000 <= total * 1_000_000) by (nonlinear_arith)
                    requires
                        p <= total,
                ;
                assert((p * 1_000_000) / (total as int) <= 1_000_000) by (nonlinear_arith)
                    requires
                        p * 1_000_000 <= total * 1_000_000,
                        total > 0,
                ;
            }
        }
    }
    (cls, conf as u32)
}


// ---------------------------------------------------------------------------
// Folder rules
// ---------------------------------------------------------------------------

/// The score of a rule for a file at `depth` below its folder (`None` when
/// the file is not below it): priority first, then the shallowest match;
/// a non-recursive rule only applies directly in its folder.
pub open spec fn rule_score(rule: FolderRule, depth: Option<usize>) -> Option<int> {
    match depth {
        Some(d) => if rule.recursive || d == 0 {
            Some(rule.priority * 1000 + 10 - if d < 10 {
                d as int
            } else {
                10
            })
        } else {
            None
        },
        None => None,
    }
}

/// The best of the first `n` rules (index and score); on equal scores the
/// earlier rule wins.
pub open spec fn best_rule_upto(rules: Seq<FolderRule>, depths: Seq<Option<usize>>, n: nat) -> Option<
    (int, int),
>
    decreases n,
{
    if n == 0 {
        None
    } else {
        let prev = best_rule_upto(rules, depths, (n - 1) as nat);
        let i = n - 1;
        match rule_score(rules[i], depths[i]) {
            None => prev,
            Some(s) => match prev {
                None => Some((i, s)),
                Some(bp) => if s > bp.1 {
                    Some((i, s))
                } else {
                    prev
                },
            },
        }
    }
}

/// The verdict a folder rule imposes.
pub open spec fn rule_verdict(c: FolderClassification) -> Classification {
    match c {
        FolderClassification::Business => Classification::Business,
        FolderClassification::Private => Classification::Private,
        FolderClassification::Exclude => Classification::Unclassified,
    }
}

/// What the folder rules decide for a file with these depths below the
/// rules' folders: the best rule's verdict with full confidence.
pub open spec fn folder_rule_spec(rules: Seq<FolderRule>, depths: Seq<Option<usize>>) -> Option<
    (Classification, u32),
> {
    match best_rule_upto(rules, depths, rules.len()) {
        Some(b) => Some((rule_verdict(rules[b.0].classification), 1_000_000u32)),
        None => None,
    }
}

proof fn lemma_best_rule_bounds(rules: Seq<FolderRule>, depths: Seq<Option<usize>>, n: nat)
    requires
        n <= rules.len(),
        n <= depths.len(),
    ensures
        best_rule_upto(rules, depths, n) matches Some(b) ==> 0 <= b.0 < n && rule_score(
            rules[b.0],
            depths[b.0],
        ) == Some(b.1),
    decreases n,
{
    if n > 0 {
        lemma_best_rule_bounds(rules, depths, (n - 1) as nat);
    }
}

/// Picks the folder rule that decides a file, given its depth below each
/// rule's folder.
pub fn select_folder_rule(rules: &[FolderRule], depths: &[Option<usize>]) -> (r: Option<
    (Classification, u32),
>)
    requires
        rules@.len() == depths@.len(),
    ensures
        r == folder_rule_spec(rules@, depths@),
{
    let mut best: Option<(usize, i128)> = None;
    let mut i: usize = 0;
    while i < rules.len()
        invariant
            i <= rules@.len(),
            rules@.len() == depths@.len(),
                match best {
                Some(b) => best_rule_upto(rules@, depths@, i as nat) == Some(
                    (b.0 as int, b.1 as int),
                ),
                None => best_rule_upto(rules@, depths@, i as nat) is None,
            },
        decreases rules.len() - i,
    {
        let rule = &rules[i];
        match depths[i] {
            Some(d) => {
                if rule.recursive || d == 0 {
                    let dm: i128 = if d < 10 {
                        d as i128
                    } else {
                        10
                    };
                    let score: i128 = (rule.priority as i128) * 1000 + (10 - dm);
                    let better = match best {
                        Some(b) => score > b.1,
                        None => true,
                    };
                    if better {
                        best = Some((i, score));
                    }
                }
            },
            None => {},
        }
        i += 1;
    }
    proof {
        lemma_best_rule_bounds(rules@, depths@, rules@.len());
    }
    match best {
        Some(b) => Some(
            (
                match rules[b.0].classification {
                    FolderClassification::Business => Classification::Business,
                    FolderClassification::Private => Classification::Private,
                    FolderClassification::Exclude => Classification::Unclassified,
                },
                1_000_000,
            ),
        ),
        None => None,
    }
}

/// How deep a path lies below a folder, both given by their components:
/// `Some(n)` when the folder's components start the path's and `n`
/// components follow, else `None`.
pub open spec fn depth_below(path: Seq<Seq<char>>, folder: Seq<Seq<char>>) -> Option<nat> {
    if folder.len() <= path.len() && path.subrange(0, folder.len() as int) == folder {
        Some((path.len() - folder.len()) as nat)
    } else {
        None
    }
}

/// Computes `depth_below` on component lists.
pub fn depth_below_exec(path: &Vec<String>, folder: &Vec<String>) -> (r: Option<usize>)
    ensures
        r matches Some(n) ==> depth_below(string_views(path@), string_views(folder@)) == Some(
            n as nat,
        ),
        r is None ==> depth_below(string_views(path@), string_views(folder@)) is None,
{
    let ghost pv = string_views(path@);
    let ghost fv = string_views(folder@);
    if folder.len() > path.len() {
        return None;
    }
    let mut i: usize = 0;
    while i < folder.len()
        invariant
            i <= folder@.len() <= path@.len(),
            pv == string_views(path@),
            fv == string_views(folder@),
            forall|k: int| 0 <= k < i ==> pv[k] == fv[k],
        decreases folder.len() - i,
    {
        if !eq_str(path[i].as_str(), folder[i].as_str()) {
            proof {
                assert(pv.subrange(0, fv.len() as int)[i as int] != fv[i as int]);
            }
            return None;
        }
        i += 1;
    }
    proof {
        assert(pv.subrange(0, fv.len() as int) =~= fv);
    }
    Some(path.len() - folder.len())
}

/// One component of a file path, as `Path::components` splits it.
#[derive(Clone, Debug)]
pub enum PathPart {
    Prefix(String),
    Root,
    Current,
    Parent,
    Normal(String),
}

/// The text a path component is compared by.
pub open spec fn part_key(p: PathPart) -> Seq<char> {
    match p {
        PathPart::Prefix(t) => t@,
        PathPart::Root => "/"@,
        PathPart::Current => "."@,
        PathPart::Parent => ".."@,
        PathPart::Normal(t) => t@,
    }
}

/// The pieces of `s` between its `/` characters, empty ones included.
pub open spec fn slash_pieces(s: Seq<char>) -> Seq<Seq<char>>
    decreases s.len(),
{
    if s.len() == 0 {
        seq![Seq::<char>::empty()]
    } else {
        let prev = slash_pieces(s.drop_last());
        if s.last() == '/' {
            prev.push(Seq::<char>::empty())
        } else {
            prev.update(prev.len() - 1, prev.last().push(s.last()))
        }
    }
}

/// A path that starts at the root.
pub open spec fn is_absolute(s: Seq<char>) -> bool {
    s.len() > 0 && s[0] == '/'
}

/// A piece between separators that names a component: neither empty nor
/// `.`.
pub open spec fn is_name_piece(t: Seq<char>) -> bool {
    t.len() > 0 && t != "."@
}

/// A path whose syntax every platform reads alike: no `\` or `:`, and no
/// leading `//`.
pub open spec fn plain_path(s: Seq<char>) -> bool {
    &&& forall|i: int| 0 <= i < s.len() ==> #[trigger] s[i] != '\\' && s[i] != ':'
    &&& !(s.len() >= 2 && s[0] == '/' && s[1] == '/')
}

/// The component texts of a plain path: `/` for the root when absolute,
/// `.` when a relative path starts with `.`, then the pieces between
/// separators that are neither empty nor `.` (repeated and trailing
/// separators and inner `.` are dropped; `..` stays).
pub open spec fn path_keys(s: Seq<char>) -> Seq<Seq<char>> {
    let names = slash_pieces(s).filter(|t: Seq<char>| is_name_piece(t));
    if is_absolute(s) {
        seq!["/"@] + names
    } else if slash_pieces(s)[0] == "."@ {
        seq!["."@] + names
    } else {
        names
    }
}

fn part_key_exec(p: &PathPart) -> (r: String)
    ensures
        r@ == part_key(*p),
{
    let mut r = String::new();
    match p {
        PathPart::Prefix(t) => push_str(&mut r, t.as_str()),
        PathPart::Root => push_str(&mut r, "/"),
        PathPart::Current => push_str(&mut r, "."),
        PathPart::Parent => push_str(&mut r, ".."),
        PathPart::Normal(t) => push_str(&mut r, t.as_str()),
    }
    r
}

/// The component texts of a path; for a plain path, its `path_keys`.
pub fn component_keys(path: &str) -> (r: Vec<String>)
    ensures
        plain_path(path@) ==> string_views(r@) == path_keys(path@),
{
    let parts = path_components(path);
    let mut r: Vec<String> = Vec::new();
    let mut i: usize = 0;
    while i < parts.len()
        invariant
            i <= parts@.len(),
            r@.len() == i,
            forall|k: int| 0 <= k < i ==> (#[trigger] r@[k])@ == part_key(parts@[k]),
        decreases parts.len() - i,
    {
        let key = part_key_exec(&parts[i]);
        r.push(key);
        i += 1;
    }
    proof {
        if plain_path(path@) {
            assert(string_views(r@) =~= path_keys(path@));
        }
    }
    r
}

/// Neither the file's path nor any rule's folder has platform-dependent
/// syntax (see `plain_path`).
pub open spec fn paths_plain(file: Seq<char>, rules: Seq<FolderRule>) -> bool {
    plain_path(file) && forall|i: int| 0 <= i < rules.len() ==> plain_path(
        #[trigger] rules[i].folder_path@,
    )
}

/// The depth of a plain file path below each rule's plain folder.
pub open spec fn plain_depths(file: Seq<char>, rules: Seq<FolderRule>) -> Seq<Option<usize>> {
    Seq::new(
        rules.len(),
        |i: int|
            match depth_below(path_keys(file), path_keys(rules[i].folder_path@)) {
                Some(n) => Some(n as usize),
                None => None,
            },
    )
}

/// Applies the folder rules to a media file: `Some` verdict when a rule's
/// folder holds the file. Where a file lies below a folder is read from
/// the platform's path syntax: for plain paths the verdict is that of the
/// depths below each folder, and for others it is stated for the depths
/// found.
pub fn apply_folder_rules(media: &Media, rules: &[FolderRule]) -> (r: Option<
    (Classification, u32),
>)
    ensures
        exists|d: Seq<Option<usize>>|
            d.len() == rules@.len() && r == #[trigger] folder_rule_spec(rules@, d),
        paths_plain(media.file_path@, rules@) ==> r == folder_rule_spec(
            rules@,
            plain_depths(media.file_path@, rules@),
        ),
{
    let file = component_keys(media.file_path.as_str());
    let ghost plain = paths_plain(media.file_path@, rules@);
    let ghost want = plain_depths(media.file_path@, rules@);
    let mut depths: Vec<Option<usize>> = Vec::new();
    let mut i: usize = 0;
    while i < rules.len()
        invariant
            i <= rules@.len(),
            depths@.len() == i,
            plain == paths_plain(media.file_path@, rules@),
            want == plain_depths(media.file_path@, rules@),
            plain ==> string_views(file@) == path_keys(media.file_path@),
            plain ==> forall|k: int| 0 <= k < i ==> #[trigger] depths@[k] == want[k],
        decreases rules.len() - i,
    {
        let folder = component_keys(rules[i].folder_path.as_str());
        let d = depth_below_exec(&file, &folder);
        proof {
            if plain {
                assert(plain_path(rules@[i as int].folder_path@));
                assert(string_views(folder@) == path_keys(rules@[i as int].folder_path@));
            }
        }
        depths.push(d);
        i += 1;
    }
    let r = select_folder_rule(rules, &depths);
    assert(depths@.len() == rules@.len() && r == folder_rule_spec(rules@, depths@));
    proof {
        if plain {
            assert(depths@ =~= want);
        }
    }
    r
}

/// The verdict of the folder rules, for these depths below their folders,
/// else of the analysis signals; the third value is the privacy flag a
/// rule's verdict stores (locked).
pub open spec fn rules_verdict_spec(
    media: Media,
    rules: Seq<FolderRule>,
    result: AnalysisResult,
    threshold_ppm: Option<u32>,
    depths: Seq<Option<usize>>,
) -> (Classification, int, Option<bool>) {
    match folder_rule_spec(rules, depths) {
        Some(v) => (v.0, v.1 as int, Some(v.0 == Classification::Private)),
        None => (
            classify_spec(media, result, threshold_ppm).0,
            classify_spec(media, result, threshold_ppm).1 as int,
            None,
        ),
    }
}

/// Classifies a media file, folder rules first, then the analysis signals.
/// The third value is the privacy flag to store (locked) when a rule
/// decided.
pub fn classify_with_rules(
    media: &Media,
    rules: &[FolderRule],
    result: &AnalysisResult,
    threshold_ppm: Option<u32>,
) -> (r: (Classification, u32, Option<bool>))
    ensures
        exists|d: Seq<Option<usize>>|
            d.len() == rules@.len() && (r.0, r.1 as int, r.2) == #[trigger] rules_verdict_spec(
                *media,
                rules@,
                *result,
                threshold_ppm,
                d,
            ),
        paths_plain(media.file_path@, rules@) ==> (r.0, r.1 as int, r.2) == rules_verdict_spec(
            *media,
            rules@,
            *result,
            threshold_ppm,
            plain_depths(media.file_path@, rules@),
        ),
{
    let fr = apply_folder_rules(media, rules);
    let ghost d = choose|d: Seq<Option<usize>>|
        d.len() == rules@.len() && fr == #[trigger] folder_rule_spec(rules@, d);
    match fr {
        Some(v) => {
            let private = match v.0 {
                Classification::Private => true,
                _ => false,
            };
            assert(folder_rule_spec(rules@, d) == Some(v));
            assert(rules_verdict_spec(*media, rules@, *result, threshold_ppm, d) == (
                v.0,
                v.1 as int,
                Some(private),
            ));
            (v.0, v.1, Some(private))
        },
        None => {
            let c = classify(media, result, threshold_ppm);
            assert(folder_rule_spec(rules@, d) is None);
            assert(rules_verdict_spec(*media, rules@, *result, threshold_ppm, d) == (
                c.0,
                c.1 as int,
                None::<bool>,
            ));
            (c.0, c.1, None)
        },
    }
}

} // verus!
