//! Thumbnails: how a file's thumbnail is made, by its extension, and the
//! ffmpeg call used for frames and previews.
use vstd::prelude::*;

use crate::models::is_one_of;
use crate::text::{lowercase_of, push_str, string_views, to_lowercase};
use crate::trusted::new_uuid_string;

verus! {

/// How a thumbnail is made.
#[derive(Clone, Copy, Debug, PartialEq, Eq, Structural)]
pub enum ThumbnailMethod {
    /// Decode the image and scale it down.
    Resize,
    /// Take the first frame or the embedded preview with ffmpeg.
    Ffmpeg,
    /// No thumbnail can be made.
    Unsupported,
}

/// The extensions the image decoder reads.
pub open spec fn decodable_extensions() -> Seq<Seq<char>> {
    seq!["jpg"@, "jpeg"@, "png"@, "webp"@, "bmp"@, "gif"@, "tiff"@, "tif"@]
}

/// The extensions ffmpeg handles: HEIC/HEIF, videos and raw files.
pub open spec fn ffmpeg_extensions() -> Seq<Seq<char>> {
    seq![
        "heic"@, "heif"@, "mov"@, "mp4"@, "m4v"@, "avi"@, "mkv"@, "webm"@, "nef"@, "cr2"@, "arw"@,
        "dng"@, "raf"@, "orf"@, "rw2"@,
    ]
}

/// How the thumbnail of a file with extension `ext` (any case) is made.
pub open spec fn thumbnail_method_spec(ext: Seq<char>) -> ThumbnailMethod {
    let e = lowercase_of(ext);
    if decodable_extensions().contains(e) {
        ThumbnailMethod::Resize
    } else if ffmpeg_extensions().contains(e) {
        ThumbnailMethod::Ffmpeg
    } else {
        ThumbnailMethod::Unsupported
    }
}

proof fn lemma_listed(l: Seq<&str>, s: Seq<Seq<char>>, x: Seq<char>)
    requires
        s == l.map_values(|t: &str| t@),
    ensures
        s.contains(x) <==> exists|i: int| 0 <= i < l.len() && x == (#[trigger] l[i])@,
{
    if s.contains(x) {
        let k = choose|k: int| 0 <= k < s.len() && s[k] == x;
        assert(x == l[k]@);
    }
    if exists|i: int| 0 <= i < l.len() && x == (#[trigger] l[i])@ {
        let i = choose|i: int| 0 <= i < l.len() && x == (#[trigger] l[i])@;
        assert(s[i] == x);
    }
}

/// How the thumbnail of a file with this extension is made.
pub fn thumbnail_method(ext: &str) -> (r: ThumbnailMethod)
    ensures
        r == thumbnail_method_spec(ext@),
{
    let lower = to_lowercase(ext);
    let e = lower.as_str();
    let images = ["jpg", "jpeg", "png", "webp", "bmp", "gif", "tiff", "tif"];
    let others = [
        "heic", "heif", "mov", "mp4", "m4v", "avi", "mkv", "webm", "nef", "cr2", "arw", "dng", "raf",
        "orf", "rw2",
    ];
    proof {
        assert(images@.map_values(|t: &str| t@) =~= decodable_extensions());
        assert(others@.map_values(|t: &str| t@) =~= ffmpeg_extensions());
        lemma_listed(images@, decodable_extensions(), e@);
        lemma_listed(others@, ffmpeg_extensions(), e@);
    }
    if is_one_of(e, &images) {
        ThumbnailMethod::Resize
    } else if is_one_of(e, &others) {
        ThumbnailMethod::Ffmpeg
    } else {
        ThumbnailMethod::Unsupported
    }
}

/// The arguments of the ffmpeg call that writes the first frame (or the
/// embedded preview) of `input`, scaled to fit 400×400, to `output`.
pub open spec fn ffmpeg_args_spec(input: Seq<char>, output: Seq<char>) -> Seq<Seq<char>> {
    seq![
        "-y"@, "-i"@, input, "-vframes"@, "1"@, "-vf"@,
        "scale=400:400:force_original_aspect_ratio=decrease"@, "-q:v"@, "3"@, output,
    ]
}

/// The ffmpeg arguments (see `ffmpeg_args_spec`).
pub fn ffmpeg_args(input: &str, output: &str) -> (r: Vec<String>)
    ensures
        string_views(r@) == ffmpeg_args_spec(input@, output@),
{
    let items = [
        "-y", "-i", input, "-vframes", "1", "-vf", "scale=400:400:force_original_aspect_ratio=decrease",
        "-q:v", "3", output,
    ];
    let mut r: Vec<String> = Vec::new();
    let mut i: usize = 0;
    while i < items.len()
        invariant
            i <= items@.len(),
            string_views(r@) =~= items@.map_values(|s: &str| s@).take(i as int),
        decreases items.len() - i,
    {
        let ghost before = r@;
        r.push(items[i].to_string());
        assert(string_views(r@) =~= string_views(before).push(items@[i as int]@));
        i += 1;
    }
    assert(items@.map_values(|s: &str| s@) =~= ffmpeg_args_spec(input@, output@));
    r
}

/// A fresh thumbnail file name: a random id and `.jpg`.
pub fn thumbnail_file_name() -> (r: String)
    ensures
        r@.len() == 40,
        r@.subrange(36, 40) == ".jpg"@,
{
    let mut name = new_uuid_string();
    let ghost id = name@;
    push_str(&mut name, ".jpg");
    proof {
        reveal_strlit(".jpg");
        assert(name@.subrange(36, 40) =~= ".jpg"@);
    }
    name
}

} // verus!
