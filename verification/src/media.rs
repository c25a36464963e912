//! What becomes of an image or a video: where it is written and which work
//! produces it there.
use crate::category::Category;
use crate::ffmpeg::{conversion_args, conversion_arguments};
use crate::layout::destination_path;
use crate::path::{
    extension, extension_chars, join_chars, lemma_extension_valid, valid_extension,
    with_extension, with_extension_chars,
};
use crate::text::{ascii_lowercase, chars_of, lowercased, push_str, same_chars, string_of};
use vstd::prelude::*;

verus! {

broadcast use vstd::seq_lib::group_seq_properties;

/// Whether the file at `source` has the extension `svg`, in any ASCII case.
pub open spec fn is_svg(source: Seq<char>) -> bool {
    match extension(source) {
        Some(e) => ascii_lowercase(e) == "svg"@,
        None => false,
    }
}

/// The extension a media file gets: WebP for images, MP4 for anything else.
pub open spec fn media_extension(category: Category) -> Seq<char> {
    if category is Images {
        "webp"@
    } else {
        "mp4"@
    }
}

/// Where a media file found at `relative` is written below `output`.
pub open spec fn media_destination(output: Seq<char>, category: Category, relative: Seq<char>) -> Seq<
    char,
> {
    destination_path(output, category, relative, Some(media_extension(category)))
}

/// The work that produces a media file at its destination.
pub enum MediaWork {
    /// An SVG image is copied as it is, under `target`.
    CopySvg { target: String },
    /// An image is decoded and written to the destination as WebP.
    EncodeWebp,
    /// A video is converted by FFmpeg, run with `args`; when the conversion
    /// fails, the video is copied as it is to `fallback` instead.
    Convert { args: Vec<String>, fallback: String },
    /// A video is copied as it is, under `target`.
    CopyUnchanged { target: String },
}

/// Where a media file goes and how.
pub struct MediaPlan {
    /// The WebP or MP4 path below the output folder; it must not exist unless
    /// overwriting is allowed.
    pub destination: String,
    /// The file the work writes: the destination, or the path of the copy.
    /// It must not exist either unless overwriting is allowed.
    pub written: String,
    /// The work to do.
    pub work: MediaWork,
}

/// The settings that decide how a video is handled.
pub struct VideoSettings {
    /// Keep videos as they are instead of converting them.
    pub copy_videos: bool,
    /// Bitrate cap given to FFmpeg.
    pub bitrate: String,
    /// H.264 constant rate factor.
    pub crf: u8,
    /// FFmpeg speed preset.
    pub preset: String,
}

/// Where the media file `source`, found at `relative`, goes below `output`, and
/// how: an SVG image is copied, another image encoded as WebP; a video is
/// copied when videos are kept, else converted by FFmpeg.
pub fn plan_media(
    category: Category,
    source: &str,
    relative: &str,
    output: &str,
    video: &VideoSettings,
) -> (r: MediaPlan)
    ensures
        r.destination@ == media_destination(output@, category, relative@),
        r.written@ == (match r.work {
            MediaWork::CopySvg { target } => target@,
            MediaWork::CopyUnchanged { target } => target@,
            _ => r.destination@,
        }),
        match r.work {
            MediaWork::CopySvg { target } => {
                &&& category is Images
                &&& is_svg(source@)
                &&& target@ == with_extension(r.destination@, "svg"@)
            },
            MediaWork::EncodeWebp => category is Images && !is_svg(source@),
            MediaWork::Convert { args, fallback } => {
                &&& !(category is Images)
                &&& !video.copy_videos
                &&& fallback@ == destination_path(
                    output@,
                    Category::Videos,
                    relative@,
                    extension(source@),
                )
                &&& args.deep_view() == conversion_args(
                    source@,
                    r.destination@,
                    video.bitrate@,
                    video.crf as nat,
                    video.preset@,
                )
            },
            MediaWork::CopyUnchanged { target } => {
                &&& !(category is Images)
                &&& video.copy_videos
                &&& target@ == with_extension(
                    r.destination@,
                    match extension(source@) {
                        Some(e) => e,
                        None => Seq::empty(),
                    },
                )
            },
        },
{
    let is_image = match category {
        Category::Images => true,
        _ => false,
    };
    let out = chars_of(output);
    let folder = chars_of(category.folder());
    let rel = chars_of(relative);
    let base = join_chars(&out, &folder);
    let joined = join_chars(&base, &rel);
    let ext = if is_image {
        chars_of("webp")
    } else {
        chars_of("mp4")
    };
    proof {
        reveal_strlit("webp");
        reveal_strlit("mp4");
    }
    assert(valid_extension(ext@));
    let dest = with_extension_chars(&joined, &ext);
    let destination = string_of(&dest);
    let src = chars_of(source);
    let source_ext = extension_chars(&src);
    proof {
        lemma_extension_valid(src@);
    }
    if is_image {
        let svg = match &source_ext {
            Some(e) => same_chars(&lowercased(e), "svg"),
            None => false,
        };
        if svg {
            let svg_ext = chars_of("svg");
            proof {
                reveal_strlit("svg");
            }
            assert(valid_extension(svg_ext@));
            let target = string_of(&with_extension_chars(&dest, &svg_ext));
            let written = target.clone();
            MediaPlan { destination, written, work: MediaWork::CopySvg { target } }
        } else {
            let written = destination.clone();
            MediaPlan { destination, written, work: MediaWork::EncodeWebp }
        }
    } else if !video.copy_videos {
        let args = conversion_arguments(
            source,
            destination.as_str(),
            video.bitrate.as_str(),
            video.crf,
            video.preset.as_str(),
        );
        let kept: Option<String> = match &source_ext {
            Some(e) => Some(string_of(e)),
            None => None,
        };
        let kept_ref: Option<&str> = match &kept {
            Some(e) => Some(e.as_str()),
            None => None,
        };
        let fallback = crate::layout::destination(output, Category::Videos, relative, kept_ref);
        let written = destination.clone();
        MediaPlan { destination, written, work: MediaWork::Convert { args, fallback } }
    } else {
        let kept = match source_ext {
            Some(e) => e,
            None => Vec::new(),
        };
        assert(kept@ == match extension(src@) {
            Some(e) => e,
            None => Seq::<char>::empty(),
        });
        let target = string_of(&with_extension_chars(&dest, &kept));
        let written = target.clone();
        MediaPlan { destination, written, work: MediaWork::CopyUnchanged { target } }
    }
}

/// Whether a destination may be written: not when it exists and overwriting is
/// off, in which case the error names it.
pub fn check_destination(destination: &str, present: bool, overwrite: bool) -> (r: Result<(), String>)
    ensures
        r is Ok <==> (!present || overwrite),
        r matches Err(message) ==> message@ == "destination exists (use --overwrite): "@
            + destination@,
{
    if present && !overwrite {
        let mut m = chars_of("destination exists (use --overwrite): ");
        push_str(&mut m, destination);
        Err(string_of(&m))
    } else {
        Ok(())
    }
}

} // verus!
