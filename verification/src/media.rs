//! Which files count as images and videos, and how they are labelled.

use vstd::prelude::*;

use crate::path::MediaPath;
use crate::text::{same_text, to_lower, truncate};

verus! {

/// The kinds of media that the viewer shows.
#[derive(Clone, Copy, PartialEq, Eq, Structural, Debug)]
pub enum MediaKind {
    Image,
    Video,
}

/// `e`, in lower case, is the extension of an image.
pub open spec fn image_extension(e: Seq<char>) -> bool {
    ||| e == "jpg"@
    ||| e == "jpeg"@
    ||| e == "png"@
    ||| e == "gif"@
    ||| e == "bmp"@
    ||| e == "webp"@
    ||| e == "tiff"@
    ||| e == "tif"@
}

/// `e`, in lower case, is the extension of a video.
pub open spec fn video_extension(e: Seq<char>) -> bool {
    ||| e == "mp4"@
    ||| e == "m4v"@
    ||| e == "mov"@
    ||| e == "avi"@
    ||| e == "wmv"@
    ||| e == "mkv"@
    ||| e == "webm"@
    ||| e == "mpg"@
    ||| e == "mpeg"@
}

/// A path leads to an image, judged by its extension in any case.
pub open spec fn image_key(key: crate::path::PathKey) -> bool {
    match crate::path::extension_of(key) {
        Some(e) => image_extension(crate::text::lower_text(e)),
        None => false,
    }
}

/// A path leads to a video, judged by its extension in any case.
pub open spec fn video_key(key: crate::path::PathKey) -> bool {
    match crate::path::extension_of(key) {
        Some(e) => video_extension(crate::text::lower_text(e)),
        None => false,
    }
}

/// The kind of media that a path leads to.
pub open spec fn kind_of_key(key: crate::path::PathKey) -> Option<MediaKind> {
    if image_key(key) {
        Some(MediaKind::Image)
    } else if video_key(key) {
        Some(MediaKind::Video)
    } else {
        None
    }
}

/// A path leads to an image or a video.
pub open spec fn media_key(key: crate::path::PathKey) -> bool {
    image_key(key) || video_key(key)
}

fn is_image_extension(e: &str) -> (r: bool)
    ensures
        r == image_extension(e@),
{
    same_text(e, "jpg") || same_text(e, "jpeg") || same_text(e, "png") || same_text(e, "gif")
        || same_text(e, "bmp") || same_text(e, "webp") || same_text(e, "tiff") || same_text(e, "tif")
}

fn is_video_extension(e: &str) -> (r: bool)
    ensures
        r == video_extension(e@),
{
    same_text(e, "mp4") || same_text(e, "m4v") || same_text(e, "mov") || same_text(e, "avi")
        || same_text(e, "wmv") || same_text(e, "mkv") || same_text(e, "webm") || same_text(e, "mpg")
        || same_text(e, "mpeg")
}

/// Whether a path leads to an image.
pub fn is_image(path: &MediaPath) -> (r: bool)
    ensures
        r == image_key(path.key()),
{
    match path.extension() {
        Some(e) => is_image_extension(to_lower(e.as_str()).as_str()),
        None => false,
    }
}

/// Whether a path leads to a video.
pub fn is_video(path: &MediaPath) -> (r: bool)
    ensures
        r == video_key(path.key()),
{
    match path.extension() {
        Some(e) => is_video_extension(to_lower(e.as_str()).as_str()),
        None => false,
    }
}

/// Whether a path leads to an image or a video.
pub fn is_media(path: &MediaPath) -> (r: bool)
    ensures
        r == media_key(path.key()),
{
    media_kind(path).is_some()
}

/// The kind of media that a path leads to.
pub fn media_kind(path: &MediaPath) -> (r: Option<MediaKind>)
    ensures
        r == kind_of_key(path.key()),
{
    if is_image(path) {
        Some(MediaKind::Image)
    } else if is_video(path) {
        Some(MediaKind::Video)
    } else {
        None
    }
}

/// No path leads to both an image and a video.
pub proof fn image_and_video_are_apart(key: crate::path::PathKey)
    ensures
        !(image_key(key) && video_key(key)),
{
    reveal_strlit("jpg");
    reveal_strlit("jpeg");
    reveal_strlit("png");
    reveal_strlit("gif");
    reveal_strlit("bmp");
    reveal_strlit("webp");
    reveal_strlit("tiff");
    reveal_strlit("tif");
    reveal_strlit("mp4");
    reveal_strlit("m4v");
    reveal_strlit("mov");
    reveal_strlit("avi");
    reveal_strlit("wmv");
    reveal_strlit("mkv");
    reveal_strlit("webm");
    reveal_strlit("mpg");
    reveal_strlit("mpeg");
    if let Some(e) = crate::path::extension_of(key) {
        let l = crate::text::lower_text(e);
        if image_extension(l) && video_extension(l) {
            assert(l[0] == 'w' && l.len() == 4 && l[3] == 'p') by {
                assert("jpg"@[0] == 'j' && "jpeg"@[0] == 'j' && "png"@[0] == 'p' && "gif"@[0] == 'g');
                assert("bmp"@[0] == 'b' && "tiff"@[0] == 't' && "tif"@[0] == 't');
                assert("webp"@[0] == 'w' && "webp"@[3] == 'p');
                assert("mp4"@[0] == 'm' && "m4v"@[0] == 'm' && "mov"@[0] == 'm' && "avi"@[0] == 'a');
                assert("wmv"@[0] == 'w' && "mkv"@[0] == 'm' && "webm"@[0] == 'w');
                assert("mpg"@[0] == 'm' && "mpeg"@[0] == 'm');
            }
            assert("webm"@[3] == 'm' && "mpeg"@[0] == 'm');
        }
    }
}

/// The case of an extension does not matter.
pub proof fn extension_case_does_not_matter(a: crate::path::PathKey, b: crate::path::PathKey)
    requires
        crate::path::extension_of(a) is Some,
        crate::path::extension_of(b) is Some,
        crate::text::lower_text(crate::path::extension_of(a)->0) == crate::text::lower_text(
            crate::path::extension_of(b)->0,
        ),
    ensures
        kind_of_key(a) == kind_of_key(b),
{
}

// ── Labels ───────────────────────────────────────────────────────────────────

/// The label of a path: its name, or its text, shortened.
pub open spec fn label_of(p: crate::path::PathSpec, max: nat) -> Seq<char> {
    crate::text::shortened(crate::path::name_or_text(p), max)
}

/// The label of a path, at most `max` characters long.
pub fn display_label_for_path(path: &MediaPath, max: usize) -> (r: String)
    ensures
        r@ == label_of(path@, max as nat),
{
    truncate(path.display_name().as_str(), max)
}

/// The labels of a list of paths.
pub open spec fn labels_of(s: Seq<crate::path::PathSpec>, max: nat) -> Seq<Seq<char>> {
    Seq::new(s.len(), |i: int| label_of(s[i], max))
}

/// What a list of texts holds.
pub open spec fn texts_view(s: Seq<String>) -> Seq<Seq<char>> {
    Seq::new(s.len(), |i: int| s[i]@)
}

/// The labels of a list of paths.
pub fn labels_for_paths(list: &Vec<MediaPath>, max: usize) -> (r: Vec<String>)
    ensures
        texts_view(r@) == labels_of(crate::path::paths_view(list@), max as nat),
{
    let mut out: Vec<String> = Vec::new();
    for i in 0..list.len()
        invariant
            out@.len() == i,
            forall|j: int| 0 <= j < i ==> (#[trigger] out@[j])@ == label_of(list@[j]@, max as nat),
    {
        out.push(display_label_for_path(&list[i], max));
    }
    assert(texts_view(out@) =~= labels_of(crate::path::paths_view(list@), max as nat));
    out
}

/// The label of a tile: the name of the file, shortened; nothing for a path without a name.
pub open spec fn tile_label(key: crate::path::PathKey) -> Seq<char> {
    crate::text::shortened(crate::path::name_or_nothing(key), 18)
}

/// The label of a tile.
pub fn tile_label_for_path(path: &MediaPath) -> (r: String)
    ensures
        r@ == tile_label(path.key()),
{
    truncate(path.name_or_empty().as_str(), 18)
}

/// The root of a drive (on Windows only): a path whose text ends in a colon and a backslash.
pub open spec fn drive_root(text: Seq<char>, windows: bool) -> bool {
    windows && text.len() >= 2 && text[text.len() - 2] == ':' && text.last() == '\\'
}

/// Whether a path is the root of a drive; only Windows has drives.
pub fn is_windows_drive_root(path: &MediaPath, windows: bool) -> (r: bool)
    ensures
        r == drive_root(path@.text, windows),
{
    let v = crate::text::chars_of(path.text.as_str());
    windows && v.len() >= 2 && v[v.len() - 2] == ':' && v[v.len() - 1] == '\\'
}

// ── What counts as what ──────────────────────────────────────────────────────

/// A file whose name ends in a dot and one of the extensions of images, in capitals or small
/// letters, is an image.
pub proof fn image_files_are_images(key: crate::path::PathKey, stem: Seq<char>, e: Seq<char>)
    requires
        key.len() > 0,
        key.last() == crate::path::PartSpec::Normal(stem + seq!['.'] + e),
        stem.len() > 0,
        !e.contains('.'),
        ({
            let l = crate::text::lower_text(e);
            l == "jpg"@ || l == "jpeg"@ || l == "png"@ || l == "gif"@ || l == "bmp"@ || l
                == "webp"@ || l == "tiff"@ || l == "tif"@
        }),
    ensures
        image_key(key),
        !video_key(key),
        media_key(key),
        kind_of_key(key) == Some(MediaKind::Image),
{
    crate::path::extensions_follow_the_last_dot(Seq::empty(), stem, e);
    image_and_video_are_apart(key);
}

/// A file whose name ends in a dot and one of the extensions of videos, in capitals or small
/// letters, is a video.
pub proof fn video_files_are_videos(key: crate::path::PathKey, stem: Seq<char>, e: Seq<char>)
    requires
        key.len() > 0,
        key.last() == crate::path::PartSpec::Normal(stem + seq!['.'] + e),
        stem.len() > 0,
        !e.contains('.'),
        ({
            let l = crate::text::lower_text(e);
            l == "mp4"@ || l == "m4v"@ || l == "mov"@ || l == "avi"@ || l == "wmv"@ || l == "mkv"@
                || l == "webm"@ || l == "mpg"@ || l == "mpeg"@
        }),
    ensures
        video_key(key),
        !image_key(key),
        media_key(key),
        kind_of_key(key) == Some(MediaKind::Video),
{
    crate::path::extensions_follow_the_last_dot(Seq::empty(), stem, e);
    image_and_video_are_apart(key);
}

/// Nothing else is a medium: a file without an extension, or with any other one.
pub proof fn other_files_are_no_media(key: crate::path::PathKey, stem: Seq<char>, e: Seq<char>)
    requires
        !e.contains('.'),
        ({
            let l = crate::text::lower_text(e);
            !(l == "jpg"@ || l == "jpeg"@ || l == "png"@ || l == "gif"@ || l == "bmp"@ || l
                == "webp"@ || l == "tiff"@ || l == "tif"@) && !(l == "mp4"@ || l == "m4v"@ || l
                == "mov"@ || l == "avi"@ || l == "wmv"@ || l == "mkv"@ || l == "webm"@ || l
                == "mpg"@ || l == "mpeg"@)
        }),
        key.len() > 0 && key.last() is Normal ==> {
            let name = key.last()->Normal_0;
            !name.contains('.') || name == seq!['.'] + e || (stem.len() > 0 && name == stem
                + seq!['.'] + e)
        },
    ensures
        !media_key(key),
        kind_of_key(key) is None,
{
    if key.len() > 0 && key.last() is Normal {
        let name = key.last()->Normal_0;
        crate::path::extensions_follow_the_last_dot(name, stem, e);
    }
}

/// The label of a tile is the name of its file, cut to eighteen characters. A label of a folder
/// is its name, or its text where it has none, cut to the length that is allowed.
pub proof fn labels_are_names(p: crate::path::PathSpec, folder: crate::path::PathKey, s: Seq<char>, max: nat)
    requires
        max >= 1,
        p.parts == folder.push(crate::path::PartSpec::Normal(s)),
    ensures
        s.len() <= 18 ==> tile_label(p.parts) == s,
        s.len() > 18 ==> tile_label(p.parts).len() == 18 && tile_label(p.parts).take(17) == s.take(
            17,
        ),
        s.len() <= max ==> label_of(p, max) == s,
        s.len() > max ==> label_of(p, max).len() == max && label_of(p, max).take(max - 1) == s.take(
            max - 1,
        ),
{
    crate::path::names_are_last_components(p);
    if s.len() > 18 {
        assert(tile_label(p.parts).take(17) =~= s.take(17));
    }
    if s.len() > max {
        assert(label_of(p, max).take(max - 1) =~= s.take(max - 1));
    }
}

/// Each path of a list has its own label, at its own place.
pub proof fn each_path_has_its_label(s: Seq<crate::path::PathSpec>, max: nat, i: int)
    requires
        0 <= i < s.len(),
    ensures
        labels_of(s, max).len() == s.len(),
        labels_of(s, max)[i] == label_of(s[i], max),
{
}

/// Off Windows nothing is the root of a drive; on Windows such a root is a text that ends in a
/// colon and a backslash.
pub proof fn drives_end_in_colon_and_backslash(front: Seq<char>, text: Seq<char>)
    ensures
        drive_root(front + seq![':', '\\'], true),
        !drive_root(text, false),
        drive_root(text, true) ==> text == text.take(text.len() - 2) + seq![':', '\\'],
{
    if drive_root(text, true) {
        assert(text =~= text.take(text.len() - 2) + seq![':', '\\']);
    }
}

/// The kind of a file is told by its extension, in capitals or small letters.
pub proof fn files_are_told_by_their_extensions(
    path: MediaPath,
    stem: Seq<char>,
    e: Seq<char>,
    kind: Option<MediaKind>,
    medium: bool,
)
    requires
        call_ensures(media_kind, (&path,), kind),
        call_ensures(is_media, (&path,), medium),
        path@.parts.len() > 0,
        path@.parts.last() == crate::path::PartSpec::Normal(stem + seq!['.'] + e),
        stem.len() > 0,
        !e.contains('.'),
    ensures
        ({
            let l = crate::text::lower_text(e);
            let image = l == "jpg"@ || l == "jpeg"@ || l == "png"@ || l == "gif"@ || l == "bmp"@ || l
                == "webp"@ || l == "tiff"@ || l == "tif"@;
            let video = l == "mp4"@ || l == "m4v"@ || l == "mov"@ || l == "avi"@ || l == "wmv"@ || l
                == "mkv"@ || l == "webm"@ || l == "mpg"@ || l == "mpeg"@;
            &&& image ==> kind == Some(MediaKind::Image)
            &&& !image && video ==> kind == Some(MediaKind::Video)
            &&& !image && !video ==> kind is None
            &&& medium <==> image || video
        }),
{
    let key = path@.parts;
    let l = crate::text::lower_text(e);
    let image = l == "jpg"@ || l == "jpeg"@ || l == "png"@ || l == "gif"@ || l == "bmp"@ || l
        == "webp"@ || l == "tiff"@ || l == "tif"@;
    let video = l == "mp4"@ || l == "m4v"@ || l == "mov"@ || l == "avi"@ || l == "wmv"@ || l == "mkv"@
        || l == "webm"@ || l == "mpg"@ || l == "mpeg"@;
    if image {
        image_files_are_images(key, stem, e);
    } else if video {
        video_files_are_videos(key, stem, e);
    } else {
        other_files_are_no_media(key, stem, e);
    }
}

} // verus!
