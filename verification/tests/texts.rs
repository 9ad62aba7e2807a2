use std::path::{Component, Path};

use assetview::appdata::{data_base, moves_file, takes_over};
use assetview::log::{append, file_name, init};
use assetview::media::{
    display_label_for_path, is_image, is_media, is_video, is_windows_drive_root, labels_for_paths,
    media_kind, tile_label_for_path, MediaKind,
};
use assetview::path::{compare_paths, MediaPath, PathPart};
use assetview::streak::{thumbnail_scroll_streak_after_decay, ScrollStreak, STREAK_TICK_NANOS};
use assetview::text::{compare_text, format_timecode, to_lower, truncate, Rank};

fn path(text: &str) -> MediaPath {
    let whole = Path::new(text);
    let mut parts = Vec::new();
    let mut ends = Vec::new();
    for c in whole.components() {
        parts.push(match c {
            Component::Prefix(p) => PathPart::Prefix(p.as_os_str().to_string_lossy().into_owned()),
            Component::RootDir => PathPart::RootDir,
            Component::CurDir => PathPart::CurDir,
            Component::ParentDir => PathPart::ParentDir,
            Component::Normal(n) => PathPart::Normal(n.to_string_lossy().into_owned()),
        });
        ends.push(text.chars().count());
    }
    for a in whole.ancestors() {
        let n = a.components().count();
        if n > 0 {
            ends[n - 1] = a.to_string_lossy().chars().count();
        }
    }
    MediaPath { text: text.to_owned(), parts, ends }
}

#[test]
fn recognizes_supported_image_extensions() {
    assert!(is_image(&path("photo.JPG")));
    assert!(is_image(&path("album/image.webp")));
    assert!(is_image(&path("scan.tiff")));
    assert!(is_video(&path("movie.mp4")));
    assert!(!is_image(&path("notes.txt")));
}

#[test]
fn truncates_by_character_count() {
    assert_eq!(truncate("abcdef", 4), "abc…");
    assert_eq!(truncate("あいうえお", 3), "あい…");
    assert_eq!(truncate("ok", 4), "ok");
}

#[test]
fn decays_thumbnail_scroll_streak_gradually() {
    assert_eq!(thumbnail_scroll_streak_after_decay(6, 1), 5);
    assert_eq!(thumbnail_scroll_streak_after_decay(6, 10), 1);
    assert_eq!(thumbnail_scroll_streak_after_decay(1, 10), 1);
}

#[test]
fn a_streak_wears_off_in_turns_as_at_once() {
    for streak in 0..12 {
        for a in 0..6 {
            let once = thumbnail_scroll_streak_after_decay(streak, a);
            assert!(once >= 1 && once <= streak.max(1));
            for b in 0..6 {
                assert_eq!(
                    thumbnail_scroll_streak_after_decay(once, b),
                    thumbnail_scroll_streak_after_decay(streak, a + b)
                );
            }
        }
    }
}

#[test]
fn tells_kinds_of_media_apart() {
    assert_eq!(media_kind(&path("a.PNG")), Some(MediaKind::Image));
    assert_eq!(media_kind(&path("a.mKv")), Some(MediaKind::Video));
    assert_eq!(media_kind(&path("a.txt")), None);
    assert_eq!(media_kind(&path(".png")), None);
    assert_eq!(media_kind(&path("folder.png/..")), None);
    assert!(is_media(&path("x/y.gif")));
    assert!(is_media(&path("x/y.webm")));
    assert!(!is_media(&path("x/y")));
    assert!(!is_video(&path("a.png")));
    assert!(!is_image(&path("a.mp4")));
}

#[test]
fn truncates_at_the_edges() {
    assert_eq!(truncate("abcd", 4), "abcd");
    assert_eq!(truncate("ab", 1), "…");
    assert_eq!(truncate("", 3), "");
    assert_eq!(truncate(truncate("abcdef", 4).as_str(), 4), "abc…");
}

#[test]
fn orders_and_lowers_texts() {
    assert!(matches!(compare_text("a", "b"), Rank::Less));
    assert!(matches!(compare_text("b", "a"), Rank::Greater));
    assert!(matches!(compare_text("ab", "ab"), Rank::Equal));
    assert!(matches!(compare_text("a", "ab"), Rank::Less));
    assert_eq!(to_lower("JpG-É"), "jpg-É");
}

#[test]
fn formats_timecodes() {
    assert_eq!(format_timecode(0), "0:00");
    assert_eq!(format_timecode(65), "1:05");
    assert_eq!(format_timecode(3_599), "59:59");
    assert_eq!(format_timecode(3_661), "1:01:01");
    assert_eq!(format_timecode(360_000), "100:00:00");
}

#[test]
fn labels_paths_by_their_names() {
    assert_eq!(display_label_for_path(&path("/a/holiday"), 32), "holiday");
    assert_eq!(display_label_for_path(&path("/a/holiday"), 4), "hol…");
    assert_eq!(display_label_for_path(&path("/"), 32), "/");
    assert_eq!(tile_label_for_path(&path("/a/0123456789012345678.png")), "01234567890123456…");
    assert_eq!(tile_label_for_path(&path("/a/..")), "");
    assert_eq!(labels_for_paths(&vec![path("/a/b"), path("/c")], 8), vec!["b", "c"]);
}

#[test]
fn knows_drive_roots() {
    assert!(is_windows_drive_root(&path("C:\\"), true));
    assert!(!is_windows_drive_root(&path("C:\\"), false));
    assert!(!is_windows_drive_root(&path("C:\\x"), true));
}

#[test]
fn takes_paths_apart() {
    let p = path("/pics//trip/a.tar.gz");
    assert_eq!(p.file_name(), Some("a.tar.gz".to_owned()));
    assert_eq!(p.extension(), Some("gz".to_owned()));
    assert_eq!(p.parent().map(|x| x.text), Some("/pics//trip".to_owned()));
    assert_eq!(path("a.png").parent().map(|x| x.text), Some(String::new()));
    assert!(path("a.png").folder().is_none());
    assert!(path("/").parent().is_none());
    assert!(p.starts_with(&path("/pics/trip")));
    assert!(!p.starts_with(&path("/pics/tri")));
    assert!(path("/a//b").same(&path("/a/b")));
    assert!(matches!(compare_paths(&path("/a/b"), &path("/a.b")), Rank::Less));
}

#[test]
fn scroll_streak_grows_and_wears_off() {
    let mut s = ScrollStreak::new();
    s.wheel(1, false, 0);
    assert_eq!(s.streak, 1);
    s.wheel(1, true, 10);
    s.wheel(1, true, 20);
    assert_eq!(s.streak, 3);
    let wake = s.tick(20 + STREAK_TICK_NANOS);
    assert_eq!(s.streak, 2);
    assert!(wake.now);
    assert_eq!(wake.after, Some(STREAK_TICK_NANOS));
    let wake = s.tick(20 + 5 * STREAK_TICK_NANOS);
    assert_eq!(s.streak, 1);
    assert!(wake.now);
    assert_eq!(wake.after, None);
    s.wheel(1, true, 30);
    s.wheel(-1, true, 40);
    assert_eq!(s.streak, 1);
    assert_eq!(s.last_dir, -1);
}

#[test]
fn writes_log_lines() {
    let log = path("/tmp/x.log");
    assert_eq!(file_name(), "AssetView_debug.log");
    assert_eq!(init("1.2.3"), "=== AssetView 1.2.3 start ===\n");
    assert_eq!(append(&Some(log.clone()), "hello"), Some("hello\n".to_owned()));
    assert_eq!(append(&None, "hello"), None);
    assert_eq!(assetview::log::path(&Some(log)), "/tmp/x.log");
    assert_eq!(assetview::log::path(&None), "(log not initialized)");
}

#[test]
fn finds_the_data_folder() {
    assert_eq!(data_base(Some("L".to_owned()), Some("R".to_owned())), "L");
    assert_eq!(data_base(None, Some("R".to_owned())), "R");
    assert_eq!(data_base(None, None), ".");
    assert!(takes_over(true, false));
    assert!(!takes_over(true, true));
    assert!(!takes_over(false, false));
    assert!(moves_file(true, false));
    assert!(!moves_file(true, true));
    assert!(!moves_file(false, false));
}
