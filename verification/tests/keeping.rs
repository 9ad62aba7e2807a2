use std::path::{Component, Path};

use assetview::cache::{
    get, is_outdated, open_statements, pixels_of_row, put, remove_paths, SqlValue, DELETE_SQL,
    HAS_THUMB_MAX_SQL, HAS_VARIANT_SQL, INSERT_SQL, SELECT_SQL,
};
use assetview::history::History;
use assetview::path::{MediaPath, PathPart};
use assetview::pathmap::PathMap;
use assetview::recent::{PathList, RECENT_CAP, RECENT_LABEL};
use assetview::settings::{
    join_texts, load_settings, parse_line, parse_settings, save_settings, split_lines, split_text,
    Known, Setting, ToSave,
};
use rusqlite::types::Value;
use rusqlite::Connection;

fn path(text: &str) -> MediaPath {
    let whole = Path::new(text);
    let mut parts = Vec::new();
    let mut ends = Vec::new();
    for c in whole.components() {
        parts.push(match c {
            Component::Prefix(p) => PathPart::Prefix(p.as_os_str().to_string_lossy().into_owned()),
            Component::RootDir => PathPart::RootDir,
            Component::CurDir => PathPart::CurDir,
            Component::ParentDir => PathPart::ParentDir,
            Component::Normal(n) => PathPart::Normal(n.to_string_lossy().into_owned()),
        });
        ends.push(text.chars().count());
    }
    for a in whole.ancestors() {
        let n = a.components().count();
        if n > 0 {
            ends[n - 1] = a.to_string_lossy().chars().count();
        }
    }
    MediaPath { text: text.to_owned(), parts, ends }
}

fn texts(list: &Vec<MediaPath>) -> Vec<String> {
    list.iter().map(|p| p.text.clone()).collect()
}

fn values(list: Vec<SqlValue>) -> Vec<Value> {
    list.into_iter()
        .map(|v| match v {
            SqlValue::Text(t) => Value::Text(t),
            SqlValue::Integer(i) => Value::Integer(i),
            SqlValue::Blob(b) => Value::Blob(b),
        })
        .collect()
}

fn count(db: &Connection, sql: &str) -> Option<i64> {
    db.query_row(sql, [], |row| row.get(0)).ok()
}

fn open() -> Connection {
    let db = Connection::open_in_memory().unwrap();
    let outdated = is_outdated(count(&db, HAS_THUMB_MAX_SQL), count(&db, HAS_VARIANT_SQL));
    assert!(outdated);
    for sql in open_statements(outdated) {
        db.execute_batch(sql).unwrap();
    }
    db
}

fn read(db: &Connection, path: &str, mtime: i64, thumb_max: u32) -> Option<(u32, u32, Vec<u8>)> {
    let row = db.query_row(
        SELECT_SQL,
        rusqlite::params_from_iter(values(get(path, mtime, thumb_max))),
        |row| Ok((row.get(0)?, row.get(1)?, row.get(2)?)),
    );
    let (width, height, data): (i64, i64, Vec<u8>) = row.ok()?;
    let p = pixels_of_row(width, height, data)?;
    Some((p.width, p.height, p.rgba))
}

#[test]
fn cache_round_trips_entries() {
    let db = open();

    let path = "/tmp/example.png";
    let mtime = 1_725_000_000;
    let data = vec![1_u8, 2, 3, 4, 5, 6, 7, 8];

    let row = values(put(path, mtime, 300, 2, 1, &data));
    db.execute(INSERT_SQL, rusqlite::params_from_iter(row)).unwrap();
    assert_eq!(read(&db, path, mtime, 300), Some((2, 1, data.clone())));
    assert_eq!(read(&db, path, mtime + 1, 300), None); // mtime mismatch
    assert_eq!(read(&db, path, mtime, 150), None); // thumb_max mismatch
}

#[test]
fn cache_forgets_removed_paths() {
    let db = open();
    let data = vec![9_u8, 9, 9, 9];
    for name in ["/a.png", "/b.png"] {
        let row = values(put(name, 5, 300, 1, 1, &data));
        db.execute(INSERT_SQL, rusqlite::params_from_iter(row)).unwrap();
    }
    for text in remove_paths(&vec![path("/a.png")]) {
        db.execute(DELETE_SQL, [text]).unwrap();
    }
    assert_eq!(read(&db, "/a.png", 5, 300), None);
    assert_eq!(read(&db, "/b.png", 5, 300), Some((1, 1, data)));
    let newer = values(put("/b.png", 6, 300, 1, 1, &vec![1_u8, 2, 3, 4]));
    db.execute(INSERT_SQL, rusqlite::params_from_iter(newer)).unwrap();
    assert_eq!(read(&db, "/b.png", 5, 300), None);
    assert_eq!(read(&db, "/b.png", 6, 300), Some((1, 1, vec![1, 2, 3, 4])));
}

#[test]
fn cache_forgets_all_paths_of_a_list() {
    let db = open();
    let data = vec![9_u8, 9, 9, 9];
    for name in ["/a.png", "/b.png", "/c.png"] {
        for limit in [150, 300] {
            let row = values(put(name, 5, limit, 1, 1, &data));
            db.execute(INSERT_SQL, rusqlite::params_from_iter(row)).unwrap();
        }
    }
    let gone = remove_paths(&vec![path("/a.png"), path("/c.png"), path("/a.png")]);
    assert_eq!(gone, vec!["/a.png", "/c.png", "/a.png"]);
    for text in gone {
        db.execute(DELETE_SQL, [text]).unwrap();
    }
    for limit in [150, 300] {
        assert_eq!(read(&db, "/a.png", 5, limit), None);
        assert_eq!(read(&db, "/b.png", 5, limit), Some((1, 1, data.clone())));
        assert_eq!(read(&db, "/c.png", 5, limit), None);
    }
}

#[test]
fn cache_knows_old_tables() {
    let db = open();
    assert!(!is_outdated(count(&db, HAS_THUMB_MAX_SQL), count(&db, HAS_VARIANT_SQL)));
    assert_eq!(open_statements(false).len(), 1);
    assert!(is_outdated(Some(1), Some(0)));
    assert!(is_outdated(Some(1), None));
    assert!(pixels_of_row(-1, 1, vec![]).is_none());
    assert!(pixels_of_row(1, 5_000_000_000, vec![]).is_none());
}

#[test]
fn settings_are_written_line_by_line() {
    let s = ToSave {
        last_folder: Some(path("/pics")),
        interval: "4.5".to_owned(),
        fade_enabled: true,
        pixel_perfect: false,
        media_volume: "0.8".to_owned(),
        media_muted: true,
        show_thumbnail_filenames: false,
        managed_folders: vec![path("/m")],
        recent_folders: vec![path("/a"), path("/b")],
        recent_images: vec![],
    };
    let text = save_settings(&s);
    let lines: Vec<&str> = text.lines().collect();
    assert!(lines.contains(&"last_folder=/pics"));
    assert!(lines.contains(&"slideshow_interval=4.5"));
    assert!(lines.contains(&"recent_folders=/a|/b"));
    assert!(lines.contains(&"managed_folders=/m"));
    let read = parse_settings(&text);
    assert!(matches!(&read[0], Setting::LastFolder(f) if f == "/pics"));
    assert!(read.iter().any(|s| matches!(s, Setting::Muted(true))));
    assert!(read.iter().any(|s| matches!(s, Setting::Fade(true))));
    assert!(read.iter().any(|s| matches!(s, Setting::PixelPerfect(false))));
    assert!(read.iter().any(|s| matches!(s, Setting::ShowNames(false))));
    assert!(read.iter().any(|s| matches!(s, Setting::Volume(v) if v == "0.8")));
    assert!(read
        .iter()
        .any(|s| matches!(s, Setting::RecentFolders(v) if v == &vec!["/a", "/b"])));
}

fn look(s: Setting) -> Known<u32> {
    let all = |v: Vec<String>| v.iter().map(|t| Some(path(t))).collect();
    match s {
        Setting::LastFolder(t) => Known::LastFolder(Some(path(&t))),
        Setting::Interval(t) => Known::Interval(t.parse().ok()),
        Setting::Fade(b) => Known::Fade(b),
        Setting::PixelPerfect(b) => Known::PixelPerfect(b),
        Setting::Volume(t) => Known::Volume(t.parse().ok()),
        Setting::Muted(b) => Known::Muted(b),
        Setting::ShowNames(b) => Known::ShowNames(b),
        Setting::RecentFolders(v) => Known::RecentFolders(all(v)),
        Setting::RecentImages(v) => Known::RecentImages(all(v)),
        Setting::ManagedFolders(v) => Known::ManagedFolders(all(v)),
    }
}

#[test]
fn what_is_saved_is_loaded() {
    for full in [true, false] {
        let list = |a: &[&str]| -> Vec<MediaPath> {
            a.iter().filter(|_| full).map(|t| path(t)).collect()
        };
        let text = save_settings(&ToSave {
            last_folder: if full { Some(path("/pics")) } else { None },
            interval: "7".to_owned(),
            fade_enabled: !full,
            pixel_perfect: full,
            media_volume: "33".to_owned(),
            media_muted: full,
            show_thumbnail_filenames: !full,
            managed_folders: list(&["/m", "/n"]),
            recent_folders: list(&["/a", "/b"]),
            recent_images: list(&["/a/x.png", "/b/y.mp4"]),
        });
        let known = parse_settings(&text).into_iter().map(look).collect();
        let s = load_settings(5, 10, known);
        assert_eq!(s.last_folder.map(|p| p.text), if full { Some("/pics".to_owned()) } else { None });
        assert_eq!((s.interval, s.media_volume), (7, 33));
        assert_eq!((s.fade_enabled, s.pixel_perfect), (!full, full));
        assert_eq!((s.media_muted, s.show_thumbnail_filenames), (full, !full));
        assert_eq!(texts(&s.managed_folders), texts(&list(&["/m", "/n"])));
        assert_eq!(texts(&s.recent_folders), texts(&list(&["/a", "/b"])));
        assert_eq!(texts(&s.recent_images), texts(&list(&["/a/x.png", "/b/y.mp4"])));
    }
}

#[test]
fn other_lines_are_passed_over() {
    assert!(parse_line("something=1").is_none());
    assert!(parse_line("last_folder").is_none());
    assert!(parse_line("").is_none());
    assert!(matches!(parse_line("slideshow_fade=1"), Some(Setting::Fade(true))));
    assert!(matches!(parse_line("slideshow_fade=no"), Some(Setting::Fade(true))));
    assert!(matches!(parse_line("slideshow_fade=0"), Some(Setting::Fade(false))));
    assert!(matches!(parse_line("media_muted= 0\t"), Some(Setting::Muted(false))));
    assert_eq!(split_lines("a\r\nb\n"), vec!["a", "b"]);
    assert_eq!(split_text("a||b", '|'), vec!["a", "", "b"]);
    assert_eq!(split_text("", '|'), vec![""]);
    assert_eq!(join_texts(&vec!["a".to_owned(), "b".to_owned()], '|'), "a|b");
}

#[test]
fn settings_keep_what_is_still_there() {
    let s = load_settings(
        5,
        10,
        vec![
            Known::LastFolder(None),
            Known::Interval(Some(9)),
            Known::Volume(None),
            Known::Muted(true),
            Known::RecentFolders(vec![Some(path("/a")), None, Some(path("/b"))]),
            Known::RecentImages(vec![Some(path("/a/x.png")), Some(path("/a/x.txt"))]),
            Known::ManagedFolders((0..30).map(|i| Some(path(&format!("/m{i}")))).collect()),
        ],
    );
    assert!(s.last_folder.is_none());
    assert_eq!(s.interval, 9);
    assert_eq!(s.media_volume, 10);
    assert!(s.media_muted);
    assert!(s.fade_enabled);
    assert_eq!(texts(&s.recent_folders), vec!["/a", "/b"]);
    assert_eq!(texts(&s.recent_images), vec!["/a/x.png"]);
    assert_eq!(s.managed_folders.len(), 20);
}

#[test]
fn recent_list_keeps_the_newest_in_front() {
    let mut list = PathList::new(RECENT_CAP, RECENT_LABEL);
    for i in 0..12 {
        list.push(path(&format!("/f{i}")));
    }
    assert_eq!(list.paths().len(), 10);
    assert_eq!(list.paths()[0].text, "/f11");
    list.push(path("/f5"));
    assert_eq!(list.paths()[0].text, "/f5");
    assert_eq!(list.paths().len(), 10);
    assert_eq!(list.labels()[0], "f5");
    assert!(list.contains(&path("/f11")));
    list.remove(&path("/f11"));
    assert!(!list.contains(&path("/f11")));
    assert_eq!(list.paths().len(), 9);
    list.remove(&path("/none"));
    assert_eq!(list.copy().len(), 9);
}

#[test]
fn history_goes_back_and_forward() {
    let mut h = History::new();
    assert!(!h.can_go_back() && !h.can_go_forward());
    h.visit(&path("/a"));
    h.visit(&path("/b"));
    h.visit(&path("/b"));
    assert!(h.can_go_back());
    assert_eq!(h.go_back().map(|p| p.text), Some("/a".to_owned()));
    assert!(h.go_back().is_none());
    assert_eq!(h.go_forward().map(|p| p.text), Some("/b".to_owned()));
    assert!(h.go_forward().is_none());
    h.go_back();
    h.visit(&path("/c"));
    assert!(!h.can_go_forward());
    assert_eq!(h.go_back().map(|p| p.text), Some("/a".to_owned()));
}

#[test]
fn maps_hold_each_path_once_and_in_order() {
    let mut map: PathMap<u32> = PathMap::new();
    assert!(map.insert(path("/b"), 1));
    assert!(map.insert(path("/a/c"), 2));
    assert!(map.insert(path("/a"), 3));
    assert!(!map.insert(path("/a//c"), 4));
    assert_eq!(map.len(), 3);
    let order: Vec<String> = (0..3).map(|i| map.path_at(i).text.clone()).collect();
    assert_eq!(order, vec!["/a", "/a/c", "/b"]);
    assert_eq!(map.get(&path("/a/c")), Some(&4));
    assert_eq!(*map.value_at(2), 1);
    let mut other: PathMap<u32> = PathMap::new();
    other.insert(path("/b"), 9);
    other.insert(path("/z"), 8);
    map.absorb(other);
    assert_eq!(map.get(&path("/b")), Some(&9));
    assert_eq!(map.remove(&path("/z")), Some(8));
    assert_eq!(map.remove(&path("/z")), None);
    assert!(map.contains(&path("/a")) && !map.is_empty());
}
