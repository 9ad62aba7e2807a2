use std::path::{Component, Path};

use assetview::diff::{collect_removed_subtree, diff_entries, scan_folder_diff, scan_library_diff};
use assetview::grid::{GridRow, ThumbnailGridLayout};
use assetview::index::MediaIndex;
use assetview::path::{MediaPath, PathPart};
use assetview::pathmap::{PathMap, PathSet};
use assetview::scan::{
    media_mtimes, scan_folder, scan_images, scan_library, scan_subdirs, take_snapshot, DirSnapshot,
    DirTree, FolderGroup, MediaEntry, RawEntry,
};
use assetview::start::{finish_start, plan_start, requested_folder, requested_media, StartPlan};
use assetview::settings::AppSettings;
use assetview::tree::{arrow_of, end_row, get_roots, node_row, Arrow, FolderNode};
use assetview::work::{folders_to_read, run_scan, ScanRequest, ViewMode};

fn path(text: &str) -> MediaPath {
    let whole = Path::new(text);
    let mut parts = Vec::new();
    let mut ends = Vec::new();
    for c in whole.components() {
        parts.push(match c {
            Component::Prefix(p) => PathPart::Prefix(p.as_os_str().to_string_lossy().into_owned()),
            Component::RootDir => PathPart::RootDir,
            Component::CurDir => PathPart::CurDir,
            Component::ParentDir => PathPart::ParentDir,
            Component::Normal(n) => PathPart::Normal(n.to_string_lossy().into_owned()),
        });
        ends.push(text.chars().count());
    }
    for a in whole.ancestors() {
        let n = a.components().count();
        if n > 0 {
            ends[n - 1] = a.to_string_lossy().chars().count();
        }
    }
    MediaPath { text: text.to_owned(), parts, ends }
}

fn file(folder: &str, name: &str) -> RawEntry {
    RawEntry {
        path: path(&format!("{folder}/{name}")),
        name: name.to_owned(),
        is_file: true,
        is_dir: false,
        mtime: Some(7),
    }
}

fn dir(folder: &str, name: &str) -> RawEntry {
    RawEntry {
        path: path(&format!("{folder}/{name}")),
        name: name.to_owned(),
        is_file: false,
        is_dir: true,
        mtime: Some(7),
    }
}

fn tree(folder: &str, entries: Vec<RawEntry>, children: Vec<DirTree>) -> DirTree {
    DirTree { path: path(folder), images: scan_images(&entries), children }
}

fn entry(text: &str, mtime: i64) -> MediaEntry {
    MediaEntry { path: path(text), mtime }
}

fn texts(list: &Vec<MediaPath>) -> Vec<String> {
    list.iter().map(|p| p.text.clone()).collect()
}

fn groups(list: &Vec<FolderGroup>) -> Vec<(String, Vec<String>)> {
    list.iter().map(|g| (g.path.text.clone(), texts(&g.images))).collect()
}

fn group(folder: &str, names: &[&str]) -> FolderGroup {
    let images: Vec<MediaPath> = names.iter().map(|n| path(&format!("{folder}/{n}"))).collect();
    FolderGroup {
        path: path(folder),
        display_name: folder.to_owned(),
        image_labels_short18: names.iter().map(|n| n.to_string()).collect(),
        image_is_video: names.iter().map(|n| n.ends_with(".mp4")).collect(),
        images,
    }
}

#[test]
fn scans_root_images_and_descendant_subdirs_recursively() {
    let root = vec![
        file("/r", "b.png"),
        file("/r", "a.JPG"),
        file("/r", "clip.mp4"),
        file("/r", "notes.txt"),
        dir("/r", "beta"),
        dir("/r", "alpha"),
        dir("/r", ".hidden"),
    ];
    let subdirs = scan_subdirs(&root);
    assert_eq!(texts(&subdirs), vec!["/r/alpha", "/r/beta"]);
    let nested = tree("/r/alpha/nested", vec![file("/r/alpha/nested", "deep.webp")], vec![]);
    let alpha = tree(
        "/r/alpha",
        vec![file("/r/alpha", "nested.gif"), dir("/r/alpha", "nested")],
        vec![nested],
    );
    let beta = tree("/r/beta", vec![file("/r/beta", "readme.md")], vec![]);

    let scan = scan_folder(&tree("/r", root, vec![alpha, beta]));

    assert_eq!(scan.direct_subdirs.len(), 2);
    assert_eq!(scan.groups.len(), 3);
    assert_eq!(scan.groups[0].path.text, "/r");
    assert_eq!(scan.groups[0].images.len(), 3);
    assert_eq!(scan.groups[1].path.text, "/r/alpha");
    assert_eq!(scan.groups[1].images.len(), 1);
    assert_eq!(scan.groups[2].path.text, "/r/alpha/nested");
    assert_eq!(scan.groups[2].images.len(), 1);
    assert_eq!(texts(&scan.groups[0].images), vec!["/r/a.JPG", "/r/b.png", "/r/clip.mp4"]);
    assert_eq!(scan.groups[0].image_is_video, vec![false, false, true]);
    assert_eq!(scan.snapshots.len(), 4);
    assert_eq!(scan.changed_media.len(), 5);
    assert!(scan.removed_media.is_empty());
}

#[test]
fn media_without_a_time_are_passed_over() {
    let mut e = file("/r", "a.png");
    e.mtime = None;
    let found = scan_images(&vec![e, file("/r", "b.png"), dir("/r", "c.png")]);
    assert_eq!(found.len(), 1);
    assert_eq!(found[0].path.text, "/r/b.png");
    assert_eq!(found[0].mtime, 7);
}

#[test]
fn library_shows_each_folder_once() {
    let inner = || tree("/r/in", vec![file("/r/in", "x.png")], vec![]);
    let outer = tree("/r", vec![file("/r", "y.png"), dir("/r", "in")], vec![inner()]);
    let scan = scan_library(&vec![inner(), outer]);
    let all = groups(&scan.groups);
    assert_eq!(all.len(), 2);
    assert!(all.contains(&("/r".to_owned(), vec!["/r/y.png".to_owned()])));
    assert!(all.contains(&("/r/in".to_owned(), vec!["/r/in/x.png".to_owned()])));
    assert_eq!(scan.changed_media.len(), 2);
}

#[test]
fn tells_when_media_were_written() {
    let t = tree("/r", vec![file("/r", "a.png")], vec![]);
    let scan = scan_folder(&t);
    let times = media_mtimes(&scan.snapshots);
    assert_eq!(times.get(&path("/r/a.png")), Some(&7));
    assert_eq!(times.get(&path("/r/b.png")), None);
}

#[test]
fn finds_new_changed_and_gone_media() {
    let prev = DirSnapshot {
        images: vec![entry("/r/a.png", 1), entry("/r/b.png", 1), entry("/r/c.png", 1)],
        subdirs: vec![],
    };
    let now = DirSnapshot {
        images: vec![entry("/r/b.png", 2), entry("/r/c.png", 1), entry("/r/d.png", 1)],
        subdirs: vec![],
    };
    let mut added: PathSet = PathMap::new();
    let mut removed: PathSet = PathMap::new();
    diff_entries(Some(&prev), &now, &mut added, &mut removed);
    assert_eq!(texts(&added.to_list()), vec!["/r/b.png", "/r/d.png"]);
    assert_eq!(texts(&removed.to_list()), vec!["/r/a.png", "/r/b.png"]);

    let mut all: PathSet = PathMap::new();
    let mut none: PathSet = PathMap::new();
    diff_entries(None, &now, &mut all, &mut none);
    assert_eq!(all.len(), 3);
    assert!(none.is_empty());
}

#[test]
fn unchanged_folders_do_not_change() {
    let make = || {
        tree(
            "/r",
            vec![file("/r", "a.png"), dir("/r", "in")],
            vec![tree("/r/in", vec![file("/r/in", "x.mp4")], vec![])],
        )
    };
    let first = scan_folder(&make());
    let again = scan_folder_diff(&make(), &first.snapshots);
    assert!(again.changed_media.is_empty());
    assert!(again.removed_media.is_empty());
    assert_eq!(groups(&again.groups), groups(&first.groups));
    let library = scan_library_diff(&vec![make()], &first.snapshots);
    assert!(library.changed_media.is_empty());
    assert!(library.removed_media.is_empty());
}

#[test]
fn a_folder_that_is_gone_takes_its_media_along() {
    let first = scan_folder(&tree(
        "/r",
        vec![file("/r", "a.png"), dir("/r", "in")],
        vec![tree(
            "/r/in",
            vec![file("/r/in", "x.mp4"), dir("/r/in", "deep")],
            vec![tree("/r/in/deep", vec![file("/r/in/deep", "y.png")], vec![])],
        )],
    ));
    let mut gone: PathSet = PathMap::new();
    collect_removed_subtree(&path("/r/in"), &first.snapshots, &mut gone);
    assert_eq!(texts(&gone.to_list()), vec!["/r/in/deep/y.png", "/r/in/x.mp4"]);

    let now = scan_folder_diff(&tree("/r", vec![file("/r", "a.png")], vec![]), &first.snapshots);
    assert!(now.changed_media.is_empty());
    assert_eq!(texts(&now.removed_media), vec!["/r/in/deep/y.png", "/r/in/x.mp4"]);
}

#[test]
fn snapshots_hold_media_and_subfolders() {
    let t = tree(
        "/r",
        vec![file("/r", "a.png"), dir("/r", "in")],
        vec![tree("/r/in", vec![], vec![])],
    );
    let s = take_snapshot(&t);
    assert_eq!(s.images.len(), 1);
    assert_eq!(texts(&s.subdirs), vec!["/r/in"]);
}

#[test]
fn scan_requests_read_their_folders() {
    let request = ScanRequest {
        generation: 4,
        selected_folder: Some(path("/r")),
        view_mode: ViewMode::Folder,
        push_history: true,
        managed_folders: None,
        prev_snapshots: None,
    };
    assert_eq!(texts(&folders_to_read(&request)), vec!["/r"]);
    let found = run_scan(request, &vec![tree("/r", vec![file("/r", "a.png")], vec![])]);
    assert_eq!(found.generation, 4);
    assert!(found.push_history);
    assert!(!found.incremental);
    assert_eq!(texts(&found.changed_media), vec!["/r/a.png"]);

    let library = ScanRequest {
        generation: 5,
        selected_folder: None,
        view_mode: ViewMode::Library,
        push_history: false,
        managed_folders: Some(vec![path("/r"), path("/s")]),
        prev_snapshots: Some(found.dir_snapshots),
    };
    assert_eq!(texts(&folders_to_read(&library)), vec!["/r", "/s"]);
    let found = run_scan(
        library,
        &vec![
            tree("/r", vec![file("/r", "a.png")], vec![]),
            tree("/s", vec![file("/s", "b.png")], vec![]),
        ],
    );
    assert!(found.incremental);
    assert_eq!(texts(&found.changed_media), vec!["/s/b.png"]);
    assert_eq!(found.folder_groups.len(), 2);
}

#[test]
fn index_finds_media_and_images() {
    let list = vec![group("/r", &["a.png", "m.mp4"]), group("/s", &["n.mp4", "b.png", "o.mp4"])];
    let index = MediaIndex::of_groups(&list);
    assert_eq!(index.total_media(), 5);
    assert_eq!(index.total_images(), 2);
    assert_eq!(texts(index.all_slideshow_images()), vec!["/r/a.png", "/s/b.png"]);
    assert_eq!(index.image_labels(), &vec!["a.png", "b.png"]);
    assert_eq!(index.place_of(&path("/s/b.png")), Some(3));
    assert_eq!(index.place_of(&path("/s/z.png")), None);
    assert_eq!(index.media_at(1).map(|p| p.text), Some("/r/m.mp4".to_owned()));
    assert!(index.media_at(5).is_none());
    assert_eq!(index.slideshow_index_for_media_index(1), Some(1));
    assert_eq!(index.slideshow_index_for_media_index(0), Some(1));
    assert_eq!(index.slideshow_index_for_media_index(3), Some(0));
    assert_eq!(index.slideshow_index_for_media_index(4), Some(1));
    assert_eq!(index.slideshow_index_for_media_index(5), None);
    let videos = MediaIndex::of_groups(&vec![group("/r", &["m.mp4"])]);
    assert_eq!(videos.slideshow_index_for_media_index(0), None);
}

#[test]
fn grid_goes_through_groups_row_by_row() {
    let list = vec![
        group("/r", &["a.png", "b.png", "c.png"]),
        group("/s", &[]),
        group("/t", &["d.png"]),
    ];
    let grid = ThumbnailGridLayout::of_groups(&list, 2);
    assert_eq!(grid.total_rows(), 5);
    assert!(matches!(grid.row_at(0), Some(GridRow::Heading { group: 0 })));
    assert!(matches!(
        grid.row_at(1),
        Some(GridRow::Tiles { group: 0, from: 0, to: 2, base: 0 })
    ));
    assert!(matches!(
        grid.row_at(2),
        Some(GridRow::Tiles { group: 0, from: 2, to: 3, base: 0 })
    ));
    assert!(matches!(grid.row_at(3), Some(GridRow::Heading { group: 2 })));
    assert!(matches!(
        grid.row_at(4),
        Some(GridRow::Tiles { group: 2, from: 0, to: 1, base: 3 })
    ));
    assert!(grid.row_at(5).is_none());
    let (visible, nearby) = grid.media_on_show(1, 2, false);
    assert_eq!(visible, vec![0, 1]);
    assert_eq!(nearby, vec![2, 3]);
    let (visible, nearby) = grid.media_on_show(2, 9, true);
    assert_eq!(visible, vec![2, 3]);
    assert!(nearby.is_empty());
}

#[test]
fn starts_with_what_was_asked_for() {
    let asked = requested_media(Some(path("/r/a.png")));
    assert!(asked.is_some());
    assert!(requested_media(Some(path("/r/a.txt"))).is_none());
    assert!(requested_media(None).is_none());
    let last = Some(path("/last"));
    assert_eq!(requested_folder(&asked, &last).map(|p| p.text), Some("/r".to_owned()));
    assert_eq!(requested_folder(&None, &last).map(|p| p.text), Some("/last".to_owned()));
    let bare = Some(path("a.png"));
    assert_eq!(requested_folder(&bare, &last).map(|p| p.text), Some("/last".to_owned()));
    assert!(matches!(plan_start(Some(path("/r")), true, 3), StartPlan::Folder(_)));
    assert!(matches!(plan_start(Some(path("/r")), false, 3), StartPlan::Library));
    assert!(matches!(plan_start(None, false, 0), StartPlan::Nothing));

    let found = finish_start(
        StartPlan::Folder(path("/r")),
        &vec![tree("/r", vec![file("/r", "a.png")], vec![])],
        get_roots(vec![path("/")]),
        AppSettings::unset(5, 1),
        asked,
        true,
    );
    assert_eq!(groups(&found.folder_groups), vec![("/r".to_owned(), vec!["/r/a.png".to_owned()])]);
    assert_eq!(found.initial_image.map(|p| p.text), Some("/r/a.png".to_owned()));
    assert_eq!(found.roots.len(), 1);
    let nothing =
        finish_start(StartPlan::Nothing, &vec![], vec![], AppSettings::unset(5, 1), None, false);
    assert!(nothing.folder_groups.is_empty());
    assert!(nothing.selected_folder.is_none());
}

#[test]
fn tree_opens_towards_the_folder_on_show() {
    let on_show = Some(path("/r/in/deep"));
    let row = node_row(&path("/r/in"), &on_show, &on_show, false);
    assert!(row.expand);
    assert!(!row.selected);
    let here = node_row(&path("/r/in/deep"), &on_show, &on_show, false);
    assert!(!here.expand);
    assert!(here.selected);
    let aside = node_row(&path("/r/i"), &on_show, &on_show, false);
    assert!(!aside.expand);
    assert!(node_row(&path("C:\\"), &None, &None, true).drive);
    assert!(matches!(arrow_of(false, false, false), Arrow::NoChildren));
    assert!(matches!(arrow_of(false, true, false), Arrow::Closed));
    assert!(matches!(arrow_of(true, false, true), Arrow::Open));

    let mut selected = on_show;
    let mut scroll = true;
    assert!(!end_row(&path("/r"), &row, true, &mut selected, &mut scroll));
    assert_eq!(selected.map(|p| p.text), Some("/r".to_owned()));
    assert!(scroll);
    let mut none = None;
    assert!(end_row(&path("/r/in/deep"), &here, false, &mut none, &mut scroll));
    assert!(!scroll);
}

#[test]
fn tree_reads_children_once() {
    let mut node = FolderNode::new(path("/r"));
    assert_eq!(node.name, "r");
    let entries = vec![file("/r", "a.png"), dir("/r", "Zeta"), dir("/r", "alpha"), dir("/r", ".h")];
    assert!(node.has_visible_children(Some(&entries)));
    assert!(node.has_visible_children(None));
    node.ensure_children(Some(&entries));
    let names: Vec<String> = node.children.iter().map(|c| c.name.clone()).collect();
    assert_eq!(names, vec!["alpha", "Zeta"]);
    node.ensure_children(Some(&vec![]));
    assert_eq!(node.children.len(), 2);
    let mut empty = FolderNode::new(path("/e"));
    assert!(!empty.has_visible_children(None));
    assert_eq!(empty.has_visible_children, Some(false));
}

fn at(folder: &str, name: &str, mtime: i64) -> RawEntry {
    let mut e = file(folder, name);
    e.mtime = Some(mtime);
    e
}

#[test]
fn a_second_scan_reports_exactly_what_changed() {
    let before = tree(
        "/r",
        vec![at("/r", "a.png", 1), at("/r", "b.png", 1), at("/r", "x.png", 1)],
        vec![
            tree("/r/gone", vec![at("/r/gone", "g.png", 1)], vec![tree(
                "/r/gone/deep",
                vec![at("/r/gone/deep", "d.png", 1)],
                vec![],
            )]),
            tree("/r/kept", vec![at("/r/kept", "k.png", 1), at("/r/kept", "l.png", 1)], vec![]),
        ],
    );
    let first = scan_folder(&before);
    let now = tree(
        "/r",
        vec![at("/r", "a.png", 1), at("/r", "b.png", 2), at("/r", "c.png", 1)],
        vec![
            tree("/r/kept", vec![at("/r/kept", "k.png", 1)], vec![]),
            tree("/r/new", vec![at("/r/new", "n.png", 1)], vec![]),
            tree("/r/x.png", vec![at("/r/x.png", "y.png", 1)], vec![]),
        ],
    );
    let second = scan_folder_diff(&now, &first.snapshots);
    assert_eq!(
        texts(&second.changed_media),
        vec!["/r/b.png", "/r/c.png", "/r/new/n.png", "/r/x.png/y.png"]
    );
    assert_eq!(
        texts(&second.removed_media),
        vec!["/r/b.png", "/r/gone/deep/d.png", "/r/gone/g.png", "/r/kept/l.png", "/r/x.png"]
    );
    let third = scan_folder_diff(&now, &second.snapshots);
    assert!(third.changed_media.is_empty() && third.removed_media.is_empty());
}

#[test]
fn a_folder_that_lies_in_the_library_adds_nothing() {
    let inner = || tree("/r/s", vec![file("/r/s", "b.png"), file("/r/s", "v.mp4")], vec![]);
    let outer = || tree("/r", vec![file("/r", "a.png")], vec![inner()]);
    let other = || tree("/q", vec![file("/q", "c.png")], vec![]);
    let library = scan_library(&vec![outer(), other()]);
    for extra in [inner(), outer(), other()] {
        let more = scan_library(&vec![outer(), other(), extra]);
        assert_eq!(groups(&more.groups), groups(&library.groups));
        assert_eq!(texts(&more.changed_media), texts(&library.changed_media));
        assert_eq!(more.snapshots.len(), library.snapshots.len());
    }
}

#[test]
fn groups_show_what_their_snapshots_hold() {
    let long = "a_name_that_is_much_too_long.png";
    let deep = tree("/r/s", vec![file("/r/s", "v.mp4"), file("/r/s", long)], vec![]);
    let scan = scan_folder(&tree("/r", vec![file("/r", "notes.txt")], vec![deep]));
    assert_eq!(scan.groups.len(), 1);
    let g = &scan.groups[0];
    assert_eq!(texts(&g.images), vec![format!("/r/s/{long}"), "/r/s/v.mp4".to_owned()]);
    assert_eq!(g.image_is_video, vec![false, true]);
    assert_eq!(g.image_labels_short18, vec!["a_name_that_is_mu…", "v.mp4"]);
    let kept = scan.snapshots.get(&path("/r/s")).unwrap();
    let paths: Vec<String> = kept.images.iter().map(|e| e.path.text.clone()).collect();
    assert_eq!(texts(&g.images), paths);
}

#[test]
fn a_first_scan_lists_each_medium_once() {
    let inner = || tree("/r/s", vec![file("/r/s", "b.png"), file("/r/s", "a.png")], vec![]);
    let outer = || tree("/r", vec![file("/r", "z.png")], vec![inner()]);
    let request = |view_mode| ScanRequest {
        generation: 1,
        selected_folder: Some(path("/r")),
        view_mode,
        push_history: false,
        managed_folders: None,
        prev_snapshots: None,
    };
    let found = run_scan(request(ViewMode::Folder), &vec![outer()]);
    assert_eq!(texts(&found.changed_media), vec!["/r/z.png", "/r/s/a.png", "/r/s/b.png"]);
    assert!(found.removed_media.is_empty());
    let found = run_scan(request(ViewMode::Library), &vec![inner(), outer()]);
    assert_eq!(texts(&found.changed_media), vec!["/r/s/a.png", "/r/s/b.png", "/r/z.png"]);
    assert!(found.removed_media.is_empty());
}
