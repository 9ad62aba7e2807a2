use std::path::{Component, Path};

use assetview::index::MediaIndex;
use assetview::loader::{
    are_whole, are_whole_or_empty, result_of, worker_threads, LoadItem, LoadRequest, LoadResult,
    LoaderQueue, Pixels,
};
use assetview::os_dnd::{
    begin_file_drag, begin_file_drag_paths, build_hdrop_blob, drag_went_well, guid_eq,
    interface_name, supports_hdrop, DropSource, FileDataObject, FormatEtc, Reply, CF_HDROP,
    DVASPECT_CONTENT, IDATAOBJECT, IDROPSOURCE, IUNKNOWN, MK_LBUTTON, TYMED_HGLOBAL,
};
use assetview::path::{MediaPath, PathPart};
use assetview::pathmap::{PathMap, PathSet};
use assetview::picture::{full_pixels, is_scaled, thumbnail_pixels};
use assetview::pixels::{bitmap_size, capture_size, clipboard_block, swap_red_and_blue};
use assetview::scan::FolderGroup;
use assetview::thumbs::{
    count_queued_folders, prioritized_thumbnail_items, prioritized_thumbnail_items_for_paths,
    ThumbState, Thumbs,
};

fn path(text: &str) -> MediaPath {
    let whole = Path::new(text);
    let mut parts = Vec::new();
    let mut ends = Vec::new();
    for c in whole.components() {
        parts.push(match c {
            Component::Prefix(p) => PathPart::Prefix(p.as_os_str().to_string_lossy().into_owned()),
            Component::RootDir => PathPart::RootDir,
            Component::CurDir => PathPart::CurDir,
            Component::ParentDir => PathPart::ParentDir,
            Component::Normal(n) => PathPart::Normal(n.to_string_lossy().into_owned()),
        });
        ends.push(text.chars().count());
    }
    for a in whole.ancestors() {
        let n = a.components().count();
        if n > 0 {
            ends[n - 1] = a.to_string_lossy().chars().count();
        }
    }
    MediaPath { text: text.to_owned(), parts, ends }
}

fn item(priority: i32, text: &str) -> LoadItem {
    LoadItem { priority, path: path(text) }
}

fn texts(list: &Vec<MediaPath>) -> Vec<String> {
    list.iter().map(|p| p.text.clone()).collect()
}

fn group(folder: &str, names: &[&str]) -> FolderGroup {
    FolderGroup {
        path: path(folder),
        display_name: folder.to_owned(),
        images: names.iter().map(|n| path(&format!("{folder}/{n}"))).collect(),
        image_labels_short18: names.iter().map(|n| n.to_string()).collect(),
        image_is_video: names.iter().map(|_| false).collect(),
    }
}

fn result(generation: u64, text: &str, mtime: i64) -> LoadResult {
    LoadResult {
        generation,
        path: path(text),
        mtime,
        width: 1,
        height: 1,
        rgba: vec![1, 2, 3, 4],
    }
}

#[test]
fn queue_works_by_priority_and_then_by_age() {
    let mut q = LoaderQueue::new();
    assert!(q.next_batch().is_none());
    q.offer(LoadRequest {
        generation: 1,
        items: vec![item(0, "/a"), item(5, "/b"), item(0, "/c"), item(5, "/d")],
    });
    let first = q.next_batch().unwrap();
    assert_eq!(first.generation, 1);
    assert_eq!(texts(&first.paths), vec!["/b", "/d"]);
    let second = q.next_batch().unwrap();
    assert_eq!(texts(&second.paths), vec!["/a", "/c"]);
    assert!(q.next_batch().is_none());
}

#[test]
fn newer_requests_drop_what_waits() {
    let mut q = LoaderQueue::new();
    q.offer(LoadRequest { generation: 2, items: vec![item(0, "/old")] });
    q.offer(LoadRequest { generation: 3, items: vec![item(0, "/new")] });
    q.offer(LoadRequest { generation: 2, items: vec![item(9, "/late")] });
    assert_eq!(texts(&q.next_batch().unwrap().paths), vec!["/new"]);
    assert!(q.next_batch().is_none());
}

#[test]
fn half_the_processors_load_thumbnails() {
    assert_eq!(worker_threads(0), 1);
    assert_eq!(worker_threads(1), 1);
    assert_eq!(worker_threads(2), 1);
    assert_eq!(worker_threads(9), 4);
}

#[test]
fn only_whole_pictures_become_results() {
    let p = |w, h, n| Some(Pixels { width: w, height: h, rgba: vec![0; n] });
    let r = result_of(3, &path("/a"), 8, p(2, 1, 8)).unwrap();
    assert_eq!((r.generation, r.mtime, r.width, r.height), (3, 8, 2, 1));
    assert!(result_of(3, &path("/a"), 8, p(2, 1, 7)).is_none());
    assert!(result_of(3, &path("/a"), 8, p(0, 1, 0)).is_none());
    assert!(result_of(3, &path("/a"), 8, None).is_none());
    assert!(are_whole(2, 2, 16) && !are_whole(0, 2, 0));
    assert!(are_whole_or_empty(0, 2, 0) && !are_whole_or_empty(1, 1, 3));
}

#[test]
fn large_pictures_are_scaled_to_fit() {
    assert!(is_scaled(301, 1) && is_scaled(1, 301) && !is_scaled(300, 300));
    let wide = thumbnail_pixels(image::DynamicImage::new_rgba8(600, 300));
    assert_eq!((wide.width, wide.height, wide.rgba.len()), (300, 150, 300 * 150 * 4));
    let high = thumbnail_pixels(image::DynamicImage::new_rgb8(100, 900));
    assert_eq!((high.width, high.height, high.rgba.len()), (33, 300, 33 * 300 * 4));
    let line = thumbnail_pixels(image::DynamicImage::new_luma8(9_000, 1));
    assert_eq!((line.width, line.height), (300, 1));
    assert_eq!(line.rgba.len(), 300 * 4);
    for (w, h) in [(301, 300), (1_000, 777), (333, 900), (2_001, 2_000), (1, 5_000)] {
        let t = thumbnail_pixels(image::DynamicImage::new_rgb8(w, h));
        assert!(are_whole(t.width, t.height, t.rgba.len()));
        if w >= h {
            assert_eq!(t.width, 300);
            assert!(t.height * w <= 300 * h + w && 300 * h <= t.height * w + w);
        } else {
            assert_eq!(t.height, 300);
            assert!(t.width * h <= 300 * w + h && 300 * w <= t.width * h + h);
        }
    }
    let grey = image::GrayImage::from_pixel(600, 600, image::Luma([90]));
    let t = thumbnail_pixels(image::DynamicImage::ImageLuma8(grey));
    assert!(t.rgba.chunks(4).all(|c| c == [90, 90, 90, 255]));
}

#[test]
fn small_pictures_stay_as_they_are() {
    let mut rgb = image::RgbImage::new(2, 1);
    rgb.put_pixel(0, 0, image::Rgb([10, 20, 30]));
    rgb.put_pixel(1, 0, image::Rgb([40, 50, 60]));
    let picture = image::DynamicImage::ImageRgb8(rgb);
    let full = full_pixels(&picture);
    assert_eq!((full.width, full.height), (2, 1));
    assert_eq!(full.rgba, vec![10, 20, 30, 255, 40, 50, 60, 255]);
    let thumb = thumbnail_pixels(picture);
    assert_eq!((thumb.width, thumb.height), (2, 1));
    assert_eq!(thumb.rgba, full.rgba);
}

#[test]
fn media_of_the_selected_folder_come_first() {
    let groups = vec![group("/r", &["a.png", "b.png"]), group("/s", &["c.png"])];
    let items = prioritized_thumbnail_items(&groups, &Some(path("/s")));
    assert_eq!(items.len(), 3);
    let of = |t: &str| items.iter().find(|i| i.path.text == t).unwrap().priority;
    assert!(of("/s/c.png") > of("/r/a.png"));
    assert!(of("/r/a.png") >= of("/r/b.png"));
    assert_eq!(count_queued_folders(&items), 2);
    let mut some: PathSet = PathMap::new();
    some.add(path("/r/b.png"));
    let few = prioritized_thumbnail_items_for_paths(&groups, &None, &some);
    assert_eq!(few.len(), 1);
    assert_eq!(few[0].path.text, "/r/b.png");
}

#[test]
fn results_become_thumbnails() {
    let groups = vec![group("/r", &["a.png", "b.png"])];
    let index = MediaIndex::of_groups(&groups);
    let mut times: PathMap<i64> = PathMap::new();
    times.insert(path("/r/a.png"), 5);
    times.insert(path("/r/b.png"), 5);
    let mut t: Thumbs<u32> = Thumbs::new();
    let request = t.queue_thumbnail_jobs_full(prioritized_thumbnail_items(&groups, &None), true);
    let generation = request.unwrap().generation;
    assert_eq!((t.total, t.done, t.queued.len(), t.queued_folders), (2, 0, 2, 1));
    t.receive(vec![
        result(generation, "/r/a.png", 5),
        result(generation, "/r/b.png", 4),
        result(generation + 1, "/r/b.png", 5),
    ]);
    assert_eq!(t.deferred.len(), 2);
    t.visible = vec![0];
    let step = t.upload_step(&index, &times, 0);
    assert!(step.urgent);
    let upload = step.upload.unwrap();
    assert_eq!(upload.path.text, "/r/a.png");
    assert_eq!(upload.pixels.rgba, vec![1, 2, 3, 4]);
    t.uploaded(upload.path, 77);
    assert!(matches!(t.thumbnails.get(&path("/r/a.png")), Some(ThumbState::Ready(77))));
    assert_eq!(t.done, 1);
    let stale = t.upload_step(&index, &times, 1);
    assert!(stale.upload.is_none());
    assert!(t.deferred.is_empty());
    assert_eq!(t.end_poll(true, false), Some(16));
    assert_eq!(t.end_poll(false, false), Some(50));
    assert_eq!(t.upload_budget_ms(), 4);
    let mut gone: PathSet = PathMap::new();
    gone.add(path("/r/a.png"));
    gone.add(path("/r/b.png"));
    t.forget(&gone);
    assert!(t.thumbnails.is_empty() && t.queued.is_empty());
    assert_eq!(t.end_poll(false, false), None);
    assert_eq!(t.total, 0);
}

#[test]
fn without_a_loader_nothing_is_asked_for() {
    let mut t: Thumbs<u32> = Thumbs::new();
    assert!(t.queue_thumbnail_jobs_full(vec![item(0, "/a")], false).is_none());
    assert_eq!(t.total, 0);
    assert!(t.queue_thumbnail_jobs_full(vec![], true).is_none());
    assert!(t.queue_thumbnail_jobs_incremental(vec![item(0, "/a")], true).is_some());
    assert!(t.queued.contains(&path("/a")));
}

#[test]
fn dropped_files_are_named_in_a_block() {
    let block = build_hdrop_blob(&vec![vec![0x43, 0x3a], vec![0x3042]]).unwrap();
    assert_eq!(block.len(), 20 + 6 + 4 + 2);
    assert_eq!(&block[0..4], &[20, 0, 0, 0]);
    assert_eq!(&block[16..20], &[1, 0, 0, 0]);
    assert_eq!(&block[20..], &[0x43, 0, 0x3a, 0, 0, 0, 0x42, 0x30, 0, 0, 0, 0]);
    assert!(build_hdrop_blob(&vec![]).is_none());
}

#[test]
fn drags_offer_their_files() {
    let drag = begin_file_drag(path("/a.png"), true).unwrap();
    assert_eq!(texts(&drag.files), vec!["/a.png"]);
    assert_eq!(drag.refcount, 1);
    assert!(begin_file_drag_paths(vec![]).is_none());
    assert!(begin_file_drag(path("/a.png"), false).is_none());
    let hdrop = FormatEtc {
        cf_format: CF_HDROP,
        aspect: DVASPECT_CONTENT,
        lindex: -1,
        tymed: TYMED_HGLOBAL,
    };
    let text = FormatEtc { cf_format: 1, aspect: 1, lindex: -1, tymed: 1 };
    assert!(supports_hdrop(&hdrop) && !supports_hdrop(&text));
    assert!(matches!(drag.query_get_data(&Some(hdrop)), Reply::Done));
    let text2 = FormatEtc { cf_format: 1, aspect: 1, lindex: -1, tymed: 1 };
    assert!(matches!(drag.query_get_data(&Some(text)), Reply::BadFormat));
    assert!(matches!(drag.query_get_data(&None), Reply::BadPointer));
    let again = FormatEtc { cf_format: CF_HDROP, aspect: 1, lindex: -1, tymed: 1 };
    let format = Some(again);
    assert!(matches!(drag.get_data(&format, true, Some(vec![1])), Ok(v) if v == vec![1]));
    assert!(matches!(drag.get_data(&format, true, None), Err(Reply::BadArgument)));
    assert!(matches!(drag.get_data(&format, false, Some(vec![1])), Err(Reply::BadPointer)));
    assert!(matches!(drag.get_data(&Some(text2), true, Some(vec![1])), Err(Reply::BadFormat)));
    assert!(matches!(drag.get_data(&None, true, Some(vec![1])), Err(Reply::BadPointer)));
    assert!(drag_went_well(0) && drag_went_well(1) && !drag_went_well(-1));
}

#[test]
fn drag_objects_count_their_users() {
    let mut data = FileDataObject::new(vec![path("/a")]);
    assert!(guid_eq(&interface_name(IUNKNOWN), &interface_name(0)));
    assert!(!guid_eq(&interface_name(IUNKNOWN), &interface_name(IDATAOBJECT)));
    let unknown = Some(interface_name(IUNKNOWN));
    let own = Some(interface_name(IDATAOBJECT));
    let other = Some(interface_name(IDROPSOURCE));
    assert!(matches!(data.query_interface(&unknown, true), Reply::Done));
    assert!(matches!(data.query_interface(&own, true), Reply::Done));
    assert_eq!(data.refcount, 3);
    assert!(matches!(data.query_interface(&other, true), Reply::NoInterface));
    assert!(matches!(data.query_interface(&own, false), Reply::BadPointer));
    assert!(matches!(data.query_interface(&None, true), Reply::BadPointer));
    assert_eq!(data.add_ref(), 4);
    for left in [3, 2, 1] {
        assert_eq!(data.release(), (left, false));
    }
    assert_eq!(data.release(), (0, true));
    let mut source = DropSource::new();
    assert!(matches!(source.query_interface(&other, true), Reply::Done));
    assert!(matches!(source.query_interface(&own, true), Reply::NoInterface));
    assert_eq!(source.add_ref(), 3);
    assert_eq!(source.release(), (2, false));
    assert!(matches!(source.query_continue_drag(true, MK_LBUTTON), Reply::Cancelled));
    assert!(matches!(source.query_continue_drag(false, 0), Reply::Dropped));
    assert!(matches!(source.query_continue_drag(false, MK_LBUTTON), Reply::Done));
    assert!(matches!(source.give_feedback(), Reply::DefaultCursors));
}

#[test]
fn bitmaps_turn_into_rgba() {
    let mut pixels = vec![1, 2, 3, 4, 5, 6, 7, 8];
    swap_red_and_blue(&mut pixels);
    assert_eq!(pixels, vec![3, 2, 1, 4, 7, 6, 5, 8]);
    swap_red_and_blue(&mut pixels);
    assert_eq!(pixels, vec![1, 2, 3, 4, 5, 6, 7, 8]);
    assert_eq!(capture_size(10, 20, 15, 22), Some((5, 2)));
    assert_eq!(capture_size(10, 20, 10, 22), None);
    assert_eq!(capture_size(10, 20, 15, 19), None);
    assert_eq!(bitmap_size(true, 4, 2), Some((4, 2, 32)));
    assert_eq!(bitmap_size(true, 100_000, 100_000), Some((100_000, 100_000, u32::MAX)));
    assert_eq!(bitmap_size(false, 4, 2), None);
    assert_eq!(bitmap_size(true, 0, 2), None);
}

#[test]
fn clipboard_takes_a_header_and_pixels() {
    let block = clipboard_block(1, 2, &vec![9; 8]).unwrap();
    assert_eq!(block.len(), 124 + 8);
    assert_eq!(&block[0..4], &[124, 0, 0, 0]);
    assert_eq!(&block[4..8], &[1, 0, 0, 0]);
    assert_eq!(&block[8..12], &[0xfe, 0xff, 0xff, 0xff]);
    assert_eq!(&block[40..44], &[0, 0, 0xff, 0]);
    assert_eq!(&block[124..], &[9; 8]);
    assert!(clipboard_block(1, 2, &vec![9; 7]).is_none());
}
