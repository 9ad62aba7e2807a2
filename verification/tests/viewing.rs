use std::path::{Component, Path};

use assetview::actions::{any_relevant, WatchEvent};
use assetview::frames::{
    label_of_place, BarActions, FrameInput, FrameOutput, FrameStep, GridKeys, PanelActions, Screen,
    SingleKeys,
};
use assetview::loader::LoaderQueue;
use assetview::path::{MediaPath, PathPart};
use assetview::scan::{DirTree, MediaEntry};
use assetview::settings::AppSettings;
use assetview::single::{AudioInput, SingleImage, VideoInput};
use assetview::slideshow::{Slideshow, SsInput, SsPhase, Wake, CONTROLS_VISIBLE_NANOS};
use assetview::start::{finish_start, StartPlan};
use assetview::viewer::{PicViewApp, DEBOUNCE_NANOS, MOTION_NANOS};
use assetview::work::{run_scan, Effect, ScanRequest, ViewMode};

fn path(text: &str) -> MediaPath {
    let whole = Path::new(text);
    let mut parts = Vec::new();
    let mut ends = Vec::new();
    for c in whole.components() {
        parts.push(match c {
            Component::Prefix(p) => PathPart::Prefix(p.as_os_str().to_string_lossy().into_owned()),
            Component::RootDir => PathPart::RootDir,
            Component::CurDir => PathPart::CurDir,
            Component::ParentDir => PathPart::ParentDir,
            Component::Normal(n) => PathPart::Normal(n.to_string_lossy().into_owned()),
        });
        ends.push(text.chars().count());
    }
    for a in whole.ancestors() {
        let n = a.components().count();
        if n > 0 {
            ends[n - 1] = a.to_string_lossy().chars().count();
        }
    }
    MediaPath { text: text.to_owned(), parts, ends }
}

type App = PicViewApp<u32, u32, i32, u8>;

fn tree(folder: &str, names: &[&str]) -> DirTree {
    let images = names
        .iter()
        .map(|n| MediaEntry { path: path(&format!("{folder}/{n}")), mtime: 1 })
        .collect();
    DirTree { path: path(folder), images, children: vec![] }
}

fn started(names: &[&str]) -> App {
    let mut app: App = PicViewApp::new(5, 80);
    let init = finish_start(
        StartPlan::Folder(path("/r")),
        &vec![tree("/r", names)],
        vec![],
        AppSettings::unset(5, 80),
        None,
        false,
    );
    app.apply_startup_result(init);
    app.take_outbox();
    app
}

fn scan_of(app: &mut App) -> ScanRequest {
    let mut found = None;
    for e in app.take_outbox() {
        if let Effect::Scan(r) = e {
            found = Some(r);
        }
    }
    found.unwrap()
}

fn folder(app: &App) -> Option<String> {
    app.selected_folder.as_ref().map(|p| p.text.clone())
}

fn no_bar() -> BarActions {
    BarActions {
        go_back: false,
        go_forward: false,
        go_up: false,
        enter_folder: None,
        open_folder: None,
        open_image: None,
        add_managed: None,
        remove_managed: None,
    }
}

fn no_panel() -> PanelActions {
    PanelActions {
        add_current: None,
        open_managed: None,
        open_library: false,
        remove_managed: None,
        selected: None,
        selected_before: None,
    }
}

fn no_keys() -> GridKeys {
    GridKeys { ctrl_l: false, f5: false, left: false, right: false, enter: false }
}

fn no_single() -> SingleKeys {
    SingleKeys { escape: false, f5: false, back: false, forward: false }
}

fn quiet(now: u64) -> FrameInput {
    FrameInput {
        now,
        folder_changed: false,
        active: false,
        fade_done: false,
        due: false,
        alt_left: false,
        alt_right: false,
        arrived: false,
        splash_over: false,
    }
}

fn drawn(step: FrameStep) -> FrameOutput {
    match step {
        FrameStep::Drawn(out) => out,
        _ => panic!("only the splash was drawn"),
    }
}

fn input(interval: i32) -> SsInput<i32> {
    SsInput {
        stop: false,
        go_prev: false,
        go_next: false,
        toggle_pause: false,
        interval,
        interval_changed: false,
        fade: true,
        pixel_perfect: false,
    }
}

#[test]
fn starts_with_a_folder_and_asks_for_its_thumbnails() {
    let mut app: App = PicViewApp::new(5, 80);
    assert!(!app.startup_ready);
    let init = finish_start(
        StartPlan::Folder(path("/r")),
        &vec![tree("/r", &["a.png", "b.png"])],
        vec![],
        AppSettings::unset(7, 60),
        Some(path("/r/b.png")),
        true,
    );
    app.apply_startup_result(init);
    assert!(app.startup_ready);
    assert_eq!(app.address_text, "/r");
    assert_eq!(app.default_slideshow_interval, 7);
    assert_eq!(app.index.total_media(), 2);
    assert_eq!(app.single_image.as_ref().map(|s| s.index), Some(1));
    assert_eq!(app.recent_images.paths()[0].text, "/r/b.png");
    let out = app.take_outbox();
    assert!(out.iter().any(|e| matches!(e, Effect::Load(r) if r.items.len() == 2)));
    assert!(out.iter().any(|e| matches!(e, Effect::Watch(v) if v[0].text == "/r")));
    assert!(out.iter().any(|e| matches!(e, Effect::Save(_))));
}

#[test]
fn a_new_folder_is_scanned_and_shown() {
    let mut app = started(&["a.png"]);
    app.select_folder(path("/s"));
    assert_eq!(folder(&app), Some("/s".to_owned()));
    assert_eq!(app.address_text, "/s");
    assert_eq!(app.index.total_media(), 0);
    assert!(app.scan_in_progress);
    assert_eq!(app.scan_text(), Some("Scanning /s".to_owned()));
    let request = scan_of(&mut app);
    assert!(request.push_history);
    assert!(request.prev_snapshots.is_none());
    let found = run_scan(request, &vec![tree("/s", &["x.png", "y.mp4"])]);
    assert!(app.poll_scan(found));
    assert_eq!(app.index.total_media(), 2);
    assert_eq!(app.index.total_images(), 1);
    assert_eq!(app.scan_text(), None);
    assert_eq!(app.recent_folders.paths()[0].text, "/s");
    let out = app.take_outbox();
    assert!(matches!(&out[0], Effect::Log(l) if l == "  groups=1 total_items=2 subdirs=0"));
    assert!(matches!(out.last(), Some(Effect::Repaint)));
}

#[test]
fn an_earlier_scan_does_not_count() {
    let mut app = started(&["a.png"]);
    app.select_folder(path("/s"));
    let first = scan_of(&mut app);
    app.select_folder(path("/t"));
    let found = run_scan(first, &vec![tree("/s", &["x.png"])]);
    assert!(!app.poll_scan(found));
    assert_eq!(folder(&app), Some("/t".to_owned()));
    assert_eq!(app.index.total_media(), 0);
    assert!(app.scan_in_progress);
}

#[test]
fn a_rescan_asks_for_changes_only() {
    let mut app = started(&["a.png", "b.png"]);
    app.rescan_folder(path("/r"));
    assert_eq!(app.index.total_media(), 2);
    let request = scan_of(&mut app);
    assert!(request.prev_snapshots.is_some());
    let found = run_scan(request, &vec![tree("/r", &["b.png", "c.png"])]);
    assert!(app.poll_scan(found));
    let out = app.take_outbox();
    assert!(out
        .iter()
        .any(|e| matches!(e, Effect::Load(r) if r.items.len() == 1 && r.items[0].path.text == "/r/c.png")));
    assert!(out
        .iter()
        .any(|e| matches!(e, Effect::ForgetCached(v) if v.len() == 1 && v[0].text == "/r/a.png")));
}

#[test]
fn steps_lead_back_forward_and_up() {
    let mut app = started(&[]);
    assert!(!app.can_go_back());
    app.select_folder(path("/a/b"));
    app.select_folder(path("/c"));
    let mut back = no_bar();
    back.go_back = true;
    app.show_address_bar(back);
    assert_eq!(folder(&app), Some("/a/b".to_owned()));
    assert!(app.can_go_forward());
    assert!(app.can_go_up());
    let mut forward = no_bar();
    forward.go_forward = true;
    app.show_address_bar(forward);
    assert_eq!(folder(&app), Some("/c".to_owned()));
    app.navigate_back();
    let mut up = no_bar();
    up.go_up = true;
    app.show_address_bar(up);
    assert_eq!(folder(&app), Some("/a".to_owned()));
    assert!(!app.can_go_forward());
    app.select_folder(path("/"));
    assert!(!app.can_go_up());
}

#[test]
fn the_library_is_looked_through_when_it_changes() {
    let mut app = started(&["a.png"]);
    let mut add = no_bar();
    add.add_managed = Some((path("/m"), true));
    app.show_address_bar(add);
    assert!(app.has_managed_folder(&path("/m")));
    assert!(!app.scan_in_progress);
    let mut file = no_bar();
    file.add_managed = Some((path("/m/x.png"), false));
    app.show_address_bar(file);
    assert_eq!(app.managed.paths().len(), 1);
    let mut library = no_panel();
    library.open_library = true;
    app.show_folder_panel(library);
    assert_eq!(app.view_mode, ViewMode::Library);
    assert_eq!(app.address_text, "Library");
    assert_eq!(app.location(), "Library");
    let request = scan_of(&mut app);
    assert_eq!(request.managed_folders.map(|v| v.len()), Some(1));
    let mut remove = no_panel();
    remove.remove_managed = Some(path("/m"));
    app.show_folder_panel(remove);
    assert!(!app.has_managed_folder(&path("/m")));
    assert_eq!(scan_of(&mut app).managed_folders.map(|v| v.len()), Some(0));
    assert!(app.shows_library());
    assert!(!app.selected_is_managed());
}

#[test]
fn the_tree_selects_a_folder_once() {
    let mut app = started(&[]);
    let mut same = no_panel();
    same.selected = Some(path("/r"));
    same.selected_before = Some(path("/r"));
    app.show_folder_panel(same);
    assert!(!app.scan_in_progress);
    let mut other = no_panel();
    other.selected = Some(path("/s"));
    other.selected_before = Some(path("/r"));
    app.show_folder_panel(other);
    assert_eq!(folder(&app), Some("/s".to_owned()));
    assert!(app.left_panel_scroll_to_selected);
}

#[test]
fn the_address_bar_is_edited_and_left() {
    let mut app = started(&[]);
    app.open_address();
    assert!(app.take_address_focus());
    assert!(!app.take_address_focus());
    app.address_text = "/nowhere".to_owned();
    assert!(!app.key_address(false, true, false, false));
    assert_eq!(app.address_text, "/r");
    assert!(!app.address_editing);
    app.open_address();
    app.address_text = "/s".to_owned();
    assert!(app.key_address(false, true, true, false));
    assert_eq!(app.address_text, "/s");
    app.open_address();
    assert!(!app.key_address(true, true, true, false));
    assert_eq!(app.address_text, "/r");
    app.open_address();
    assert!(!app.key_address(false, false, false, false));
    assert!(app.address_editing);
    app.key_address(false, false, false, true);
    assert!(!app.address_editing);
}

#[test]
fn keys_over_the_grid() {
    let mut app = started(&["a.png", "b.png", "c.png"]);
    let mut left = no_keys();
    left.left = true;
    app.key_grid(left, 0);
    assert_eq!(app.grid_cursor, Some(2));
    app.close_single_image();
    let mut right = no_keys();
    right.right = true;
    app.key_grid(right, 0);
    assert_eq!(app.grid_cursor, Some(0));
    assert_eq!(app.single_image.as_ref().map(|s| s.index), Some(0));
    app.close_single_image();
    let mut enter = no_keys();
    enter.enter = true;
    app.grid_cursor = Some(9);
    app.key_grid(enter, 0);
    assert_eq!(app.single_image.as_ref().map(|s| s.index), Some(2));
    assert_eq!(app.recent_images.paths()[0].text, "/r/c.png");
    app.close_single_image();
    let mut f5 = no_keys();
    f5.f5 = true;
    app.key_grid(f5, 3);
    assert_eq!(app.slideshow.as_ref().map(|s| s.last_advance), Some(3));
    let mut editing = started(&["a.png"]);
    let mut typed = no_keys();
    typed.ctrl_l = true;
    typed.f5 = true;
    editing.key_grid(typed, 0);
    assert!(editing.address_editing);
    assert!(editing.slideshow.is_none());
}

#[test]
fn the_grid_is_laid_out_when_something_changes() {
    let mut app = started(&["a.png", "b.png", "c.png"]);
    app.lay_out(800, 150, 2);
    assert_eq!(app.grid_layout.as_ref().map(|g| g.total_rows()), Some(3));
    app.lay_out(800, 150, 1);
    assert_eq!(app.grid_layout.as_ref().map(|g| g.total_rows()), Some(3));
    app.lay_out(400, 150, 1);
    assert_eq!(app.grid_layout.as_ref().map(|g| g.total_rows()), Some(4));
    app.show_rows(0, 2, false);
    assert_eq!(app.thumbs.visible, vec![0]);
    assert_eq!(app.thumbs.prefetch, vec![1, 2]);
    app.set_show_names(false);
    assert!(!app.show_thumbnail_filenames);
    assert!(matches!(app.take_outbox().last(), Some(Effect::Save(_))));
    app.finish_grid(Some(1), Some(0), Some(2), 0);
    assert_eq!(app.single_image.as_ref().map(|s| s.index), Some(1));
    assert!(app.slideshow.is_none());
    assert_eq!(app.grid_cursor, Some(2));
    assert_eq!(app.begin_screen(), Screen::Single);
    assert!(app.thumbs.visible.is_empty());
}

#[test]
fn a_medium_is_shown_walked_and_closed() {
    let mut app = started(&["a.png", "b.mp4"]);
    app.open_single_image_at(0);
    let f = app.show_single_image(no_single(), None, 0).unwrap();
    assert_eq!(f.index, 0);
    assert_eq!(f.label, "1 / 2  ");
    assert!(f.needs_picture && !f.is_video);
    app.single_picture_loaded(5);
    let f = app.show_single_image(no_single(), None, 0).unwrap();
    assert_eq!(f.label, "1 / 2  a.png");
    assert!(!f.needs_picture);
    let mut on = no_single();
    on.forward = true;
    let f = app.show_single_image(on, None, 0).unwrap();
    assert!(f.is_video && !f.needs_picture && !f.has_player);
    assert!(app.single_image.as_ref().unwrap().tex.is_none());
    assert_eq!(app.filmstrip(), Some(vec![0, 1, 0, 1, 0, 1, 0]));
    app.go_from_strip(0);
    assert_eq!(app.single_image.as_ref().map(|s| s.index), Some(0));
    app.press_close(0);
    assert!(app.single_image.is_none());
    assert_eq!(app.grid_cursor, Some(0));
    assert_eq!(app.filmstrip(), None);
    app.open_single_image_at(1);
    let mut leave = no_single();
    leave.escape = true;
    assert!(app.show_single_image(leave, None, 0).is_none());
    assert_eq!(app.grid_cursor, Some(1));
}

#[test]
fn a_slideshow_starts_from_the_medium_on_show() {
    let mut app = started(&["a.png", "b.mp4", "c.png"]);
    app.open_single_image_at(1);
    let mut f5 = no_single();
    f5.f5 = true;
    assert!(app.show_single_image(f5, None, 9).is_none());
    assert!(app.single_image.is_none());
    assert_eq!(app.slideshow.as_ref().map(|s| s.index), Some(1));
    let mut videos = started(&["b.mp4"]);
    videos.open_single_image_at(0);
    let mut f5 = no_single();
    f5.f5 = true;
    assert!(videos.show_single_image(f5, None, 9).is_some());
    assert!(videos.slideshow.is_none());
}

#[test]
fn a_slideshow_starts_with_the_image_on_show() {
    let mut app = started(&["a.png", "b.mp4", "c.png", "d.png"]);
    app.open_single_image_at(2);
    let mut f5 = no_single();
    f5.f5 = true;
    assert!(app.show_single_image(f5, None, 9).is_none());
    assert!(app.single_image.is_none());
    assert_eq!(app.slideshow.as_ref().map(|s| s.index), Some(1));
    let mut alone = started(&["a.png"]);
    alone.open_single_image_at(0);
    let mut f5 = no_single();
    f5.f5 = true;
    assert!(alone.show_single_image(f5, None, 9).is_none());
    assert_eq!(alone.slideshow.as_ref().map(|s| s.index), Some(0));
    assert_eq!(alone.index.slideshow_index_for_media_index(0), None);
    assert_eq!(alone.index.slideshow_index_from(0), Some(0));
    assert_eq!(alone.index.slideshow_index_from(1), None);
}

#[test]
fn before_the_start_there_is_only_the_splash() {
    let mut app: App = PicViewApp::new(5, 80);
    let mut press = quiet(3);
    press.folder_changed = true;
    press.alt_left = true;
    assert!(matches!(app.update(press), FrameStep::Splash));
    assert!(app.watcher_debounce.is_none());
    let mut early = quiet(4);
    early.arrived = true;
    assert!(matches!(app.update(early), FrameStep::Splash));
    let mut late = quiet(5);
    late.splash_over = true;
    assert!(matches!(app.update(late), FrameStep::Splash));
    let mut now = quiet(6);
    now.arrived = true;
    now.splash_over = true;
    assert!(matches!(app.update(now), FrameStep::TakeStart));
    assert!(!app.startup_ready);
    assert!(!app.begin_frame(Some(1), true, 6));
    assert!(app.outer_rect.is_none());
    let mut app = started(&["a.png"]);
    assert!(matches!(app.update(quiet(7)), FrameStep::Drawn(_)));
}

#[test]
fn nothing_is_looked_after_while_the_window_moves() {
    let mut app = started(&["a.png"]);
    assert!(app.begin_frame(Some(1), true, 10));
    assert!(!app.begin_frame(Some(2), true, 20));
    assert!(!app.begin_frame(Some(2), false, 19 + MOTION_NANOS));
    assert!(app.begin_frame(Some(2), false, 20 + MOTION_NANOS));
}

#[test]
fn thumbnails_of_the_next_folder_are_not_dropped() {
    let mut queue = LoaderQueue::new();
    let mut app: App = PicViewApp::new(5, 80);
    let init = finish_start(
        StartPlan::Folder(path("/r")),
        &vec![tree("/r", &["a.png"])],
        vec![],
        AppSettings::unset(5, 80),
        None,
        false,
    );
    app.apply_startup_result(init);
    let mut last = 0;
    for folder in ["/s", "/t", "/u"] {
        app.select_folder(path(folder));
        assert_eq!(app.index.total_media(), 0);
        let mut request = None;
        for e in app.take_outbox() {
            match e {
                Effect::Scan(r) => request = Some(r),
                Effect::Load(r) => queue.offer(r),
                _ => {}
            }
        }
        let found = run_scan(request.unwrap(), &vec![tree(folder, &["x.png", "y.png"])]);
        assert!(app.poll_scan(found));
        for e in app.take_outbox() {
            if let Effect::Load(r) = e {
                assert!(r.generation > last);
                last = r.generation;
                queue.offer(r);
            }
        }
        let mut loaded = Vec::new();
        while let Some(batch) = queue.next_batch() {
            assert_eq!(batch.generation, last);
            loaded.extend(batch.paths.into_iter().map(|p| p.text));
        }
        assert_eq!(loaded, vec![format!("{folder}/x.png"), format!("{folder}/y.png")]);
    }
    assert_eq!(last, 4);
}

#[test]
fn lists_stay_short() {
    let mut app = started(&["a.png"]);
    for i in 0..40 {
        app.select_folder(path(&format!("/f{i}")));
        app.add_managed_folder(path(&format!("/m{i}")), true);
    }
    assert_eq!(app.recent_folders.paths().len(), 10);
    assert_eq!(app.recent_folders.paths()[0].text, "/f39");
    assert_eq!(app.managed.paths().len(), 20);
    assert_eq!(app.managed.paths()[19].text, "/m20");
}

#[test]
fn the_sound_of_a_video_is_kept() {
    let mut app = started(&["b.mp4"]);
    app.open_single_image_at(0);
    app.show_single_image(no_single(), None, 0);
    let still = || VideoInput { seek_dragging: false, volume_expanded: true, seek: Some(3) };
    let loud = || AudioInput { volume: Some(40), audible: true, mute_toggle: false };
    assert!(!app.use_video(true, still(), loud()));
    assert_eq!(app.media_volume, 80);
    app.single_image.as_mut().unwrap().video = Some(1);
    let f = app.show_single_image(no_single(), Some(12), 0).unwrap();
    assert!(f.has_player);
    assert_eq!(f.controls.seek_position, Some(12));
    app.media_muted = true;
    assert!(app.use_video(true, still(), loud()));
    assert_eq!(app.media_volume, 40);
    assert!(!app.media_muted);
    let mute = AudioInput { volume: None, audible: false, mute_toggle: true };
    assert!(app.use_video(true, still(), mute));
    assert!(app.media_muted);
    let none = AudioInput { volume: None, audible: false, mute_toggle: false };
    assert!(!app.use_video(true, still(), none));
    assert_eq!(app.single_image.as_ref().unwrap().video_ui.seek_position, Some(3));
}

#[test]
fn a_slideshow_runs_and_stops() {
    let mut app = started(&["a.png", "b.png"]);
    app.start_slideshow(0, 10);
    let frame = app.begin_slideshow(10).unwrap();
    assert_eq!(frame.label, "1 / 2");
    assert!(!frame.controls);
    let (shown, load) = app.steer_slideshow(input(5), 10).unwrap();
    assert_eq!(shown.text, "/r/a.png");
    assert!(load);
    app.slideshow_picture_loaded(1, shown, 11);
    assert_eq!(app.tick_slideshow(12, false, false), Wake::WhenDue);
    assert_eq!(app.tick_slideshow(13, false, true), Wake::Now);
    assert_eq!(app.slideshow.as_ref().map(|s| s.phase), Some(SsPhase::FadeOut(13)));
    app.tick_slideshow(14, true, false);
    let (shown, load) = app.steer_slideshow(input(5), 14).unwrap();
    assert_eq!(shown.text, "/r/b.png");
    assert!(load);
    app.slideshow_picture_loaded(2, shown, 15);
    assert_eq!(app.slideshow.as_ref().map(|s| s.phase), Some(SsPhase::FadeIn(15)));
    assert_eq!(app.tick_slideshow(16, true, false), Wake::AfterShow);
    let mut stop = input(9);
    stop.stop = true;
    stop.fade = false;
    assert!(app.steer_slideshow(stop, 20).is_none());
    assert!(app.slideshow.is_none());
    assert_eq!(app.default_slideshow_interval, 9);
    assert!(!app.default_fade_enabled);
    let out = app.take_outbox();
    assert!(out.iter().any(|e| matches!(e, Effect::FullScreen(true))));
    assert!(out.iter().any(|e| matches!(e, Effect::FullScreen(false))));
    let mut empty = started(&["b.mp4"]);
    empty.start_slideshow(0, 0);
    assert!(empty.begin_slideshow(0).is_none());
    assert!(empty.slideshow.is_none());
}

#[test]
fn the_user_steers_a_slideshow() {
    let mut s: Slideshow<u32, i32> = Slideshow::new(0, 5, true, false, 0);
    let mut back = input(5);
    back.go_prev = true;
    s.steer(3, 1, back);
    assert_eq!(s.index, 2);
    assert!(s.suppress_next_fade);
    s.picture_loaded(1, path("/c.png"), 2);
    assert_eq!(s.phase, SsPhase::Visible);
    assert!(!s.needs_load(&path("/c.png")));
    let mut pause = input(5);
    pause.toggle_pause = true;
    s.steer(3, 3, pause);
    assert!(s.paused);
    assert_eq!(s.tick(3, 100, true, true), Wake::No);
    assert_eq!(s.note_activity(4), None);
    assert!(s.begin_frame(4));
    let mut on = input(5);
    on.toggle_pause = true;
    s.steer(3, 50, on);
    assert_eq!(s.last_advance, 50);
    assert_eq!(s.note_activity(60), Some(CONTROLS_VISIBLE_NANOS));
    assert_eq!(s.tick(3, 61, true, true), Wake::After(CONTROLS_VISIBLE_NANOS - 1));
    assert!(s.begin_frame(61));
    assert!(!s.begin_frame(60 + CONTROLS_VISIBLE_NANOS));
    let mut set = input(8);
    set.interval_changed = true;
    set.go_next = true;
    s.steer(1, 70, set);
    assert_eq!((s.index, s.interval), (0, 8));
}

#[test]
fn frames_tick_and_navigate() {
    let mut app = started(&["a.png"]);
    app.select_folder(path("/s"));
    app.select_folder(path("/t"));
    let mut back = quiet(1);
    back.alt_left = true;
    assert_eq!(drawn(app.update(back)).screen, Screen::Grid);
    assert_eq!(folder(&app), Some("/s".to_owned()));
    let mut show = started(&["a.png"]);
    show.start_slideshow(0, 0);
    let mut active = quiet(5);
    active.active = true;
    let out = drawn(show.update(active));
    assert_eq!(out.screen, Screen::Slideshow);
    assert_eq!(out.controls_end, Some(CONTROLS_VISIBLE_NANOS));
    assert_eq!(out.slideshow, Wake::After(CONTROLS_VISIBLE_NANOS));
    assert_eq!(drawn(show.update(quiet(6))).controls_end, None);
}

#[test]
fn changed_folders_are_looked_at_once_they_are_quiet() {
    let mut app = started(&["a.png"]);
    assert!(any_relevant(&vec![WatchEvent::Other, WatchEvent::Renamed]));
    assert!(!any_relevant(&vec![WatchEvent::Other]));
    app.poll_watcher(true, 100);
    app.poll_watcher(false, 100 + DEBOUNCE_NANOS - 1);
    assert!(!app.scan_in_progress);
    app.poll_watcher(true, 200);
    app.poll_watcher(false, 100 + DEBOUNCE_NANOS);
    assert!(!app.scan_in_progress);
    app.poll_watcher(false, 200 + DEBOUNCE_NANOS);
    assert!(app.scan_in_progress);
    assert!(app.watcher_debounce.is_none());
    assert_eq!(app.index.total_media(), 1);
}

#[test]
fn a_moving_window_counts_as_moving_for_a_while() {
    let mut app = started(&[]);
    app.tick_viewport_motion(Some(1), true, 10);
    assert!(!app.viewport_motion_active(10));
    app.tick_viewport_motion(Some(2), true, 20);
    assert!(app.viewport_motion_active(20));
    assert!(!app.viewport_motion_active(20 + MOTION_NANOS));
    app.tick_viewport_motion(None, true, 30);
    assert!(!app.viewport_motion_active(20 + MOTION_NANOS));
}

#[test]
fn recent_media_open_in_their_folder() {
    let mut app = started(&["a.png"]);
    let mut here = no_bar();
    here.open_image = Some(path("/r/a.png"));
    app.show_address_bar(here);
    assert_eq!(app.single_image.as_ref().map(|s| s.index), Some(0));
    assert!(!app.scan_in_progress);
    let mut there = no_bar();
    there.open_image = Some(path("/s/x.png"));
    app.show_address_bar(there);
    assert_eq!(folder(&app), Some("/s".to_owned()));
    assert!(app.single_image.is_none());
}

#[test]
fn settings_survive_the_end() {
    let mut app = started(&["a.png"]);
    app.start_slideshow(0, 0);
    app.slideshow.as_mut().unwrap().interval = 11;
    app.slideshow.as_mut().unwrap().pixel_perfect = true;
    app.take_outbox();
    app.on_exit();
    let mut saved = None;
    for e in app.take_outbox() {
        if let Effect::Save(s) = e {
            saved = Some(s);
        }
    }
    let saved = saved.unwrap();
    assert_eq!(saved.interval, 11);
    assert!(saved.pixel_perfect);
    assert_eq!(saved.last_folder.map(|p| p.text), Some("/r".to_owned()));
}

#[test]
fn the_status_bar_tells_of_thumbnails() {
    let mut app = started(&["a.png", "b.png"]);
    assert_eq!(app.caching_text(), Some("画像をキャッシュ中 0/2  1 folders  /r/a.png".to_owned()));
    app.thumbs.current = None;
    app.thumbs.done = 1;
    assert_eq!(app.caching_text(), Some("画像をキャッシュ中 1/2  1 folders".to_owned()));
    app.thumbs.total = 0;
    assert_eq!(app.caching_text(), None);
    assert_eq!(app.location(), "/r");
    assert_eq!(label_of_place(4, 9), "5 / 9");
}

#[test]
fn a_player_is_made_for_each_video() {
    let mut s: SingleImage<u32, u32, i32> = SingleImage::new(0);
    assert!(s.needs_player(&path("/a.mp4")));
    assert!(!s.show(&path("/a.mp4"), true));
    s.video = Some(1);
    assert!(!s.needs_player(&path("/a.mp4")));
    assert!(s.needs_player(&path("/b.mp4")));
    s.video_ui.seek_dragging = true;
    s.follow_player(Some(9));
    assert_eq!(s.video_ui.seek_position, None);
}
