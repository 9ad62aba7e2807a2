//! What holds of the viewer as a whole, whatever is done with it.

use vstd::prelude::*;

use crate::frames::{BarActions, FrameInput, GridKeys, PanelActions, SingleKeys};
use crate::single::{AudioInput, VideoInput};
use crate::slideshow::SsInput;
use crate::viewer::{AppSpec, DEBOUNCE_NANOS};
use crate::work::{ScanResult, StartupResult, ViewMode};

verus! {

/// The media that the viewer goes through are those of the groups on show, in their order.
pub open spec fn in_step<T, V, N, R>(s: AppSpec<T, V, N, R>) -> bool {
    s.media == crate::index::groups_media(s.groups)
}

/// The viewer starts with its media in step with its groups, and a scan keeps them so.
pub proof fn scans_keep_in_step<T, V, N, R>(
    s: AppSpec<T, V, N, R>,
    interval: N,
    volume: N,
    init: StartupResult<N>,
    result: ScanResult,
)
    ensures
        in_step(AppSpec::<T, V, N, R>::fresh(interval, volume)),
        in_step(s.started(init)),
        in_step(s) ==> in_step(s.scan_done(result)),
{
}

/// Whatever is asked for, the media stay in step with the groups.
pub proof fn requests_keep_in_step<T, V, N, R>(
    s: AppSpec<T, V, N, R>,
    folder: crate::path::PathSpec,
    push_history: bool,
    incremental: bool,
    is_dir: bool,
)
    requires
        in_step(s),
    ensures
        in_step(s.folder_asked(folder, push_history, incremental)),
        in_step(s.library_asked(incremental)),
        in_step(s.went_back()),
        in_step(s.went_forward()),
        in_step(s.went_up()),
        in_step(s.managed_added(folder, is_dir)),
        in_step(s.managed_removed(folder.parts)),
        in_step(s.recent_opened(folder)),
        in_step(s.refreshed()),
{
    assert(crate::index::groups_media(Seq::<crate::scan::GroupSpec>::empty()) =~= Seq::empty());
}

/// Whatever the user does, the media stay in step with the groups.
pub proof fn actions_keep_in_step<T, V, N, R>(
    s: AppSpec<T, V, N, R>,
    bar: BarActions,
    panel: PanelActions,
    grid: GridKeys,
    single: SingleKeys,
    position: Option<N>,
    input: SsInput<N>,
    wake: FrameInput,
    now: u64,
)
    requires
        in_step(s),
    ensures
        in_step(s.bar_done(bar)),
        in_step(s.panel_done(panel)),
        in_step(s.grid_keyed(grid, now)),
        in_step(s.single_shown(single, position, now)),
        in_step(s.slideshow_begun(now)),
        in_step(s.slideshow_steered(input, now)),
        in_step(s.woken(wake)),
{
    steps_keep_in_step(s, bar.go_back, bar.go_forward, bar.go_up);
    let a = s.stepped_around(bar.go_back, bar.go_forward, bar.go_up);
    choices_keep_in_step(a, crate::path::option_view(bar.enter_folder), bar.add_managed);
    let b = a.chosen(crate::path::option_view(bar.enter_folder));
    choices_keep_in_step(b, crate::path::option_view(bar.open_folder), bar.add_managed);
    let c = b.chosen(crate::path::option_view(bar.open_folder));
    let d = match crate::path::option_view(bar.open_image) {
        Some(p) => {
            requests_keep_in_step(c, p, false, false, false);
            c.recent_opened(p)
        },
        None => c,
    };
    choices_keep_in_step(d, None, bar.add_managed);
    choices_keep_in_step(
        d.adding(bar.add_managed),
        crate::path::option_view(bar.remove_managed),
        None,
    );
    panel_keeps_in_step(s, panel);
    wake_keeps_in_step(s, wake);
}

/// Nothing else that happens to the viewer touches its media or its groups.
pub proof fn the_rest_keeps_in_step<T, V, N, R>(
    s: AppSpec<T, V, N, R>,
    i: Option<usize>,
    j: Option<usize>,
    cursor: Option<usize>,
    rect: Option<R>,
    on: bool,
    video: VideoInput<N>,
    audio: AudioInput<N>,
    width: u32,
    thumb: u32,
    cols: usize,
    start: int,
    end: int,
    keys: (bool, bool, bool, bool),
    now: u64,
)
    requires
        in_step(s),
    ensures
        in_step(s.grid_done(i, j, cursor, now)),
        in_step(s.names_shown(on)),
        in_step(s.laid_out(width, thumb, cols)),
        in_step(s.rows_shown(start, end, on)),
        in_step(s.video_used(on, video, audio)),
        in_step(s.strip_closed()),
        in_step(s.strip_chosen(cols)),
        in_step(s.close_pressed(cols)),
        in_step(s.address_keyed(keys.0, keys.1, keys.2, keys.3)),
        in_step(s.address_opened()),
        in_step(s.placed(rect, on, now)),
        in_step(s.frame_begun(rect, on, now)),
        in_step(s.ended()),
{
}

proof fn steps_keep_in_step<T, V, N, R>(
    s: AppSpec<T, V, N, R>,
    go_back: bool,
    go_forward: bool,
    go_up: bool,
)
    requires
        in_step(s),
    ensures
        in_step(s.stepped_around(go_back, go_forward, go_up)),
{
    let any = arbitrary();
    requests_keep_in_step(s, any, false, false, false);
    let a = if go_back {
        s.went_back()
    } else {
        s
    };
    requests_keep_in_step(a, any, false, false, false);
    let b = if go_forward {
        a.went_forward()
    } else {
        a
    };
    requests_keep_in_step(b, any, false, false, false);
}

proof fn choices_keep_in_step<T, V, N, R>(
    s: AppSpec<T, V, N, R>,
    folder: Option<crate::path::PathSpec>,
    added: Option<(crate::path::MediaPath, bool)>,
)
    requires
        in_step(s),
    ensures
        in_step(s.chosen(folder)),
        in_step(s.removing(folder)),
        in_step(s.adding(added)),
{
    if let Some(f) = folder {
        requests_keep_in_step(s, f, true, false, false);
    }
    if let Some((p, is_dir)) = added {
        requests_keep_in_step(s, p@, false, false, is_dir);
    }
}

proof fn panel_keeps_in_step<T, V, N, R>(s: AppSpec<T, V, N, R>, p: PanelActions)
    requires
        in_step(s),
    ensures
        in_step(s.panel_done(p)),
{
    choices_keep_in_step(s, None, p.add_current);
    let a = s.adding(p.add_current);
    choices_keep_in_step(a, crate::path::option_view(p.open_managed), None);
    let b = a.chosen(crate::path::option_view(p.open_managed));
    requests_keep_in_step(b, arbitrary(), false, false, false);
    let c = if p.open_library {
        b.library_asked(false)
    } else {
        b
    };
    choices_keep_in_step(c, crate::path::option_view(p.remove_managed), None);
    let d = c.removing(crate::path::option_view(p.remove_managed));
    choices_keep_in_step(d, crate::path::option_view(p.selected), None);
}

proof fn watcher_keeps_in_step<T, V, N, R>(s: AppSpec<T, V, N, R>, changed: bool, now: u64)
    requires
        in_step(s),
    ensures
        in_step(s.watcher_polled(changed, now)),
{
    let seen = if changed {
        AppSpec { watcher_debounce: Some(now), ..s }
    } else {
        s
    };
    let settled = AppSpec { watcher_debounce: None, ..seen };
    requests_keep_in_step(settled, arbitrary(), false, false, false);
}

proof fn slideshow_keeps_in_step<T, V, N, R>(s: AppSpec<T, V, N, R>, w: FrameInput)
    requires
        in_step(s),
    ensures
        in_step(s.slideshow_stirred(w.now)),
        in_step(s.slideshow_ticked(w.now, w.fade_done, w.due)),
        in_step(s.screen_begun()),
{
}

proof fn wake_keeps_in_step<T, V, N, R>(s: AppSpec<T, V, N, R>, w: FrameInput)
    requires
        in_step(s),
    ensures
        in_step(s.awake(w)),
{
    watcher_keeps_in_step(s, w.folder_changed, w.now);
    let a = s.watcher_polled(w.folder_changed, w.now);
    slideshow_keeps_in_step(a, w);
    let b = if w.active {
        a.slideshow_stirred(w.now)
    } else {
        a
    };
    slideshow_keeps_in_step(b, w);
    let c = b.slideshow_ticked(w.now, w.fade_done, w.due);
    steps_keep_in_step(c, w.alt_left, w.alt_right, false);
    slideshow_keeps_in_step(c.stepped_around(w.alt_left, w.alt_right, false), w);
}

// ── The start ────────────────────────────────────────────────────────────────

/// Before the viewer has started no frame changes it, whatever happened since the last one;
/// what the start found starts it, and no frame after that ends it.
pub proof fn frames_wait_for_the_start<T, V, N, R>(
    s: AppSpec<T, V, N, R>,
    init: StartupResult<N>,
    wake: FrameInput,
    rect: Option<R>,
    changed: bool,
    now: u64,
)
    ensures
        !s.startup_ready ==> s.woken(wake) == s && s.frame_begun(rect, changed, now) == s,
        s.started(init).startup_ready,
        s.startup_ready ==> s.frame_begun(rect, changed, now).startup_ready,
        s.startup_ready ==> s.woken(wake).startup_ready,
{
    let a = s.watcher_polled(wake.folder_changed, wake.now);
    assert(a.startup_ready == s.startup_ready);
    let b = if wake.active {
        a.slideshow_stirred(wake.now)
    } else {
        a
    };
    let c = b.slideshow_ticked(wake.now, wake.fade_done, wake.due);
    assert(c.startup_ready == s.startup_ready);
    let d = c.stepped_around(wake.alt_left, wake.alt_right, false);
    assert(d.startup_ready == s.startup_ready);
}

// ── Scans ────────────────────────────────────────────────────────────────────

/// Only the last scan that was asked for counts: what an earlier one found changes nothing.
pub proof fn only_the_last_scan_counts<T, V, N, R>(
    s: AppSpec<T, V, N, R>,
    first: crate::path::PathSpec,
    push_history: bool,
    incremental: bool,
    then: AppSpec<T, V, N, R>,
    second: crate::path::PathSpec,
    result: ScanResult,
)
    requires
        then == s.folder_asked(first, push_history, incremental),
        result.generation == then.scan_generation,
    ensures
        then.folder_asked(second, push_history, incremental).scan_done(result)
            == then.folder_asked(second, push_history, incremental),
        then.library_asked(incremental).scan_done(result) == then.library_asked(incremental),
{
}

/// A folder that is newly shown has nothing of the folder before it: no media, no thumbnails,
/// no medium shown alone, no slideshow.
pub proof fn a_new_folder_starts_empty<T, V, N, R>(
    s: AppSpec<T, V, N, R>,
    folder: crate::path::PathSpec,
    push_history: bool,
)
    ensures
        ({
            let t = s.folder_asked(folder, push_history, false);
            &&& t.selected_folder == Some(folder)
            &&& t.address_text == folder.text
            &&& t.last_folder == Some(folder)
            &&& t.scan_in_progress
            &&& t.groups.len() == 0 && t.media.len() == 0 && t.direct_subdirs.len() == 0
            &&& t.thumbs == (crate::thumbs::ThumbsSpec {
                generation: s.thumbs.generation,
                ..crate::thumbs::ThumbsSpec::<T>::fresh()
            })
            &&& t.slideshow is None && t.single_image is None && t.grid_cursor is None
        }),
{
}

/// A look for changes leaves what is on show alone, and the history and the recent folders
/// with it.
pub proof fn a_look_for_changes_keeps_the_view<T, V, N, R>(
    s: AppSpec<T, V, N, R>,
    folder: crate::path::PathSpec,
)
    ensures
        ({
            let t = s.folder_asked(folder, false, true);
            &&& t.groups == s.groups && t.media == s.media && t.thumbs == s.thumbs
            &&& t.slideshow == s.slideshow && t.single_image == s.single_image
            &&& t.grid_cursor == s.grid_cursor
            &&& t.history == s.history && t.recent_folders == s.recent_folders
        }),
        ({
            let t = s.library_asked(true);
            &&& t.groups == s.groups && t.media == s.media && t.thumbs == s.thumbs
            &&& t.slideshow == s.slideshow && t.single_image == s.single_image
            &&& t.history == s.history && t.recent_folders == s.recent_folders
        }),
{
}

/// A folder that changed is looked at once it has been quiet for long enough, and not before.
pub proof fn changes_wait_for_quiet<T, V, N, R>(s: AppSpec<T, V, N, R>, changed: u64, now: u64)
    requires
        changed <= now,
    ensures
        ({
            let t = s.watcher_polled(true, changed);
            &&& t == (AppSpec { watcher_debounce: Some(changed), ..s })
            &&& now - changed < DEBOUNCE_NANOS ==> t.watcher_polled(false, now) == t
            &&& now - changed >= DEBOUNCE_NANOS ==> t.watcher_polled(false, now) == (AppSpec {
                watcher_debounce: None,
                ..t
            }).refreshed()
        }),
{
}

// ── Navigation ───────────────────────────────────────────────────────────────

/// A step back and a step forward lead to the folder that the user came from.
pub proof fn back_and_forward_lead_home<T, V, N, R>(
    s: AppSpec<T, V, N, R>,
    here: crate::path::PathSpec,
    there: crate::path::PathSpec,
)
    requires
        s.history.valid(),
        here.parts != there.parts,
    ensures
        ({
            let t = s.folder_asked(here, true, false).folder_asked(there, true, false);
            &&& t.went_back().selected_folder matches Some(f) && f.parts == here.parts
            &&& t.went_back().went_forward().selected_folder == Some(there)
            &&& t.went_back().went_forward().history == t.history
        }),
{
    let a = s.folder_asked(here, true, false);
    crate::history::visit_becomes_current(s.history, here);
    crate::history::back_leads_to_the_folder_before(a.history, there);
    crate::history::visit_becomes_current(a.history, there);
    let h = a.history.visited(there);
    crate::history::back_and_forward_undo_each_other(h);
}

// ── Media and slideshow ──────────────────────────────────────────────────────

/// A medium that is opened and closed again is where the arrow keys go on from, and it is the
/// most recent one.
pub proof fn a_closed_medium_keeps_its_place<T, V, N, R>(s: AppSpec<T, V, N, R>, i: usize)
    requires
        i < s.media.len(),
        s.recent_images.cap >= 1,
    ensures
        s.opened(i).closed().grid_cursor == Some(i),
        s.opened(i).closed().single_image is None,
        s.opened(i).recent_images.paths.len() > 0,
        s.opened(i).recent_images.paths[0] == s.media[i as int],
{
}

/// A slideshow that is started and stopped again leaves its settings as they were, and what
/// the user sets it to while it runs is kept.
pub proof fn slideshow_settings_are_kept<T, V, N, R>(
    s: AppSpec<T, V, N, R>,
    i: usize,
    now: u64,
    input: SsInput<N>,
)
    ensures
        ({
            let t = s.slideshow_started(i, now).slideshow_stopped();
            t.interval == s.interval && t.fade == s.fade && t.pixel_perfect == s.pixel_perfect
        }),
        ({
            let t = s.slideshow_started(i, now).stop_pressed(input);
            &&& t.slideshow is None
            &&& t.interval == input.interval && t.fade == input.fade && t.pixel_perfect
                == input.pixel_perfect
        }),
{
}

/// What is saved on the way out is what the viewer starts with the next time; a slideshow that
/// still runs hands on what it was set to.
pub proof fn settings_come_back<T, V, N, R>(
    s: AppSpec<T, V, N, R>,
    fresh: AppSpec<T, V, N, R>,
)
    ensures
        ({
            let saved = s.ended().settings();
            let t = fresh.configured(saved);
            &&& s.ended().outbox.last() == crate::work::EffectSpec::Save(saved)
            &&& match s.slideshow {
                Some(ss) => t.interval == ss.interval && t.fade == ss.fade_enabled
                    && t.pixel_perfect == ss.pixel_perfect,
                None => t.interval == s.interval && t.fade == s.fade && t.pixel_perfect
                    == s.pixel_perfect,
            }
            &&& t.volume == s.volume && t.muted == s.muted && t.show_names == s.show_names
            &&& t.last_folder == s.last_folder
            &&& t.managed.paths == s.managed.paths
            &&& t.recent_folders.paths == s.recent_folders.paths
            &&& t.recent_images.paths == s.recent_images.paths
        }),
{
}

/// Folders of the library are shown when it is the library that is on show: a folder that is
/// added or removed there is looked for at once.
pub proof fn the_library_follows_its_folders<T, V, N, R>(
    s: AppSpec<T, V, N, R>,
    folder: crate::path::PathSpec,
)
    ensures
        s.managed_added(folder, true).managed == s.managed.pushed(folder),
        s.managed_removed(folder.parts).managed == s.managed.removed(folder.parts),
        s.view_mode == ViewMode::Library ==> s.managed_added(folder, true).scan_in_progress
            && s.managed_removed(folder.parts).scan_in_progress,
        s.managed_added(folder, false) == s,
{
}

} // verus!
