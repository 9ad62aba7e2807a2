//! What every step of the viewer keeps: its lists stay short, and its requests for thumbnails
//! go out in turn.

use vstd::prelude::*;

use crate::frames::{BarActions, FrameInput, GridKeys, PanelActions, SingleKeys};
use crate::recent::{MANAGED_CAP, RECENT_CAP};
use crate::single::{AudioInput, VideoInput};
use crate::slideshow::SsInput;
use crate::viewer::AppSpec;
use crate::work::{EffectSpec, ScanResult, StartupResult};

verus! {

/// A list that keeps up to `cap` paths has no more than that.
pub open spec fn within(l: crate::recent::ListSpec, cap: usize) -> bool {
    l.cap == cap && l.paths.len() <= cap
}

/// The recent folders, the recent media and the library are no longer than they may be.
pub open spec fn within_caps<T, V, N, R>(s: AppSpec<T, V, N, R>) -> bool {
    &&& within(s.recent_folders, RECENT_CAP)
    &&& within(s.recent_images, RECENT_CAP)
    &&& within(s.managed, MANAGED_CAP)
}

/// The generation of a request for thumbnails.
pub open spec fn load_generation<N>(e: EffectSpec<N>) -> u64 {
    e->Load_0.generation
}

/// The requests for thumbnails among these effects are of rising generations, none of an
/// earlier one than `first` and none of a later one than `last`.
#[verifier::opaque]
pub open spec fn loads_in_turn<N>(out: Seq<EffectSpec<N>>, first: u64, last: u64) -> bool {
    &&& first <= last
    &&& forall|i: int|
        0 <= i < out.len() && (#[trigger] out[i]) is Load ==> first <= load_generation(out[i])
            <= last
    &&& forall|i: int, j: int|
        0 <= i < j < out.len() && (#[trigger] out[i]) is Load && (#[trigger] out[j]) is Load
            ==> load_generation(out[i]) <= load_generation(out[j])
}

/// The lists of the viewer are short, and the requests for thumbnails that wait to be sent are
/// in turn, where the last one that was sent is of generation `g`.
pub open spec fn steady<T, V, N, R>(s: AppSpec<T, V, N, R>, g: u64) -> bool {
    within_caps(s) && loads_in_turn(s.outbox, g, s.thumbs.generation)
}

broadcast proof fn other_effects_keep_turn<N>(
    out: Seq<EffectSpec<N>>,
    e: EffectSpec<N>,
    first: u64,
    last: u64,
)
    requires
        loads_in_turn(out, first, last),
        !(e is Load),
    ensures
        #[trigger] loads_in_turn(out.push(e), first, last),
{
    reveal(loads_in_turn);
    let all = out.push(e);
    assert forall|i: int| 0 <= i < all.len() && (#[trigger] all[i]) is Load implies first
        <= load_generation(all[i]) <= last by {
        assert(all[i] == out[i]);
    }
    assert forall|i: int, j: int|
        0 <= i < j < all.len() && (#[trigger] all[i]) is Load && (
        #[trigger] all[j]) is Load implies load_generation(all[i]) <= load_generation(all[j]) by {
        assert(all[i] == out[i] && all[j] == out[j]);
    }
}

proof fn next_load_keeps_turn<N>(
    out: Seq<EffectSpec<N>>,
    r: crate::loader::RequestSpec,
    first: u64,
    last: u64,
)
    requires
        loads_in_turn(out, first, last),
        last <= r.generation,
    ensures
        loads_in_turn(out, first, r.generation),
        loads_in_turn(out.push(EffectSpec::Load(r)), first, r.generation),
{
    reveal(loads_in_turn);
    let all = out.push(EffectSpec::Load(r));
    assert forall|i: int| 0 <= i < all.len() && (#[trigger] all[i]) is Load implies first
        <= load_generation(all[i]) <= r.generation by {
        if i < out.len() {
            assert(all[i] == out[i]);
        }
    }
    assert forall|i: int, j: int|
        0 <= i < j < all.len() && (#[trigger] all[i]) is Load && (
        #[trigger] all[j]) is Load implies load_generation(all[i]) <= load_generation(all[j]) by {
        assert(all[i] == out[i]);
        if j < out.len() {
            assert(all[j] == out[j]);
        }
    }
}

proof fn later_last_keeps_turn<N>(out: Seq<EffectSpec<N>>, first: u64, last: u64, later: u64)
    requires
        loads_in_turn(out, first, last),
        last <= later,
    ensures
        loads_in_turn(out, first, later),
{
    reveal(loads_in_turn);
}

broadcast proof fn without_is_no_longer(
    s: Seq<crate::path::PathSpec>,
    k: crate::path::PathKey,
)
    ensures
        (#[trigger] crate::recent::without(s, k)).len() <= s.len(),
    decreases s.len(),
{
    if s.len() > 0 {
        without_is_no_longer(s.drop_last(), k);
    }
}

broadcast group group_steady {
    other_effects_keep_turn,
    without_is_no_longer,
}

proof fn asking_keeps_steady<T, V, N, R>(
    s: AppSpec<T, V, N, R>,
    g: u64,
    changed: Set<crate::path::PathKey>,
)
    requires
        steady(s, g),
        s.thumbs.generation < u64::MAX,
    ensures
        steady(s.all_asked(), g),
        steady(s.some_asked(changed), g),
        s.some_asked(changed).thumbs.generation == s.thumbs.generation,
{
    let next = s.thumbs.generation.wrapping_add(1);
    assert(next == s.thumbs.generation + 1);
    later_last_keeps_turn(s.outbox, g, s.thumbs.generation, next);
    assert forall|r: crate::loader::RequestSpec|
        r.generation == next || r.generation == s.thumbs.generation implies loads_in_turn(
        #[trigger] s.outbox.push(EffectSpec::Load(r)),
        g,
        r.generation,
    ) by {
        next_load_keeps_turn(s.outbox, r, g, s.thumbs.generation);
    }
}

/// The lists of the settings are no longer than they may be.
pub open spec fn settings_within_caps<N>(s: crate::settings::SettingsSpec<N>) -> bool {
    &&& s.recent_folders.len() <= RECENT_CAP
    &&& s.recent_images.len() <= RECENT_CAP
    &&& s.managed_folders.len() <= MANAGED_CAP
}

/// Settings that are read have short lists, however long the lists of their file are, and what
/// the viewer writes has them short.
pub proof fn settings_stay_within_caps<T, V, N, R>(
    s: AppSpec<T, V, N, R>,
    start: crate::settings::SettingsSpec<N>,
    known: Seq<crate::settings::Known<N>>,
)
    requires
        within_caps(s),
        settings_within_caps(start),
    ensures
        settings_within_caps(s.settings()),
        settings_within_caps(start.with_all(known)),
    decreases known.len(),
{
    if known.len() > 0 {
        settings_stay_within_caps(s, start, known.drop_last());
    }
}

/// The viewer starts with short lists, once the settings have them short, and with its requests
/// in turn; a scan keeps them so.
pub proof fn scans_keep_steady<T, V, N, R>(
    s: AppSpec<T, V, N, R>,
    g: u64,
    interval: N,
    volume: N,
    init: StartupResult<N>,
    result: ScanResult,
)
    ensures
        steady(AppSpec::<T, V, N, R>::fresh(interval, volume), 0),
        steady(s, g) && s.thumbs.generation < u64::MAX && settings_within_caps(init.settings@)
            ==> steady(s.started(init), g),
        steady(s, g) && s.thumbs.generation < u64::MAX ==> steady(s.scan_done(result), g),
{
    broadcast use group_steady;

    assert(loads_in_turn(Seq::<EffectSpec<N>>::empty(), 0, 0)) by {
        reveal(loads_in_turn);
    }
    if steady(s, g) && s.thumbs.generation < u64::MAX {
        if settings_within_caps(init.settings@) {
            start_keeps_steady(s, g, init);
        }
        scan_keeps_steady(s, g, result);
    }
}

proof fn start_keeps_steady<T, V, N, R>(
    s: AppSpec<T, V, N, R>,
    g: u64,
    init: StartupResult<N>,
)
    requires
        steady(s, g),
        s.thumbs.generation < u64::MAX,
        settings_within_caps(init.settings@),
    ensures
        steady(s.started(init), g),
{
    broadcast use group_steady;

    let a = s.furnished(init).configured(init.settings@);
    asking_keeps_steady(a, g, Set::empty());
    let b = a.all_asked();
    assert(steady(b.entered(), g));
}

proof fn scan_keeps_steady<T, V, N, R>(s: AppSpec<T, V, N, R>, g: u64, r: ScanResult)
    requires
        steady(s, g),
        s.thumbs.generation < u64::MAX,
    ensures
        steady(s.scan_done(r), g),
{
    broadcast use group_steady;

    let selected = crate::path::option_view(r.selected_folder);
    let a = s.found(
        selected,
        r.view_mode,
        crate::scan::groups_view(r.folder_groups@),
        crate::path::paths_view(r.direct_subdirs@),
        crate::scan::snaps_view(r.dir_snapshots@),
        r.media_mtimes@,
    );
    assert(steady(a, g));
    let changed = crate::path::paths_view(r.changed_media@);
    let removed = crate::path::paths_view(r.removed_media@);
    asking_keeps_steady(a, g, Set::empty());
    let m = a.media_gone(removed);
    assert(steady(m, g) && m.thumbs.generation == a.thumbs.generation);
    asking_keeps_steady(m, g, crate::actions::keys_of(changed));
    let b = a.thumbs_renewed(r.incremental, changed, removed);
    assert(steady(b, g));
    let c = b.unlaid().watched(r.view_mode, selected, crate::work::list_view(r.managed_folders));
    assert(steady(c, g));
}

/// Whatever is asked for, the lists stay short and the requests in turn.
pub proof fn requests_keep_steady<T, V, N, R>(
    s: AppSpec<T, V, N, R>,
    g: u64,
    folder: crate::path::PathSpec,
    push_history: bool,
    incremental: bool,
    is_dir: bool,
)
    requires
        steady(s, g),
    ensures
        steady(s.folder_asked(folder, push_history, incremental), g),
        steady(s.library_asked(incremental), g),
        steady(s.went_back(), g),
        steady(s.went_forward(), g),
        steady(s.went_up(), g),
        steady(s.managed_added(folder, is_dir), g),
        steady(s.managed_removed(folder.parts), g),
        steady(s.recent_opened(folder), g),
        steady(s.refreshed(), g),
{
    ask_keeps_steady(s, g, folder, push_history, incremental);
    steps_of_one_keep_steady(s, g);
    library_keeps_steady(s, g, folder, is_dir);
    recent_keeps_steady(s, g, folder);
    refresh_keeps_steady(s, g);
}

proof fn ask_keeps_steady<T, V, N, R>(
    s: AppSpec<T, V, N, R>,
    g: u64,
    folder: crate::path::PathSpec,
    push_history: bool,
    incremental: bool,
)
    requires
        steady(s, g),
    ensures
        steady(s.folder_asked(folder, push_history, incremental), g),
        steady(s.library_asked(incremental), g),
{
    broadcast use group_steady;

}

proof fn steps_of_one_keep_steady<T, V, N, R>(s: AppSpec<T, V, N, R>, g: u64)
    requires
        steady(s, g),
    ensures
        steady(s.went_back(), g),
        steady(s.went_forward(), g),
        steady(s.went_up(), g),
{
    let back = AppSpec { history: s.history.back(), ..s };
    ask_keeps_steady(back, g, back.history.current()->0, false, false);
    let on = AppSpec { history: s.history.forward(), ..s };
    ask_keeps_steady(on, g, on.history.current()->0, false, false);
    if let Some(p) = s.parent() {
        ask_keeps_steady(s, g, p, true, false);
    }
}

proof fn library_keeps_steady<T, V, N, R>(
    s: AppSpec<T, V, N, R>,
    g: u64,
    folder: crate::path::PathSpec,
    is_dir: bool,
)
    requires
        steady(s, g),
    ensures
        steady(s.managed_added(folder, is_dir), g),
        steady(s.managed_removed(folder.parts), g),
{
    broadcast use group_steady;

    let more = AppSpec { managed: s.managed.pushed(folder), ..s };
    ask_keeps_steady(more, g, folder, false, true);
    let less = AppSpec { managed: s.managed.removed(folder.parts), ..s };
    ask_keeps_steady(less, g, folder, false, true);
}

proof fn recent_keeps_steady<T, V, N, R>(
    s: AppSpec<T, V, N, R>,
    g: u64,
    p: crate::path::PathSpec,
)
    requires
        steady(s, g),
    ensures
        steady(s.recent_opened(p), g),
{
    ask_keeps_steady(s, g, p, false, true);
    if let Some(folder) = crate::path::folder_of(p) {
        ask_keeps_steady(s, g, folder, true, false);
        finding_keeps_steady(s, g, p);
        finding_keeps_steady(s.library_asked(true), g, p);
        finding_keeps_steady(s.folder_asked(folder, true, false), g, p);
    }
}

proof fn finding_keeps_steady<T, V, N, R>(
    s: AppSpec<T, V, N, R>,
    g: u64,
    p: crate::path::PathSpec,
)
    requires
        steady(s, g),
    ensures
        steady(s.medium_found(p).emit(EffectSpec::Focus), g),
{
    broadcast use group_steady;

}

proof fn refresh_keeps_steady<T, V, N, R>(s: AppSpec<T, V, N, R>, g: u64)
    requires
        steady(s, g),
    ensures
        steady(s.refreshed(), g),
{
    ask_keeps_steady(s, g, arbitrary(), false, true);
    if let Some(f) = s.selected_folder {
        ask_keeps_steady(s, g, f, false, true);
    }
}

/// Whatever the user does, the lists stay short and the requests in turn.
pub proof fn actions_keep_steady<T, V, N, R>(
    s: AppSpec<T, V, N, R>,
    g: u64,
    bar: BarActions,
    panel: PanelActions,
    grid: GridKeys,
    single: SingleKeys,
    position: Option<N>,
    input: SsInput<N>,
    wake: FrameInput,
    now: u64,
)
    requires
        steady(s, g),
    ensures
        steady(s.bar_done(bar), g),
        steady(s.panel_done(panel), g),
        steady(s.grid_keyed(grid, now), g),
        steady(s.single_shown(single, position, now), g),
        steady(s.slideshow_begun(now), g),
        steady(s.slideshow_steered(input, now), g),
        steady(s.woken(wake), g),
{
    bar_keeps_steady(s, g, bar);
    panel_keeps_steady(s, g, panel);
    keys_keep_steady(s, g, grid, single, position, now);
    steering_keeps_steady(s, g, input, now);
    wake_keeps_steady(s, g, wake);
}

proof fn bar_keeps_steady<T, V, N, R>(s: AppSpec<T, V, N, R>, g: u64, bar: BarActions)
    requires
        steady(s, g),
    ensures
        steady(s.bar_done(bar), g),
{
    steps_keep_steady(s, g, bar.go_back, bar.go_forward, bar.go_up);
    let a = s.stepped_around(bar.go_back, bar.go_forward, bar.go_up);
    choices_keep_steady(a, g, crate::path::option_view(bar.enter_folder), bar.add_managed);
    let b = a.chosen(crate::path::option_view(bar.enter_folder));
    choices_keep_steady(b, g, crate::path::option_view(bar.open_folder), bar.add_managed);
    let c = b.chosen(crate::path::option_view(bar.open_folder));
    let d = match crate::path::option_view(bar.open_image) {
        Some(p) => {
            requests_keep_steady(c, g, p, false, false, false);
            c.recent_opened(p)
        },
        None => c,
    };
    choices_keep_steady(d, g, None, bar.add_managed);
    choices_keep_steady(
        d.adding(bar.add_managed),
        g,
        crate::path::option_view(bar.remove_managed),
        None,
    );
}

proof fn keys_keep_steady<T, V, N, R>(
    s: AppSpec<T, V, N, R>,
    g: u64,
    grid: GridKeys,
    single: SingleKeys,
    position: Option<N>,
    now: u64,
)
    requires
        steady(s, g),
    ensures
        steady(s.grid_keyed(grid, now), g),
        steady(s.single_shown(single, position, now), g),
{
    broadcast use group_steady;

}

proof fn steering_keeps_steady<T, V, N, R>(
    s: AppSpec<T, V, N, R>,
    g: u64,
    input: SsInput<N>,
    now: u64,
)
    requires
        steady(s, g),
    ensures
        steady(s.slideshow_begun(now), g),
        steady(s.slideshow_steered(input, now), g),
{
    broadcast use group_steady;

}

/// Nothing else that happens to the viewer makes a list too long or a request come out of turn.
pub proof fn the_rest_keeps_steady<T, V, N, R>(
    s: AppSpec<T, V, N, R>,
    g: u64,
    i: Option<usize>,
    j: Option<usize>,
    cursor: Option<usize>,
    rect: Option<R>,
    on: bool,
    video: VideoInput<N>,
    audio: AudioInput<N>,
    width: u32,
    thumb: u32,
    cols: usize,
    start: int,
    end: int,
    keys: (bool, bool, bool, bool),
    now: u64,
)
    requires
        steady(s, g),
    ensures
        steady(s.grid_done(i, j, cursor, now), g),
        steady(s.names_shown(on), g),
        steady(s.laid_out(width, thumb, cols), g),
        steady(s.rows_shown(start, end, on), g),
        steady(s.video_used(on, video, audio), g),
        steady(s.strip_closed(), g),
        steady(s.strip_chosen(cols), g),
        steady(s.close_pressed(cols), g),
        steady(s.address_keyed(keys.0, keys.1, keys.2, keys.3), g),
        steady(s.address_opened(), g),
        steady(s.placed(rect, on, now), g),
        steady(s.frame_begun(rect, on, now), g),
        steady(s.ended(), g),
{
    broadcast use group_steady;

}

proof fn steps_keep_steady<T, V, N, R>(
    s: AppSpec<T, V, N, R>,
    g: u64,
    go_back: bool,
    go_forward: bool,
    go_up: bool,
)
    requires
        steady(s, g),
    ensures
        steady(s.stepped_around(go_back, go_forward, go_up), g),
{
    let any = arbitrary();
    requests_keep_steady(s, g, any, false, false, false);
    let a = if go_back {
        s.went_back()
    } else {
        s
    };
    requests_keep_steady(a, g, any, false, false, false);
    let b = if go_forward {
        a.went_forward()
    } else {
        a
    };
    requests_keep_steady(b, g, any, false, false, false);
}

proof fn choices_keep_steady<T, V, N, R>(
    s: AppSpec<T, V, N, R>,
    g: u64,
    folder: Option<crate::path::PathSpec>,
    added: Option<(crate::path::MediaPath, bool)>,
)
    requires
        steady(s, g),
    ensures
        steady(s.chosen(folder), g),
        steady(s.removing(folder), g),
        steady(s.adding(added), g),
{
    if let Some(f) = folder {
        requests_keep_steady(s, g, f, true, false, false);
    }
    if let Some((p, is_dir)) = added {
        requests_keep_steady(s, g, p@, false, false, is_dir);
    }
}

proof fn panel_keeps_steady<T, V, N, R>(s: AppSpec<T, V, N, R>, g: u64, p: PanelActions)
    requires
        steady(s, g),
    ensures
        steady(s.panel_done(p), g),
{
    choices_keep_steady(s, g, None, p.add_current);
    let a = s.adding(p.add_current);
    choices_keep_steady(a, g, crate::path::option_view(p.open_managed), None);
    let b = a.chosen(crate::path::option_view(p.open_managed));
    requests_keep_steady(b, g, arbitrary(), false, false, false);
    let c = if p.open_library {
        b.library_asked(false)
    } else {
        b
    };
    choices_keep_steady(c, g, crate::path::option_view(p.remove_managed), None);
    let d = c.removing(crate::path::option_view(p.remove_managed));
    choices_keep_steady(d, g, crate::path::option_view(p.selected), None);
}

proof fn watcher_keeps_steady<T, V, N, R>(s: AppSpec<T, V, N, R>, g: u64, changed: bool, now: u64)
    requires
        steady(s, g),
    ensures
        steady(s.watcher_polled(changed, now), g),
{
    let seen = if changed {
        AppSpec { watcher_debounce: Some(now), ..s }
    } else {
        s
    };
    let settled = AppSpec { watcher_debounce: None, ..seen };
    refresh_keeps_steady(settled, g);
}

proof fn slideshow_keeps_steady<T, V, N, R>(s: AppSpec<T, V, N, R>, g: u64, w: FrameInput)
    requires
        steady(s, g),
    ensures
        steady(s.slideshow_stirred(w.now), g),
        steady(s.slideshow_ticked(w.now, w.fade_done, w.due), g),
        steady(s.screen_begun(), g),
{
    broadcast use group_steady;

}

proof fn wake_keeps_steady<T, V, N, R>(s: AppSpec<T, V, N, R>, g: u64, w: FrameInput)
    requires
        steady(s, g),
    ensures
        steady(s.awake(w), g),
{
    watcher_keeps_steady(s, g, w.folder_changed, w.now);
    let a = s.watcher_polled(w.folder_changed, w.now);
    slideshow_keeps_steady(a, g, w);
    let b = if w.active {
        a.slideshow_stirred(w.now)
    } else {
        a
    };
    slideshow_keeps_steady(b, g, w);
    let c = b.slideshow_ticked(w.now, w.fade_done, w.due);
    steps_keep_steady(c, g, w.alt_left, w.alt_right, false);
    slideshow_keeps_steady(c.stepped_around(w.alt_left, w.alt_right, false), g, w);
}

// ── The requests for thumbnails reach the loader ─────────────────────────────

/// What waits to be sent is sent, and the requests that come later are still in turn: the last
/// one that was sent is not newer than any of them.
pub proof fn sending_keeps_steady<T, V, N, R>(s: AppSpec<T, V, N, R>, g: u64)
    requires
        steady(s, g),
    ensures
        steady(AppSpec { outbox: Seq::empty(), ..s }, s.thumbs.generation),
{
    reveal(loads_in_turn);
}

/// Thumbnails that come, are shown or are forgotten leave the count of the requests alone.
pub proof fn results_keep_the_generation<T>(
    t: crate::thumbs::ThumbsSpec<T>,
    times: Map<crate::path::PathKey, i64>,
    results: Seq<crate::loader::ResultSpec>,
    r: crate::loader::ResultSpec,
    gone: Set<crate::path::PathKey>,
)
    ensures
        t.received(results).generation == t.generation,
        t.taken(times, r).generation == t.generation,
        t.forgotten(gone).generation == t.generation,
        t.out_of_view().generation == t.generation,
{
}

/// The queue of the loader after it was handed the requests among these effects, one after the
/// other.
pub open spec fn queue_after<N>(
    q: crate::loader::QueueSpec,
    out: Seq<EffectSpec<N>>,
) -> crate::loader::QueueSpec
    decreases out.len(),
{
    if out.len() == 0 {
        q
    } else {
        match out.last() {
            EffectSpec::Load(r) => queue_after(q, out.drop_last()).offered(r),
            _ => queue_after(q, out.drop_last()),
        }
    }
}

/// A request for thumbnails is never dropped for one that was sent before it: when its turn
/// comes, all its jobs are entered.
pub proof fn no_request_is_dropped<T, V, N, R>(
    s: AppSpec<T, V, N, R>,
    g: u64,
    q: crate::loader::QueueSpec,
    i: int,
)
    requires
        steady(s, g),
        crate::loader::sound_queue(q),
        q.generation <= g,
        0 <= i < s.outbox.len(),
        s.outbox[i] is Load,
    ensures
        ({
            let r = s.outbox[i]->Load_0;
            let before = queue_after(q, s.outbox.take(i));
            let after = before.offered(r);
            &&& before.generation <= r.generation
            &&& after.generation == r.generation
            &&& forall|k: int|
                0 <= k < r.items.len() ==> after.pending.contains(
                    crate::loader::JobSpec {
                        generation: r.generation,
                        priority: (#[trigger] r.items[k]).priority,
                        seq: crate::loader::seq_plus(before.seq, k as nat),
                        path: r.items[k].path,
                    },
                )
        }),
{
    let r = s.outbox[i]->Load_0;
    queue_is_not_ahead(q, s.outbox, g, s.thumbs.generation, i, i);
    crate::loader::newer_requests_drop_stale_jobs(queue_after(q, s.outbox.take(i)), r);
}

proof fn queue_is_not_ahead<N>(
    q: crate::loader::QueueSpec,
    out: Seq<EffectSpec<N>>,
    first: u64,
    last: u64,
    n: int,
    i: int,
)
    requires
        loads_in_turn(out, first, last),
        crate::loader::sound_queue(q),
        q.generation <= first,
        0 <= n <= i < out.len(),
        out[i] is Load,
    ensures
        crate::loader::sound_queue(queue_after(q, out.take(n))),
        queue_after(q, out.take(n)).generation <= load_generation(out[i]),
    decreases n,
{
    reveal(loads_in_turn);
    if n > 0 {
        assert(out.take(n).drop_last() =~= out.take(n - 1));
        assert(out.take(n).last() == out[n - 1]);
        queue_is_not_ahead(q, out, first, last, n - 1, i);
        if let EffectSpec::Load(r) = out[n - 1] {
            queue_is_not_ahead(q, out, first, last, n - 1, n - 1);
            crate::loader::newer_requests_drop_stale_jobs(queue_after(q, out.take(n - 1)), r);
        }
    }
}

} // verus!
