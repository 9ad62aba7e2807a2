//! What the keys and controls of the viewer do, and what each frame does.

use vstd::prelude::*;

use crate::frames::{BarActions, FrameInput, FrameOutput, GridKeys, PanelActions, Screen, SingleKeys};
use crate::single::{AudioInput, VideoInput};
use crate::slideshow::{SsInput, Wake};
use crate::viewer::AppSpec;
use crate::work::{EffectSpec, ViewMode};

verus! {

/// All but the address bar is as it was.
pub open spec fn same_but_address<T, V, N, R>(a: AppSpec<T, V, N, R>, b: AppSpec<T, V, N, R>) -> bool {
    &&& crate::conduct::same_preferences(a, b) && crate::conduct::same_lists(a, b)
    &&& crate::conduct::same_content(a, b) && crate::conduct::same_views(a, b)
    &&& crate::conduct::same_layout(a, b) && crate::conduct::same_place(a, b)
    &&& crate::conduct::same_scan(a, b) && a.outbox == b.outbox
}

// ── The address bar ──────────────────────────────────────────────────────────

/// Escape, the loss of the focus and an entered text that is no folder bring back the text of what
/// is on show; an entered folder keeps its text. Each of them ends the editing, and nothing else
/// does. While the bar is not edited, its keys do nothing.
pub proof fn the_address_bar_goes_back_or_stays<T, V, N, R>(
    s: AppSpec<T, V, N, R>,
    escape: bool,
    enter: bool,
    is_dir: bool,
    lost_focus: bool,
)
    ensures
        ({
            let t = s.address_keyed(escape, enter, is_dir, lost_focus);
            let shown = if s.view_mode == ViewMode::Library {
                "Library"@
            } else if s.selected_folder is Some {
                s.selected_folder->0.text
            } else {
                Seq::empty()
            };
            &&& same_but_address(s, t) && t.address_needs_focus == s.address_needs_focus
            &&& !s.address_editing ==> t == s
            &&& s.address_editing && escape ==> t.address_text == shown && !t.address_editing
            &&& s.address_editing && !escape && enter && is_dir ==> t.address_text
                == s.address_text && !t.address_editing
            &&& s.address_editing && !escape && enter && !is_dir ==> t.address_text == shown
                && !t.address_editing
            &&& s.address_editing && !escape && !enter && lost_focus ==> t.address_text == shown
                && !t.address_editing
            &&& !escape && !enter && !lost_focus ==> t == s
            &&& s.restored_address() == shown
        }),
        ({
            let t = s.address_opened();
            &&& t.address_editing && t.address_needs_focus && t.address_text == s.address_text
            &&& same_but_address(s, t)
        }),
{
}

/// Where the user does nothing, nothing changes; each single thing that is done is done.
pub proof fn the_bar_does_what_it_is_told<T, V, N, R>(s: AppSpec<T, V, N, R>, b: BarActions)
    ensures
        ({
            let t = s.bar_done(b);
            let none = b.enter_folder is None && b.open_folder is None && b.open_image is None
                && b.add_managed is None && b.remove_managed is None;
            let still = !b.go_back && !b.go_forward && !b.go_up;
            &&& none && still ==> t == s
            &&& none && b.go_back && !b.go_forward && !b.go_up ==> t == s.went_back()
            &&& none && !b.go_back && b.go_forward && !b.go_up ==> t == s.went_forward()
            &&& none && !b.go_back && !b.go_forward && b.go_up ==> t == s.went_up()
            &&& none && b.go_back && b.go_forward && !b.go_up ==> t == s.went_back().went_forward()
            &&& none && b.go_back && !b.go_forward && b.go_up ==> t == s.went_back().went_up()
            &&& none && !b.go_back && b.go_forward && b.go_up ==> t == s.went_forward().went_up()
        }),
        ({
            let t = s.bar_done(b);
            let still = !b.go_back && !b.go_forward && !b.go_up;
            let no_change = b.add_managed is None && b.remove_managed is None;
            &&& still && no_change && b.enter_folder is Some && b.open_folder is None
                && b.open_image is None ==> t == s.folder_asked(b.enter_folder->0@, true, false)
            &&& still && no_change && b.enter_folder is None && b.open_folder is Some
                && b.open_image is None ==> t == s.folder_asked(b.open_folder->0@, true, false)
            &&& still && no_change && b.enter_folder is None && b.open_folder is None
                && b.open_image is Some ==> t == s.recent_opened(b.open_image->0@)
        }),
        ({
            let t = s.bar_done(b);
            let still = !b.go_back && !b.go_forward && !b.go_up && b.enter_folder is None
                && b.open_folder is None && b.open_image is None;
            &&& still && b.add_managed is Some && b.remove_managed is None ==> t
                == s.managed_added((b.add_managed->0).0@, (b.add_managed->0).1)
            &&& still && b.add_managed is None && b.remove_managed is Some ==> t
                == s.managed_removed(b.remove_managed->0@.parts)
            &&& still && b.add_managed is Some && b.remove_managed is Some ==> t == s.managed_added(
                (b.add_managed->0).0@,
                (b.add_managed->0).1,
            ).managed_removed(b.remove_managed->0@.parts)
        }),
{
}

/// What is clicked in the left panel is done: a folder of the library or of the tree is shown, the
/// library is, or a folder is put into it or taken out of it.
pub proof fn the_panel_does_what_it_is_told<T, V, N, R>(s: AppSpec<T, V, N, R>, p: PanelActions)
    ensures
        ({
            let t = s.panel_done(p);
            let no_change = p.add_current is None && p.remove_managed is None;
            let same = (p.selected is None && p.selected_before is None) || (p.selected is Some
                && p.selected_before is Some && p.selected->0@.parts == p.selected_before->0@.parts);
            &&& no_change && same && p.open_managed is None && !p.open_library ==> t == s
            &&& no_change && same && p.open_managed is Some && !p.open_library ==> t
                == s.folder_asked(p.open_managed->0@, true, false)
            &&& no_change && same && p.open_managed is None && p.open_library ==> t
                == s.library_asked(false)
            &&& no_change && !same && p.open_managed is None && !p.open_library && p.selected is Some
                ==> t == s.folder_asked(p.selected->0@, true, false)
            &&& no_change && p.open_managed is None && !p.open_library && p.selected is None ==> t
                == s
            &&& p.add_current is Some && p.remove_managed is None && same && p.open_managed is None
                && !p.open_library ==> t == s.managed_added(
                (p.add_current->0).0@,
                (p.add_current->0).1,
            )
            &&& p.add_current is None && p.remove_managed is Some && same && p.open_managed is None
                && !p.open_library ==> t == s.managed_removed(p.remove_managed->0@.parts)
        }),
        s.shows_library() <==> s.managed.paths.len() > 0 || s.selected_folder is Some
            || s.view_mode == ViewMode::Library,
{
}

// ── The grid ─────────────────────────────────────────────────────────────────

/// A slideshow covers a medium shown alone, and that one covers the grid. Away from the grid no
/// medium of it counts as on show; on it nothing changes.
pub proof fn one_part_fills_the_window<T, V, N, R>(s: AppSpec<T, V, N, R>)
    ensures
        s.slideshow is Some ==> s.screen() == Screen::Slideshow,
        s.slideshow is None && s.single_image is Some ==> s.screen() == Screen::Single,
        s.slideshow is None && s.single_image is None ==> s.screen() == Screen::Grid
            && s.screen_begun() == s,
        ({
            let t = s.screen_begun();
            &&& s.screen() != Screen::Grid ==> t.thumbs.visible.len() == 0
                && t.thumbs.prefetch.len() == 0
            &&& t.thumbs.thumbnails == s.thumbs.thumbnails && t.thumbs.queued == s.thumbs.queued
                && t.thumbs.deferred == s.thumbs.deferred && t.thumbs.generation
                == s.thumbs.generation
            &&& t.groups == s.groups && t.media == s.media && t.outbox == s.outbox
            &&& crate::conduct::same_preferences(s, t) && crate::conduct::same_lists(s, t)
            &&& crate::conduct::same_views(s, t) && crate::conduct::same_layout(s, t)
            &&& crate::conduct::same_place(s, t) && crate::conduct::same_address(s, t)
            &&& crate::conduct::same_scan(s, t)
        }),
{
}

/// The grid is laid out for its width, its tiles, its groups and its media, and again once one of
/// them has changed.
pub proof fn the_grid_is_laid_out_when_it_changes<T, V, N, R>(
    s: AppSpec<T, V, N, R>,
    width: u32,
    thumb: u32,
    cols: usize,
)
    requires
        s.groups.len() <= usize::MAX,
        s.media.len() <= usize::MAX,
    ensures
        ({
            let t = s.laid_out(width, thumb, cols);
            let old_sig = s.grid_signature;
            let same = old_sig is Some && (old_sig->0).0 == width && (old_sig->0).1 == thumb && (
            old_sig->0).2 == s.groups.len() && (old_sig->0).3 == s.media.len();
            &&& same ==> t == s
            &&& !same ==> {
                &&& t.grid_layout is Some && t.grid_layout->0.cols == cols
                &&& t.grid_layout->0.sizes.len() == s.groups.len()
                &&& forall|i: int|
                    0 <= i < s.groups.len() ==> #[trigger] t.grid_layout->0.sizes[i]
                        == s.groups[i].images.len()
            }
            &&& t.grid_signature is Some && (t.grid_signature->0).0 == width && (
            t.grid_signature->0).1 == thumb
            &&& t.laid_out(width, thumb, cols) == t
            &&& t.streak == s.streak && t.scroll_rect == s.scroll_rect && t.outer_rect
                == s.outer_rect && t.motion_until == s.motion_until
            &&& crate::conduct::same_preferences(s, t) && crate::conduct::same_lists(s, t)
            &&& crate::conduct::same_content(s, t) && crate::conduct::same_views(s, t)
            &&& crate::conduct::same_place(s, t) && crate::conduct::same_address(s, t)
            &&& crate::conduct::same_scan(s, t) && t.outbox == s.outbox
        }),
{
}

/// The rows on show tell which media are on show, and which are about to be; nothing else changes.
pub proof fn rows_on_show_tell_the_media_on_show<T, V, N, R>(
    s: AppSpec<T, V, N, R>,
    start: int,
    end: int,
    moving: bool,
)
    ensures
        s.grid_layout is None ==> s.rows_shown(start, end, moving) == s,
        ({
            let t = s.rows_shown(start, end, moving);
            &&& s.grid_layout is Some ==> {
                &&& t.thumbs.visible == crate::grid::visible_media(s.grid_layout->0, start, end)
                &&& t.thumbs.prefetch == crate::grid::nearby_media(
                    s.grid_layout->0,
                    start,
                    end,
                    moving,
                )
            }
            &&& t.thumbs.thumbnails == s.thumbs.thumbnails && t.thumbs.queued == s.thumbs.queued
                && t.thumbs.deferred == s.thumbs.deferred && t.thumbs.generation
                == s.thumbs.generation && t.thumbs.done == s.thumbs.done && t.thumbs.total
                == s.thumbs.total
            &&& t.groups == s.groups && t.media == s.media && t.outbox == s.outbox
            &&& crate::conduct::same_preferences(s, t) && crate::conduct::same_lists(s, t)
            &&& crate::conduct::same_views(s, t) && crate::conduct::same_layout(s, t)
            &&& crate::conduct::same_place(s, t) && crate::conduct::same_address(s, t)
            &&& crate::conduct::same_scan(s, t)
        }),
{
}

/// A medium that is opened on the grid is shown alone; else a slideshow that is asked for starts.
/// The arrow keys go on from where the user clicked.
pub proof fn a_click_on_the_grid_opens_or_starts<T, V, N, R>(
    s: AppSpec<T, V, N, R>,
    i: usize,
    cursor: Option<usize>,
    now: u64,
)
    ensures
        ({
            let t = s.grid_done(Some(i), None, cursor, now);
            &&& t.single_image is Some && t.single_image->0.index == i && t.grid_cursor == cursor
            &&& t.slideshow == s.slideshow && t.recent_images == s.opened(i).recent_images
            &&& t.outbox == s.outbox.push(EffectSpec::Focus)
        }),
        forall|other: Option<usize>| #[trigger]
            s.grid_done(Some(i), other, cursor, now) == s.grid_done(Some(i), None, cursor, now),
        ({
            let t = s.grid_done(None, Some(i), cursor, now);
            &&& t.slideshow is Some && t.slideshow->0.index == i && t.grid_cursor == cursor
            &&& t.single_image == s.single_image && t.recent_images == s.recent_images
            &&& t.outbox == s.outbox.push(EffectSpec::FullScreen(true)).push(EffectSpec::Focus)
        }),
        ({
            let t = s.grid_done(None, None, cursor, now);
            &&& t.grid_cursor == cursor && t.single_image == s.single_image && t.slideshow
                == s.slideshow
            &&& crate::conduct::same_preferences(s, t) && crate::conduct::same_lists(s, t)
            &&& crate::conduct::same_content(s, t) && crate::conduct::same_layout(s, t)
            &&& crate::conduct::same_place(s, t) && crate::conduct::same_address(s, t)
            &&& crate::conduct::same_scan(s, t) && t.outbox == s.outbox
        }),
        ({
            let t = s.names_shown(true);
            &&& t.show_names && crate::conduct::same_lists(s, t) && crate::conduct::same_content(s, t)
            &&& t.outbox == s.outbox.push(EffectSpec::Save(t.settings()))
        }),
        ({
            let t = s.names_shown(false);
            &&& !t.show_names && crate::conduct::same_lists(s, t) && crate::conduct::same_content(s, t)
            &&& t.outbox == s.outbox.push(EffectSpec::Save(t.settings()))
        }),
{
}

/// An arrow key over the grid shows the medium beside the cursor alone: the one after it or, at the
/// end, the first one; the one before it or, at the beginning, the last one. Without a cursor it is
/// the first one or the last one.
pub proof fn arrow_keys_lead_to_the_media_beside<T, V, N, R>(
    s: AppSpec<T, V, N, R>,
    k: GridKeys,
    now: u64,
)
    requires
        0 < s.media.len() <= usize::MAX,
        s.grid_cursor is Some ==> s.grid_cursor->0 < s.media.len(),
        !s.address_editing,
        !k.ctrl_l && !k.f5 && !k.enter,
    ensures
        ({
            let t = s.grid_keyed(k, now);
            let n = s.media.len();
            let c = s.grid_cursor;
            let right = if c is Some && c->0 + 1 < n {
                c->0 + 1
            } else {
                0
            };
            let left = if c is Some && c->0 > 0 {
                c->0 - 1
            } else {
                n - 1
            };
            &&& !k.left && !k.right ==> t == s
            &&& k.right ==> t.single_image is Some && t.single_image->0.index == right
                && t.grid_cursor == Some(t.single_image->0.index)
            &&& k.left && !k.right ==> t.single_image is Some && t.single_image->0.index == left
                && t.grid_cursor == Some(t.single_image->0.index)
            &&& k.left || k.right ==> t.outbox == s.outbox.push(EffectSpec::Focus)
            &&& t.slideshow == s.slideshow && crate::conduct::same_lists(s, t)
            &&& crate::conduct::same_preferences(s, t) && crate::conduct::same_content(s, t)
            &&& crate::conduct::same_layout(s, t) && crate::conduct::same_place(s, t)
            &&& crate::conduct::same_address(s, t) && crate::conduct::same_scan(s, t)
        }),
{
    if s.grid_cursor is Some {
        crate::slideshow::places_go_round(s.grid_cursor->0, s.media.len() as usize);
    }
}

/// Enter opens the medium at the cursor, F5 starts a slideshow with the first image, and Ctrl+L
/// edits the address. While the address is edited, or without media, no other key counts.
pub proof fn other_keys_over_the_grid<T, V, N, R>(s: AppSpec<T, V, N, R>, k: GridKeys, now: u64)
    requires
        s.media.len() <= usize::MAX,
    ensures
        k.ctrl_l ==> s.grid_keyed(k, now) == s.address_opened(),
        !k.ctrl_l && (s.address_editing || s.media.len() == 0) ==> s.grid_keyed(k, now) == s,
        !k.ctrl_l && !s.address_editing && s.media.len() > 0 && !k.left && !k.right ==> {
            let t = s.grid_keyed(k, now);
            let c = s.grid_cursor;
            &&& k.f5 && !k.enter ==> t == s.slideshow_started(0, now)
            &&& k.enter && !k.f5 && c is None ==> t == s
            &&& k.enter && !k.f5 && c is Some && c->0 < s.media.len() ==> t == s.opened(c->0)
            &&& k.enter && !k.f5 && c is Some && c->0 >= s.media.len() ==> t == s.opened(
                (s.media.len() - 1) as usize,
            )
            &&& !k.enter && !k.f5 ==> t == s
            &&& k.enter && k.f5 && c is None ==> t == s.slideshow_started(0, now)
            &&& k.enter && k.f5 && c is Some && c->0 < s.media.len() ==> t == s.slideshow_started(
                0,
                now,
            ).opened(c->0)
        },
        !k.ctrl_l && !s.address_editing && s.media.len() > 0 && k.f5 ==> {
            let t = s.grid_keyed(k, now);
            t.slideshow is Some && t.slideshow->0.index == 0
        },
{
}

// ── A medium shown alone ─────────────────────────────────────────────────────

/// Escape closes the medium, with the cursor on it. F5 puts a slideshow in its place, where there is
/// an image for it. Without media the view is gone. No other key ends the view.
pub proof fn some_keys_end_the_view_of_a_medium<T, V, N, R>(
    s: AppSpec<T, V, N, R>,
    k: SingleKeys,
    position: Option<N>,
    now: u64,
)
    requires
        s.single_image is Some,
    ensures
        ({
            let t = s.single_shown(k, position, now);
            let from = crate::index::slideshow_from(s.media, s.single_image->0.index as int);
            &&& s.media.len() > 0 && k.escape ==> t == s.closed() && s.single_ends(k)
            &&& s.media.len() > 0 && !k.escape && k.f5 && from is Some ==> {
                &&& s.single_ends(k)
                &&& t.single_image is None
                &&& t.slideshow is Some && t.slideshow->0.index == from->0 as usize
                &&& t.grid_cursor == s.grid_cursor
                &&& t.outbox == s.outbox.push(EffectSpec::FullScreen(true)).push(EffectSpec::Focus)
            }
            &&& s.media.len() == 0 ==> s.single_ends(k) && t.single_image is None && t.grid_cursor
                == s.grid_cursor && t.outbox == s.outbox
            &&& s.media.len() > 0 && !k.escape && (!k.f5 || from is None) ==> !s.single_ends(k)
                && t.single_image is Some && t.slideshow == s.slideshow && t.outbox == s.outbox
                && t.grid_cursor == s.grid_cursor
            &&& crate::conduct::same_preferences(s, t) && crate::conduct::same_lists(s, t)
            &&& crate::conduct::same_content(s, t) && crate::conduct::same_layout(s, t)
            &&& crate::conduct::same_place(s, t) && crate::conduct::same_address(s, t)
            &&& crate::conduct::same_scan(s, t)
        }),
{
}

/// The keys and the wheel lead from one medium shown alone to the one beside it, and round at the
/// ends. Without a step the medium stays.
pub proof fn steps_lead_from_medium_to_medium<T, V, N, R>(
    s: AppSpec<T, V, N, R>,
    k: SingleKeys,
    position: Option<N>,
    now: u64,
)
    requires
        s.single_image is Some,
        s.single_image->0.index < s.media.len() <= usize::MAX,
        !k.escape && !k.f5,
    ensures
        ({
            let t = s.single_shown(k, position, now);
            let i = s.single_image->0.index;
            let n = s.media.len();
            &&& t.single_image is Some
            &&& k.forward && !k.back ==> t.single_image->0.index == if i + 1 < n {
                i + 1
            } else {
                0
            }
            &&& k.back && !k.forward ==> t.single_image->0.index == if i > 0 {
                i - 1
            } else {
                n - 1
            }
            &&& k.back == k.forward ==> t.single_image->0.index == i
            &&& t.single_image->0.path is Some && t.single_image->0.path->0.parts
                == s.media[t.single_image->0.index as int].parts
        }),
{
    let si = s.single_image->0;
    crate::single::steps_lead_to_the_media_beside(si, s.media.len() as usize);
    crate::slideshow::places_go_round(si.index, s.media.len() as usize);
    if k.back && k.forward {
        crate::slideshow::places_go_round(
            crate::slideshow::prev_place(si.index, s.media.len() as usize),
            s.media.len() as usize,
        );
        crate::slideshow::places_go_round(
            crate::slideshow::next_place(si.index, s.media.len() as usize),
            s.media.len() as usize,
        );
    }
}

/// Closing by the button leaves the cursor on the medium; closing from the filmstrip does too, and
/// gives the window the focus. A frame of the filmstrip that is chosen is shown.
pub proof fn buttons_of_a_medium<T, V, N, R>(s: AppSpec<T, V, N, R>, i: usize)
    ensures
        ({
            let t = s.close_pressed(i);
            &&& t.grid_cursor == Some(i) && t.single_image is None && t.slideshow == s.slideshow
            &&& crate::conduct::same_preferences(s, t) && crate::conduct::same_lists(s, t)
            &&& crate::conduct::same_content(s, t) && crate::conduct::same_layout(s, t)
            &&& crate::conduct::same_place(s, t) && crate::conduct::same_address(s, t)
            &&& crate::conduct::same_scan(s, t) && t.outbox == s.outbox
        }),
        ({
            let t = s.strip_closed();
            &&& t.single_image is None && t.slideshow == s.slideshow
            &&& s.single_image is Some ==> t.grid_cursor == Some(s.single_image->0.index)
            &&& crate::conduct::same_lists(s, t) && crate::conduct::same_content(s, t)
            &&& t.outbox == s.outbox.push(EffectSpec::Focus)
        }),
        ({
            let t = s.strip_chosen(i);
            &&& s.single_image is Some ==> t.single_image is Some && t.single_image->0
                == s.single_image->0.jumped(i)
            &&& s.single_image is None ==> t.single_image is None
            &&& t.grid_cursor == s.grid_cursor && t.slideshow == s.slideshow
            &&& crate::conduct::same_lists(s, t) && crate::conduct::same_content(s, t)
            &&& t.outbox == s.outbox.push(EffectSpec::Focus)
        }),
{
}

/// The controls of a video act on the video on show, and its sound is saved where it was changed;
/// over an image they do nothing.
pub proof fn the_controls_act_on_a_video<T, V, N, R>(
    s: AppSpec<T, V, N, R>,
    video: VideoInput<N>,
    audio: AudioInput<N>,
)
    ensures
        s.video_used(false, video, audio) == s,
        s.single_image is None ==> s.video_used(true, video, audio) == s,
        s.single_image is Some ==> {
            let t = s.video_used(true, video, audio);
            let sounds = s.single_image->0.video is Some && crate::single::audio_changes(audio);
            let sound = crate::single::audio_after(
                crate::single::Audio { volume: s.volume, muted: s.muted },
                audio,
            );
            &&& t.single_image == Some(s.single_image->0.controlled(video))
            &&& sounds ==> t.volume == sound.volume && t.muted == sound.muted && t.outbox
                == s.outbox.push(EffectSpec::Save(t.settings()))
            &&& !sounds ==> t.volume == s.volume && t.muted == s.muted && t.outbox == s.outbox
            &&& t.slideshow == s.slideshow && t.grid_cursor == s.grid_cursor
            &&& t.interval == s.interval && t.fade == s.fade && t.pixel_perfect
                == s.pixel_perfect && t.show_names == s.show_names
            &&& crate::conduct::same_lists(s, t) && crate::conduct::same_content(s, t)
            &&& crate::conduct::same_layout(s, t) && crate::conduct::same_place(s, t)
            &&& crate::conduct::same_address(s, t) && crate::conduct::same_scan(s, t)
        },
{
}

// ── The slideshow ────────────────────────────────────────────────────────────

/// What the user sets a slideshow to is kept for the next one, and what they leave alone stays.
pub proof fn controls_of_the_slideshow_are_kept<T, V, N, R>(
    s: AppSpec<T, V, N, R>,
    input: SsInput<N>,
    now: u64,
)
    requires
        s.slideshow is Some,
        !input.stop,
    ensures
        ({
            let t = s.slideshow_steered(input, now);
            let ss = s.slideshow->0;
            &&& input.interval_changed ==> t.interval == input.interval
            &&& !input.interval_changed ==> t.interval == s.interval
            &&& input.fade != ss.fade_enabled ==> t.fade == input.fade
            &&& input.fade == ss.fade_enabled ==> t.fade == s.fade
            &&& input.pixel_perfect != ss.pixel_perfect ==> t.pixel_perfect == input.pixel_perfect
            &&& input.pixel_perfect == ss.pixel_perfect ==> t.pixel_perfect == s.pixel_perfect
            &&& t.slideshow == Some(ss.steered(s.image_count(), now, input))
            &&& t.volume == s.volume && t.muted == s.muted && t.show_names == s.show_names
            &&& t.single_image == s.single_image && t.grid_cursor == s.grid_cursor
            &&& crate::conduct::same_lists(s, t) && crate::conduct::same_content(s, t)
            &&& crate::conduct::same_layout(s, t) && crate::conduct::same_place(s, t)
            &&& crate::conduct::same_address(s, t) && crate::conduct::same_scan(s, t)
            &&& t.outbox == s.outbox
        }),
{
}

/// A slideshow that the user stops is gone, with its settings kept and saved; so is one without
/// images, which goes on with nothing.
pub proof fn a_slideshow_stops<T, V, N, R>(s: AppSpec<T, V, N, R>, input: SsInput<N>, now: u64)
    requires
        s.slideshow is Some,
        crate::index::images_among(s.media).len() <= usize::MAX,
    ensures
        input.stop ==> {
            let t = s.slideshow_steered(input, now);
            &&& t.slideshow is None
            &&& t.interval == input.interval && t.fade == input.fade && t.pixel_perfect
                == input.pixel_perfect
            &&& t.outbox == s.outbox.push(EffectSpec::FullScreen(false)).push(
                EffectSpec::Save(t.settings()),
            )
            &&& crate::conduct::same_lists(s, t) && crate::conduct::same_content(s, t)
            &&& t.single_image == s.single_image && t.grid_cursor == s.grid_cursor
        },
        s.image_count() == crate::index::images_among(s.media).len(),
        crate::index::images_among(s.media).len() == 0 ==> s.slideshow_begun(now).slideshow is None
            && s.slideshow_begun(now) == s.slideshow_stopped(),
        crate::index::images_among(s.media).len() > 0 ==> {
            let t = s.slideshow_begun(now);
            &&& t.slideshow == Some(s.slideshow->0.expired(now))
            &&& crate::conduct::same_preferences(s, t) && crate::conduct::same_lists(s, t)
            &&& crate::conduct::same_content(s, t) && crate::conduct::same_layout(s, t)
            &&& crate::conduct::same_place(s, t) && crate::conduct::same_address(s, t)
            &&& crate::conduct::same_scan(s, t) && t.outbox == s.outbox
            &&& t.single_image == s.single_image && t.grid_cursor == s.grid_cursor
        },
{
}

/// The time and what the user does move a slideshow alone; without one nothing happens.
pub proof fn time_moves_the_slideshow_alone<T, V, N, R>(
    s: AppSpec<T, V, N, R>,
    now: u64,
    fade_done: bool,
    due: bool,
)
    ensures
        s.slideshow is None ==> s.slideshow_ticked(now, fade_done, due) == s
            && s.slideshow_stirred(now) == s,
        s.slideshow is Some ==> {
            let t = s.slideshow_ticked(now, fade_done, due);
            let u = s.slideshow_stirred(now);
            &&& t.slideshow == Some(s.slideshow->0.ticked(s.image_count(), now, fade_done, due))
            &&& u.slideshow == Some(s.slideshow->0.stirred(now))
            &&& t.single_image == s.single_image && t.grid_cursor == s.grid_cursor
            &&& u.single_image == s.single_image && u.grid_cursor == s.grid_cursor
            &&& crate::conduct::same_preferences(s, t) && crate::conduct::same_lists(s, t)
            &&& crate::conduct::same_content(s, t) && crate::conduct::same_layout(s, t)
            &&& crate::conduct::same_place(s, t) && crate::conduct::same_address(s, t)
            &&& crate::conduct::same_scan(s, t) && t.outbox == s.outbox
            &&& crate::conduct::same_preferences(s, u) && crate::conduct::same_lists(s, u)
            &&& crate::conduct::same_content(s, u) && crate::conduct::same_layout(s, u)
            &&& crate::conduct::same_place(s, u) && crate::conduct::same_address(s, u)
            &&& crate::conduct::same_scan(s, u) && u.outbox == s.outbox
        },
{
}

// ── Each frame ───────────────────────────────────────────────────────────────

/// A frame in which nothing happened changes nothing on the grid; Alt with an arrow key steps back
/// or forward; a change of a folder is noted. Before the viewer has started, nothing counts.
pub proof fn a_frame_does_what_happened<T, V, N, R>(
    s: AppSpec<T, V, N, R>,
    w: FrameInput,
    rect: Option<R>,
    changed: bool,
)
    ensures
        !s.startup_ready ==> s.woken(w) == s && s.frame_begun(rect, changed, w.now) == s,
        s.startup_ready ==> s.frame_begun(rect, changed, w.now) == s.placed(rect, changed, w.now),
        s.startup_ready && s.screen() == Screen::Grid && s.watcher_debounce is None
            && !w.folder_changed && !w.alt_left && !w.alt_right ==> s.woken(w) == s,
        s.startup_ready && s.slideshow is None && s.watcher_debounce is None && !w.folder_changed
            && w.alt_left && !w.alt_right ==> s.woken(w) == s.went_back().screen_begun(),
        s.startup_ready && s.slideshow is None && s.watcher_debounce is None && !w.folder_changed
            && !w.alt_left && w.alt_right ==> s.woken(w) == s.went_forward().screen_begun(),
        s.startup_ready && s.slideshow is None && w.folder_changed && !w.alt_left && !w.alt_right
            ==> s.woken(w).watcher_debounce == Some(w.now) && s.woken(w).media == s.media,
        s.startup_ready && s.slideshow is Some && !w.alt_left && !w.alt_right && !w.active ==> s.woken(w).slideshow == Some(
            s.slideshow->0.ticked(s.image_count(), w.now, w.fade_done, w.due),
        ),
        s.startup_ready && s.slideshow is Some && !w.alt_left && !w.alt_right && w.active ==> s.woken(w).slideshow == Some(
            s.slideshow->0.stirred(w.now).ticked(s.image_count(), w.now, w.fade_done, w.due),
        ),
{
}

/// A frame tells the part that fills the window after it, and when to paint again: after what the
/// user did to a slideshow that runs, two and a half seconds and a little later.
pub proof fn a_frame_tells_when_to_paint<T, V, N, R>(
    s: AppSpec<T, V, N, R>,
    w: FrameInput,
    out: FrameOutput,
)
    requires
        s.startup_ready,
        s.tells(w, out),
    ensures
        out.screen == s.woken(w).screen(),
        s.slideshow is None ==> out.slideshow == Wake::No && out.controls_end is None,
        s.slideshow is Some && w.active && !s.slideshow->0.paused ==> out.controls_end == Some(
            2_599_999_905u64,
        ),
        s.slideshow is Some && (!w.active || s.slideshow->0.paused) ==> out.controls_end is None,
        s.slideshow is Some && !w.active ==> out.slideshow == s.slideshow->0.wake(
            s.image_count(),
            w.now,
            w.fade_done,
            w.due,
        ),
{
}

// ── Texts ────────────────────────────────────────────────────────────────────

/// The status bar says where the user is, and of how many thumbnails how many are done, in how many
/// folders, and which one was the last; it says nothing of them once all are done.
pub proof fn the_status_bar_says_what_is_done<T, V, N, R>(
    s: AppSpec<T, V, N, R>,
    k: crate::path::PathKey,
)
    ensures
        s.selected_folder is Some ==> s.location() == s.selected_folder->0.text,
        s.selected_folder is None ==> s.location() == "Library"@,
        s.is_caching() ==> s.thumbs.total > 0,
        s.thumbs.total > 0 && s.thumbs.queued.contains(k) ==> s.is_caching(),
        (forall|p: crate::path::PathKey| !s.thumbs.queued.contains(p)) ==> !s.is_caching(),
        ({
            let t = s.thumbs;
            let counts = "画像をキャッシュ中 "@ + crate::text::decimal(t.done as nat) + "/"@
                + crate::text::decimal(t.total as nat) + "  "@ + crate::text::decimal(
                t.queued_folders as nat,
            ) + " folders"@;
            &&& t.current is None ==> s.caching_text() == counts
            &&& t.current is Some ==> s.caching_text() == counts + "  "@ + t.current->0.text
        }),
{
    if forall|p: crate::path::PathKey| !s.thumbs.queued.contains(p) {
        assert(s.thumbs.queued =~= Set::empty());
    }
    let t = s.thumbs;
    let counts = "画像をキャッシュ中 "@ + crate::text::decimal(t.done as nat) + "/"@
        + crate::text::decimal(t.total as nat) + "  "@ + crate::text::decimal(
        t.queued_folders as nat,
    ) + " folders"@;
    if t.current is None {
        assert(s.caching_text() =~= counts);
    } else {
        assert(s.caching_text() =~= counts + "  "@ + t.current->0.text);
    }
}

/// The place of a medium is told as the user counts, from one, with the number of all.
pub proof fn places_are_counted_from_one(i: nat, n: nat, name: Seq<char>)
    ensures
        crate::frames::place_label(i, n) == crate::text::decimal(i + 1) + " / "@
            + crate::text::decimal(n),
        crate::frames::single_label(i, n, name) == crate::text::decimal(i + 1) + " / "@
            + crate::text::decimal(n) + "  "@ + name,
{
}

/// Two paths are the same where their components are, and where there is neither.
pub proof fn paths_are_the_same_by_their_components(
    a: crate::path::PathSpec,
    b: crate::path::PathSpec,
)
    ensures
        crate::frames::same_option(Some(a), Some(b)) <==> a.parts == b.parts,
        crate::frames::same_option(None, None),
        !crate::frames::same_option(Some(a), None),
        !crate::frames::same_option(None, Some(b)),
{
}

/// A frame of a medium shown alone is made of the medium at its place: its path, whether it is a
/// video, its place counted from one with the name that was on show, and the controls as they were.
/// A picture is asked for where the medium is an image that is not loaded.
pub proof fn a_frame_is_made_of_the_medium_on_show<T, V, N>(
    f: crate::frames::SingleFrame<N>,
    a: crate::single::SingleSpec<T, V, N>,
    media: Seq<crate::path::PathSpec>,
)
    requires
        crate::frames::frame_tells(f, a, media),
        a.index < media.len(),
    ensures
        f.index == a.index,
        f.path@ == media[a.index as int],
        f.is_video <==> crate::media::video_key(media[a.index as int].parts),
        f.label@ == crate::text::decimal((a.index + 1) as nat) + " / "@ + crate::text::decimal(
            media.len(),
        ) + "  "@ + a.display_name,
        f.is_video ==> !f.needs_picture,
        !f.is_video ==> (f.needs_picture <==> a.lacks(media[a.index as int])),
        f.has_player <==> a.video is Some,
        f.controls == a.video_ui,
{
}

/// The seek bar of a video follows its player; over an image there is none to follow.
pub proof fn only_videos_follow_their_player<T, V, N>(
    si: crate::single::SingleSpec<T, V, N>,
    media: Seq<crate::path::PathSpec>,
    k: SingleKeys,
    position: Option<N>,
)
    ensures
        ({
            let a = si.walked(media.len() as usize, k.back, k.forward);
            let t = crate::frames::followed_among(si, media, k, position);
            &&& !crate::media::video_key(media[a.index as int].parts) ==> t == a
            &&& crate::media::video_key(media[a.index as int].parts) ==> t == a.followed(position)
        }),
{
}

/// The log says how many groups, media and folders a scan found.
pub proof fn the_log_says_what_was_found<T, V, N, R>(
    s: AppSpec<T, V, N, R>,
    r: crate::work::ScanResult,
)
    requires
        r.generation == s.scan_generation,
    ensures
        s.scan_done(r).outbox.len() > s.outbox.len(),
        s.scan_done(r).outbox[s.outbox.len() as int] == EffectSpec::<N>::Log(
            "  groups="@ + crate::text::decimal(r.folder_groups@.len()) + " total_items="@
                + crate::text::decimal(
                crate::index::groups_media(crate::scan::groups_view(r.folder_groups@)).len(),
            ) + " subdirs="@ + crate::text::decimal(r.direct_subdirs@.len()),
        ),
{
    crate::conduct::a_scan_shows_what_it_found(s, r);
}

} // verus!
