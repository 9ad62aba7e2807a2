//! The slideshow: which image is on show, when the next one comes, and when the controls go.
//!
//! Times are nanoseconds since the viewer started. How far a fade has come and whether an
//! image has been on show for long enough is told to the slideshow.

use vstd::prelude::*;

use crate::path::MediaPath;

verus! {

/// How long the controls stay visible after user interaction: 2.6 seconds, in the single
/// precision that the interval is kept in.
pub const CONTROLS_VISIBLE_NANOS: u64 = 2_599_999_905;

/// A time later by `d`.
pub open spec fn later(now: u64, d: u64) -> u64 {
    if now + d > u64::MAX {
        u64::MAX
    } else {
        (now + d) as u64
    }
}

/// The place behind `i` in a round of `n`.
pub open spec fn next_place(i: usize, n: usize) -> usize {
    if i == usize::MAX {
        0
    } else {
        ((i + 1) % n as int) as usize
    }
}

/// The place in front of `i` in a round of `n`.
pub open spec fn prev_place(i: usize, n: usize) -> usize {
    if i == 0 {
        (n - 1) as usize
    } else {
        (i - 1) as usize
    }
}

/// The place behind `i` in a round of `n`.
pub fn next_in_round(i: usize, n: usize) -> (r: usize)
    requires
        n > 0,
    ensures
        r == next_place(i, n),
        r < n,
{
    if i == usize::MAX {
        0
    } else {
        (i + 1) % n
    }
}

/// The place in front of `i` in a round of `n`.
pub fn prev_in_round(i: usize, n: usize) -> (r: usize)
    requires
        n > 0,
    ensures
        r == prev_place(i, n),
        i < n ==> r < n,
{
    if i == 0 {
        n - 1
    } else {
        i - 1
    }
}

/// A step forward undoes a step back, and a step back one forward.
pub proof fn steps_undo_each_other(i: usize, n: usize)
    requires
        i < n,
    ensures
        next_place(prev_place(i, n), n) == i,
        prev_place(next_place(i, n), n) == i,
{
    if i + 1 < n {
        assert((i + 1) % n as int == i + 1) by (nonlinear_arith)
            requires
                0 <= i + 1 < n,
        ;
    } else {
        assert(n as int % n as int == 0) by (nonlinear_arith)
            requires
                n > 0,
        ;
    }
    if i > 0 {
        assert(i as int % n as int == i) by (nonlinear_arith)
            requires
                0 <= i < n,
        ;
    } else {
        assert(n as int % n as int == 0) by (nonlinear_arith)
            requires
                n > 0,
        ;
    }
}

/// Where the slideshow is between two images.
#[derive(Clone, Copy, PartialEq, Eq, Structural, Debug)]
pub enum SsPhase {
    /// The image appears, since the given time.
    FadeIn(u64),
    /// The image is on show.
    Visible,
    /// The image disappears, since the given time.
    FadeOut(u64),
}

/// A slideshow with pictures of type `T`, and an interval of type `N`.
pub struct Slideshow<T, N> {
    pub index: usize,
    pub interval: N,
    pub last_advance: u64,
    pub paused: bool,
    pub full_tex: Option<T>,
    pub full_path: Option<MediaPath>,
    pub fade_enabled: bool,
    pub pixel_perfect: bool,
    pub controls_visible_until: Option<u64>,
    pub interaction_pause_until: Option<u64>,
    pub has_shown_first_frame: bool,
    pub suppress_next_fade: bool,
    pub phase: SsPhase,
}

/// What a slideshow holds.
pub struct SlideshowSpec<T, N> {
    pub index: usize,
    pub interval: N,
    pub last_advance: u64,
    pub paused: bool,
    pub full_tex: Option<T>,
    pub full_path: Option<crate::path::PathSpec>,
    pub fade_enabled: bool,
    pub pixel_perfect: bool,
    pub controls_visible_until: Option<u64>,
    pub interaction_pause_until: Option<u64>,
    pub has_shown_first_frame: bool,
    pub suppress_next_fade: bool,
    pub phase: SsPhase,
}

impl<T, N> View for Slideshow<T, N> {
    type V = SlideshowSpec<T, N>;

    open spec fn view(&self) -> SlideshowSpec<T, N> {
        SlideshowSpec {
            index: self.index,
            interval: self.interval,
            last_advance: self.last_advance,
            paused: self.paused,
            full_tex: self.full_tex,
            full_path: crate::path::option_view(self.full_path),
            fade_enabled: self.fade_enabled,
            pixel_perfect: self.pixel_perfect,
            controls_visible_until: self.controls_visible_until,
            interaction_pause_until: self.interaction_pause_until,
            has_shown_first_frame: self.has_shown_first_frame,
            suppress_next_fade: self.suppress_next_fade,
            phase: self.phase,
        }
    }
}

/// When the slideshow has to be painted again.
#[derive(Clone, Copy, PartialEq, Eq, Structural, Debug)]
pub enum Wake {
    /// Not on account of the slideshow.
    No,
    /// At once.
    Now,
    /// After so many nanoseconds.
    After(u64),
    /// When the image that has appeared has been on show.
    AfterShow,
    /// When the image on show has been there for long enough.
    WhenDue,
}

/// What the user asks of the slideshow in one frame.
pub struct SsInput<N> {
    pub stop: bool,
    pub go_prev: bool,
    pub go_next: bool,
    pub toggle_pause: bool,
    pub interval: N,
    /// The interval differs from the one that is set by enough to count.
    pub interval_changed: bool,
    pub fade: bool,
    pub pixel_perfect: bool,
}

impl<T, N> SlideshowSpec<T, N> {
    /// A slideshow that starts.
    pub open spec fn started(
        index: usize,
        interval: N,
        fade_enabled: bool,
        pixel_perfect: bool,
        now: u64,
    ) -> SlideshowSpec<T, N> {
        SlideshowSpec {
            index,
            interval,
            last_advance: now,
            paused: false,
            full_tex: None,
            full_path: None,
            fade_enabled,
            pixel_perfect,
            controls_visible_until: None,
            interaction_pause_until: None,
            has_shown_first_frame: false,
            suppress_next_fade: false,
            phase: SsPhase::Visible,
        }
    }

    /// The user did something: the controls show and the slideshow waits, for a while. A
    /// paused slideshow has its controls on show anyway.
    pub open spec fn stirred(self, now: u64) -> SlideshowSpec<T, N> {
        let until = if self.paused {
            None
        } else {
            Some(later(now, CONTROLS_VISIBLE_NANOS))
        };
        SlideshowSpec { controls_visible_until: until, interaction_pause_until: until, ..self }
    }

    /// The image at another place is to be shown.
    pub open spec fn moved(self, index: usize, now: u64) -> SlideshowSpec<T, N> {
        SlideshowSpec { index, last_advance: now, full_tex: None, full_path: None, ..self }
    }

    /// The user holds up the slideshow.
    pub open spec fn held(self, now: u64) -> bool {
        self.paused || (self.interaction_pause_until is Some && self.interaction_pause_until->0
            > now)
    }

    /// The slideshow after the time has come to `now`, among `n` images.
    pub open spec fn ticked(self, n: usize, now: u64, fade_done: bool, due: bool) -> SlideshowSpec<
        T,
        N,
    > {
        if n == 0 || self.held(now) {
            self
        } else {
            match self.phase {
                SsPhase::FadeIn(_) => if fade_done {
                    SlideshowSpec { phase: SsPhase::Visible, ..self }
                } else {
                    self
                },
                SsPhase::Visible => if !due {
                    self
                } else if self.fade_enabled {
                    SlideshowSpec { phase: SsPhase::FadeOut(now), ..self }
                } else {
                    self.moved(next_place(self.index, n), now)
                },
                SsPhase::FadeOut(_) => if fade_done {
                    self.moved(next_place(self.index, n), now)
                } else {
                    self
                },
            }
        }
    }

    /// When to paint again after a tick.
    pub open spec fn wake(self, n: usize, now: u64, fade_done: bool, due: bool) -> Wake {
        if n == 0 || self.paused {
            Wake::No
        } else if self.held(now) {
            Wake::After((self.interaction_pause_until->0 - now) as u64)
        } else {
            match self.phase {
                SsPhase::FadeIn(_) => if fade_done {
                    Wake::AfterShow
                } else {
                    Wake::Now
                },
                SsPhase::Visible => if due {
                    Wake::Now
                } else {
                    Wake::WhenDue
                },
                SsPhase::FadeOut(_) => Wake::Now,
            }
        }
    }

    /// A time that has passed counts no more; while the slideshow is paused none does.
    pub open spec fn expired(self, now: u64) -> SlideshowSpec<T, N> {
        SlideshowSpec {
            controls_visible_until: unexpired(self.controls_visible_until, self.paused, now),
            interaction_pause_until: unexpired(self.interaction_pause_until, self.paused, now),
            ..self
        }
    }

    /// The controls are on show.
    pub open spec fn shows_controls(self, now: u64) -> bool {
        self.paused || (self.controls_visible_until is Some && self.controls_visible_until->0
            > now)
    }

    /// A step to another image, taken by the user: without a fade.
    pub open spec fn stepped(self, index: usize, now: u64) -> SlideshowSpec<T, N> {
        SlideshowSpec {
            phase: SsPhase::Visible,
            suppress_next_fade: true,
            ..self.moved(index, now)
        }
    }

    /// Steps of the user: back, and then forward.
    pub open spec fn walked(self, n: usize, now: u64, back: bool, forward: bool) -> SlideshowSpec<
        T,
        N,
    > {
        let a = if back {
            self.stepped(prev_place(self.index, n), now)
        } else {
            self
        };
        if forward {
            a.stepped(next_place(a.index, n), now)
        } else {
            a
        }
    }

    /// The slideshow is paused, or goes on.
    pub open spec fn toggled(self, now: u64) -> SlideshowSpec<T, N> {
        if self.paused {
            SlideshowSpec { paused: false, last_advance: now, ..self }
        } else {
            SlideshowSpec {
                paused: true,
                controls_visible_until: None,
                interaction_pause_until: None,
                ..self
            }
        }
    }

    /// The settings of the controls. A fade that is switched off is not finished.
    pub open spec fn adjusted(self, input: SsInput<N>) -> SlideshowSpec<T, N> {
        SlideshowSpec {
            interval: if input.interval_changed {
                input.interval
            } else {
                self.interval
            },
            fade_enabled: input.fade,
            phase: if input.fade != self.fade_enabled && self.phase is FadeOut {
                SsPhase::Visible
            } else {
                self.phase
            },
            pixel_perfect: input.pixel_perfect,
            ..self
        }
    }

    /// What the user asked for, among `n` images; the image on show is one of them.
    pub open spec fn steered(self, n: usize, now: u64, input: SsInput<N>) -> SlideshowSpec<T, N> {
        let a = self.walked(n, now, input.go_prev, input.go_next);
        let b = if input.toggle_pause {
            a.toggled(now)
        } else {
            a
        };
        let c = b.adjusted(input);
        SlideshowSpec {
            index: if c.index < n {
                c.index
            } else {
                (n - 1) as usize
            },
            ..c
        }
    }

    /// The picture of an image has come. It fades in, but not as the first one, and not after
    /// a step of the user.
    pub open spec fn loaded(self, tex: T, path: crate::path::PathSpec, now: u64) -> SlideshowSpec<
        T,
        N,
    > {
        SlideshowSpec {
            full_tex: Some(tex),
            full_path: Some(path),
            phase: if self.fade_enabled && self.has_shown_first_frame && !self.suppress_next_fade {
                SsPhase::FadeIn(now)
            } else {
                SsPhase::Visible
            },
            has_shown_first_frame: true,
            suppress_next_fade: false,
            ..self
        }
    }

    /// The picture of an image is not there.
    pub open spec fn lacks(self, path: crate::path::PathSpec) -> bool {
        !(self.full_path is Some && self.full_path->0.parts == path.parts)
    }
}

/// A time that still counts.
pub open spec fn unexpired(until: Option<u64>, paused: bool, now: u64) -> Option<u64> {
    match until {
        Some(t) => if paused || t <= now {
            None
        } else {
            until
        },
        None => None,
    }
}

fn still_counts(until: Option<u64>, paused: bool, now: u64) -> (r: Option<u64>)
    ensures
        r == unexpired(until, paused, now),
{
    match until {
        Some(t) => if paused || t <= now {
            None
        } else {
            until
        },
        None => None,
    }
}

/// Whether an optional path is that of `path`.
pub fn is_path(at: &Option<MediaPath>, path: &MediaPath) -> (r: bool)
    ensures
        r == (crate::path::option_view(*at) is Some && crate::path::option_view(*at)->0.parts
            == path.key()),
{
    match at {
        Some(p) => p.same(path),
        None => false,
    }
}

impl<T, N> Slideshow<T, N> {
    /// A slideshow that starts.
    pub fn new(
        index: usize,
        interval: N,
        fade_enabled: bool,
        pixel_perfect: bool,
        now: u64,
    ) -> (r: Self)
        ensures
            r@ == SlideshowSpec::<T, N>::started(index, interval, fade_enabled, pixel_perfect, now),
    {
        Slideshow {
            index,
            interval,
            last_advance: now,
            paused: false,
            full_tex: None,
            full_path: None,
            fade_enabled,
            pixel_perfect,
            controls_visible_until: None,
            interaction_pause_until: None,
            has_shown_first_frame: false,
            suppress_next_fade: false,
            phase: SsPhase::Visible,
        }
    }

    /// The user did something. Returns after how many nanoseconds to paint again.
    pub fn note_activity(&mut self, now: u64) -> (r: Option<u64>)
        ensures
            final(self)@ == old(self)@.stirred(now),
            r == if old(self)@.paused {
                None
            } else {
                Some(CONTROLS_VISIBLE_NANOS)
            },
    {
        if self.paused {
            self.controls_visible_until = None;
            self.interaction_pause_until = None;
            None
        } else {
            let until: u64 = now.saturating_add(CONTROLS_VISIBLE_NANOS);
            self.controls_visible_until = Some(until);
            self.interaction_pause_until = Some(until);
            Some(CONTROLS_VISIBLE_NANOS)
        }
    }

    fn move_to(&mut self, index: usize, now: u64)
        ensures
            final(self)@ == old(self)@.moved(index, now),
    {
        self.index = index;
        self.last_advance = now;
        self.full_tex = None;
        self.full_path = None;
    }

    /// The time has come to `now`, among `n` images: `fade_done` tells whether the fade is
    /// over, `due` whether the image has been on show for long enough.
    pub fn tick(&mut self, n: usize, now: u64, fade_done: bool, due: bool) -> (r: Wake)
        ensures
            final(self)@ == old(self)@.ticked(n, now, fade_done, due),
            r == old(self)@.wake(n, now, fade_done, due),
    {
        if n == 0 || self.paused {
            return Wake::No;
        }
        if let Some(until) = self.interaction_pause_until {
            if until > now {
                return Wake::After(until - now);
            }
        }
        match self.phase {
            SsPhase::FadeIn(_) => if fade_done {
                self.phase = SsPhase::Visible;
                Wake::AfterShow
            } else {
                Wake::Now
            },
            SsPhase::Visible => if due {
                if self.fade_enabled {
                    self.phase = SsPhase::FadeOut(now);
                } else {
                    let next: usize = next_in_round(self.index, n);
                    self.move_to(next, now);
                }
                Wake::Now
            } else {
                Wake::WhenDue
            },
            SsPhase::FadeOut(_) => {
                if fade_done {
                    let next: usize = next_in_round(self.index, n);
                    self.move_to(next, now);
                }
                Wake::Now
            },
        }
    }

    /// Starts a frame. Returns whether the controls are on show.
    pub fn begin_frame(&mut self, now: u64) -> (r: bool)
        ensures
            final(self)@ == old(self)@.expired(now),
            r == final(self)@.shows_controls(now),
    {
        self.controls_visible_until = still_counts(self.controls_visible_until, self.paused, now);
        self.interaction_pause_until = still_counts(
            self.interaction_pause_until,
            self.paused,
            now,
        );
        self.paused || match self.controls_visible_until {
            Some(until) => until > now,
            None => false,
        }
    }

    fn step_to(&mut self, index: usize, now: u64)
        ensures
            final(self)@ == old(self)@.stepped(index, now),
    {
        self.move_to(index, now);
        self.phase = SsPhase::Visible;
        self.suppress_next_fade = true;
    }

    /// Does what the user asked for, among `n` images.
    pub fn steer(&mut self, n: usize, now: u64, input: SsInput<N>)
        requires
            n > 0,
        ensures
            final(self)@ == old(self)@.steered(n, now, input),
            final(self)@.index < n,
    {
        if input.go_prev {
            let to: usize = prev_in_round(self.index, n);
            self.step_to(to, now);
        }
        if input.go_next {
            let to: usize = next_in_round(self.index, n);
            self.step_to(to, now);
        }
        if input.toggle_pause {
            self.paused = !self.paused;
            if !self.paused {
                self.last_advance = now;
            } else {
                self.controls_visible_until = None;
                self.interaction_pause_until = None;
            }
        }
        if input.interval_changed {
            self.interval = input.interval;
        }
        if input.fade != self.fade_enabled {
            self.fade_enabled = input.fade;
            if let SsPhase::FadeOut(_) = self.phase {
                self.phase = SsPhase::Visible;
            }
        }
        self.pixel_perfect = input.pixel_perfect;
        if self.index >= n {
            self.index = n - 1;
        }
    }

    /// Whether the picture of an image has to be loaded.
    pub fn needs_load(&self, path: &MediaPath) -> (r: bool)
        ensures
            r == self@.lacks(path@),
    {
        !is_path(&self.full_path, path)
    }

    /// The picture of an image has come.
    pub fn picture_loaded(&mut self, tex: T, path: MediaPath, now: u64)
        ensures
            final(self)@ == old(self)@.loaded(tex, path@, now),
    {
        let fade_in = self.fade_enabled && self.has_shown_first_frame && !self.suppress_next_fade;
        self.full_tex = Some(tex);
        self.full_path = Some(path);
        self.phase = if fade_in {
            SsPhase::FadeIn(now)
        } else {
            SsPhase::Visible
        };
        self.has_shown_first_frame = true;
        self.suppress_next_fade = false;
    }
}

/// A slideshow that the user paused, or that waits after the user did something, does not move
/// by itself.
pub proof fn held_slideshow_stays<T, N>(
    s: SlideshowSpec<T, N>,
    n: usize,
    now: u64,
    fade_done: bool,
    due: bool,
)
    requires
        s.held(now),
    ensures
        s.ticked(n, now, fade_done, due) == s,
{
}

/// Whatever the user does, the slideshow waits until the controls are gone.
pub proof fn activity_holds_the_slideshow<T, N>(s: SlideshowSpec<T, N>, now: u64, at: u64)
    requires
        now <= at,
        at < now + CONTROLS_VISIBLE_NANOS || s.paused,
        now + CONTROLS_VISIBLE_NANOS <= u64::MAX,
    ensures
        s.stirred(now).held(at),
        s.stirred(now).shows_controls(at),
{
}

/// By itself the slideshow goes through its images in turn: it shows the same one, or the next.
pub proof fn slideshow_goes_on_in_turn<T, N>(
    s: SlideshowSpec<T, N>,
    n: usize,
    now: u64,
    fade_done: bool,
    due: bool,
)
    requires
        n > 0,
    ensures
        s.ticked(n, now, fade_done, due).index == s.index || s.ticked(
            n,
            now,
            fade_done,
            due,
        ).index == next_place(s.index, n),
        s.index < n ==> s.ticked(n, now, fade_done, due).index < n,
{
}

/// A step of the user is shown without a fade, and so is the first image.
pub proof fn no_fade_after_a_step<T, N>(
    s: SlideshowSpec<T, N>,
    i: usize,
    now: u64,
    tex: T,
    path: crate::path::PathSpec,
    at: u64,
)
    ensures
        s.stepped(i, now).loaded(tex, path, at).phase == SsPhase::Visible,
        !s.has_shown_first_frame ==> s.loaded(tex, path, at).phase == SsPhase::Visible,
{
}

// ── What the slideshow is for ────────────────────────────────────────────────

/// The place behind one of `n` places is the one with the next number, and behind the last one
/// the first. The place in front is the one with the number before, and in front of the first
/// one the last.
pub proof fn places_go_round(i: usize, n: usize)
    requires
        i < n,
    ensures
        i + 1 < n ==> next_place(i, n) == i + 1,
        i + 1 == n ==> next_place(i, n) == 0,
        i > 0 ==> prev_place(i, n) == i - 1,
        i == 0 ==> prev_place(i, n) == n - 1,
{
    if i + 1 < n {
        assert((i + 1) % n as int == i + 1) by (nonlinear_arith)
            requires
                0 <= i + 1 < n,
        ;
    } else {
        assert(n as int % n as int == 0) by (nonlinear_arith)
            requires
                n > 0,
        ;
    }
}

/// A later time is later by what was added, as far as times go.
pub proof fn later_is_later(now: u64, d: u64)
    ensures
        now + d <= 0xffff_ffff_ffff_ffff ==> later(now, d) == now + d,
        now + d > 0xffff_ffff_ffff_ffff ==> later(now, d) == 0xffff_ffff_ffff_ffff,
        later(now, d) >= now,
{
}

/// The settings of a slideshow, and whether the user paused it, are the same in both.
pub open spec fn same_settings<T, N>(a: SlideshowSpec<T, N>, b: SlideshowSpec<T, N>) -> bool {
    &&& a.interval == b.interval && a.fade_enabled == b.fade_enabled
    &&& a.pixel_perfect == b.pixel_perfect && a.paused == b.paused
}

/// The times of the controls, and what is known of the next fade, are the same in both.
pub open spec fn same_marks<T, N>(a: SlideshowSpec<T, N>, b: SlideshowSpec<T, N>) -> bool {
    &&& a.controls_visible_until == b.controls_visible_until
    &&& a.interaction_pause_until == b.interaction_pause_until
    &&& a.has_shown_first_frame == b.has_shown_first_frame
    &&& a.suppress_next_fade == b.suppress_next_fade
}

/// Both show the same image, since the same time, with the same picture.
pub open spec fn same_image<T, N>(a: SlideshowSpec<T, N>, b: SlideshowSpec<T, N>) -> bool {
    &&& a.index == b.index && a.last_advance == b.last_advance
    &&& a.full_tex == b.full_tex && a.full_path == b.full_path
}

/// A slideshow starts at its image, running, with nothing loaded, and with the settings given.
pub proof fn a_slideshow_starts_at_its_image<T, N>(
    i: usize,
    interval: N,
    fade: bool,
    pixel_perfect: bool,
    now: u64,
    path: crate::path::PathSpec,
    at: u64,
)
    ensures
        ({
            let s = SlideshowSpec::<T, N>::started(i, interval, fade, pixel_perfect, now);
            &&& s.index == i && s.last_advance == now && !s.paused
            &&& s.interval == interval && s.fade_enabled == fade && s.pixel_perfect
                == pixel_perfect
            &&& s.phase == SsPhase::Visible && s.lacks(path) && s.full_tex is None
            &&& !s.held(at) && !s.shows_controls(at)
            &&& !s.has_shown_first_frame && !s.suppress_next_fade
        }),
{
}

/// A slideshow without fades shows the next image as soon as the one on show is due: the index
/// goes up by one, or back to the first image, the time counts anew, and the old picture is
/// gone, so that the next one is loaded.
pub proof fn without_fades_the_next_image_comes_when_due<T, N>(
    s: SlideshowSpec<T, N>,
    n: usize,
    now: u64,
    fade_done: bool,
    path: crate::path::PathSpec,
)
    requires
        s.index < n,
        !s.paused,
        s.interaction_pause_until is None || s.interaction_pause_until->0 <= now,
        s.phase == SsPhase::Visible,
        !s.fade_enabled,
    ensures
        ({
            let t = s.ticked(n, now, fade_done, true);
            &&& t.index == if s.index + 1 < n {
                s.index + 1
            } else {
                0
            }
            &&& t.last_advance == now
            &&& t.full_tex is None && t.lacks(path)
            &&& t.phase == SsPhase::Visible
            &&& same_settings(s, t) && same_marks(s, t)
            &&& s.wake(n, now, fade_done, true) == Wake::Now
        }),
{
    places_go_round(s.index, n);
}

/// A slideshow with fades lets the image on show fade out when it is due; when that fade is
/// done, the next image comes, and it fades in once it is loaded, until that fade is done.
pub proof fn with_fades_the_next_image_comes_after_the_fade<T, N>(
    s: SlideshowSpec<T, N>,
    n: usize,
    due_at: u64,
    out_at: u64,
    load_at: u64,
    in_at: u64,
    fade_done: bool,
    due: bool,
    tex: T,
    path: crate::path::PathSpec,
)
    requires
        s.index < n,
        !s.paused,
        s.interaction_pause_until is None || (s.interaction_pause_until->0 <= due_at
            && s.interaction_pause_until->0 <= out_at && s.interaction_pause_until->0 <= in_at),
        s.phase == SsPhase::Visible,
        s.fade_enabled,
        s.has_shown_first_frame,
        !s.suppress_next_fade,
    ensures
        ({
            let a = s.ticked(n, due_at, fade_done, true);
            let b = a.ticked(n, out_at, true, due);
            let c = b.loaded(tex, path, load_at);
            let d = c.ticked(n, in_at, true, due);
            &&& a.phase == SsPhase::FadeOut(due_at) && same_image(a, s)
            &&& a.ticked(n, out_at, false, due) == a
            &&& b.index == if s.index + 1 < n {
                s.index + 1
            } else {
                0
            }
            &&& b.last_advance == out_at && b.full_tex is None && b.full_path is None
            &&& c.phase == SsPhase::FadeIn(load_at) && c.full_tex == Some(tex) && c.full_path
                == Some(path) && !c.lacks(path) && c.index == b.index
            &&& c.ticked(n, in_at, false, due) == c
            &&& d.phase == SsPhase::Visible && same_image(c, d)
            &&& same_settings(s, d) && same_marks(s, d)
        }),
{
    places_go_round(s.index, n);
}

/// An image that is not due stays, and so does all where there are no images, or the user holds
/// the slideshow.
pub proof fn an_image_stays_until_it_is_due<T, N>(
    s: SlideshowSpec<T, N>,
    n: usize,
    now: u64,
    fade_done: bool,
    due: bool,
)
    ensures
        s.phase == SsPhase::Visible ==> s.ticked(n, now, fade_done, false) == s,
        s.ticked(0, now, fade_done, due) == s,
        s.paused ==> s.ticked(n, now, fade_done, due) == s,
        s.interaction_pause_until is Some && s.interaction_pause_until->0 > now ==> s.ticked(
            n,
            now,
            fade_done,
            due,
        ) == s,
{
}

/// When the window is painted again: never for a slideshow that is paused or has no images;
/// when the user no longer holds it; at once while a fade goes on or the image is due; else when
/// the image will be due.
pub proof fn the_window_wakes_in_time<T, N>(
    s: SlideshowSpec<T, N>,
    n: usize,
    now: u64,
    fade_done: bool,
    due: bool,
)
    ensures
        n == 0 || s.paused ==> s.wake(n, now, fade_done, due) == Wake::No,
        n > 0 && !s.paused ==> (match s.interaction_pause_until {
            Some(t) => t > now ==> s.wake(n, now, fade_done, due) == Wake::After((t - now) as u64),
            None => true,
        }),
        n > 0 && !s.paused && (s.interaction_pause_until is None || s.interaction_pause_until->0
            <= now) ==> {
            let w = s.wake(n, now, fade_done, due);
            &&& s.phase is FadeOut ==> w == Wake::Now
            &&& s.phase is FadeIn && !fade_done ==> w == Wake::Now
            &&& s.phase is FadeIn && fade_done ==> w == Wake::AfterShow
            &&& s.phase == SsPhase::Visible && due ==> w == Wake::Now
            &&& s.phase == SsPhase::Visible && !due ==> w == Wake::WhenDue
        },
{
}

/// What the user does brings the controls and holds the slideshow for 2.6 seconds, and leaves
/// the image and the settings alone; after that time both are over.
pub proof fn activity_shows_the_controls_for_a_while<T, N>(
    s: SlideshowSpec<T, N>,
    now: u64,
    at: u64,
)
    requires
        !s.paused,
        now + 2_599_999_905 <= 0xffff_ffff_ffff_ffff,
    ensures
        ({
            let t = s.stirred(now);
            &&& t.held(at) <==> at < now + 2_599_999_905
            &&& t.shows_controls(at) <==> at < now + 2_599_999_905
            &&& t.expired(at).shows_controls(at) <==> at < now + 2_599_999_905
            &&& at >= now + 2_599_999_905 ==> t.expired(at).controls_visible_until is None
                && t.expired(at).interaction_pause_until is None
            &&& at < now + 2_599_999_905 ==> t.expired(at) == t
            &&& same_image(s, t) && same_settings(s, t) && s.phase == t.phase
            &&& s.has_shown_first_frame == t.has_shown_first_frame && s.suppress_next_fade
                == t.suppress_next_fade
        }),
{
}

/// Times that have passed are dropped, times to come are kept, and nothing else changes; a
/// paused slideshow keeps none and shows its controls.
pub proof fn passed_times_are_dropped<T, N>(s: SlideshowSpec<T, N>, now: u64)
    ensures
        ({
            let t = s.expired(now);
            &&& s.paused ==> t.controls_visible_until is None && t.interaction_pause_until is None
                && t.shows_controls(now) && s.stirred(now).controls_visible_until is None
                && s.stirred(now).interaction_pause_until is None
            &&& s.controls_visible_until is Some && s.controls_visible_until->0 > now && !s.paused
                ==> t.controls_visible_until == s.controls_visible_until
            &&& s.interaction_pause_until is Some && s.interaction_pause_until->0 > now && !s.paused
                ==> t.interaction_pause_until == s.interaction_pause_until
            &&& t.controls_visible_until matches Some(u) ==> u > now && s.controls_visible_until
                == Some(u)
            &&& t.interaction_pause_until matches Some(u) ==> u > now
                && s.interaction_pause_until == Some(u)
            &&& same_image(s, t) && same_settings(s, t) && s.phase == t.phase
            &&& s.has_shown_first_frame == t.has_shown_first_frame && s.suppress_next_fade
                == t.suppress_next_fade
        }),
{
}

/// Nothing is asked for by the user.
pub open spec fn idle<T, N>(s: SlideshowSpec<T, N>, i: SsInput<N>) -> bool {
    !i.go_prev && !i.go_next && !i.toggle_pause && !i.interval_changed && i.fade
        == s.fade_enabled && i.pixel_perfect == s.pixel_perfect
}

/// Where the user asks for nothing, nothing changes.
pub proof fn without_input_nothing_changes<T, N>(
    s: SlideshowSpec<T, N>,
    n: usize,
    now: u64,
    input: SsInput<N>,
)
    requires
        s.index < n,
        idle(s, input),
    ensures
        s.steered(n, now, input) == s,
{
}

/// A step of the user leads to the next or the previous image at once, whose picture is then
/// loaded and shown without a fade; the time counts anew.
pub proof fn steps_lead_to_the_images_beside<T, N>(
    s: SlideshowSpec<T, N>,
    n: usize,
    now: u64,
    input: SsInput<N>,
    tex: T,
    path: crate::path::PathSpec,
    at: u64,
)
    requires
        s.index < n,
        input.go_prev != input.go_next,
        idle(s, SsInput { go_prev: false, go_next: false, ..input }),
    ensures
        ({
            let t = s.steered(n, now, input);
            &&& input.go_next ==> t.index == if s.index + 1 < n {
                s.index + 1
            } else {
                0
            }
            &&& input.go_prev ==> t.index == if s.index > 0 {
                s.index - 1
            } else {
                n - 1
            }
            &&& t.last_advance == now && t.full_tex is None && t.lacks(path)
            &&& t.phase == SsPhase::Visible && t.loaded(tex, path, at).phase == SsPhase::Visible
            &&& same_settings(s, t) && t.controls_visible_until == s.controls_visible_until
                && t.interaction_pause_until == s.interaction_pause_until
            &&& t.has_shown_first_frame == s.has_shown_first_frame
        }),
{
    places_go_round(s.index, n);
}

/// A step back and a step forward in one frame lead back to the image on show, whose picture is
/// loaded again.
pub proof fn both_steps_lead_back<T, N>(
    s: SlideshowSpec<T, N>,
    n: usize,
    now: u64,
    input: SsInput<N>,
)
    requires
        s.index < n,
        input.go_prev && input.go_next,
    ensures
        s.steered(n, now, input).index == s.index,
        s.steered(n, now, input).full_tex is None,
        s.steered(n, now, input).suppress_next_fade,
{
    steps_undo_each_other(s.index, n);
}

/// The user pauses a slideshow that runs, and has one that is paused go on, from now; the image
/// stays. A paused slideshow is held for ever and has no times that run out.
pub proof fn pausing_holds_the_image<T, N>(
    s: SlideshowSpec<T, N>,
    n: usize,
    now: u64,
    input: SsInput<N>,
    at: u64,
)
    requires
        s.index < n,
        input.toggle_pause,
        idle(s, SsInput { toggle_pause: false, ..input }),
    ensures
        ({
            let t = s.steered(n, now, input);
            &&& t.paused == !s.paused
            &&& t.paused ==> t.held(at) && t.shows_controls(at) && t.controls_visible_until is None
                && t.interaction_pause_until is None && t.last_advance == s.last_advance
            &&& !t.paused ==> t.last_advance == now && t.controls_visible_until
                == s.controls_visible_until && t.interaction_pause_until
                == s.interaction_pause_until
            &&& t.index == s.index && t.full_tex == s.full_tex && t.full_path == s.full_path
            &&& t.phase == s.phase && t.interval == s.interval && t.fade_enabled == s.fade_enabled
                && t.pixel_perfect == s.pixel_perfect
            &&& t.has_shown_first_frame == s.has_shown_first_frame && t.suppress_next_fade
                == s.suppress_next_fade
        }),
{
}

/// What the controls are set to counts from this frame on: interval, fade and pixels. A fade
/// that is on its way out ends where fades are switched on or off. The image stays.
pub proof fn controls_set_the_slideshow<T, N>(
    s: SlideshowSpec<T, N>,
    n: usize,
    now: u64,
    input: SsInput<N>,
)
    requires
        s.index < n,
        !input.go_prev && !input.go_next && !input.toggle_pause,
    ensures
        ({
            let t = s.steered(n, now, input);
            &&& t.interval == if input.interval_changed {
                input.interval
            } else {
                s.interval
            }
            &&& t.fade_enabled == input.fade && t.pixel_perfect == input.pixel_perfect
            &&& s.phase is FadeOut && input.fade != s.fade_enabled ==> t.phase == SsPhase::Visible
            &&& !(s.phase is FadeOut) || input.fade == s.fade_enabled ==> t.phase == s.phase
            &&& same_image(s, t) && same_marks(s, t) && t.paused == s.paused
        }),
{
}

/// Where there are fewer images than before, the last one is shown.
pub proof fn the_index_stays_among_the_images<T, N>(
    s: SlideshowSpec<T, N>,
    n: usize,
    now: u64,
    input: SsInput<N>,
)
    requires
        0 < n <= s.index,
        !input.go_prev && !input.go_next,
    ensures
        s.steered(n, now, input).index == n - 1,
{
}

/// A picture that has come is the one on show, and is not loaded again; another one would be.
/// It fades in where fades are on, an image was on show before, and the user did not step to it.
pub proof fn loaded_pictures_are_on_show<T, N>(
    s: SlideshowSpec<T, N>,
    tex: T,
    path: crate::path::PathSpec,
    other: crate::path::PathSpec,
    now: u64,
)
    ensures
        ({
            let t = s.loaded(tex, path, now);
            &&& t.full_tex == Some(tex) && t.full_path == Some(path)
            &&& t.lacks(other) <==> other.parts != path.parts
            &&& t.has_shown_first_frame && !t.suppress_next_fade
            &&& s.fade_enabled && s.has_shown_first_frame && !s.suppress_next_fade ==> t.phase
                == SsPhase::FadeIn(now)
            &&& !s.fade_enabled || !s.has_shown_first_frame || s.suppress_next_fade ==> t.phase
                == SsPhase::Visible
            &&& t.index == s.index && t.last_advance == s.last_advance && same_settings(s, t)
            &&& t.controls_visible_until == s.controls_visible_until && t.interaction_pause_until
                == s.interaction_pause_until
        }),
{
}

} // verus!
