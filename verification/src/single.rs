//! The view of a single picture or video.

use vstd::prelude::*;

use crate::path::MediaPath;
use crate::slideshow::{is_path, next_in_round, prev_in_round};

verus! {

/// How many frames of the filmstrip stand on each side of the current one.
pub const FILMSTRIP_RADIUS: usize = 3;

/// How many frames the filmstrip has.
pub const FILMSTRIP_LEN: usize = 7;

/// The controls of a video.
pub struct VideoUiState<N> {
    pub seek_dragging: bool,
    /// Where the seek bar is; nothing stands for the start.
    pub seek_position: Option<N>,
    pub volume_expanded: bool,
}

/// The view of the medium at a place, with pictures of type `T`, players of type `V` and
/// positions of type `N`.
pub struct SingleImage<T, V, N> {
    pub index: usize,
    pub tex: Option<T>,
    pub path: Option<MediaPath>,
    pub display_name: String,
    pub video: Option<V>,
    pub video_ui: VideoUiState<N>,
}

/// What the view of a medium holds.
pub struct SingleSpec<T, V, N> {
    pub index: usize,
    pub tex: Option<T>,
    pub path: Option<crate::path::PathSpec>,
    pub display_name: Seq<char>,
    pub video: Option<V>,
    pub video_ui: VideoUiState<N>,
}

impl<T, V, N> View for SingleImage<T, V, N> {
    type V = SingleSpec<T, V, N>;

    open spec fn view(&self) -> SingleSpec<T, V, N> {
        SingleSpec {
            index: self.index,
            tex: self.tex,
            path: crate::path::option_view(self.path),
            display_name: self.display_name@,
            video: self.video,
            video_ui: self.video_ui,
        }
    }
}

impl<T, V, N> SingleSpec<T, V, N> {
    /// The view of the medium at a place, before anything of it is loaded.
    pub open spec fn opened(index: usize) -> SingleSpec<T, V, N> {
        SingleSpec {
            index,
            tex: None,
            path: None,
            display_name: Seq::empty(),
            video: None,
            video_ui: VideoUiState {
                seek_dragging: false,
                seek_position: None,
                volume_expanded: false,
            },
        }
    }

    /// Another medium is to be shown.
    pub open spec fn turned(self, index: usize) -> SingleSpec<T, V, N> {
        SingleSpec { index, tex: None, ..self }
    }

    /// Steps of the user among `n` media: back, and then forward.
    pub open spec fn walked(self, n: usize, back: bool, forward: bool) -> SingleSpec<T, V, N> {
        let a = if back {
            self.turned(crate::slideshow::prev_place(self.index, n))
        } else {
            self
        };
        let b = if forward {
            a.turned(crate::slideshow::next_place(a.index, n))
        } else {
            a
        };
        SingleSpec {
            index: if b.index < n {
                b.index
            } else {
                (n - 1) as usize
            },
            ..b
        }
    }

    /// The medium of a path is not the one that was loaded.
    pub open spec fn lacks(self, path: crate::path::PathSpec) -> bool {
        !(self.path is Some && self.path->0.parts == path.parts)
    }

    /// The medium of a path is the one on show. What was loaded for another one is dropped,
    /// but an old picture stays until the new one has come.
    pub open spec fn shown(self, path: crate::path::PathSpec) -> SingleSpec<T, V, N> {
        if self.lacks(path) {
            SingleSpec {
                path: Some(path),
                display_name: crate::path::name_or_nothing(path.parts),
                video: None,
                tex: if crate::media::video_key(path.parts) {
                    None
                } else {
                    self.tex
                },
                ..self
            }
        } else {
            self
        }
    }

    /// The seek bar is where the player is, unless the user drags it.
    pub open spec fn followed(self, position: Option<N>) -> SingleSpec<T, V, N> {
        if self.video is Some && !self.video_ui.seek_dragging {
            SingleSpec {
                video_ui: VideoUiState { seek_position: position, ..self.video_ui },
                ..self
            }
        } else {
            self
        }
    }

    /// The controls of a video are as the user left them.
    pub open spec fn controlled(self, input: VideoInput<N>) -> SingleSpec<T, V, N> {
        SingleSpec {
            video_ui: VideoUiState {
                seek_dragging: input.seek_dragging,
                volume_expanded: input.volume_expanded,
                seek_position: if input.seek is Some {
                    input.seek
                } else {
                    self.video_ui.seek_position
                },
            },
            ..self
        }
    }

    /// A frame of the filmstrip was chosen.
    pub open spec fn jumped(self, index: usize) -> SingleSpec<T, V, N> {
        SingleSpec { path: None, ..self.turned(index) }
    }
}

/// What the user did to the controls of a video in one frame.
pub struct VideoInput<N> {
    pub seek_dragging: bool,
    pub volume_expanded: bool,
    pub seek: Option<N>,
}

/// Volume and mute.
pub struct Audio<N> {
    pub volume: N,
    pub muted: bool,
}

/// What the user did to the sound: a volume that was set, and whether it can be heard, and
/// whether mute was switched.
pub struct AudioInput<N> {
    pub volume: Option<N>,
    pub audible: bool,
    pub mute_toggle: bool,
}

/// The sound after what the user did: a volume that can be heard ends mute.
pub open spec fn audio_after<N>(a: Audio<N>, input: AudioInput<N>) -> Audio<N> {
    let muted = if input.volume is Some && input.audible {
        false
    } else {
        a.muted
    };
    Audio {
        volume: match input.volume {
            Some(v) => v,
            None => a.volume,
        },
        muted: if input.mute_toggle {
            !muted
        } else {
            muted
        },
    }
}

/// Something was done to the sound.
pub open spec fn audio_changes<N>(input: AudioInput<N>) -> bool {
    input.volume is Some || input.mute_toggle
}

/// Changes the sound. Returns whether anything was done to it.
pub fn change_audio<N>(audio: Audio<N>, input: AudioInput<N>) -> (r: (Audio<N>, bool))
    ensures
        r.0 == audio_after(audio, input),
        r.1 == audio_changes(input),
{
    let mut volume = audio.volume;
    let mut muted = audio.muted;
    let mut changed = input.mute_toggle;
    if let Some(v) = input.volume {
        volume = v;
        changed = true;
        if input.audible {
            muted = false;
        }
    }
    if input.mute_toggle {
        muted = !muted;
    }
    (Audio { volume, muted }, changed)
}

impl<T, V, N> SingleImage<T, V, N> {
    /// The view of the medium at a place.
    pub fn new(index: usize) -> (r: Self)
        ensures
            r@ == SingleSpec::<T, V, N>::opened(index),
    {
        let display_name = String::new();
        assert(display_name@ =~= Seq::empty());
        SingleImage {
            index,
            tex: None,
            path: None,
            display_name,
            video: None,
            video_ui: VideoUiState {
                seek_dragging: false,
                seek_position: None,
                volume_expanded: false,
            },
        }
    }

    /// Steps of the user among `n` media.
    pub fn walk(&mut self, n: usize, back: bool, forward: bool)
        requires
            n > 0,
        ensures
            final(self)@ == old(self)@.walked(n, back, forward),
            final(self)@.index < n,
    {
        if back {
            self.index = prev_in_round(self.index, n);
            self.tex = None;
        }
        if forward {
            self.index = next_in_round(self.index, n);
            self.tex = None;
        }
        if self.index >= n {
            self.index = n - 1;
        }
    }

    /// Shows the medium of a path. Returns whether its picture has to be loaded.
    pub fn show(&mut self, path: &MediaPath, is_video: bool) -> (r: bool)
        requires
            is_video == crate::media::video_key(path.key()),
        ensures
            final(self)@ == old(self)@.shown(path@),
            r == (old(self)@.lacks(path@) && !is_video),
    {
        if is_path(&self.path, path) {
            return false;
        }
        self.path = Some(path.clone());
        self.display_name = path.name_or_empty();
        self.video = None;
        if is_video {
            self.tex = None;
        }
        !is_video
    }

    /// The picture has come.
    pub fn picture_loaded(&mut self, tex: T)
        ensures
            final(self)@ == (SingleSpec { tex: Some(tex), ..old(self)@ }),
    {
        self.tex = Some(tex);
    }

    /// Goes to the medium of a frame of the filmstrip.
    pub fn jump(&mut self, index: usize)
        ensures
            final(self)@ == old(self)@.jumped(index),
    {
        self.index = index;
        self.tex = None;
        self.path = None;
    }

    /// Whether a player for a path has to be made.
    pub fn needs_player(&self, path: &MediaPath) -> (r: bool)
        ensures
            r == (self@.video is None || self@.lacks(path@)),
    {
        self.video.is_none() || !is_path(&self.path, path)
    }

    /// Where the seek bar of a playing video is: where the user drags it, or else where the
    /// player is.
    pub fn follow_player(&mut self, position: Option<N>)
        ensures
            final(self)@ == old(self)@.followed(position),
    {
        if self.video.is_some() && !self.video_ui.seek_dragging {
            self.video_ui.seek_position = position;
        }
    }

    /// Does what the user did to the controls of a video.
    pub fn video_controls(&mut self, input: VideoInput<N>)
        ensures
            final(self)@ == old(self)@.controlled(input),
    {
        self.video_ui.seek_dragging = input.seek_dragging;
        self.video_ui.volume_expanded = input.volume_expanded;
        if input.seek.is_some() {
            self.video_ui.seek_position = input.seek;
        }
    }
}

// ── Filmstrip ────────────────────────────────────────────────────────────────

/// The medium of a frame of the filmstrip: the current one stands in the middle, and the
/// others go round.
pub open spec fn strip_place(current: usize, n: usize, frame: int) -> int {
    (current + frame - FILMSTRIP_RADIUS) % (n as int)
}

/// The media of the frames of the filmstrip.
pub fn strip_places(current: usize, n: usize) -> (r: Vec<usize>)
    requires
        current < n,
    ensures
        r@.len() == FILMSTRIP_LEN,
        forall|i: int|
            0 <= i < r@.len() ==> #[trigger] r@[i] == strip_place(current, n, i) && r@[i] < n,
{
    let mut out: Vec<usize> = Vec::new();
    let wide: u128 = n as u128;
    let mut i: usize = 0;
    while i < FILMSTRIP_LEN
        invariant
            current < n,
            wide == n,
            i <= FILMSTRIP_LEN,
            out@.len() == i,
            forall|j: int|
                0 <= j < i ==> #[trigger] out@[j] == strip_place(current, n, j) && out@[j] < n,
        decreases FILMSTRIP_LEN - i,
    {
        let sum: u128 = current as u128 + i as u128 + 3 * wide - FILMSTRIP_RADIUS as u128;
        let place: u128 = sum % wide;
        proof {
            let x = current + i - FILMSTRIP_RADIUS;
            assert(sum == n * 3 + x);
            vstd::arithmetic::div_mod::lemma_mod_multiples_vanish(3, x as int, n as int);
            assert(n * 3 + x == 3 * n + x) by (nonlinear_arith);
            vstd::arithmetic::div_mod::lemma_mod_bound(x as int, n as int);
        }
        out.push(place as usize);
        i = i + 1;
    }
    out
}

/// The middle frame is the current medium, and each frame is followed by the next medium.
pub proof fn filmstrip_is_a_round(current: usize, n: usize, frame: int)
    requires
        current < n,
    ensures
        strip_place(current, n, FILMSTRIP_RADIUS as int) == current,
        strip_place(current, n, frame + 1) == crate::slideshow::next_place(
            strip_place(current, n, frame) as usize,
            n,
        ),
{
    let m = n as int;
    let x = current + frame - FILMSTRIP_RADIUS;
    vstd::arithmetic::div_mod::lemma_small_mod(current as nat, n as nat);
    vstd::arithmetic::div_mod::lemma_mod_bound(x as int, m);
    assert(((x % m) + 1) % m == (x + 1) % m) by {
        vstd::arithmetic::div_mod::lemma_add_mod_noop_right(1, x as int, m);
    }
}

// ── What the view of one medium is for ───────────────────────────────────────

/// A step forward leads from the medium at `i` to the one at `i + 1`, and from the last one to the
/// first; a step back leads to the one at `i - 1`, and from the first one to the last. The picture
/// of before goes. Both steps lead back to where the view was, and no step changes nothing.
pub proof fn steps_lead_to_the_media_beside<T, V, N>(s: SingleSpec<T, V, N>, n: usize)
    requires
        s.index < n,
    ensures
        s.walked(n, false, true).index == if s.index + 1 < n {
            s.index + 1
        } else {
            0
        },
        s.walked(n, true, false).index == if s.index > 0 {
            s.index - 1
        } else {
            n - 1
        },
        s.walked(n, true, true).index == s.index,
        s.walked(n, false, false) == s,
        s.walked(n, false, true).tex is None && s.walked(n, true, false).tex is None && s.walked(
            n,
            true,
            true,
        ).tex is None,
{
    crate::slideshow::places_go_round(s.index, n);
    crate::slideshow::steps_undo_each_other(s.index, n);
}

/// Steps keep all but the place and the picture, and where there are fewer media than before the
/// last one is shown.
pub proof fn steps_keep_the_controls<T, V, N>(
    s: SingleSpec<T, V, N>,
    n: usize,
    back: bool,
    forward: bool,
)
    requires
        n > 0,
    ensures
        ({
            let t = s.walked(n, back, forward);
            &&& t.path == s.path && t.display_name == s.display_name && t.video == s.video
                && t.video_ui == s.video_ui
            &&& t.index < n
            &&& !back && !forward && s.index >= n ==> t.index == n - 1 && t.tex == s.tex
        }),
{
    if forward && n > 0 {
        let i = if back {
            crate::slideshow::prev_place(s.index, n)
        } else {
            s.index
        };
        if i < usize::MAX {
            vstd::arithmetic::div_mod::lemma_mod_bound(i + 1, n as int);
        }
    }
}

/// A view that is opened is at its place and has nothing of a medium: no picture, no player, no
/// name, and the controls at rest. Any medium is then still to be loaded.
pub proof fn an_opened_view_is_empty<T, V, N>(i: usize, path: crate::path::PathSpec)
    ensures
        ({
            let s = SingleSpec::<T, V, N>::opened(i);
            &&& s.index == i && s.tex is None && s.path is None && s.video is None
                && s.display_name.len() == 0
            &&& !s.video_ui.seek_dragging && s.video_ui.seek_position is None
                && !s.video_ui.volume_expanded
            &&& s.lacks(path)
        }),
{
}

/// The medium that is shown is the one of its path, by its file name, and is not loaded again.
/// The player of another medium goes; the picture of another one goes at once for a video and
/// stays until the new one has come for an image.
pub proof fn the_medium_on_show_is_that_of_its_path<T, V, N>(
    s: SingleSpec<T, V, N>,
    path: crate::path::PathSpec,
    other: crate::path::PathSpec,
    tex: T,
)
    ensures
        s.lacks(path) <==> s.path is None || s.path->0.parts != path.parts,
        s.lacks(path) ==> {
            let t = s.shown(path);
            &&& t.path == Some(path) && t.video is None
            &&& t.display_name == crate::path::name_or_nothing(path.parts)
            &&& crate::media::video_key(path.parts) ==> t.tex is None
            &&& !crate::media::video_key(path.parts) ==> t.tex == s.tex
            &&& t.index == s.index && t.video_ui == s.video_ui
            &&& t.lacks(other) <==> other.parts != path.parts
        },
        !s.lacks(path) ==> s.shown(path) == s,
{
}

/// The seek bar follows the player where there is one and the user does not drag the bar; nothing
/// else moves with it.
pub proof fn the_seek_bar_follows_the_player<T, V, N>(
    s: SingleSpec<T, V, N>,
    position: Option<N>,
)
    ensures
        ({
            let t = s.followed(position);
            &&& s.video is Some && !s.video_ui.seek_dragging ==> t.video_ui.seek_position
                == position
            &&& s.video is None || s.video_ui.seek_dragging ==> t.video_ui.seek_position
                == s.video_ui.seek_position
            &&& t.video_ui.seek_dragging == s.video_ui.seek_dragging && t.video_ui.volume_expanded
                == s.video_ui.volume_expanded
            &&& t.index == s.index && t.tex == s.tex && t.path == s.path && t.display_name
                == s.display_name && t.video == s.video
        }),
{
}

/// The controls of a video are as the user left them; a seek moves the bar there, and without one
/// the bar stays.
pub proof fn controls_are_as_the_user_left_them<T, V, N>(
    s: SingleSpec<T, V, N>,
    input: VideoInput<N>,
)
    ensures
        ({
            let t = s.controlled(input);
            &&& t.video_ui.seek_dragging == input.seek_dragging && t.video_ui.volume_expanded
                == input.volume_expanded
            &&& input.seek is Some ==> t.video_ui.seek_position == input.seek
            &&& input.seek is None ==> t.video_ui.seek_position == s.video_ui.seek_position
            &&& t.index == s.index && t.tex == s.tex && t.path == s.path && t.display_name
                == s.display_name && t.video == s.video
        }),
{
}

/// A frame of the filmstrip that is chosen leads to its place, where the medium is loaded anew.
pub proof fn a_chosen_frame_is_loaded_anew<T, V, N>(
    s: SingleSpec<T, V, N>,
    i: usize,
    path: crate::path::PathSpec,
)
    ensures
        s.jumped(i).index == i,
        s.jumped(i).tex is None,
        s.jumped(i).lacks(path),
        s.jumped(i).video == s.video && s.jumped(i).video_ui == s.video_ui
            && s.jumped(i).display_name == s.display_name,
{
}

/// A volume that is set is kept, and ends mute where it can be heard; mute that is switched is the
/// other way round than it would be. Only where one of these happens does the sound change.
pub proof fn the_sound_is_as_it_was_set<N>(a: Audio<N>, input: AudioInput<N>)
    ensures
        ({
            let b = audio_after(a, input);
            &&& input.volume matches Some(v) ==> b.volume == v
            &&& input.volume is None ==> b.volume == a.volume
            &&& !input.mute_toggle && input.volume is Some && input.audible ==> !b.muted
            &&& !input.mute_toggle && (input.volume is None || !input.audible) ==> b.muted
                == a.muted
            &&& input.mute_toggle && input.volume is None ==> b.muted == !a.muted
            &&& input.mute_toggle && input.volume is Some && input.audible ==> b.muted
            &&& !audio_changes(input) ==> b == a
            &&& audio_changes(input) <==> input.volume is Some || input.mute_toggle
        }),
{
}

/// The seven frames of the filmstrip show the media around the current one, three on each side,
/// and go round at the ends.
pub proof fn the_filmstrip_shows_the_media_around(current: usize, n: usize, frame: int)
    requires
        current < n,
        0 <= frame < 7,
    ensures
        FILMSTRIP_LEN == 7,
        0 <= current + frame - 3 < n ==> strip_place(current, n, frame) == current + frame - 3,
        0 <= strip_place(current, n, frame) < n,
        current + frame - 3 < 0 && frame + n >= 3 - current ==> strip_place(current, n, frame)
            == current + frame - 3 + n,
        n <= current + frame - 3 < 2 * n ==> strip_place(current, n, frame) == current + frame - 3
            - n,
{
    let m = n as int;
    let x = current + frame - 3;
    vstd::arithmetic::div_mod::lemma_mod_bound(x, m);
    if 0 <= x < m {
        vstd::arithmetic::div_mod::lemma_small_mod(x as nat, n as nat);
    }
    if x < 0 && x + m >= 0 {
        vstd::arithmetic::div_mod::lemma_mod_add_multiples_vanish(x, m);
        vstd::arithmetic::div_mod::lemma_small_mod((x + m) as nat, n as nat);
    }
    if m <= x < 2 * m {
        vstd::arithmetic::div_mod::lemma_mod_sub_multiples_vanish(x, m);
        vstd::arithmetic::div_mod::lemma_small_mod((x - m) as nat, n as nat);
    }
}

} // verus!
