//! The settings file: one setting on each line, as `name=value`.
//!
//! Numbers stay texts here, and which paths are there is told from outside.

use vstd::prelude::*;

use crate::media::is_media;
use crate::path::MediaPath;
use crate::recent::{MANAGED_CAP, RECENT_CAP};
use crate::text::{chars_of, push_text, text_of, text_of_range};

verus! {

// ── Texts in pieces ──────────────────────────────────────────────────────────

/// The pieces of a text between the characters `c`; a text without one is a single piece.
pub open spec fn pieces(s: Seq<char>, c: char) -> Seq<Seq<char>>
    decreases s.len(),
{
    if s.len() == 0 {
        seq![Seq::empty()]
    } else if s.last() == c {
        pieces(s.drop_last(), c).push(Seq::empty())
    } else {
        let p = pieces(s.drop_last(), c);
        p.drop_last().push(p.last().push(s.last()))
    }
}

/// The pieces with the character `c` between them.
pub open spec fn joined(p: Seq<Seq<char>>, c: char) -> Seq<char>
    decreases p.len(),
{
    if p.len() == 0 {
        Seq::empty()
    } else if p.len() == 1 {
        p[0]
    } else {
        joined(p.drop_last(), c).push(c) + p.last()
    }
}

/// A line without the carriage return at its end.
pub open spec fn without_return(s: Seq<char>) -> Seq<char> {
    if s.len() > 0 && s.last() == '\r' {
        s.drop_last()
    } else {
        s
    }
}

/// The lines of a text. Each ends with a line feed, which a carriage return may stand in
/// front of; the last one may lack it.
pub open spec fn lines_of(s: Seq<char>) -> Seq<Seq<char>> {
    let p = pieces(s, '\n');
    let ended = Seq::new((p.len() - 1) as nat, |i: int| without_return(p[i]));
    if p.last().len() == 0 {
        ended
    } else {
        ended.push(p.last())
    }
}

proof fn pieces_are_some(s: Seq<char>, c: char)
    ensures
        pieces(s, c).len() > 0,
    decreases s.len(),
{
    if s.len() > 0 {
        pieces_are_some(s.drop_last(), c);
    }
}

/// What a list of texts holds.
pub open spec fn texts(s: Seq<String>) -> Seq<Seq<char>> {
    crate::media::texts_view(s)
}

/// Cuts a text into pieces.
pub fn split_text(s: &str, c: char) -> (r: Vec<String>)
    ensures
        texts(r@) == pieces(s@, c),
        r@.len() > 0,
{
    let v = chars_of(s);
    let mut out: Vec<String> = Vec::new();
    let mut piece = String::new();
    assert(pieces(s@.take(0), c) =~= texts(out@).push(piece@));
    for i in 0..v.len()
        invariant
            v@ == s@,
            pieces(s@.take(i as int), c) == texts(out@).push(piece@),
    {
        let ghost front = s@.take(i as int);
        let ghost next = s@.take(i + 1);
        let ghost done = texts(out@);
        let ghost held = piece@;
        assert(next.drop_last() =~= front);
        assert(next.last() == v@[i as int]);
        assert(pieces(front, c).drop_last() =~= done);
        assert(pieces(front, c).last() == held);
        if v[i] == c {
            out.push(piece);
            piece = String::new();
            assert(texts(out@) =~= done.push(held));
            assert(piece@ =~= Seq::empty());
            assert(pieces(next, c) =~= texts(out@).push(piece@));
        } else {
            piece.push(v[i]);
            assert(pieces(next, c) =~= texts(out@).push(piece@));
        }
    }
    assert(s@.take(s@.len() as int) =~= s@);
    let ghost done = texts(out@);
    out.push(piece);
    assert(texts(out@) =~= done.push(piece@));
    out
}

fn drop_return(s: String) -> (r: String)
    ensures
        r@ == without_return(s@),
{
    let v = chars_of(s.as_str());
    if v.len() > 0 && v[v.len() - 1] == '\r' {
        let r = text_of_range(&v, 0, v.len() - 1);
        assert(r@ =~= s@.drop_last());
        r
    } else {
        s
    }
}

/// Cuts a text into lines.
pub fn split_lines(s: &str) -> (r: Vec<String>)
    ensures
        texts(r@) == lines_of(s@),
{
    let mut parts = split_text(s, '\n');
    let ghost p = pieces(s@, '\n');
    let ghost all = parts@;
    let ghost ended = Seq::new((p.len() - 1) as nat, |i: int| without_return(p[i]));
    let n: usize = parts.len();
    let last = parts.pop();
    assert(texts(all)[n - 1] == p.last());
    let mut out: Vec<String> = Vec::new();
    for piece in it: parts
        invariant
            it.seq() == parts@,
            parts@ == all.drop_last(),
            texts(all) == p,
            all.len() > 0,
            p.len() == all.len(),
            ended == Seq::new((p.len() - 1) as nat, |i: int| without_return(p[i])),
            texts(out@) == ended.take(it.index() as int),
    {
        let ghost i = it.index() as int;
        let ghost done = texts(out@);
        assert(texts(all)[i] == all[i]@);
        assert(piece == all[i]);
        out.push(drop_return(piece));
        assert(texts(out@) =~= done.push(ended[i]));
        assert(ended.take(i + 1) =~= ended.take(i).push(ended[i]));
    }
    assert(ended.take(ended.len() as int) =~= ended);
    if let Some(piece) = last {
        if !piece.as_str().is_empty() {
            let ghost done = texts(out@);
            out.push(piece);
            assert(texts(out@) =~= done.push(p.last()));
        }
    }
    out
}

/// Puts pieces together.
pub fn join_texts(list: &Vec<String>, c: char) -> (r: String)
    ensures
        r@ == joined(texts(list@), c),
{
    let mut out = String::new();
    let ghost p = texts(list@);
    assert(out@ =~= joined(p.take(0), c));
    for i in 0..list.len()
        invariant
            p == texts(list@),
            out@ == joined(p.take(i as int), c),
    {
        assert(p.take(i + 1).drop_last() =~= p.take(i as int));
        if i > 0 {
            out.push(c);
        }
        let ghost so_far = out@;
        push_text(&mut out, list[i].as_str());
        assert(out@ =~= joined(p.take(i + 1), c));
    }
    assert(p.take(p.len() as int) =~= p);
    out
}

// ── Values ───────────────────────────────────────────────────────────────────

/// A character counts as white space.
pub open spec fn is_white(c: char) -> bool {
    ||| '\u{9}' <= c && c <= '\u{d}'
    ||| c == ' '
    ||| c == '\u{85}'
    ||| c == '\u{a0}'
    ||| c == '\u{1680}'
    ||| '\u{2000}' <= c && c <= '\u{200a}'
    ||| c == '\u{2028}'
    ||| c == '\u{2029}'
    ||| c == '\u{202f}'
    ||| c == '\u{205f}'
    ||| c == '\u{3000}'
}

/// A text without white space at its ends.
pub open spec fn trimmed(s: Seq<char>) -> Seq<char>
    decreases s.len(),
{
    if s.len() > 0 && is_white(s[0]) {
        trimmed(s.drop_first())
    } else if s.len() > 0 && is_white(s.last()) {
        trimmed(s.drop_last())
    } else {
        s
    }
}

fn counts_as_white(c: char) -> (r: bool)
    ensures
        r == is_white(c),
{
    ('\u{9}' <= c && c <= '\u{d}') || c == ' ' || c == '\u{85}' || c == '\u{a0}' || c == '\u{1680}'
        || ('\u{2000}' <= c && c <= '\u{200a}') || c == '\u{2028}' || c == '\u{2029}' || c
        == '\u{202f}' || c == '\u{205f}' || c == '\u{3000}'
}

/// A switch is on unless its value is a zero.
pub open spec fn is_on(value: Seq<char>) -> bool {
    trimmed(value) != seq!['0']
}

fn switch_of(value: &Vec<char>) -> (r: bool)
    ensures
        r == is_on(value@),
{
    let mut from: usize = 0;
    let mut to: usize = value.len();
    assert(value@.subrange(0, value@.len() as int) =~= value@);
    while from < to && counts_as_white(value[from])
        invariant
            from <= to <= value@.len(),
            trimmed(value@) == trimmed(value@.subrange(from as int, to as int)),
        decreases to - from,
    {
        assert(value@.subrange(from as int, to as int).drop_first() =~= value@.subrange(
            from + 1,
            to as int,
        ));
        from = from + 1;
    }
    while from < to && counts_as_white(value[to - 1])
        invariant
            from <= to <= value@.len(),
            trimmed(value@) == trimmed(value@.subrange(from as int, to as int)),
            from < to ==> !is_white(value@[from as int]),
        decreases to - from,
    {
        assert(value@.subrange(from as int, to as int).drop_last() =~= value@.subrange(
            from as int,
            to - 1,
        ));
        to = to - 1;
    }
    let ghost rest = value@.subrange(from as int, to as int);
    assert(trimmed(rest) == rest);
    let zero = to - from == 1 && value[from] == '0';
    assert(zero ==> rest =~= seq!['0']);
    assert(rest == seq!['0'] ==> rest.len() == 1 && rest[0] == '0');
    !zero
}

/// One setting, as its line has it.
pub enum Setting {
    LastFolder(String),
    Interval(String),
    Fade(bool),
    PixelPerfect(bool),
    Volume(String),
    Muted(bool),
    ShowNames(bool),
    RecentFolders(Vec<String>),
    RecentImages(Vec<String>),
    ManagedFolders(Vec<String>),
}

/// What a setting holds.
pub enum SettingSpec {
    LastFolder(Seq<char>),
    Interval(Seq<char>),
    Fade(bool),
    PixelPerfect(bool),
    Volume(Seq<char>),
    Muted(bool),
    ShowNames(bool),
    RecentFolders(Seq<Seq<char>>),
    RecentImages(Seq<Seq<char>>),
    ManagedFolders(Seq<Seq<char>>),
}

impl View for Setting {
    type V = SettingSpec;

    open spec fn view(&self) -> SettingSpec {
        match self {
            Setting::LastFolder(s) => SettingSpec::LastFolder(s@),
            Setting::Interval(s) => SettingSpec::Interval(s@),
            Setting::Fade(b) => SettingSpec::Fade(*b),
            Setting::PixelPerfect(b) => SettingSpec::PixelPerfect(*b),
            Setting::Volume(s) => SettingSpec::Volume(s@),
            Setting::Muted(b) => SettingSpec::Muted(*b),
            Setting::ShowNames(b) => SettingSpec::ShowNames(*b),
            Setting::RecentFolders(v) => SettingSpec::RecentFolders(texts(v@)),
            Setting::RecentImages(v) => SettingSpec::RecentImages(texts(v@)),
            Setting::ManagedFolders(v) => SettingSpec::ManagedFolders(texts(v@)),
        }
    }
}

/// A text starts with another.
pub open spec fn starts_with(s: Seq<char>, p: Seq<char>) -> bool {
    s.len() >= p.len() && s.take(p.len() as int) == p
}

/// The setting on a line, if it is one.
pub open spec fn setting_of(line: Seq<char>) -> Option<SettingSpec> {
    if starts_with(line, "last_folder="@) {
        Some(SettingSpec::LastFolder(line.skip("last_folder="@.len() as int)))
    } else if starts_with(line, "slideshow_interval="@) {
        Some(SettingSpec::Interval(line.skip("slideshow_interval="@.len() as int)))
    } else if starts_with(line, "slideshow_fade="@) {
        Some(SettingSpec::Fade(is_on(line.skip("slideshow_fade="@.len() as int))))
    } else if starts_with(line, "slideshow_pixel_perfect="@) {
        Some(SettingSpec::PixelPerfect(is_on(line.skip("slideshow_pixel_perfect="@.len() as int))))
    } else if starts_with(line, "media_volume="@) {
        Some(SettingSpec::Volume(line.skip("media_volume="@.len() as int)))
    } else if starts_with(line, "media_muted="@) {
        Some(SettingSpec::Muted(is_on(line.skip("media_muted="@.len() as int))))
    } else if starts_with(line, "show_thumbnail_filenames="@) {
        Some(SettingSpec::ShowNames(is_on(line.skip("show_thumbnail_filenames="@.len() as int))))
    } else if starts_with(line, "recent_folders="@) {
        Some(
            SettingSpec::RecentFolders(
                pieces(line.skip("recent_folders="@.len() as int), '|'),
            ),
        )
    } else if starts_with(line, "recent_images="@) {
        Some(
            SettingSpec::RecentImages(pieces(line.skip("recent_images="@.len() as int), '|')),
        )
    } else if starts_with(line, "managed_folders="@) {
        Some(
            SettingSpec::ManagedFolders(
                pieces(line.skip("managed_folders="@.len() as int), '|'),
            ),
        )
    } else {
        None
    }
}

/// What stands behind a prefix.
fn after_prefix(line: &Vec<char>, prefix: &str) -> (r: Option<Vec<char>>)
    ensures
        r is Some <==> starts_with(line@, prefix@),
        r matches Some(v) ==> v@ == line@.skip(prefix@.len() as int),
{
    let p = chars_of(prefix);
    if line.len() < p.len() {
        return None;
    }
    for i in 0..p.len()
        invariant
            p@ == prefix@,
            p@.len() <= line@.len(),
            line@.take(i as int) == p@.take(i as int),
    {
        if line[i] != p[i] {
            assert(line@.take(p@.len() as int)[i as int] != p@[i as int]);
            return None;
        }
        assert(line@.take(i + 1) =~= line@.take(i as int).push(line@[i as int]));
        assert(p@.take(i + 1) =~= p@.take(i as int).push(p@[i as int]));
    }
    assert(p@.take(p@.len() as int) =~= p@);
    let mut rest: Vec<char> = Vec::new();
    let ghost n = p@.len() as int;
    for i in p.len()..line.len()
        invariant
            n == p@.len(),
            n <= i <= line@.len(),
            rest@ == line@.subrange(n, i as int),
    {
        rest.push(line[i]);
        assert(rest@ =~= line@.subrange(n, i + 1));
    }
    assert(rest@ =~= line@.skip(n));
    Some(rest)
}


/// Reads the setting on a line.
pub fn parse_line(line: &str) -> (r: Option<Setting>)
    ensures
        r is Some <==> setting_of(line@) is Some,
        r matches Some(s) ==> Some(s@) == setting_of(line@),
{
    let v = chars_of(line);
    if let Some(x) = after_prefix(&v, "last_folder=") {
        return Some(Setting::LastFolder(text_of(&x)));
    }
    if let Some(x) = after_prefix(&v, "slideshow_interval=") {
        return Some(Setting::Interval(text_of(&x)));
    }
    if let Some(x) = after_prefix(&v, "slideshow_fade=") {
        return Some(Setting::Fade(switch_of(&x)));
    }
    if let Some(x) = after_prefix(&v, "slideshow_pixel_perfect=") {
        return Some(Setting::PixelPerfect(switch_of(&x)));
    }
    if let Some(x) = after_prefix(&v, "media_volume=") {
        return Some(Setting::Volume(text_of(&x)));
    }
    if let Some(x) = after_prefix(&v, "media_muted=") {
        return Some(Setting::Muted(switch_of(&x)));
    }
    if let Some(x) = after_prefix(&v, "show_thumbnail_filenames=") {
        return Some(Setting::ShowNames(switch_of(&x)));
    }
    if let Some(x) = after_prefix(&v, "recent_folders=") {
        return Some(Setting::RecentFolders(split_text(text_of(&x).as_str(), '|')));
    }
    if let Some(x) = after_prefix(&v, "recent_images=") {
        return Some(Setting::RecentImages(split_text(text_of(&x).as_str(), '|')));
    }
    if let Some(x) = after_prefix(&v, "managed_folders=") {
        return Some(Setting::ManagedFolders(split_text(text_of(&x).as_str(), '|')));
    }
    None
}

/// What a list of settings holds.
pub open spec fn settings_view(s: Seq<Setting>) -> Seq<SettingSpec> {
    Seq::new(s.len(), |i: int| s[i]@)
}

/// The settings on lines; other lines are passed over.
pub open spec fn settings_on(lines: Seq<Seq<char>>) -> Seq<SettingSpec>
    decreases lines.len(),
{
    if lines.len() == 0 {
        Seq::empty()
    } else {
        match setting_of(lines.last()) {
            Some(s) => settings_on(lines.drop_last()).push(s),
            None => settings_on(lines.drop_last()),
        }
    }
}

/// Reads the settings of a file.
pub fn parse_settings(content: &str) -> (r: Vec<Setting>)
    ensures
        settings_view(r@) == settings_on(lines_of(content@)),
{
    let lines = split_lines(content);
    let ghost all = texts(lines@);
    let mut out: Vec<Setting> = Vec::new();
    assert(settings_view(out@) =~= settings_on(all.take(0)));
    for i in 0..lines.len()
        invariant
            all == texts(lines@),
            settings_view(out@) == settings_on(all.take(i as int)),
    {
        assert(all.take(i + 1).drop_last() =~= all.take(i as int));
        let ghost done = settings_view(out@);
        if let Some(s) = parse_line(lines[i].as_str()) {
            out.push(s);
            assert(settings_view(out@) =~= done.push(s@));
        }
    }
    assert(all.take(all.len() as int) =~= all);
    out
}

// ── The settings of the viewer ───────────────────────────────────────────────

/// A setting whose value has been looked at: a path is there or not, and a number is one or
/// not.
pub enum Known<N> {
    LastFolder(Option<MediaPath>),
    Interval(Option<N>),
    Fade(bool),
    PixelPerfect(bool),
    Volume(Option<N>),
    Muted(bool),
    ShowNames(bool),
    RecentFolders(Vec<Option<MediaPath>>),
    RecentImages(Vec<Option<MediaPath>>),
    ManagedFolders(Vec<Option<MediaPath>>),
}

/// What the viewer keeps from one run to the next.
pub struct AppSettings<N> {
    pub last_folder: Option<MediaPath>,
    pub interval: N,
    pub fade_enabled: bool,
    pub pixel_perfect: bool,
    pub media_volume: N,
    pub media_muted: bool,
    pub show_thumbnail_filenames: bool,
    pub managed_folders: Vec<MediaPath>,
    pub recent_folders: Vec<MediaPath>,
    pub recent_images: Vec<MediaPath>,
}

/// What the settings hold.
pub struct SettingsSpec<N> {
    pub last_folder: Option<crate::path::PathSpec>,
    pub interval: N,
    pub fade_enabled: bool,
    pub pixel_perfect: bool,
    pub media_volume: N,
    pub media_muted: bool,
    pub show_thumbnail_filenames: bool,
    pub managed_folders: Seq<crate::path::PathSpec>,
    pub recent_folders: Seq<crate::path::PathSpec>,
    pub recent_images: Seq<crate::path::PathSpec>,
}

impl<N> View for AppSettings<N> {
    type V = SettingsSpec<N>;

    open spec fn view(&self) -> SettingsSpec<N> {
        SettingsSpec {
            last_folder: crate::path::option_view(self.last_folder),
            interval: self.interval,
            fade_enabled: self.fade_enabled,
            pixel_perfect: self.pixel_perfect,
            media_volume: self.media_volume,
            media_muted: self.media_muted,
            show_thumbnail_filenames: self.show_thumbnail_filenames,
            managed_folders: crate::path::paths_view(self.managed_folders@),
            recent_folders: crate::path::paths_view(self.recent_folders@),
            recent_images: crate::path::paths_view(self.recent_images@),
        }
    }
}

/// What a list of optional paths holds.
pub open spec fn options_view(s: Seq<Option<MediaPath>>) -> Seq<Option<crate::path::PathSpec>> {
    Seq::new(s.len(), |i: int| crate::path::option_view(s[i]))
}

/// The paths that are there; of these only the media where `media_only` says so.
pub open spec fn present(
    s: Seq<Option<crate::path::PathSpec>>,
    media_only: bool,
) -> Seq<crate::path::PathSpec>
    decreases s.len(),
{
    if s.len() == 0 {
        Seq::empty()
    } else {
        match s.last() {
            Some(p) => if media_only && !crate::media::media_key(p.parts) {
                present(s.drop_last(), media_only)
            } else {
                present(s.drop_last(), media_only).push(p)
            },
            None => present(s.drop_last(), media_only),
        }
    }
}

impl<N> SettingsSpec<N> {
    /// The settings where nothing is set.
    pub open spec fn unset(interval: N, volume: N) -> SettingsSpec<N> {
        SettingsSpec {
            last_folder: None,
            interval,
            fade_enabled: true,
            pixel_perfect: false,
            media_volume: volume,
            media_muted: false,
            show_thumbnail_filenames: true,
            managed_folders: Seq::empty(),
            recent_folders: Seq::empty(),
            recent_images: Seq::empty(),
        }
    }

    /// The settings with one more setting.
    pub open spec fn with(self, k: Known<N>) -> SettingsSpec<N> {
        match k {
            Known::LastFolder(Some(p)) => SettingsSpec { last_folder: Some(p@), ..self },
            Known::LastFolder(None) => self,
            Known::Interval(Some(n)) => SettingsSpec { interval: n, ..self },
            Known::Interval(None) => self,
            Known::Fade(b) => SettingsSpec { fade_enabled: b, ..self },
            Known::PixelPerfect(b) => SettingsSpec { pixel_perfect: b, ..self },
            Known::Volume(Some(n)) => SettingsSpec { media_volume: n, ..self },
            Known::Volume(None) => self,
            Known::Muted(b) => SettingsSpec { media_muted: b, ..self },
            Known::ShowNames(b) => SettingsSpec { show_thumbnail_filenames: b, ..self },
            Known::RecentFolders(v) => SettingsSpec {
                recent_folders: crate::recent::at_most(
                    present(options_view(v@), false),
                    RECENT_CAP as nat,
                ),
                ..self
            },
            Known::RecentImages(v) => SettingsSpec {
                recent_images: crate::recent::at_most(
                    present(options_view(v@), true),
                    RECENT_CAP as nat,
                ),
                ..self
            },
            Known::ManagedFolders(v) => SettingsSpec {
                managed_folders: crate::recent::at_most(
                    present(options_view(v@), false),
                    MANAGED_CAP as nat,
                ),
                ..self
            },
        }
    }

    /// The settings with a list of settings, one after the other.
    pub open spec fn with_all(self, s: Seq<Known<N>>) -> SettingsSpec<N>
        decreases s.len(),
    {
        if s.len() == 0 {
            self
        } else {
            self.with_all(s.drop_last()).with(s.last())
        }
    }
}

/// The first `cap` paths that are there.
fn keep_present(list: Vec<Option<MediaPath>>, media_only: bool, cap: usize) -> (r: Vec<MediaPath>)
    ensures
        crate::path::paths_view(r@) == crate::recent::at_most(
            present(options_view(list@), media_only),
            cap as nat,
        ),
{
    let mut out: Vec<MediaPath> = Vec::new();
    let ghost all = options_view(list@);
    assert(crate::path::paths_view(out@) =~= present(all.take(0), media_only));
    for item in it: list
        invariant
            it.seq() == list@,
            all == options_view(list@),
            crate::path::paths_view(out@) == present(all.take(it.index() as int), media_only),
    {
        let ghost i = it.index() as int;
        let ghost done = crate::path::paths_view(out@);
        assert(all.take(i + 1).drop_last() =~= all.take(i));
        assert(all.take(i + 1).last() == crate::path::option_view(item));
        if let Some(p) = item {
            if !media_only || is_media(&p) {
                out.push(p);
                assert(crate::path::paths_view(out@) =~= done.push(p@));
            }
        }
    }
    assert(all.take(all.len() as int) =~= all);
    let ghost whole = out@;
    if out.len() > cap {
        out.truncate(cap);
        assert(crate::path::paths_view(out@) =~= crate::path::paths_view(whole).take(cap as int));
    }
    out
}

impl<N> AppSettings<N> {
    /// The settings where nothing is set.
    pub fn unset(interval: N, volume: N) -> (r: Self)
        ensures
            r@ == SettingsSpec::<N>::unset(interval, volume),
    {
        let r = AppSettings {
            last_folder: None,
            interval,
            fade_enabled: true,
            pixel_perfect: false,
            media_volume: volume,
            media_muted: false,
            show_thumbnail_filenames: true,
            managed_folders: Vec::new(),
            recent_folders: Vec::new(),
            recent_images: Vec::new(),
        };
        proof {
            let f = SettingsSpec::<N>::unset(interval, volume);
            assert(r@.managed_folders =~= f.managed_folders);
            assert(r@.recent_folders =~= f.recent_folders);
            assert(r@.recent_images =~= f.recent_images);
        }
        r
    }

    /// Takes one setting.
    pub fn apply(&mut self, k: Known<N>)
        ensures
            final(self)@ == old(self)@.with(k),
    {
        match k {
            Known::LastFolder(p) => {
                if let Some(folder) = p {
                    self.last_folder = Some(folder);
                }
            },
            Known::Interval(n) => {
                if let Some(x) = n {
                    self.interval = x;
                }
            },
            Known::Fade(b) => {
                self.fade_enabled = b;
            },
            Known::PixelPerfect(b) => {
                self.pixel_perfect = b;
            },
            Known::Volume(n) => {
                if let Some(x) = n {
                    self.media_volume = x;
                }
            },
            Known::Muted(b) => {
                self.media_muted = b;
            },
            Known::ShowNames(b) => {
                self.show_thumbnail_filenames = b;
            },
            Known::RecentFolders(v) => {
                self.recent_folders = keep_present(v, false, RECENT_CAP);
            },
            Known::RecentImages(v) => {
                self.recent_images = keep_present(v, true, RECENT_CAP);
            },
            Known::ManagedFolders(v) => {
                self.managed_folders = keep_present(v, false, MANAGED_CAP);
            },
        }
    }
}

/// The settings that the settings of a file make.
pub fn load_settings<N>(interval: N, volume: N, list: Vec<Known<N>>) -> (r: AppSettings<N>)
    ensures
        r@ == SettingsSpec::<N>::unset(interval, volume).with_all(list@),
{
    let mut out = AppSettings::unset(interval, volume);
    let ghost start = out@;
    for k in it: list
        invariant
            it.seq() == list@,
            out@ == start.with_all(list@.take(it.index() as int)),
    {
        let ghost i = it.index() as int;
        assert(list@.take(i + 1).drop_last() =~= list@.take(i));
        assert(list@.take(i + 1).last() == k);
        out.apply(k);
    }
    assert(list@.take(list@.len() as int) =~= list@);
    out
}

// ── Writing the settings file ────────────────────────────────────────────────

/// What is written: numbers as texts.
pub struct ToSave {
    pub last_folder: Option<MediaPath>,
    pub interval: String,
    pub fade_enabled: bool,
    pub pixel_perfect: bool,
    pub media_volume: String,
    pub media_muted: bool,
    pub show_thumbnail_filenames: bool,
    pub managed_folders: Vec<MediaPath>,
    pub recent_folders: Vec<MediaPath>,
    pub recent_images: Vec<MediaPath>,
}

/// What is written: texts.
pub struct SaveSpec {
    pub last_folder: Option<Seq<char>>,
    pub interval: Seq<char>,
    pub fade_enabled: bool,
    pub pixel_perfect: bool,
    pub media_volume: Seq<char>,
    pub media_muted: bool,
    pub show_thumbnail_filenames: bool,
    pub managed_folders: Seq<Seq<char>>,
    pub recent_folders: Seq<Seq<char>>,
    pub recent_images: Seq<Seq<char>>,
}

/// The texts of a list of paths.
pub open spec fn path_texts(s: Seq<MediaPath>) -> Seq<Seq<char>> {
    Seq::new(s.len(), |i: int| s[i].text@)
}

impl View for ToSave {
    type V = SaveSpec;

    open spec fn view(&self) -> SaveSpec {
        SaveSpec {
            last_folder: match self.last_folder {
                Some(p) => Some(p.text@),
                None => None,
            },
            interval: self.interval@,
            fade_enabled: self.fade_enabled,
            pixel_perfect: self.pixel_perfect,
            media_volume: self.media_volume@,
            media_muted: self.media_muted,
            show_thumbnail_filenames: self.show_thumbnail_filenames,
            managed_folders: path_texts(self.managed_folders@),
            recent_folders: path_texts(self.recent_folders@),
            recent_images: path_texts(self.recent_images@),
        }
    }
}

/// A switch as it is written.
pub open spec fn bit(b: bool) -> Seq<char> {
    if b {
        seq!['1']
    } else {
        seq!['0']
    }
}

/// The line of a list of paths; none where the list is empty.
pub open spec fn list_line(name: Seq<char>, s: Seq<Seq<char>>) -> Seq<Seq<char>> {
    if s.len() == 0 {
        Seq::empty()
    } else {
        seq![name + joined(s, '|')]
    }
}

/// The line of the last folder, if there is one.
pub open spec fn folder_line(folder: Option<Seq<char>>) -> Seq<Seq<char>> {
    match folder {
        Some(f) => seq!["last_folder="@ + f],
        None => Seq::empty(),
    }
}

/// The lines of the settings file.
pub open spec fn saved_lines(s: SaveSpec) -> Seq<Seq<char>> {
    folder_line(s.last_folder) + seq![
        "slideshow_interval="@ + s.interval,
        "slideshow_fade="@ + bit(s.fade_enabled),
        "slideshow_pixel_perfect="@ + bit(s.pixel_perfect),
        "media_volume="@ + s.media_volume,
        "media_muted="@ + bit(s.media_muted),
        "show_thumbnail_filenames="@ + bit(s.show_thumbnail_filenames),
    ] + list_line("managed_folders="@, s.managed_folders) + list_line(
        "recent_folders="@,
        s.recent_folders,
    ) + list_line("recent_images="@, s.recent_images)
}

fn push_line(lines: &mut Vec<String>, name: &str, value: &str)
    ensures
        texts(final(lines)@) == texts(old(lines)@).push(name@ + value@),
{
    let ghost before = texts(lines@);
    let mut line = String::new();
    push_text(&mut line, name);
    push_text(&mut line, value);
    assert(line@ =~= name@ + value@);
    lines.push(line);
    assert(texts(lines@) =~= before.push(name@ + value@));
}

fn push_switch(lines: &mut Vec<String>, name: &str, on: bool)
    ensures
        texts(final(lines)@) == texts(old(lines)@).push(name@ + bit(on)),
{
    let mut value = String::new();
    value.push(
        if on {
            '1'
        } else {
            '0'
        },
    );
    assert(value@ =~= bit(on));
    push_line(lines, name, value.as_str());
}

fn push_list(lines: &mut Vec<String>, name: &str, list: &Vec<MediaPath>)
    ensures
        texts(final(lines)@) == texts(old(lines)@) + list_line(name@, path_texts(list@)),
{
    let ghost before = texts(lines@);
    if list.len() == 0 {
        assert(texts(lines@) =~= before + list_line(name@, path_texts(list@)));
        return ;
    }
    let mut parts: Vec<String> = Vec::new();
    for i in 0..list.len()
        invariant
            parts@.len() == i,
            forall|j: int| 0 <= j < i ==> (#[trigger] parts@[j])@ == list@[j].text@,
    {
        parts.push(list[i].text.clone());
    }
    assert(texts(parts@) =~= path_texts(list@));
    push_line(lines, name, join_texts(&parts, '|').as_str());
    assert(texts(lines@) =~= before + list_line(name@, path_texts(list@)));
}

/// The text of the settings file.
pub fn save_settings(s: &ToSave) -> (r: String)
    ensures
        r@ == joined(saved_lines(s@), '\n'),
{
    let mut lines: Vec<String> = Vec::new();
    assert(texts(lines@) =~= Seq::empty());
    if let Some(f) = &s.last_folder {
        push_line(&mut lines, "last_folder=", f.text.as_str());
    }
    assert(texts(lines@) =~= folder_line(s@.last_folder));
    push_line(&mut lines, "slideshow_interval=", s.interval.as_str());
    push_switch(&mut lines, "slideshow_fade=", s.fade_enabled);
    push_switch(&mut lines, "slideshow_pixel_perfect=", s.pixel_perfect);
    push_line(&mut lines, "media_volume=", s.media_volume.as_str());
    push_switch(&mut lines, "media_muted=", s.media_muted);
    push_switch(&mut lines, "show_thumbnail_filenames=", s.show_thumbnail_filenames);
    push_list(&mut lines, "managed_folders=", &s.managed_folders);
    push_list(&mut lines, "recent_folders=", &s.recent_folders);
    push_list(&mut lines, "recent_images=", &s.recent_images);
    assert(texts(lines@) =~= saved_lines(s@));
    join_texts(&lines, '\n')
}

// ── What was saved is read back ──────────────────────────────────────────────

proof fn pieces_of_one(s: Seq<char>, c: char)
    requires
        !s.contains(c),
    ensures
        pieces(s, c) == seq![s],
    decreases s.len(),
{
    if s.len() == 0 {
        assert(s =~= Seq::empty());
    } else {
        let f = s.drop_last();
        assert forall|i: int| 0 <= i < f.len() implies f[i] != c by {
            assert(f[i] == s[i]);
            assert(s.contains(s[i]));
        }
        assert(s.contains(s.last()));
        pieces_of_one(f, c);
        assert(pieces(s, c) =~= seq![s]) by {
            assert(f.push(s.last()) =~= s);
            assert(seq![f].drop_last() =~= Seq::empty());
        }
    }
}

proof fn pieces_of_more(a: Seq<char>, c: char, b: Seq<char>)
    requires
        !b.contains(c),
    ensures
        pieces(a.push(c) + b, c) == pieces(a, c).push(b),
    decreases b.len(),
{
    let s = a.push(c) + b;
    if b.len() == 0 {
        assert(s =~= a.push(c));
        assert(s.drop_last() =~= a);
        assert(b =~= Seq::empty());
    } else {
        let f = b.drop_last();
        assert forall|i: int| 0 <= i < f.len() implies f[i] != c by {
            assert(f[i] == b[i]);
            assert(b.contains(b[i]));
        }
        assert(b.contains(b.last()));
        assert(s.drop_last() =~= a.push(c) + f);
        pieces_of_more(a, c, f);
        let p = pieces(a, c).push(f);
        assert(p.drop_last() =~= pieces(a, c));
        assert(f.push(b.last()) =~= b);
    }
}

/// Pieces that do not hold the character between them come apart as they were put together.
pub proof fn joined_pieces_come_apart(p: Seq<Seq<char>>, c: char)
    requires
        p.len() > 0,
        forall|i: int| 0 <= i < p.len() ==> !(#[trigger] p[i]).contains(c),
    ensures
        pieces(joined(p, c), c) == p,
    decreases p.len(),
{
    if p.len() == 1 {
        pieces_of_one(p[0], c);
        assert(seq![p[0]] =~= p);
    } else {
        let f = p.drop_last();
        assert forall|i: int| 0 <= i < f.len() implies !(#[trigger] f[i]).contains(c) by {
            assert(f[i] == p[i]);
        }
        joined_pieces_come_apart(f, c);
        assert(!p[p.len() - 1].contains(c));
        pieces_of_more(joined(f, c), c, p.last());
        assert(f.push(p.last()) =~= p);
    }
}

proof fn lines_come_apart(p: Seq<Seq<char>>)
    requires
        p.len() > 0,
        forall|i: int|
            0 <= i < p.len() ==> !(#[trigger] p[i]).contains('\n') && !p[i].contains('\r')
                && p[i].len() > 0,
    ensures
        lines_of(joined(p, '\n')) == p,
{
    joined_pieces_come_apart(p, '\n');
    assert(p[p.len() - 1].len() > 0);
    assert forall|i: int| 0 <= i < p.len() implies without_return(#[trigger] p[i]) == p[i] by {
        if p[i].last() == '\r' {
            assert(p[i].contains(p[i].last()));
        }
    }
    let ended = Seq::new((p.len() - 1) as nat, |i: int| without_return(p[i]));
    assert(ended.push(p.last()) =~= p);
}

proof fn differs(line: Seq<char>, p: Seq<char>, i: int)
    requires
        0 <= i < p.len(),
        i < line.len(),
        line[i] != p[i],
    ensures
        !starts_with(line, p),
{
    if starts_with(line, p) {
        assert(line.take(p.len() as int)[i] == p[i]);
    }
}

proof fn prefix_and_value(p: Seq<char>, v: Seq<char>)
    ensures
        starts_with(p + v, p),
        (p + v).skip(p.len() as int) == v,
{
    assert((p + v).take(p.len() as int) =~= p);
    assert((p + v).skip(p.len() as int) =~= v);
}

proof fn bit_reads_back(b: bool)
    ensures
        is_on(bit(b)) == b,
{
    assert(bit(b).len() == 1);
    assert(trimmed(bit(b)) == bit(b));
    assert(seq!['1'][0] != seq!['0'][0]);
}

proof fn reads_back_last_folder(v: Seq<char>)
    ensures
        setting_of("last_folder="@ + v) == Some(SettingSpec::LastFolder(v)),
{
    reveal_strlit("last_folder=");
    let line = "last_folder="@ + v;
    prefix_and_value("last_folder="@, v);
}

proof fn reads_back_interval(v: Seq<char>)
    ensures
        setting_of("slideshow_interval="@ + v) == Some(SettingSpec::Interval(v)),
{
    reveal_strlit("slideshow_interval=");
    let line = "slideshow_interval="@ + v;
    prefix_and_value("slideshow_interval="@, v);
    reveal_strlit("last_folder=");
    assert(line[0] == 's' && "last_folder="@[0] == 'l');
    differs(line, "last_folder="@, 0);
}

proof fn reads_back_fade(v: Seq<char>)
    ensures
        setting_of("slideshow_fade="@ + v) == Some(SettingSpec::Fade(is_on(v))),
{
    reveal_strlit("slideshow_fade=");
    let line = "slideshow_fade="@ + v;
    prefix_and_value("slideshow_fade="@, v);
    reveal_strlit("last_folder=");
    assert(line[0] == 's' && "last_folder="@[0] == 'l');
    differs(line, "last_folder="@, 0);
    reveal_strlit("slideshow_interval=");
    assert(line[10] == 'f' && "slideshow_interval="@[10] == 'i');
    differs(line, "slideshow_interval="@, 10);
}

proof fn reads_back_pixel_perfect(v: Seq<char>)
    ensures
        setting_of("slideshow_pixel_perfect="@ + v) == Some(SettingSpec::PixelPerfect(is_on(v))),
{
    reveal_strlit("slideshow_pixel_perfect=");
    let line = "slideshow_pixel_perfect="@ + v;
    prefix_and_value("slideshow_pixel_perfect="@, v);
    reveal_strlit("last_folder=");
    assert(line[0] == 's' && "last_folder="@[0] == 'l');
    differs(line, "last_folder="@, 0);
    reveal_strlit("slideshow_interval=");
    assert(line[10] == 'p' && "slideshow_interval="@[10] == 'i');
    differs(line, "slideshow_interval="@, 10);
    reveal_strlit("slideshow_fade=");
    assert(line[10] == 'p' && "slideshow_fade="@[10] == 'f');
    differs(line, "slideshow_fade="@, 10);
}

proof fn reads_back_volume(v: Seq<char>)
    ensures
        setting_of("media_volume="@ + v) == Some(SettingSpec::Volume(v)),
{
    reveal_strlit("media_volume=");
    let line = "media_volume="@ + v;
    prefix_and_value("media_volume="@, v);
    reveal_strlit("last_folder=");
    assert(line[0] == 'm' && "last_folder="@[0] == 'l');
    differs(line, "last_folder="@, 0);
    reveal_strlit("slideshow_interval=");
    assert(line[0] == 'm' && "slideshow_interval="@[0] == 's');
    differs(line, "slideshow_interval="@, 0);
    reveal_strlit("slideshow_fade=");
    assert(line[0] == 'm' && "slideshow_fade="@[0] == 's');
    differs(line, "slideshow_fade="@, 0);
    reveal_strlit("slideshow_pixel_perfect=");
    assert(line[0] == 'm' && "slideshow_pixel_perfect="@[0] == 's');
    differs(line, "slideshow_pixel_perfect="@, 0);
}

proof fn reads_back_muted(v: Seq<char>)
    ensures
        setting_of("media_muted="@ + v) == Some(SettingSpec::Muted(is_on(v))),
{
    reveal_strlit("media_muted=");
    let line = "media_muted="@ + v;
    prefix_and_value("media_muted="@, v);
    reveal_strlit("last_folder=");
    assert(line[0] == 'm' && "last_folder="@[0] == 'l');
    differs(line, "last_folder="@, 0);
    reveal_strlit("slideshow_interval=");
    assert(line[0] == 'm' && "slideshow_interval="@[0] == 's');
    differs(line, "slideshow_interval="@, 0);
    reveal_strlit("slideshow_fade=");
    assert(line[0] == 'm' && "slideshow_fade="@[0] == 's');
    differs(line, "slideshow_fade="@, 0);
    reveal_strlit("slideshow_pixel_perfect=");
    assert(line[0] == 'm' && "slideshow_pixel_perfect="@[0] == 's');
    differs(line, "slideshow_pixel_perfect="@, 0);
    reveal_strlit("media_volume=");
    assert(line[6] == 'm' && "media_volume="@[6] == 'v');
    differs(line, "media_volume="@, 6);
}

proof fn reads_back_names(v: Seq<char>)
    ensures
        setting_of("show_thumbnail_filenames="@ + v) == Some(SettingSpec::ShowNames(is_on(v))),
{
    reveal_strlit("show_thumbnail_filenames=");
    let line = "show_thumbnail_filenames="@ + v;
    prefix_and_value("show_thumbnail_filenames="@, v);
    reveal_strlit("last_folder=");
    assert(line[0] == 's' && "last_folder="@[0] == 'l');
    differs(line, "last_folder="@, 0);
    reveal_strlit("slideshow_interval=");
    assert(line[1] == 'h' && "slideshow_interval="@[1] == 'l');
    differs(line, "slideshow_interval="@, 1);
    reveal_strlit("slideshow_fade=");
    assert(line[1] == 'h' && "slideshow_fade="@[1] == 'l');
    differs(line, "slideshow_fade="@, 1);
    reveal_strlit("slideshow_pixel_perfect=");
    assert(line[1] == 'h' && "slideshow_pixel_perfect="@[1] == 'l');
    differs(line, "slideshow_pixel_perfect="@, 1);
    reveal_strlit("media_volume=");
    assert(line[0] == 's' && "media_volume="@[0] == 'm');
    differs(line, "media_volume="@, 0);
    reveal_strlit("media_muted=");
    assert(line[0] == 's' && "media_muted="@[0] == 'm');
    differs(line, "media_muted="@, 0);
}

proof fn reads_back_recent_folders(v: Seq<char>)
    ensures
        setting_of("recent_folders="@ + v) == Some(SettingSpec::RecentFolders(pieces(v, '|'))),
{
    reveal_strlit("recent_folders=");
    let line = "recent_folders="@ + v;
    prefix_and_value("recent_folders="@, v);
    reveal_strlit("last_folder=");
    assert(line[0] == 'r' && "last_folder="@[0] == 'l');
    differs(line, "last_folder="@, 0);
    reveal_strlit("slideshow_interval=");
    assert(line[0] == 'r' && "slideshow_interval="@[0] == 's');
    differs(line, "slideshow_interval="@, 0);
    reveal_strlit("slideshow_fade=");
    assert(line[0] == 'r' && "slideshow_fade="@[0] == 's');
    differs(line, "slideshow_fade="@, 0);
    reveal_strlit("slideshow_pixel_perfect=");
    assert(line[0] == 'r' && "slideshow_pixel_perfect="@[0] == 's');
    differs(line, "slideshow_pixel_perfect="@, 0);
    reveal_strlit("media_volume=");
    assert(line[0] == 'r' && "media_volume="@[0] == 'm');
    differs(line, "media_volume="@, 0);
    reveal_strlit("media_muted=");
    assert(line[0] == 'r' && "media_muted="@[0] == 'm');
    differs(line, "media_muted="@, 0);
    reveal_strlit("show_thumbnail_filenames=");
    assert(line[0] == 'r' && "show_thumbnail_filenames="@[0] == 's');
    differs(line, "show_thumbnail_filenames="@, 0);
}

proof fn reads_back_recent_images(v: Seq<char>)
    ensures
        setting_of("recent_images="@ + v) == Some(SettingSpec::RecentImages(pieces(v, '|'))),
{
    reveal_strlit("recent_images=");
    let line = "recent_images="@ + v;
    prefix_and_value("recent_images="@, v);
    reveal_strlit("last_folder=");
    assert(line[0] == 'r' && "last_folder="@[0] == 'l');
    differs(line, "last_folder="@, 0);
    reveal_strlit("slideshow_interval=");
    assert(line[0] == 'r' && "slideshow_interval="@[0] == 's');
    differs(line, "slideshow_interval="@, 0);
    reveal_strlit("slideshow_fade=");
    assert(line[0] == 'r' && "slideshow_fade="@[0] == 's');
    differs(line, "slideshow_fade="@, 0);
    reveal_strlit("slideshow_pixel_perfect=");
    assert(line[0] == 'r' && "slideshow_pixel_perfect="@[0] == 's');
    differs(line, "slideshow_pixel_perfect="@, 0);
    reveal_strlit("media_volume=");
    assert(line[0] == 'r' && "media_volume="@[0] == 'm');
    differs(line, "media_volume="@, 0);
    reveal_strlit("media_muted=");
    assert(line[0] == 'r' && "media_muted="@[0] == 'm');
    differs(line, "media_muted="@, 0);
    reveal_strlit("show_thumbnail_filenames=");
    assert(line[0] == 'r' && "show_thumbnail_filenames="@[0] == 's');
    differs(line, "show_thumbnail_filenames="@, 0);
    reveal_strlit("recent_folders=");
    assert(line[7] == 'i' && "recent_folders="@[7] == 'f');
    differs(line, "recent_folders="@, 7);
}

proof fn reads_back_managed_folders(v: Seq<char>)
    ensures
        setting_of("managed_folders="@ + v) == Some(SettingSpec::ManagedFolders(pieces(v, '|'))),
{
    reveal_strlit("managed_folders=");
    let line = "managed_folders="@ + v;
    prefix_and_value("managed_folders="@, v);
    reveal_strlit("last_folder=");
    assert(line[0] == 'm' && "last_folder="@[0] == 'l');
    differs(line, "last_folder="@, 0);
    reveal_strlit("slideshow_interval=");
    assert(line[0] == 'm' && "slideshow_interval="@[0] == 's');
    differs(line, "slideshow_interval="@, 0);
    reveal_strlit("slideshow_fade=");
    assert(line[0] == 'm' && "slideshow_fade="@[0] == 's');
    differs(line, "slideshow_fade="@, 0);
    reveal_strlit("slideshow_pixel_perfect=");
    assert(line[0] == 'm' && "slideshow_pixel_perfect="@[0] == 's');
    differs(line, "slideshow_pixel_perfect="@, 0);
    reveal_strlit("media_volume=");
    assert(line[1] == 'a' && "media_volume="@[1] == 'e');
    differs(line, "media_volume="@, 1);
    reveal_strlit("media_muted=");
    assert(line[1] == 'a' && "media_muted="@[1] == 'e');
    differs(line, "media_muted="@, 1);
    reveal_strlit("show_thumbnail_filenames=");
    assert(line[0] == 'm' && "show_thumbnail_filenames="@[0] == 's');
    differs(line, "show_thumbnail_filenames="@, 0);
    reveal_strlit("recent_folders=");
    assert(line[0] == 'm' && "recent_folders="@[0] == 'r');
    differs(line, "recent_folders="@, 0);
    reveal_strlit("recent_images=");
    assert(line[0] == 'm' && "recent_images="@[0] == 'r');
    differs(line, "recent_images="@, 0);
}

/// The settings that a saved file holds.
pub open spec fn saved_settings(s: SaveSpec) -> Seq<SettingSpec> {
    (match s.last_folder {
        Some(f) => seq![SettingSpec::LastFolder(f)],
        None => Seq::empty(),
    }) + seq![
        SettingSpec::Interval(s.interval),
        SettingSpec::Fade(s.fade_enabled),
        SettingSpec::PixelPerfect(s.pixel_perfect),
        SettingSpec::Volume(s.media_volume),
        SettingSpec::Muted(s.media_muted),
        SettingSpec::ShowNames(s.show_thumbnail_filenames),
    ] + (if s.managed_folders.len() == 0 {
        Seq::empty()
    } else {
        seq![SettingSpec::ManagedFolders(s.managed_folders)]
    }) + (if s.recent_folders.len() == 0 {
        Seq::empty()
    } else {
        seq![SettingSpec::RecentFolders(s.recent_folders)]
    }) + (if s.recent_images.len() == 0 {
        Seq::empty()
    } else {
        seq![SettingSpec::RecentImages(s.recent_images)]
    })
}

/// A text fits on a line.
pub open spec fn fits_line(s: Seq<char>) -> bool {
    !s.contains('\n') && !s.contains('\r')
}

/// The texts of a list fit on a line and can be told apart there.
pub open spec fn fit_list(s: Seq<Seq<char>>) -> bool {
    forall|i: int| 0 <= i < s.len() ==> fits_line(#[trigger] s[i]) && !s[i].contains('|')
}

/// Every text fits on its line.
pub open spec fn fits_file(s: SaveSpec) -> bool {
    &&& s.last_folder matches Some(f) ==> fits_line(f)
    &&& fits_line(s.interval)
    &&& fits_line(s.media_volume)
    &&& fit_list(s.managed_folders)
    &&& fit_list(s.recent_folders)
    &&& fit_list(s.recent_images)
}

proof fn sum_lacks(a: Seq<char>, b: Seq<char>, c: char)
    requires
        !a.contains(c),
        !b.contains(c),
    ensures
        !(a + b).contains(c),
{
    let s = a + b;
    if s.contains(c) {
        let i = choose|i: int| 0 <= i < s.len() && s[i] == c;
        if i < a.len() {
            assert(a[i] == c);
        } else {
            assert(b[i - a.len()] == c);
        }
    }
}

proof fn joined_lacks(p: Seq<Seq<char>>, between: char, c: char)
    requires
        between != c,
        forall|i: int| 0 <= i < p.len() ==> !(#[trigger] p[i]).contains(c),
    ensures
        !joined(p, between).contains(c),
    decreases p.len(),
{
    if p.len() > 1 {
        let f = p.drop_last();
        assert forall|i: int| 0 <= i < f.len() implies !(#[trigger] f[i]).contains(c) by {
            assert(f[i] == p[i]);
        }
        joined_lacks(f, between, c);
        let a = joined(f, between);
        assert(!seq![between].contains(c)) by {
            if seq![between].contains(c) {
                let i = choose|i: int| 0 <= i < seq![between].len() && seq![between][i] == c;
                assert(seq![between][i] == between);
            }
        }
        sum_lacks(a, seq![between], c);
        assert(a + seq![between] =~= a.push(between));
        assert(!p[p.len() - 1].contains(c));
        sum_lacks(a.push(between), p.last(), c);
    } else if p.len() == 1 {
        assert(!p[0].contains(c));
    }
}

/// The parts of a line fit on it.
proof fn line_fits(name: Seq<char>, value: Seq<char>)
    requires
        fits_line(name),
        fits_line(value),
        name.len() > 0,
    ensures
        fits_line(name + value),
        (name + value).len() > 0,
{
    sum_lacks(name, value, '\n');
    sum_lacks(name, value, '\r');
}

proof fn list_fits(s: Seq<Seq<char>>)
    requires
        fit_list(s),
    ensures
        fits_line(joined(s, '|')),
        s.len() > 0 ==> pieces(joined(s, '|'), '|') == s,
{
    assert forall|i: int| 0 <= i < s.len() implies !(#[trigger] s[i]).contains('\n') by {
        assert(fits_line(s[i]));
    }
    assert forall|i: int| 0 <= i < s.len() implies !(#[trigger] s[i]).contains('\r') by {
        assert(fits_line(s[i]));
    }
    assert forall|i: int| 0 <= i < s.len() implies !(#[trigger] s[i]).contains('|') by {
        assert(fits_line(s[i]));
    }
    joined_lacks(s, '|', '\n');
    joined_lacks(s, '|', '\r');
    if s.len() > 0 {
        joined_pieces_come_apart(s, '|');
    }
}

proof fn bit_fits(b: bool)
    ensures
        fits_line(bit(b)),
{
    assert forall|i: int| 0 <= i < bit(b).len() implies bit(b)[i] == '0' || bit(b)[i] == '1' by {}
    if bit(b).contains('\n') {
        let i = choose|i: int| 0 <= i < bit(b).len() && bit(b)[i] == '\n';
        assert(bit(b)[i] == '0' || bit(b)[i] == '1');
    }
    if bit(b).contains('\r') {
        let i = choose|i: int| 0 <= i < bit(b).len() && bit(b)[i] == '\r';
        assert(bit(b)[i] == '0' || bit(b)[i] == '1');
    }
}

proof fn names_fit()
    ensures
        fits_line("last_folder="@) && "last_folder="@.len() > 0,
        fits_line("slideshow_interval="@) && "slideshow_interval="@.len() > 0,
        fits_line("slideshow_fade="@) && "slideshow_fade="@.len() > 0,
        fits_line("slideshow_pixel_perfect="@) && "slideshow_pixel_perfect="@.len() > 0,
        fits_line("media_volume="@) && "media_volume="@.len() > 0,
        fits_line("media_muted="@) && "media_muted="@.len() > 0,
        fits_line("show_thumbnail_filenames="@) && "show_thumbnail_filenames="@.len() > 0,
        fits_line("recent_folders="@) && "recent_folders="@.len() > 0,
        fits_line("recent_images="@) && "recent_images="@.len() > 0,
        fits_line("managed_folders="@) && "managed_folders="@.len() > 0,
{
    reveal_strlit("last_folder=");
    reveal_strlit("slideshow_interval=");
    reveal_strlit("slideshow_fade=");
    reveal_strlit("slideshow_pixel_perfect=");
    reveal_strlit("media_volume=");
    reveal_strlit("media_muted=");
    reveal_strlit("show_thumbnail_filenames=");
    reveal_strlit("recent_folders=");
    reveal_strlit("recent_images=");
    reveal_strlit("managed_folders=");
}

/// A list of lines, each of which fits and holds a setting.
spec fn holds(lines: Seq<Seq<char>>, settings: Seq<SettingSpec>) -> bool {
    &&& lines.len() == settings.len()
    &&& forall|i: int|
        0 <= i < lines.len() ==> fits_line(#[trigger] lines[i]) && lines[i].len() > 0
            && setting_of(lines[i]) == Some(settings[i])
}

proof fn holds_more(
    a: Seq<Seq<char>>,
    x: Seq<SettingSpec>,
    b: Seq<Seq<char>>,
    y: Seq<SettingSpec>,
)
    requires
        holds(a, x),
        holds(b, y),
    ensures
        holds(a + b, x + y),
{
    let c = a + b;
    let z = x + y;
    assert forall|i: int| 0 <= i < c.len() implies fits_line(#[trigger] c[i]) && c[i].len() > 0
        && setting_of(c[i]) == Some(z[i]) by {
        if i < a.len() {
            assert(c[i] == a[i] && z[i] == x[i]);
        } else {
            assert(c[i] == b[i - a.len()] && z[i] == y[i - a.len()]);
        }
    }
}

proof fn held_settings(lines: Seq<Seq<char>>, settings: Seq<SettingSpec>)
    requires
        holds(lines, settings),
    ensures
        settings_on(lines) == settings,
    decreases lines.len(),
{
    if lines.len() > 0 {
        let f = lines.drop_last();
        let g = settings.drop_last();
        assert forall|i: int| 0 <= i < f.len() implies fits_line(#[trigger] f[i]) && f[i].len()
            > 0 && setting_of(f[i]) == Some(g[i]) by {
            assert(f[i] == lines[i] && g[i] == settings[i]);
        }
        held_settings(f, g);
        assert(setting_of(lines[lines.len() - 1]) == Some(settings[lines.len() - 1]));
        assert(g.push(settings.last()) =~= settings);
    } else {
        assert(settings =~= Seq::empty());
    }
}

/// What was saved is read back, as long as no text holds a line break and no path of a list
/// holds the character that stands between them.
pub proof fn saved_settings_are_read_back(s: SaveSpec)
    requires
        fits_file(s),
    ensures
        settings_on(lines_of(joined(saved_lines(s), '\n'))) == saved_settings(s),
{
    names_fit();
    bit_fits(s.fade_enabled);
    bit_fits(s.pixel_perfect);
    bit_fits(s.media_muted);
    bit_fits(s.show_thumbnail_filenames);
    bit_reads_back(s.fade_enabled);
    bit_reads_back(s.pixel_perfect);
    bit_reads_back(s.media_muted);
    bit_reads_back(s.show_thumbnail_filenames);
    list_fits(s.managed_folders);
    list_fits(s.recent_folders);
    list_fits(s.recent_images);
    let first = folder_line(s.last_folder);
    let first_set = match s.last_folder {
        Some(f) => seq![SettingSpec::LastFolder(f)],
        None => Seq::empty(),
    };
    if let Some(f) = s.last_folder {
        reads_back_last_folder(f);
        line_fits("last_folder="@, f);
    }
    assert(holds(first, first_set));
    reads_back_interval(s.interval);
    reads_back_fade(bit(s.fade_enabled));
    reads_back_pixel_perfect(bit(s.pixel_perfect));
    reads_back_volume(s.media_volume);
    reads_back_muted(bit(s.media_muted));
    reads_back_names(bit(s.show_thumbnail_filenames));
    line_fits("slideshow_interval="@, s.interval);
    line_fits("slideshow_fade="@, bit(s.fade_enabled));
    line_fits("slideshow_pixel_perfect="@, bit(s.pixel_perfect));
    line_fits("media_volume="@, s.media_volume);
    line_fits("media_muted="@, bit(s.media_muted));
    line_fits("show_thumbnail_filenames="@, bit(s.show_thumbnail_filenames));
    let middle = seq![
        "slideshow_interval="@ + s.interval,
        "slideshow_fade="@ + bit(s.fade_enabled),
        "slideshow_pixel_perfect="@ + bit(s.pixel_perfect),
        "media_volume="@ + s.media_volume,
        "media_muted="@ + bit(s.media_muted),
        "show_thumbnail_filenames="@ + bit(s.show_thumbnail_filenames),
    ];
    let middle_set = seq![
        SettingSpec::Interval(s.interval),
        SettingSpec::Fade(s.fade_enabled),
        SettingSpec::PixelPerfect(s.pixel_perfect),
        SettingSpec::Volume(s.media_volume),
        SettingSpec::Muted(s.media_muted),
        SettingSpec::ShowNames(s.show_thumbnail_filenames),
    ];
    assert(holds(middle, middle_set));
    let managed = list_line("managed_folders="@, s.managed_folders);
    let managed_set = if s.managed_folders.len() == 0 {
        Seq::empty()
    } else {
        seq![SettingSpec::ManagedFolders(s.managed_folders)]
    };
    reads_back_managed_folders(joined(s.managed_folders, '|'));
    line_fits("managed_folders="@, joined(s.managed_folders, '|'));
    assert(holds(managed, managed_set));
    let folders = list_line("recent_folders="@, s.recent_folders);
    let folders_set = if s.recent_folders.len() == 0 {
        Seq::empty()
    } else {
        seq![SettingSpec::RecentFolders(s.recent_folders)]
    };
    reads_back_recent_folders(joined(s.recent_folders, '|'));
    line_fits("recent_folders="@, joined(s.recent_folders, '|'));
    assert(holds(folders, folders_set));
    let images = list_line("recent_images="@, s.recent_images);
    let images_set = if s.recent_images.len() == 0 {
        Seq::empty()
    } else {
        seq![SettingSpec::RecentImages(s.recent_images)]
    };
    reads_back_recent_images(joined(s.recent_images, '|'));
    line_fits("recent_images="@, joined(s.recent_images, '|'));
    assert(holds(images, images_set));
    holds_more(first, first_set, middle, middle_set);
    holds_more(first + middle, first_set + middle_set, managed, managed_set);
    holds_more(
        first + middle + managed,
        first_set + middle_set + managed_set,
        folders,
        folders_set,
    );
    holds_more(
        first + middle + managed + folders,
        first_set + middle_set + managed_set + folders_set,
        images,
        images_set,
    );
    let lines = saved_lines(s);
    assert(holds(lines, saved_settings(s)));
    assert forall|i: int| 0 <= i < lines.len() implies !(#[trigger] lines[i]).contains('\n')
        && !lines[i].contains('\r') && lines[i].len() > 0 by {
        assert(fits_line(lines[i]));
    }
    lines_come_apart(lines);
    held_settings(lines, saved_settings(s));
}

// ── From one run to the next ─────────────────────────────────────────────────

/// What a look at the values of settings finds: the folder and the file that are there under
/// a text, and the numbers that texts stand for.
pub struct Looks<N> {
    pub folder_at: spec_fn(Seq<char>) -> Option<crate::path::PathSpec>,
    pub file_at: spec_fn(Seq<char>) -> Option<crate::path::PathSpec>,
    pub interval_of: spec_fn(Seq<char>) -> Option<N>,
    pub volume_of: spec_fn(Seq<char>) -> Option<N>,
}

/// What is found under each text of a list.
pub open spec fn found_at(
    at: spec_fn(Seq<char>) -> Option<crate::path::PathSpec>,
    s: Seq<Seq<char>>,
) -> Seq<Option<crate::path::PathSpec>> {
    Seq::new(s.len(), |i: int| at(s[i]))
}

/// A setting whose value has been looked at is the setting of a file with what was found.
pub open spec fn looked_at<N>(s: SettingSpec, k: Known<N>, l: Looks<N>) -> bool {
    match (s, k) {
        (SettingSpec::LastFolder(t), Known::LastFolder(p)) => crate::path::option_view(p) == (
        l.folder_at)(t),
        (SettingSpec::Interval(t), Known::Interval(n)) => n == (l.interval_of)(t),
        (SettingSpec::Fade(a), Known::Fade(b)) => a == b,
        (SettingSpec::PixelPerfect(a), Known::PixelPerfect(b)) => a == b,
        (SettingSpec::Volume(t), Known::Volume(n)) => n == (l.volume_of)(t),
        (SettingSpec::Muted(a), Known::Muted(b)) => a == b,
        (SettingSpec::ShowNames(a), Known::ShowNames(b)) => a == b,
        (SettingSpec::RecentFolders(v), Known::RecentFolders(w)) => options_view(w@) == found_at(
            l.folder_at,
            v,
        ),
        (SettingSpec::RecentImages(v), Known::RecentImages(w)) => options_view(w@) == found_at(
            l.file_at,
            v,
        ),
        (SettingSpec::ManagedFolders(v), Known::ManagedFolders(w)) => options_view(w@) == found_at(
            l.folder_at,
            v,
        ),
        _ => false,
    }
}

/// The texts of a list of paths.
pub open spec fn texts_of(s: Seq<crate::path::PathSpec>) -> Seq<Seq<char>> {
    Seq::new(s.len(), |i: int| s[i].text)
}

/// What is written for settings whose numbers are written as these texts.
pub open spec fn written<N>(
    a: SettingsSpec<N>,
    interval: Seq<char>,
    volume: Seq<char>,
) -> SaveSpec {
    SaveSpec {
        last_folder: match a.last_folder {
            Some(p) => Some(p.text),
            None => None,
        },
        interval,
        fade_enabled: a.fade_enabled,
        pixel_perfect: a.pixel_perfect,
        media_volume: volume,
        media_muted: a.media_muted,
        show_thumbnail_filenames: a.show_thumbnail_filenames,
        managed_folders: texts_of(a.managed_folders),
        recent_folders: texts_of(a.recent_folders),
        recent_images: texts_of(a.recent_images),
    }
}

/// Each path of a list is found under its text.
pub open spec fn still_there(
    at: spec_fn(Seq<char>) -> Option<crate::path::PathSpec>,
    s: Seq<crate::path::PathSpec>,
) -> bool {
    forall|i: int| 0 <= i < s.len() ==> at((#[trigger] s[i]).text) == Some(s[i])
}

/// All that settings name is found again: each path is there, and the texts of the numbers
/// stand for them.
pub open spec fn found_again<N>(
    a: SettingsSpec<N>,
    interval: Seq<char>,
    volume: Seq<char>,
    l: Looks<N>,
) -> bool {
    &&& a.last_folder matches Some(p) ==> (l.folder_at)(p.text) == Some(p)
    &&& still_there(l.folder_at, a.managed_folders)
    &&& still_there(l.folder_at, a.recent_folders)
    &&& still_there(l.file_at, a.recent_images)
    &&& (l.interval_of)(interval) == Some(a.interval)
    &&& (l.volume_of)(volume) == Some(a.media_volume)
}

/// Lists as the viewer keeps them: no longer than they may be, and media among the recent ones.
pub open spec fn lists_fit<N>(a: SettingsSpec<N>) -> bool {
    &&& a.managed_folders.len() <= MANAGED_CAP
    &&& a.recent_folders.len() <= RECENT_CAP
    &&& a.recent_images.len() <= RECENT_CAP
    &&& forall|i: int|
        0 <= i < a.recent_images.len() ==> crate::media::media_key(
            (#[trigger] a.recent_images[i]).parts,
        )
}

proof fn all_are_present(
    at: spec_fn(Seq<char>) -> Option<crate::path::PathSpec>,
    s: Seq<crate::path::PathSpec>,
    media_only: bool,
)
    requires
        still_there(at, s),
        media_only ==> forall|i: int|
            0 <= i < s.len() ==> crate::media::media_key((#[trigger] s[i]).parts),
    ensures
        present(found_at(at, texts_of(s)), media_only) == s,
    decreases s.len(),
{
    let all = found_at(at, texts_of(s));
    if s.len() > 0 {
        let front = s.drop_last();
        assert forall|i: int| 0 <= i < front.len() implies at((#[trigger] front[i]).text) == Some(
            front[i],
        ) by {
            assert(front[i] == s[i]);
        }
        if media_only {
            assert forall|i: int| 0 <= i < front.len() implies crate::media::media_key(
                (#[trigger] front[i]).parts,
            ) by {
                assert(front[i] == s[i]);
            }
        }
        all_are_present(at, front, media_only);
        assert(all.drop_last() =~= found_at(at, texts_of(front)));
        assert(s[s.len() - 1] == s.last());
        assert(all.last() == Some(s.last()));
        assert(front.push(s.last()) =~= s);
    } else {
        assert(s =~= Seq::empty());
    }
}

proof fn one_more_setting<N>(start: SettingsSpec<N>, list: Seq<Known<N>>, i: int)
    requires
        0 <= i < list.len(),
    ensures
        start.with_all(list.take(i + 1)) == start.with_all(list.take(i)).with(list[i]),
{
    assert(list.take(i + 1).drop_last() =~= list.take(i));
    assert(list.take(i + 1).last() == list[i]);
}

/// The settings of the switches and numbers, which follow the last folder.
proof fn switches_come_back<N>(
    start: SettingsSpec<N>,
    a: SettingsSpec<N>,
    interval: Seq<char>,
    volume: Seq<char>,
    l: Looks<N>,
    list: Seq<Known<N>>,
    f: int,
)
    requires
        found_again(a, interval, volume, l),
        0 <= f,
        f + 6 <= list.len(),
        looked_at(SettingSpec::Interval(interval), list[f], l),
        looked_at(SettingSpec::Fade(a.fade_enabled), list[f + 1], l),
        looked_at(SettingSpec::PixelPerfect(a.pixel_perfect), list[f + 2], l),
        looked_at(SettingSpec::Volume(volume), list[f + 3], l),
        looked_at(SettingSpec::Muted(a.media_muted), list[f + 4], l),
        looked_at(SettingSpec::ShowNames(a.show_thumbnail_filenames), list[f + 5], l),
    ensures
        start.with_all(list.take(f + 6)) == (SettingsSpec {
            interval: a.interval,
            fade_enabled: a.fade_enabled,
            pixel_perfect: a.pixel_perfect,
            media_volume: a.media_volume,
            media_muted: a.media_muted,
            show_thumbnail_filenames: a.show_thumbnail_filenames,
            ..start.with_all(list.take(f))
        }),
{
    one_more_setting(start, list, f);
    one_more_setting(start, list, f + 1);
    one_more_setting(start, list, f + 2);
    one_more_setting(start, list, f + 3);
    one_more_setting(start, list, f + 4);
    one_more_setting(start, list, f + 5);
}

/// How many settings are on the lines in front of the library, the recent folders and the recent
/// media, and on all lines.
spec fn line_counts(s: SaveSpec) -> (int, int, int, int) {
    let f = if s.last_folder is Some {
        7int
    } else {
        6
    };
    let m = if s.managed_folders.len() == 0 {
        f
    } else {
        f + 1
    };
    let r = if s.recent_folders.len() == 0 {
        m
    } else {
        m + 1
    };
    (
        f,
        m,
        r,
        if s.recent_images.len() == 0 {
            r
        } else {
            r + 1
        },
    )
}

proof fn settings_have_their_lines(s: SaveSpec)
    ensures
        ({
            let read = saved_settings(s);
            let c = line_counts(s);
            &&& read.len() == c.3
            &&& s.last_folder matches Some(t) ==> read[0] == SettingSpec::LastFolder(t)
            &&& read[c.0 - 6] == SettingSpec::Interval(s.interval)
            &&& read[c.0 - 5] == SettingSpec::Fade(s.fade_enabled)
            &&& read[c.0 - 4] == SettingSpec::PixelPerfect(s.pixel_perfect)
            &&& read[c.0 - 3] == SettingSpec::Volume(s.media_volume)
            &&& read[c.0 - 2] == SettingSpec::Muted(s.media_muted)
            &&& read[c.0 - 1] == SettingSpec::ShowNames(s.show_thumbnail_filenames)
            &&& s.managed_folders.len() > 0 ==> read[c.0] == SettingSpec::ManagedFolders(
                s.managed_folders,
            )
            &&& s.recent_folders.len() > 0 ==> read[c.1] == SettingSpec::RecentFolders(
                s.recent_folders,
            )
            &&& s.recent_images.len() > 0 ==> read[c.2] == SettingSpec::RecentImages(
                s.recent_images,
            )
        }),
{
}

/// The settings of the lists, which follow the switches and numbers.
proof fn lists_come_back<N>(
    start: SettingsSpec<N>,
    a: SettingsSpec<N>,
    s: SaveSpec,
    l: Looks<N>,
    list: Seq<Known<N>>,
)
    requires
        lists_fit(a),
        still_there(l.folder_at, a.managed_folders),
        still_there(l.folder_at, a.recent_folders),
        still_there(l.file_at, a.recent_images),
        s.managed_folders == texts_of(a.managed_folders),
        s.recent_folders == texts_of(a.recent_folders),
        s.recent_images == texts_of(a.recent_images),
        list.len() == line_counts(s).3,
        s.managed_folders.len() > 0 ==> looked_at(
            SettingSpec::ManagedFolders(s.managed_folders),
            list[line_counts(s).0],
            l,
        ),
        s.recent_folders.len() > 0 ==> looked_at(
            SettingSpec::RecentFolders(s.recent_folders),
            list[line_counts(s).1],
            l,
        ),
        s.recent_images.len() > 0 ==> looked_at(
            SettingSpec::RecentImages(s.recent_images),
            list[line_counts(s).2],
            l,
        ),
        start.with_all(list.take(line_counts(s).0)).managed_folders.len() == 0,
        start.with_all(list.take(line_counts(s).0)).recent_folders.len() == 0,
        start.with_all(list.take(line_counts(s).0)).recent_images.len() == 0,
    ensures
        start.with_all(list) == (SettingsSpec {
            managed_folders: a.managed_folders,
            recent_folders: a.recent_folders,
            recent_images: a.recent_images,
            ..start.with_all(list.take(line_counts(s).0))
        }),
{
    let c = line_counts(s);
    let x = start.with_all(list.take(c.0));
    all_are_present(l.folder_at, a.managed_folders, false);
    all_are_present(l.folder_at, a.recent_folders, false);
    all_are_present(l.file_at, a.recent_images, true);
    if a.managed_folders.len() > 0 {
        one_more_setting(start, list, c.0);
    } else {
        assert(a.managed_folders =~= x.managed_folders);
    }
    let y = start.with_all(list.take(c.1));
    assert(y == (SettingsSpec { managed_folders: a.managed_folders, ..x }));
    if a.recent_folders.len() > 0 {
        one_more_setting(start, list, c.1);
    } else {
        assert(a.recent_folders =~= y.recent_folders);
    }
    let z = start.with_all(list.take(c.2));
    assert(z == (SettingsSpec { recent_folders: a.recent_folders, ..y }));
    if a.recent_images.len() > 0 {
        one_more_setting(start, list, c.2);
    } else {
        assert(a.recent_images =~= z.recent_images);
    }
    assert(list.take(c.3) =~= list);
}

/// What is saved is what the next run loads: the settings of the file, each looked at, make
/// the settings that were saved, as long as the texts fit into the file, the lists are as the
/// viewer keeps them, and all that they name is found again.
pub proof fn saved_settings_are_loaded<N>(
    a: SettingsSpec<N>,
    interval: Seq<char>,
    volume: Seq<char>,
    l: Looks<N>,
    list: Seq<Known<N>>,
    default_interval: N,
    default_volume: N,
)
    requires
        fits_file(written(a, interval, volume)),
        lists_fit(a),
        found_again(a, interval, volume, l),
        ({
            let read = settings_on(
                lines_of(joined(saved_lines(written(a, interval, volume)), '\n')),
            );
            &&& list.len() == read.len()
            &&& forall|i: int| 0 <= i < list.len() ==> looked_at(read[i], #[trigger] list[i], l)
        }),
    ensures
        SettingsSpec::<N>::unset(default_interval, default_volume).with_all(list) == a,
{
    let s = written(a, interval, volume);
    saved_settings_are_read_back(s);
    settings_have_their_lines(s);
    known_settings_are_loaded(
        a,
        interval,
        volume,
        l,
        list,
        SettingsSpec::<N>::unset(default_interval, default_volume),
    );
}

proof fn known_settings_are_loaded<N>(
    a: SettingsSpec<N>,
    interval: Seq<char>,
    volume: Seq<char>,
    l: Looks<N>,
    list: Seq<Known<N>>,
    start: SettingsSpec<N>,
)
    requires
        lists_fit(a),
        found_again(a, interval, volume, l),
        start.last_folder is None,
        start.managed_folders.len() == 0,
        start.recent_folders.len() == 0,
        start.recent_images.len() == 0,
        ({
            let s = written(a, interval, volume);
            let c = line_counts(s);
            &&& list.len() == c.3
            &&& s.last_folder matches Some(t) ==> looked_at(
                SettingSpec::LastFolder(t),
                list[0],
                l,
            )
            &&& looked_at(SettingSpec::Interval(s.interval), list[c.0 - 6], l)
            &&& looked_at(SettingSpec::Fade(s.fade_enabled), list[c.0 - 5], l)
            &&& looked_at(SettingSpec::PixelPerfect(s.pixel_perfect), list[c.0 - 4], l)
            &&& looked_at(SettingSpec::Volume(s.media_volume), list[c.0 - 3], l)
            &&& looked_at(SettingSpec::Muted(s.media_muted), list[c.0 - 2], l)
            &&& looked_at(SettingSpec::ShowNames(s.show_thumbnail_filenames), list[c.0 - 1], l)
            &&& s.managed_folders.len() > 0 ==> looked_at(
                SettingSpec::ManagedFolders(s.managed_folders),
                list[c.0],
                l,
            )
            &&& s.recent_folders.len() > 0 ==> looked_at(
                SettingSpec::RecentFolders(s.recent_folders),
                list[c.1],
                l,
            )
            &&& s.recent_images.len() > 0 ==> looked_at(
                SettingSpec::RecentImages(s.recent_images),
                list[c.2],
                l,
            )
        }),
    ensures
        start.with_all(list) == a,
{
    let s = written(a, interval, volume);
    let f = line_counts(s).0 - 6;
    assert(list.take(0) =~= Seq::empty());
    if a.last_folder is Some {
        one_more_setting(start, list, 0);
    }
    assert(start.with_all(list.take(f)) == (SettingsSpec { last_folder: a.last_folder, ..start }));
    switches_come_back(start, a, interval, volume, l, list, f);
    lists_come_back(start, a, s, l, list);
}

// ── What the lines mean ──────────────────────────────────────────────────────

/// Each name has its setting, whatever stands behind it.
pub proof fn each_name_has_its_setting(v: Seq<char>)
    ensures
        setting_of("last_folder="@ + v) == Some(SettingSpec::LastFolder(v)),
        setting_of("slideshow_interval="@ + v) == Some(SettingSpec::Interval(v)),
        setting_of("slideshow_fade="@ + v) == Some(SettingSpec::Fade(is_on(v))),
        setting_of("slideshow_pixel_perfect="@ + v) == Some(SettingSpec::PixelPerfect(is_on(v))),
        setting_of("media_volume="@ + v) == Some(SettingSpec::Volume(v)),
        setting_of("media_muted="@ + v) == Some(SettingSpec::Muted(is_on(v))),
        setting_of("show_thumbnail_filenames="@ + v) == Some(SettingSpec::ShowNames(is_on(v))),
        setting_of("recent_folders="@ + v) == Some(SettingSpec::RecentFolders(pieces(v, '|'))),
        setting_of("recent_images="@ + v) == Some(SettingSpec::RecentImages(pieces(v, '|'))),
        setting_of("managed_folders="@ + v) == Some(SettingSpec::ManagedFolders(pieces(v, '|'))),
{
    reads_back_last_folder(v);
    reads_back_interval(v);
    reads_back_fade(v);
    reads_back_pixel_perfect(v);
    reads_back_volume(v);
    reads_back_muted(v);
    reads_back_names(v);
    reads_back_recent_folders(v);
    reads_back_recent_images(v);
    reads_back_managed_folders(v);
}

proof fn lacks_its_name(line: Seq<char>, p: Seq<char>)
    requires
        !line.contains('='),
        p.len() > 0,
        p.last() == '=',
    ensures
        !starts_with(line, p),
{
    if starts_with(line, p) {
        let n = p.len() as int;
        assert(line.take(n)[n - 1] == line[n - 1]);
        assert(line[n - 1] == '=');
    }
}

/// A line without an equals sign holds no setting.
pub proof fn lines_without_a_name_hold_nothing(line: Seq<char>)
    requires
        !line.contains('='),
    ensures
        setting_of(line) is None,
{
    reveal_strlit("last_folder=");
    lacks_its_name(line, "last_folder="@);
    reveal_strlit("slideshow_interval=");
    lacks_its_name(line, "slideshow_interval="@);
    reveal_strlit("slideshow_fade=");
    lacks_its_name(line, "slideshow_fade="@);
    reveal_strlit("slideshow_pixel_perfect=");
    lacks_its_name(line, "slideshow_pixel_perfect="@);
    reveal_strlit("media_volume=");
    lacks_its_name(line, "media_volume="@);
    reveal_strlit("media_muted=");
    lacks_its_name(line, "media_muted="@);
    reveal_strlit("show_thumbnail_filenames=");
    lacks_its_name(line, "show_thumbnail_filenames="@);
    reveal_strlit("recent_folders=");
    lacks_its_name(line, "recent_folders="@);
    reveal_strlit("recent_images=");
    lacks_its_name(line, "recent_images="@);
    reveal_strlit("managed_folders=");
    lacks_its_name(line, "managed_folders="@);
}

/// A text without the white space at its ends is what stands between: all around it is white, and
/// it neither starts nor ends with white space.
pub proof fn trimming_takes_white_ends(s: Seq<char>) -> (r: (int, int))
    ensures
        0 <= r.0 <= r.1 <= s.len(),
        trimmed(s) == s.subrange(r.0, r.1),
        forall|i: int| 0 <= i < r.0 ==> is_white(#[trigger] s[i]),
        forall|i: int| r.1 <= i < s.len() ==> is_white(#[trigger] s[i]),
        r.0 < r.1 ==> !is_white(s[r.0]) && !is_white(s[r.1 - 1]),
    decreases s.len(),
{
    if s.len() > 0 && is_white(s[0]) {
        let t = s.drop_first();
        let (a, b) = trimming_takes_white_ends(t);
        assert(s.subrange(a + 1, b + 1) =~= t.subrange(a, b));
        assert forall|i: int| 0 <= i < a + 1 implies is_white(#[trigger] s[i]) by {
            if i > 0 {
                assert(t[i - 1] == s[i]);
            }
        }
        assert forall|i: int| b + 1 <= i < s.len() implies is_white(#[trigger] s[i]) by {
            assert(t[i - 1] == s[i]);
        }
        (a + 1, b + 1)
    } else if s.len() > 0 && is_white(s.last()) {
        let t = s.drop_last();
        let (a, b) = trimming_takes_white_ends(t);
        assert(s.subrange(a, b) =~= t.subrange(a, b));
        assert forall|i: int| 0 <= i < a implies is_white(#[trigger] s[i]) by {
            assert(t[i] == s[i]);
        }
        assert forall|i: int| b <= i < s.len() implies is_white(#[trigger] s[i]) by {
            if i < t.len() {
                assert(t[i] == s[i]);
            }
        }
        (a, b)
    } else {
        assert(s.subrange(0, s.len() as int) =~= s);
        (0, s.len() as int)
    }
}

/// A switch is off where its value is a zero with nothing but white space around it, and on with
/// any other value, even an empty one.
pub proof fn a_switch_is_off_with_a_zero_alone(value: Seq<char>)
    ensures
        !is_on(value) <==> exists|i: int|
            0 <= i < value.len() && #[trigger] value[i] == '0' && (forall|j: int|
                0 <= j < value.len() && j != i ==> is_white(#[trigger] value[j])),
{
    let (a, b) = trimming_takes_white_ends(value);
    if !is_on(value) {
        assert(trimmed(value).len() == 1 && trimmed(value)[0] == '0');
        assert(value[a] == '0');
    }
    if exists|i: int|
        0 <= i < value.len() && #[trigger] value[i] == '0' && (forall|j: int|
            0 <= j < value.len() && j != i ==> is_white(#[trigger] value[j])) {
        let i = choose|i: int|
            0 <= i < value.len() && #[trigger] value[i] == '0' && (forall|j: int|
                0 <= j < value.len() && j != i ==> is_white(#[trigger] value[j]));
        assert(!is_white(value[i]));
        assert(a <= i < b);
        assert(a == i && b == i + 1);
        assert(trimmed(value) =~= seq!['0']);
    }
}

/// The pieces of a text are put together to the same text, and none of them holds the character
/// that stands between them.
pub proof fn pieces_make_the_text(s: Seq<char>, c: char)
    ensures
        pieces(s, c).len() > 0,
        joined(pieces(s, c), c) == s,
        forall|i: int| 0 <= i < pieces(s, c).len() ==> !(#[trigger] pieces(s, c)[i]).contains(c),
    decreases s.len(),
{
    if s.len() == 0 {
        assert(joined(pieces(s, c), c) =~= s);
    } else {
        let f = s.drop_last();
        let p = pieces(f, c);
        let all = pieces(s, c);
        pieces_make_the_text(f, c);
        if s.last() == c {
            assert(all.drop_last() =~= p);
            assert(joined(all, c) =~= joined(p, c).push(c) + Seq::empty());
            assert(joined(all, c) =~= s);
        } else {
            assert forall|i: int| 0 <= i < all.len() implies !(#[trigger] all[i]).contains(c) by {
                assert(!p[i].contains(c));
                if i == all.len() - 1 {
                    let x = p.last();
                    assert forall|j: int| 0 <= j < all[i].len() implies all[i][j] != c by {
                        if j < x.len() {
                            assert(x.contains(x[j]));
                        }
                    }
                }
            }
            if p.len() == 1 {
                assert(joined(all, c) =~= s);
            } else {
                assert(all.drop_last() =~= p.drop_last());
                assert(joined(all, c) =~= joined(p, c).push(s.last()));
                assert(joined(all, c) =~= s);
            }
        }
    }
}

/// A text has the lines that its line feeds end, each without a carriage return at its end, and
/// what stands behind the last line feed where that is something.
pub proof fn line_feeds_end_lines(a: Seq<char>, b: Seq<char>)
    requires
        !b.contains('\n'),
        b.len() > 0,
    ensures
        lines_of(Seq::empty()).len() == 0,
        lines_of(b) == seq![b],
        lines_of(a.push('\n') + b) == lines_of(a.push('\n')).push(b),
        lines_of(b.push('\n')).len() == 1,
        b.last() != '\r' ==> lines_of(b.push('\n'))[0] == b,
        b.last() == '\r' ==> lines_of(b.push('\n'))[0] == b.drop_last(),
{
    let none: Seq<char> = Seq::empty();
    assert(!none.contains('\n'));
    pieces_of_one(none, '\n');
    assert(lines_of(none) =~= Seq::empty());
    pieces_of_one(b, '\n');
    assert(lines_of(b) =~= seq![b]);
    pieces_of_more(a, '\n', b);
    pieces_of_more(a, '\n', none);
    assert(a.push('\n') + none =~= a.push('\n'));
    let p = pieces(a, '\n');
    pieces_are_some(a, '\n');
    assert(lines_of(a.push('\n') + b) =~= lines_of(a.push('\n')).push(b));
    pieces_of_more(b, '\n', none);
    assert(b.push('\n') + none =~= b.push('\n'));
    assert(pieces(b.push('\n'), '\n') =~= seq![b, none]);
}

/// The settings of lines are those of each line, in their order.
pub proof fn settings_stand_in_the_order_of_the_lines(
    a: Seq<Seq<char>>,
    line: Seq<char>,
    s: SettingSpec,
)
    ensures
        settings_on(Seq::empty()).len() == 0,
        setting_of(line) is None ==> settings_on(a.push(line)) == settings_on(a),
        setting_of(line) == Some(s) ==> settings_on(a.push(line)) == settings_on(a).push(s),
{
    assert(a.push(line).drop_last() =~= a);
}

/// What holds where nothing is set: fades and names are on, exact pixels are off, the sound is on,
/// and no folder or medium is known.
pub proof fn what_holds_where_nothing_is_set<N>(interval: N, volume: N)
    ensures
        ({
            let s = SettingsSpec::unset(interval, volume);
            &&& s.interval == interval && s.media_volume == volume
            &&& s.fade_enabled && s.show_thumbnail_filenames
            &&& !s.pixel_perfect && !s.media_muted
            &&& s.last_folder is None
            &&& s.managed_folders.len() == 0 && s.recent_folders.len() == 0
                && s.recent_images.len() == 0
        }),
{
}

/// Each setting sets what it is for and nothing else; a path that is not there and a number that is
/// none set nothing.
pub proof fn each_setting_sets_its_own<N>(s: SettingsSpec<N>, p: MediaPath, n: N, b: bool)
    ensures
        s.with(Known::LastFolder(Some(p))) == (SettingsSpec { last_folder: Some(p@), ..s }),
        s.with(Known::LastFolder(None)) == s,
        s.with(Known::Interval(Some(n))) == (SettingsSpec { interval: n, ..s }),
        s.with(Known::Interval(None)) == s,
        s.with(Known::Fade(b)) == (SettingsSpec { fade_enabled: b, ..s }),
        s.with(Known::PixelPerfect(b)) == (SettingsSpec { pixel_perfect: b, ..s }),
        s.with(Known::Volume(Some(n))) == (SettingsSpec { media_volume: n, ..s }),
        s.with(Known::Volume(None)) == s,
        s.with(Known::Muted(b)) == (SettingsSpec { media_muted: b, ..s }),
        s.with(Known::ShowNames(b)) == (SettingsSpec { show_thumbnail_filenames: b, ..s }),
{
}

/// A list sets its own list alone, to the first paths of it that are there: ten recent folders, ten
/// recent media, which are media, and twenty folders of the library. Later settings count.
pub proof fn each_list_sets_its_own<N>(
    s: SettingsSpec<N>,
    v: Vec<Option<MediaPath>>,
    more: Seq<Known<N>>,
    k: Known<N>,
)
    ensures
        ({
            let t = s.with(Known::RecentFolders(v));
            &&& t == (SettingsSpec { recent_folders: t.recent_folders, ..s })
            &&& t.recent_folders == crate::recent::at_most(present(options_view(v@), false), 10)
        }),
        ({
            let t = s.with(Known::RecentImages(v));
            &&& t == (SettingsSpec { recent_images: t.recent_images, ..s })
            &&& t.recent_images == crate::recent::at_most(present(options_view(v@), true), 10)
        }),
        ({
            let t = s.with(Known::ManagedFolders(v));
            &&& t == (SettingsSpec { managed_folders: t.managed_folders, ..s })
            &&& t.managed_folders == crate::recent::at_most(present(options_view(v@), false), 20)
        }),
        s.with_all(Seq::empty()) == s,
        s.with_all(more.push(k)) == s.with_all(more).with(k),
{
    assert(more.push(k).drop_last() =~= more);
}

/// Of a list, the paths that are there are kept, in their order; of media the media alone.
pub proof fn paths_that_are_there_are_kept(
    a: Seq<Option<crate::path::PathSpec>>,
    p: crate::path::PathSpec,
    q: crate::path::PathSpec,
    media_only: bool,
)
    ensures
        present(Seq::empty(), media_only).len() == 0,
        present(a.push(None), media_only) == present(a, media_only),
        present(a.push(Some(p)), false) == present(a, false).push(p),
        crate::media::media_key(p.parts) ==> present(a.push(Some(p)), true) == present(
            a,
            true,
        ).push(p),
        !crate::media::media_key(p.parts) ==> present(a.push(Some(p)), true) == present(a, true),
        present(a, media_only).contains(q) <==> a.contains(Some(q)) && (media_only
            ==> crate::media::media_key(q.parts)),
{
    assert(a.push(None).drop_last() =~= a);
    assert(a.push(Some(p)).drop_last() =~= a);
    kept_are_those_there(a, q, media_only);
}

proof fn kept_are_those_there(
    a: Seq<Option<crate::path::PathSpec>>,
    q: crate::path::PathSpec,
    media_only: bool,
)
    ensures
        present(a, media_only).contains(q) <==> a.contains(Some(q)) && (media_only
            ==> crate::media::media_key(q.parts)),
    decreases a.len(),
{
    if a.len() > 0 {
        let front = a.drop_last();
        let f = present(front, media_only);
        let all = present(a, media_only);
        kept_are_those_there(front, q, media_only);
        assert(a[a.len() - 1] == a.last());
        if f.contains(q) {
            let i = choose|i: int| 0 <= i < f.len() && f[i] == q;
            assert(all[i] == q);
        }
        if front.contains(Some(q)) {
            let i = choose|i: int| 0 <= i < front.len() && front[i] == Some(q);
            assert(a[i] == Some(q));
        }
        if a.contains(Some(q)) && a.last() != Some(q) {
            let i = choose|i: int| 0 <= i < a.len() && a[i] == Some(q);
            assert(front[i] == Some(q));
        }
        if a.last() == Some(q) && (media_only ==> crate::media::media_key(q.parts)) {
            assert(all[all.len() - 1] == q);
        }
        if all.contains(q) {
            let i = choose|i: int| 0 <= i < all.len() && all[i] == q;
            if i < f.len() {
                assert(f[i] == q);
            }
        }
    }
}

/// The file has a line for each setting under its name, a switch as one or zero, and a line for each
/// list that is not empty, with bars between its paths; the last folder stands first, where there is
/// one.
pub proof fn each_setting_has_its_line(s: SaveSpec)
    ensures
        ({
            let l = saved_lines(s);
            let n: int = if s.last_folder is Some {
                1
            } else {
                0
            };
            &&& l.len() >= n + 6
            &&& s.last_folder is Some ==> l[0] == "last_folder="@ + s.last_folder->0
            &&& l[n] == "slideshow_interval="@ + s.interval
            &&& s.fade_enabled ==> l[n + 1] == "slideshow_fade="@ + seq!['1']
            &&& !s.fade_enabled ==> l[n + 1] == "slideshow_fade="@ + seq!['0']
            &&& s.pixel_perfect ==> l[n + 2] == "slideshow_pixel_perfect="@ + seq!['1']
            &&& !s.pixel_perfect ==> l[n + 2] == "slideshow_pixel_perfect="@ + seq!['0']
            &&& l[n + 3] == "media_volume="@ + s.media_volume
            &&& s.media_muted ==> l[n + 4] == "media_muted="@ + seq!['1']
            &&& !s.media_muted ==> l[n + 4] == "media_muted="@ + seq!['0']
            &&& s.show_thumbnail_filenames ==> l[n + 5] == "show_thumbnail_filenames="@ + seq!['1']
            &&& !s.show_thumbnail_filenames ==> l[n + 5] == "show_thumbnail_filenames="@ + seq!['0']
            &&& s.managed_folders.len() > 0 ==> l.len() > n + 6 && l[n + 6] == "managed_folders="@
                + joined(s.managed_folders, '|')
            &&& s.recent_images.len() > 0 ==> l.len() > n + 6 && l.last() == "recent_images="@
                + joined(s.recent_images, '|')
            &&& s.recent_folders.len() > 0 && s.recent_images.len() == 0 ==> l.len() > n + 6
                && l.last() == "recent_folders="@ + joined(s.recent_folders, '|')
            &&& s.recent_folders.len() > 0 && s.recent_images.len() > 0 ==> l.len() > n + 7
                && l[l.len() - 2] == "recent_folders="@ + joined(s.recent_folders, '|')
        }),
{
}

/// White space is what counts as such among all characters: tab, line feed and the three behind
/// them, the space, and the spaces and separators of other scripts.
pub proof fn white_space_is_that_of_all_scripts(c: char)
    ensures
        is_white(c) <==> {
            let n = c as u32;
            ||| 9 <= n <= 13 || n == 32 || n == 133 || n == 160
            ||| n == 5760 || 8192 <= n <= 8202
            ||| n == 8232 || n == 8233 || n == 8239 || n == 8287 || n == 12288
        },
{
}

} // verus!
