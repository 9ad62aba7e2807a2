//! Paths of files and folders, as the components that the platform splits them into.

use vstd::prelude::*;

use crate::text::{chars_of, compare_text, text_of_range, Rank};

verus! {

/// One component of a path.
pub enum PathPart {
    /// A drive or share, such as `C:`.
    Prefix(String),
    /// The root of a drive or of the file system.
    RootDir,
    /// `.` at the start of a relative path.
    CurDir,
    /// `..`
    ParentDir,
    /// The name of a file or folder.
    Normal(String),
}

/// What a component holds.
pub enum PartSpec {
    Prefix(Seq<char>),
    RootDir,
    CurDir,
    ParentDir,
    Normal(Seq<char>),
}

/// A path as what tells it from other paths: its components.
pub type PathKey = Seq<PartSpec>;

impl View for PathPart {
    type V = PartSpec;

    open spec fn view(&self) -> PartSpec {
        match self {
            PathPart::Prefix(s) => PartSpec::Prefix(s@),
            PathPart::RootDir => PartSpec::RootDir,
            PathPart::CurDir => PartSpec::CurDir,
            PathPart::ParentDir => PartSpec::ParentDir,
            PathPart::Normal(s) => PartSpec::Normal(s@),
        }
    }
}

/// A path: its text as shown to the user, the components of that text, and for each
/// component the number of characters of the text that lead up to the end of it.
pub struct MediaPath {
    pub text: String,
    pub parts: Vec<PathPart>,
    pub ends: Vec<usize>,
}

/// What a path holds.
pub struct PathSpec {
    pub text: Seq<char>,
    pub parts: PathKey,
    pub ends: Seq<usize>,
}

/// What the components of a path hold.
pub open spec fn parts_view(parts: Seq<PathPart>) -> PathKey {
    Seq::new(parts.len(), |i: int| parts[i]@)
}

impl View for MediaPath {
    type V = PathSpec;

    open spec fn view(&self) -> PathSpec {
        PathSpec { text: self.text@, parts: parts_view(self.parts@), ends: self.ends@ }
    }
}

impl MediaPath {
    /// The components that tell this path from others.
    pub open spec fn key(&self) -> PathKey {
        self@.parts
    }
}

/// What a list of paths holds.
pub open spec fn paths_view(s: Seq<MediaPath>) -> Seq<PathSpec> {
    Seq::new(s.len(), |i: int| s[i]@)
}

// ── Order ────────────────────────────────────────────────────────────────────

/// The place of the kind of a component in the order of components.
pub open spec fn part_kind(p: PartSpec) -> int {
    match p {
        PartSpec::Prefix(_) => 0,
        PartSpec::RootDir => 1,
        PartSpec::CurDir => 2,
        PartSpec::ParentDir => 3,
        PartSpec::Normal(_) => 4,
    }
}

/// The text of a component that has one.
pub open spec fn part_text(p: PartSpec) -> Seq<char> {
    match p {
        PartSpec::Prefix(s) => s,
        PartSpec::Normal(s) => s,
        _ => Seq::empty(),
    }
}

/// The order of components: by kind, then by text.
pub open spec fn part_lt(a: PartSpec, b: PartSpec) -> bool {
    part_kind(a) < part_kind(b) || (part_kind(a) == part_kind(b) && crate::text::text_lt(
        part_text(a),
        part_text(b),
    ))
}

/// The order of paths: by components from the front, a parent before what lies in it.
pub open spec fn path_lt(a: PathKey, b: PathKey) -> bool
    decreases a.len(),
{
    if b.len() == 0 {
        false
    } else if a.len() == 0 {
        true
    } else if a[0] != b[0] {
        part_lt(a[0], b[0])
    } else {
        path_lt(a.drop_first(), b.drop_first())
    }
}

proof fn part_order_is_total(a: PartSpec, b: PartSpec)
    ensures
        part_lt(a, b) ==> !part_lt(b, a) && a != b,
        !part_lt(a, b) && !part_lt(b, a) ==> a == b,
{
    crate::text::text_order_is_total(part_text(a), part_text(b));
}

proof fn part_order_is_transitive(a: PartSpec, b: PartSpec, c: PartSpec)
    requires
        part_lt(a, b),
        part_lt(b, c),
    ensures
        part_lt(a, c),
{
    if part_kind(a) == part_kind(b) && part_kind(b) == part_kind(c) {
        crate::text::text_order_is_transitive(part_text(a), part_text(b), part_text(c));
    }
}

/// Exactly one of before, same and after holds of two paths.
pub proof fn path_order_is_total(a: PathKey, b: PathKey)
    ensures
        path_lt(a, b) ==> !path_lt(b, a) && a != b,
        !path_lt(a, b) && !path_lt(b, a) ==> a == b,
    decreases a.len(),
{
    if a.len() > 0 && b.len() > 0 {
        part_order_is_total(a[0], b[0]);
        if a[0] == b[0] {
            path_order_is_total(a.drop_first(), b.drop_first());
            if a.drop_first() == b.drop_first() {
                assert(a =~= seq![a[0]] + a.drop_first());
                assert(b =~= seq![b[0]] + b.drop_first());
            }
        }
    } else if a.len() == 0 && b.len() == 0 {
        assert(a =~= b);
    }
}

/// The order of paths is transitive.
pub proof fn path_order_is_transitive(a: PathKey, b: PathKey, c: PathKey)
    requires
        path_lt(a, b),
        path_lt(b, c),
    ensures
        path_lt(a, c),
    decreases a.len(),
{
    if a.len() > 0 {
        part_order_is_total(a[0], b[0]);
        part_order_is_total(b[0], c[0]);
        if a[0] == b[0] && b[0] == c[0] {
            path_order_is_transitive(a.drop_first(), b.drop_first(), c.drop_first());
        } else if a[0] != b[0] && b[0] != c[0] {
            part_order_is_transitive(a[0], b[0], c[0]);
            part_order_is_total(a[0], c[0]);
        }
    }
}

/// The rank of two paths.
pub open spec fn path_rank(a: PathKey, b: PathKey) -> Rank {
    if path_lt(a, b) {
        Rank::Less
    } else if path_lt(b, a) {
        Rank::Greater
    } else {
        Rank::Equal
    }
}

/// The rank of two components.
pub open spec fn part_rank(a: PartSpec, b: PartSpec) -> Rank {
    if part_lt(a, b) {
        Rank::Less
    } else if part_lt(b, a) {
        Rank::Greater
    } else {
        Rank::Equal
    }
}

fn kind_of(p: &PathPart) -> (r: u8)
    ensures
        r == part_kind(p@),
{
    match p {
        PathPart::Prefix(_) => 0,
        PathPart::RootDir => 1,
        PathPart::CurDir => 2,
        PathPart::ParentDir => 3,
        PathPart::Normal(_) => 4,
    }
}

fn compare_parts(a: &PathPart, b: &PathPart) -> (r: Rank)
    ensures
        r == part_rank(a@, b@),
{
    match (a, b) {
        (PathPart::Prefix(x), PathPart::Prefix(y)) => compare_text(x.as_str(), y.as_str()),
        (PathPart::Normal(x), PathPart::Normal(y)) => compare_text(x.as_str(), y.as_str()),
        _ => {
            let i: u8 = kind_of(a);
            let j: u8 = kind_of(b);
            if i < j {
                Rank::Less
            } else if j < i {
                Rank::Greater
            } else {
                Rank::Equal
            }
        },
    }
}

/// Compares two paths.
pub fn compare_paths(a: &MediaPath, b: &MediaPath) -> (r: Rank)
    ensures
        r == path_rank(a.key(), b.key()),
{
    assert(a.key().skip(0) =~= a.key());
    assert(b.key().skip(0) =~= b.key());
    let mut i: usize = 0;
    loop
        invariant
            i <= a.parts.len(),
            i <= b.parts.len(),
            path_rank(a.key(), b.key()) == path_rank(a.key().skip(i as int), b.key().skip(i as int)),
        decreases a.parts.len() - i,
    {
        let ghost x = a.key().skip(i as int);
        let ghost y = b.key().skip(i as int);
        if i >= a.parts.len() {
            return if i >= b.parts.len() {
                Rank::Equal
            } else {
                Rank::Less
            };
        }
        if i >= b.parts.len() {
            return Rank::Greater;
        }
        let r = compare_parts(&a.parts[i], &b.parts[i]);
        proof {
            part_order_is_total(x[0], y[0]);
            assert(x.drop_first() =~= a.key().skip(i + 1));
            assert(y.drop_first() =~= b.key().skip(i + 1));
        }
        match r {
            Rank::Equal => {},
            _ => {
                return r;
            },
        }
        i = i + 1;
    }
}



// ── Copies and equality ──────────────────────────────────────────────────────

impl Clone for PathPart {
    fn clone(&self) -> (r: Self)
        ensures
            r@ == self@,
    {
        match self {
            PathPart::Prefix(s) => PathPart::Prefix(s.clone()),
            PathPart::RootDir => PathPart::RootDir,
            PathPart::CurDir => PathPart::CurDir,
            PathPart::ParentDir => PathPart::ParentDir,
            PathPart::Normal(s) => PathPart::Normal(s.clone()),
        }
    }
}

fn copy_parts(parts: &Vec<PathPart>, count: usize) -> (r: Vec<PathPart>)
    requires
        count <= parts.len(),
    ensures
        parts_view(r@) == parts_view(parts@).take(count as int),
{
    let mut out: Vec<PathPart> = Vec::new();
    for i in 0..count
        invariant
            count <= parts.len(),
            out@.len() == i,
            forall|j: int| 0 <= j < i ==> (#[trigger] out@[j])@ == parts@[j]@,
    {
        out.push(parts[i].clone());
    }
    assert(parts_view(out@) =~= parts_view(parts@).take(count as int));
    out
}

fn copy_ends(ends: &Vec<usize>, count: usize) -> (r: Vec<usize>)
    ensures
        r@ == ends@.take(if count <= ends@.len() { count as int } else { ends@.len() as int }),
{
    let mut out: Vec<usize> = Vec::new();
    let stop: usize = if count <= ends.len() { count } else { ends.len() };
    for i in 0..stop
        invariant
            stop <= ends.len(),
            out@ == ends@.take(i as int),
    {
        out.push(ends[i]);
        assert(ends@.take(i + 1) =~= ends@.take(i as int).push(ends@[i as int]));
    }
    out
}

impl Clone for MediaPath {
    fn clone(&self) -> (r: Self)
        ensures
            r@ == self@,
    {
        let r = MediaPath {
            text: self.text.clone(),
            parts: copy_parts(&self.parts, self.parts.len()),
            ends: copy_ends(&self.ends, self.ends.len()),
        };
        assert(r@.parts =~= self@.parts);
        assert(r@.ends =~= self@.ends);
        r
    }
}

/// Copies a list of paths.
pub fn copy_paths(list: &Vec<MediaPath>) -> (r: Vec<MediaPath>)
    ensures
        paths_view(r@) == paths_view(list@),
{
    let mut out: Vec<MediaPath> = Vec::new();
    for i in 0..list.len()
        invariant
            out@.len() == i,
            forall|j: int| 0 <= j < i ==> (#[trigger] out@[j])@ == list@[j]@,
    {
        out.push(list[i].clone());
    }
    assert(paths_view(out@) =~= paths_view(list@));
    out
}

/// Copies an optional path.
pub fn copy_option(path: &Option<MediaPath>) -> (r: Option<MediaPath>)
    ensures
        option_view(r) == option_view(*path),
{
    match path {
        Some(p) => Some(p.clone()),
        None => None,
    }
}

/// What an optional path holds.
pub open spec fn option_view(path: Option<MediaPath>) -> Option<PathSpec> {
    match path {
        Some(p) => Some(p@),
        None => None,
    }
}

// ── Names ────────────────────────────────────────────────────────────────────

/// The name of the file or folder that a path leads to.
pub open spec fn name_of(key: PathKey) -> Option<Seq<char>> {
    if key.len() > 0 {
        match key.last() {
            PartSpec::Normal(s) => Some(s),
            _ => None,
        }
    } else {
        None
    }
}

/// The place of the last dot in a name.
pub open spec fn last_dot(name: Seq<char>) -> Option<int>
    decreases name.len(),
{
    if name.len() == 0 {
        None
    } else if name.last() == '.' {
        Some(name.len() - 1)
    } else {
        last_dot(name.drop_last())
    }
}

/// What follows the last dot of a name; a dot in front of the whole name does not count.
pub open spec fn extension_of_name(name: Seq<char>) -> Option<Seq<char>> {
    match last_dot(name) {
        Some(i) => if i > 0 {
            Some(name.skip(i + 1))
        } else {
            None
        },
        None => None,
    }
}

/// The extension of the file that a path leads to.
pub open spec fn extension_of(key: PathKey) -> Option<Seq<char>> {
    match name_of(key) {
        Some(name) => extension_of_name(name),
        None => None,
    }
}

/// The name of what a path leads to, or the whole text of a path without one.
pub open spec fn name_or_text(p: PathSpec) -> Seq<char> {
    match name_of(p.parts) {
        Some(name) => name,
        None => p.text,
    }
}

/// The name of what a path leads to, or nothing for a path without one.
pub open spec fn name_or_nothing(key: PathKey) -> Seq<char> {
    match name_of(key) {
        Some(name) => name,
        None => Seq::empty(),
    }
}

/// The last dot of a name is a dot, and no dot follows it.
pub proof fn last_dot_is_last(name: Seq<char>)
    ensures
        match last_dot(name) {
            Some(i) => 0 <= i < name.len() && name[i] == '.' && forall|j: int|
                i < j < name.len() ==> name[j] != '.',
            None => forall|j: int| 0 <= j < name.len() ==> name[j] != '.',
        },
    decreases name.len(),
{
    if name.len() > 0 && name.last() != '.' {
        last_dot_is_last(name.drop_last());
        assert(forall|j: int| 0 <= j < name.len() - 1 ==> name[j] == name.drop_last()[j]);
    }
}

/// The text of the folder that a path lies in.
pub open spec fn parent_text(p: PathSpec) -> Seq<char> {
    let n = p.parts.len();
    if n < 2 || p.ends.len() < n - 1 {
        Seq::empty()
    } else if p.ends[n - 2] <= p.text.len() {
        p.text.take(p.ends[n - 2] as int)
    } else {
        p.text
    }
}

/// The folder that a path lies in; a root lies in none. A path of a single name lies in
/// the folder with an empty text.
pub open spec fn parent_of(p: PathSpec) -> Option<PathSpec> {
    if p.parts.len() > 0 && part_kind(p.parts.last()) >= 2 {
        Some(
            PathSpec {
                text: parent_text(p),
                parts: p.parts.drop_last(),
                ends: if p.ends.len() < p.parts.len() {
                    p.ends
                } else {
                    p.ends.take(p.parts.len() - 1)
                },
            },
        )
    } else {
        None
    }
}

/// The folder that a path lies in, where that folder has a text.
pub open spec fn folder_of(p: PathSpec) -> Option<PathSpec> {
    match parent_of(p) {
        Some(q) => if q.text.len() > 0 {
            Some(q)
        } else {
            None
        },
        None => None,
    }
}

/// `p` is `base` or lies somewhere in it.
pub open spec fn key_starts_with(p: PathKey, base: PathKey) -> bool {
    base.len() <= p.len() && p.take(base.len() as int) == base
}

impl MediaPath {
    /// Whether the two paths are the same, component by component.
    pub fn same(&self, other: &MediaPath) -> (r: bool)
        ensures
            r == (self.key() == other.key()),
    {
        proof {
            path_order_is_total(self.key(), other.key());
        }
        if self.parts.len() != other.parts.len() {
            assert(self.key().len() != other.key().len());
            return false;
        }
        compare_paths(self, other) == Rank::Equal
    }

    /// The name of the file or folder, if the path ends in one.
    pub fn file_name(&self) -> (r: Option<String>)
        ensures
            r is Some <==> name_of(self.key()) is Some,
            r matches Some(s) ==> Some(s@) == name_of(self.key()),
    {
        if self.parts.len() == 0 {
            return None;
        }
        assert(self.key().last() == self.parts@.last()@);
        match &self.parts[self.parts.len() - 1] {
            PathPart::Normal(s) => Some(s.clone()),
            _ => None,
        }
    }

    /// The extension of the file name.
    pub fn extension(&self) -> (r: Option<String>)
        ensures
            r is Some <==> extension_of(self.key()) is Some,
            r matches Some(s) ==> Some(s@) == extension_of(self.key()),
    {
        match self.file_name() {
            None => None,
            Some(name) => extension_of_text(name.as_str()),
        }
    }

    /// The name, or the whole text of a path without one.
    pub fn display_name(&self) -> (r: String)
        ensures
            r@ == name_or_text(self@),
    {
        match self.file_name() {
            Some(name) => name,
            None => self.text.clone(),
        }
    }

    /// The name, or nothing.
    pub fn name_or_empty(&self) -> (r: String)
        ensures
            r@ == name_or_nothing(self.key()),
    {
        match self.file_name() {
            Some(name) => name,
            None => String::new(),
        }
    }

    /// The folder that the path lies in.
    pub fn parent(&self) -> (r: Option<MediaPath>)
        ensures
            option_view(r) == parent_of(self@),
    {
        let n: usize = self.parts.len();
        if n == 0 {
            return None;
        }
        assert(self.key().last() == self.parts@.last()@);
        if kind_of(&self.parts[n - 1]) < 2 {
            return None;
        }
        let chars = chars_of(self.text.as_str());
        let text = if n < 2 || self.ends.len() < n - 1 {
            String::new()
        } else if self.ends[n - 2] <= chars.len() {
            text_of_range(&chars, 0, self.ends[n - 2])
        } else {
            self.text.clone()
        };
        let r = MediaPath {
            text,
            parts: copy_parts(&self.parts, n - 1),
            ends: copy_ends(&self.ends, n - 1),
        };
        proof {
            let q = parent_of(self@).unwrap();
            assert(r@.text =~= q.text);
            assert(r@.parts =~= q.parts);
            assert(r@.ends =~= q.ends);
        }
        Some(r)
    }

    /// The folder that the path lies in, where that folder has a text.
    pub fn folder(&self) -> (r: Option<MediaPath>)
        ensures
            option_view(r) == folder_of(self@),
    {
        match self.parent() {
            None => None,
            Some(p) => {
                if p.text.as_str().is_empty() {
                    None
                } else {
                    Some(p)
                }
            },
        }
    }

    /// Whether the path is `base` or lies somewhere in it.
    pub fn starts_with(&self, base: &MediaPath) -> (r: bool)
        ensures
            r == key_starts_with(self.key(), base.key()),
    {
        if base.parts.len() > self.parts.len() {
            return false;
        }
        let mut i: usize = 0;
        while i < base.parts.len()
            invariant
                i <= base.parts.len() <= self.parts.len(),
                self.key().take(i as int) == base.key().take(i as int),
            decreases base.parts.len() - i,
        {
            proof {
                part_order_is_total(self.parts@[i as int]@, base.parts@[i as int]@);
            }
            if compare_parts(&self.parts[i], &base.parts[i]) != Rank::Equal {
                assert(self.key().take(base.key().len() as int)[i as int] != base.key()[i as int]);
                return false;
            }
            i = i + 1;
            assert(self.key().take(i as int) =~= self.key().take(i - 1).push(self.key()[i - 1]));
            assert(base.key().take(i as int) =~= base.key().take(i - 1).push(base.key()[i - 1]));
        }
        assert(base.key().take(i as int) =~= base.key());
        true
    }
}

/// The extension of a file name.
pub fn extension_of_text(name: &str) -> (r: Option<String>)
    ensures
        r is Some <==> extension_of_name(name@) is Some,
        r matches Some(s) ==> Some(s@) == extension_of_name(name@),
{
    let chars = chars_of(name);
    let mut i: usize = chars.len();
    assert(name@.take(i as int) =~= name@);
    while i > 0
        invariant
            i <= chars.len(),
            chars@ == name@,
            last_dot(name@) == last_dot(name@.take(i as int)),
        decreases i,
    {
        assert(name@.take(i as int).drop_last() =~= name@.take(i - 1));
        if chars[i - 1] == '.' {
            if i == 1 {
                return None;
            }
            let r = text_of_range(&chars, i, chars.len());
            assert(r@ =~= name@.skip(i as int));
            return Some(r);
        }
        i = i - 1;
    }
    None
}

// ── What the paths are for ───────────────────────────────────────────────────

/// The extension of a name of the form `stem.e`, where the stem is not empty and `e` has no dot,
/// is `e`. A name without a dot, or with one in front alone, has none.
pub proof fn extensions_follow_the_last_dot(name: Seq<char>, stem: Seq<char>, e: Seq<char>)
    requires
        !e.contains('.'),
    ensures
        stem.len() > 0 ==> extension_of_name(stem + seq!['.'] + e) == Some(e),
        extension_of_name(seq!['.'] + e) is None,
        !name.contains('.') ==> extension_of_name(name) is None,
        extension_of_name(name) matches Some(x) ==> !x.contains('.') && x.len() + 1 < name.len()
            && name.skip(name.len() - x.len()) == x && name[name.len() - x.len() - 1] == '.',
{
    let all = stem + seq!['.'] + e;
    last_dot_is_last(all);
    dot_is_at(all, stem.len() as int, e);
    assert(all.skip(stem.len() as int + 1) =~= e);
    let hidden = seq!['.'] + e;
    last_dot_is_last(hidden);
    dot_is_at(hidden, 0, e);
    last_dot_is_last(name);
    if let Some(i) = last_dot(name) {
        assert(name.contains(name[i]));
        let x = name.skip(i + 1);
        if x.contains('.') {
            let j = choose|j: int| 0 <= j < x.len() && x[j] == '.';
            assert(name[i + 1 + j] == '.');
        }
        assert(name.skip(name.len() - x.len()) =~= x);
    }
}

proof fn dot_is_at(all: Seq<char>, i: int, e: Seq<char>)
    requires
        0 <= i < all.len(),
        all[i] == '.',
        all.skip(i + 1) =~= e,
        !e.contains('.'),
    ensures
        last_dot(all) == Some(i),
{
    last_dot_is_last(all);
    let d = last_dot(all)->0;
    if d > i {
        assert(e[d - i - 1] == '.');
        assert(e.contains('.'));
    }
}

/// A path is named by its last component where that is an ordinary one. What is shown of a path
/// is its name, or else its whole text.
pub proof fn names_are_last_components(p: PathSpec)
    ensures
        forall|k: PathKey, s: Seq<char>|
            name_of(#[trigger] k.push(PartSpec::Normal(s))) == Some(s) && name_or_nothing(
                k.push(PartSpec::Normal(s)),
            ) == s,
        name_of(p.parts) is Some <==> p.parts.len() > 0 && p.parts.last() is Normal,
        name_of(p.parts) matches Some(s) ==> name_or_text(p) == s,
        name_of(p.parts) is None ==> name_or_text(p) == p.text && name_or_nothing(p.parts).len()
            == 0,
{
}

/// The folder of a path has all its components but the last, in their order, and the path lies
/// in it. A path that ends in a root or a prefix lies in none.
pub proof fn folders_hold_their_paths(p: PathSpec)
    ensures
        folder_of(p) matches Some(f) ==> f.parts.len() + 1 == p.parts.len() && (forall|i: int|
            0 <= i < f.parts.len() ==> #[trigger] f.parts[i] == p.parts[i]) && key_starts_with(
            p.parts,
            f.parts,
        ) && f.text.len() > 0,
        folder_of(p) is Some ==> !(p.parts.last() is RootDir) && !(p.parts.last() is Prefix),
        p.parts.len() >= 2 && p.parts.last() is Normal && p.ends.len() == p.parts.len() && 0
            < p.ends[p.parts.len() - 2] <= p.text.len() ==> (folder_of(p) matches Some(f)
            && f.text == p.text.take(p.ends[p.parts.len() - 2] as int)),
        p.parts.len() == 0 ==> folder_of(p) is None,
{
    if let Some(f) = folder_of(p) {
        assert(p.parts.take(f.parts.len() as int) =~= f.parts);
    }
}

/// A path lies in another, or is it, exactly where it has the components of the other in front.
pub proof fn lying_in_is_having_in_front(p: PathKey, base: PathKey)
    ensures
        key_starts_with(p, base) <==> exists|rest: PathKey| p == #[trigger] (base + rest),
{
    if key_starts_with(p, base) {
        let rest = p.skip(base.len() as int);
        assert(p =~= base + rest);
    }
    if exists|rest: PathKey| p == #[trigger] (base + rest) {
        let rest = choose|rest: PathKey| p == #[trigger] (base + rest);
        assert(p.take(base.len() as int) =~= base);
    }
}

/// A folder comes before all that lies in it, and names in one folder are ordered as texts.
pub proof fn path_order_is_by_component(base: PathKey, a: Seq<char>, b: Seq<char>, rest: PathKey)
    ensures
        rest.len() > 0 ==> path_lt(base, base + rest),
        path_lt(base.push(PartSpec::Normal(a)), base.push(PartSpec::Normal(b)))
            <==> crate::text::text_lt(a, b),
        path_rank(base.push(PartSpec::Normal(a)), base.push(PartSpec::Normal(b)))
            == crate::text::text_rank(a, b),
        crate::text::text_lt(a, b) ==> path_lt(
            base.push(PartSpec::Normal(a)) + rest,
            base.push(PartSpec::Normal(b)),
        ),
    decreases base.len(),
{
    let x = base.push(PartSpec::Normal(a));
    let y = base.push(PartSpec::Normal(b));
    if base.len() == 0 {
        reveal_with_fuel(path_lt, 2);
        crate::text::text_order_is_total(a, b);
        crate::text::text_order_is_total(b, a);
        if a == b {
            assert(x.drop_first() =~= Seq::empty());
            assert(y.drop_first() =~= Seq::empty());
            crate::text::text_order_is_total(a, a);
        }
        assert(x[0] == PartSpec::Normal(a) && y[0] == PartSpec::Normal(b));
        assert((x + rest)[0] == PartSpec::Normal(a));
    } else {
        let front = base.drop_first();
        path_order_is_by_component(front, a, b, rest);
        assert(x.drop_first() =~= front.push(PartSpec::Normal(a)));
        assert(y.drop_first() =~= front.push(PartSpec::Normal(b)));
        assert((base + rest).drop_first() =~= front + rest);
        assert((x + rest).drop_first() =~= front.push(PartSpec::Normal(a)) + rest);
    }
}

/// Kinds of components come in one order: drives and servers first, then the root, then the
/// signs for the folder itself and for the one above, then names.
pub proof fn kinds_of_components_are_ordered(a: Seq<char>, b: Seq<char>)
    ensures
        part_lt(PartSpec::Prefix(a), PartSpec::RootDir),
        part_lt(PartSpec::RootDir, PartSpec::CurDir),
        part_lt(PartSpec::CurDir, PartSpec::ParentDir),
        part_lt(PartSpec::ParentDir, PartSpec::Normal(b)),
        part_lt(PartSpec::Prefix(a), PartSpec::Prefix(b)) <==> crate::text::text_lt(a, b),
        !part_lt(PartSpec::Normal(a), PartSpec::ParentDir),
{
}

} // verus!
