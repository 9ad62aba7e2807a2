//! Dragging files out of the window: the object that offers the files, and the object that
//! steers the drag.

use vstd::prelude::*;

use crate::path::MediaPath;

verus! {

/// The name of an interface.
#[derive(Clone, Copy, PartialEq, Eq, Structural, Debug)]
pub struct Guid {
    pub data1: u32,
    pub data2: u16,
    pub data3: u16,
    /// The last eight bytes, the first of them highest.
    pub data4: u64,
}

/// The interface of this number whose name ends as those of the system do.
pub open spec fn system_interface(number: u32) -> Guid {
    Guid { data1: number, data2: 0, data3: 0, data4: 0xc000_0000_0000_0046 }
}

/// The number of `IUnknown`.
pub const IUNKNOWN: u32 = 0x0000_0000;

/// The number of `IDataObject`.
pub const IDATAOBJECT: u32 = 0x0000_010e;

/// The number of `IDropSource`.
pub const IDROPSOURCE: u32 = 0x0000_0121;

/// The name of an interface of the system.
pub fn interface_name(number: u32) -> (r: Guid)
    ensures
        r == system_interface(number),
{
    Guid { data1: number, data2: 0, data3: 0, data4: 0xc000_0000_0000_0046 }
}

/// The left mouse button, among the keys that are held down.
pub const MK_LBUTTON: u32 = 0x0001;

/// The clipboard format of a list of files.
pub const CF_HDROP: u16 = 15;

/// The aspect of a format that stands for the content itself.
pub const DVASPECT_CONTENT: u32 = 1;

/// The medium of a block of memory.
pub const TYMED_HGLOBAL: u32 = 1;

/// How many bytes stand in front of the names of dropped files.
pub const DROPFILES_SIZE: usize = 20;

/// What a call is answered.
#[derive(Clone, Copy, PartialEq, Eq, Structural, Debug)]
pub enum Reply {
    Done,
    BadPointer,
    NoInterface,
    NotImplemented,
    BadFormat,
    BadArgument,
    Dropped,
    Cancelled,
    DefaultCursors,
    SameFormat,
}

/// Whether two names are the same.
pub fn guid_eq(a: &Guid, b: &Guid) -> (r: bool)
    ensures
        r == (*a == *b),
{
    a.data1 == b.data1 && a.data2 == b.data2 && a.data3 == b.data3 && a.data4 == b.data4
}

/// A format that data is asked for in.
pub struct FormatEtc {
    pub cf_format: u16,
    pub aspect: u32,
    pub lindex: i32,
    pub tymed: u32,
}

/// A format is that of a list of files in a block of memory.
pub open spec fn is_hdrop(f: FormatEtc) -> bool {
    &&& f.cf_format == CF_HDROP
    &&& f.aspect == DVASPECT_CONTENT
    &&& f.lindex == -1
    &&& f.tymed % 2 == 1
}

/// Whether a format is that of a list of files in a block of memory.
pub fn supports_hdrop(f: &FormatEtc) -> (r: bool)
    ensures
        r == is_hdrop(*f),
{
    let tymed: u32 = f.tymed;
    assert(tymed & 1 == tymed % 2) by (bit_vector);
    f.cf_format == CF_HDROP && f.aspect == DVASPECT_CONTENT && f.lindex == -1 && (tymed
        & TYMED_HGLOBAL) != 0
}

/// The count after one more reference.
pub open spec fn one_more(n: usize) -> usize {
    if n == usize::MAX {
        0
    } else {
        (n + 1) as usize
    }
}

/// Counts one more reference. Returns how many there are then.
fn count_up(refs: &mut usize) -> (r: u32)
    ensures
        *final(refs) == one_more(*old(refs)),
        r == *final(refs) as u32,
{
    *refs = if *refs == usize::MAX {
        0
    } else {
        *refs + 1
    };
    *refs as u32
}

/// The object that offers files.
pub struct FileDataObject {
    pub refcount: usize,
    pub files: Vec<MediaPath>,
}

/// The object that steers a drag.
pub struct DropSource {
    pub refcount: usize,
}

/// What asking for an interface is answered, by an object that has `IUnknown` and another.
pub open spec fn interface_reply(own: u32, wanted: Option<Guid>, has_place: bool) -> Reply {
    if !has_place || wanted is None {
        Reply::BadPointer
    } else if wanted->0 == system_interface(IUNKNOWN) || wanted->0 == system_interface(own) {
        Reply::Done
    } else {
        Reply::NoInterface
    }
}

fn query(own: u32, wanted: &Option<Guid>, has_place: bool) -> (r: Reply)
    ensures
        r == interface_reply(own, *wanted, has_place),
{
    if !has_place {
        return Reply::BadPointer;
    }
    match wanted {
        None => Reply::BadPointer,
        Some(g) => if guid_eq(g, &interface_name(IUNKNOWN)) || guid_eq(g, &interface_name(own)) {
            Reply::Done
        } else {
            Reply::NoInterface
        },
    }
}

impl FileDataObject {
    /// An object that offers files, with one reference.
    pub fn new(files: Vec<MediaPath>) -> (r: FileDataObject)
        ensures
            r.refcount == 1,
            r.files == files,
    {
        FileDataObject { refcount: 1, files }
    }

    /// Asks for an interface; `has_place` tells whether there is a place for the answer. A
    /// found interface is one more reference.
    pub fn query_interface(&mut self, wanted: &Option<Guid>, has_place: bool) -> (r: Reply)
        ensures
            r == interface_reply(IDATAOBJECT, *wanted, has_place),
            final(self).files == old(self).files,
            final(self).refcount == if r == Reply::Done {
                one_more(old(self).refcount)
            } else {
                old(self).refcount
            },
    {
        let r = query(IDATAOBJECT, wanted, has_place);
        if r == Reply::Done {
            let _ = count_up(&mut self.refcount);
        }
        r
    }

    /// One more reference. Returns how many there are.
    pub fn add_ref(&mut self) -> (r: u32)
        ensures
            final(self).refcount == one_more(old(self).refcount),
            r == final(self).refcount as u32,
            final(self).files == old(self).files,
    {
        count_up(&mut self.refcount)
    }

    /// One reference less. Returns how many there are, and whether the object is given up.
    pub fn release(&mut self) -> (r: (u32, bool))
        requires
            old(self).refcount > 0,
        ensures
            final(self).refcount == old(self).refcount - 1,
            r.0 == final(self).refcount as u32,
            r.1 == (final(self).refcount == 0),
            final(self).files == old(self).files,
    {
        self.refcount = self.refcount - 1;
        (self.refcount as u32, self.refcount == 0)
    }

    /// What asking for data is answered, before the data is made: `blob` is what the names of
    /// the files make.
    pub fn get_data(
        &self,
        format: &Option<FormatEtc>,
        has_medium: bool,
        blob: Option<Vec<u8>>,
    ) -> (r: Result<Vec<u8>, Reply>)
        ensures
            r is Ok <==> format is Some && has_medium && is_hdrop(format->0) && blob is Some,
            r matches Ok(v) ==> v@ == blob->0@,
            r matches Err(e) ==> e == if format is None || !has_medium {
                Reply::BadPointer
            } else if !is_hdrop(format->0) {
                Reply::BadFormat
            } else {
                Reply::BadArgument
            },
    {
        if !has_medium {
            return Err(Reply::BadPointer);
        }
        match format {
            None => Err(Reply::BadPointer),
            Some(f) => if !supports_hdrop(f) {
                Err(Reply::BadFormat)
            } else {
                match blob {
                    Some(v) => Ok(v),
                    None => Err(Reply::BadArgument),
                }
            },
        }
    }

    /// What asking whether a format is offered is answered.
    pub fn query_get_data(&self, format: &Option<FormatEtc>) -> (r: Reply)
        ensures
            r == if format is None {
                Reply::BadPointer
            } else if is_hdrop(format->0) {
                Reply::Done
            } else {
                Reply::BadFormat
            },
    {
        match format {
            None => Reply::BadPointer,
            Some(f) => if supports_hdrop(f) {
                Reply::Done
            } else {
                Reply::BadFormat
            },
        }
    }
}

impl DropSource {
    /// An object that steers a drag, with one reference.
    pub fn new() -> (r: DropSource)
        ensures
            r.refcount == 1,
    {
        DropSource { refcount: 1 }
    }

    /// Asks for an interface. A found interface is one more reference.
    pub fn query_interface(&mut self, wanted: &Option<Guid>, has_place: bool) -> (r: Reply)
        ensures
            r == interface_reply(IDROPSOURCE, *wanted, has_place),
            final(self).refcount == if r == Reply::Done {
                one_more(old(self).refcount)
            } else {
                old(self).refcount
            },
    {
        let r = query(IDROPSOURCE, wanted, has_place);
        if r == Reply::Done {
            let _ = count_up(&mut self.refcount);
        }
        r
    }

    /// One more reference. Returns how many there are.
    pub fn add_ref(&mut self) -> (r: u32)
        ensures
            final(self).refcount == one_more(old(self).refcount),
            r == final(self).refcount as u32,
    {
        count_up(&mut self.refcount)
    }

    /// One reference less. Returns how many there are, and whether the object is given up.
    pub fn release(&mut self) -> (r: (u32, bool))
        requires
            old(self).refcount > 0,
        ensures
            final(self).refcount == old(self).refcount - 1,
            r.0 == final(self).refcount as u32,
            r.1 == (final(self).refcount == 0),
    {
        self.refcount = self.refcount - 1;
        (self.refcount as u32, self.refcount == 0)
    }

    /// Whether the drag goes on: Escape ends it, and so does letting go of the left button.
    pub fn query_continue_drag(&self, escape_pressed: bool, key_state: u32) -> (r: Reply)
        ensures
            r == if escape_pressed {
                Reply::Cancelled
            } else if key_state % 2 == 0 {
                Reply::Dropped
            } else {
                Reply::Done
            },
    {
        assert(key_state & 1 == key_state % 2) by (bit_vector);
        if escape_pressed {
            Reply::Cancelled
        } else if key_state & MK_LBUTTON == 0 {
            Reply::Dropped
        } else {
            Reply::Done
        }
    }

    /// Which cursors show the drag.
    pub fn give_feedback(&self) -> (r: Reply)
        ensures
            r == Reply::DefaultCursors,
    {
        Reply::DefaultCursors
    }
}

// ── The block of dropped files ───────────────────────────────────────────────

/// The low byte and the high byte of a unit.
pub open spec fn unit_bytes(u: u16) -> Seq<u8> {
    seq![(u % 256) as u8, (u / 256) as u8]
}

/// The bytes of a list of units.
pub open spec fn units_bytes(s: Seq<u16>) -> Seq<u8>
    decreases s.len(),
{
    if s.len() == 0 {
        Seq::empty()
    } else {
        units_bytes(s.drop_last()) + unit_bytes(s.last())
    }
}

/// The bytes of a list of names, each with a zero behind it.
pub open spec fn names_bytes(s: Seq<Seq<u16>>) -> Seq<u8>
    decreases s.len(),
{
    if s.len() == 0 {
        Seq::empty()
    } else {
        names_bytes(s.drop_last()) + units_bytes(s.last().push(0))
    }
}

/// What stands in front of the names: where they start, a point and a flag that are zero, and
/// a flag that says that the names are wide.
pub open spec fn drop_header() -> Seq<u8> {
    seq![20, 0, 0, 0, 0, 0, 0, 0, 0, 0, 0, 0, 0, 0, 0, 0, 1, 0, 0, 0]
}

/// The block of dropped files: the header, the names, and a zero.
pub open spec fn drop_block(s: Seq<Seq<u16>>) -> Seq<u8> {
    drop_header() + names_bytes(s) + seq![0, 0]
}

/// What a list of names holds.
pub open spec fn names_view(s: Seq<Vec<u16>>) -> Seq<Seq<u16>> {
    Seq::new(s.len(), |i: int| s[i]@)
}

fn push_unit(out: &mut Vec<u8>, u: u16)
    ensures
        final(out)@ == old(out)@ + unit_bytes(u),
{
    let ghost before = out@;
    out.push((u % 256) as u8);
    out.push((u / 256) as u8);
    assert(out@ =~= before + unit_bytes(u));
}

proof fn units_take_two_bytes(s: Seq<u16>)
    ensures
        units_bytes(s).len() == 2 * s.len(),
    decreases s.len(),
{
    if s.len() > 0 {
        units_take_two_bytes(s.drop_last());
    }
}

proof fn names_grow(s: Seq<Seq<u16>>, n: int)
    requires
        0 <= n <= s.len(),
    ensures
        names_bytes(s.take(n)).len() <= names_bytes(s).len(),
    decreases s.len(),
{
    if n < s.len() {
        assert(s.drop_last().take(n) =~= s.take(n));
        names_grow(s.drop_last(), n);
    } else {
        assert(s.take(n) =~= s);
    }
}

/// How many bytes the block takes, if that is a number of bytes.
fn block_size(files: &Vec<Vec<u16>>) -> (r: Option<usize>)
    ensures
        r is Some <==> drop_block(names_view(files@)).len() <= usize::MAX,
        r matches Some(n) ==> n == drop_block(names_view(files@)).len(),
{
    let ghost all = names_view(files@);
    let mut total: usize = DROPFILES_SIZE;
    for i in 0..files.len()
        invariant
            all == names_view(files@),
            total == DROPFILES_SIZE + names_bytes(all.take(i as int)).len(),
    {
        proof {
            assert(all.take(i + 1).drop_last() =~= all.take(i as int));
            assert(all.take(i + 1).last() == files@[i as int]@);
            units_take_two_bytes(all[i as int].push(0));
            names_grow(all, i + 1);
        }
        let units: usize = match files[i].len().checked_add(1) {
            Some(n) => n,
            None => {
                return None;
            },
        };
        let bytes: usize = match units.checked_mul(2) {
            Some(n) => n,
            None => {
                return None;
            },
        };
        total = match total.checked_add(bytes) {
            Some(n) => n,
            None => {
                return None;
            },
        };
    }
    assert(all.take(all.len() as int) =~= all);
    total.checked_add(2)
}

/// The block of dropped files, for names in wide units. There is none for no files, nor where
/// its size is no number of bytes.
pub fn build_hdrop_blob(files: &Vec<Vec<u16>>) -> (r: Option<Vec<u8>>)
    ensures
        r is Some <==> files@.len() > 0 && drop_block(names_view(files@)).len() <= usize::MAX,
        r matches Some(v) ==> v@ == drop_block(names_view(files@)),
{
    if files.len() == 0 {
        return None;
    }
    match block_size(files) {
        None => {
            return None;
        },
        Some(_) => {},
    }
    let ghost all = names_view(files@);
    let mut out: Vec<u8> = Vec::new();
    out.push(20);
    while out.len() < 16
        invariant
            1 <= out@.len() <= 16,
            out@[0] == 20,
            forall|i: int| 1 <= i < out@.len() ==> #[trigger] out@[i] == 0,
        decreases 16 - out@.len(),
    {
        out.push(0);
    }
    out.push(1);
    out.push(0);
    out.push(0);
    out.push(0);
    assert(out@ =~= drop_header());
    assert(drop_header() + names_bytes(all.take(0)) =~= drop_header());
    for i in 0..files.len()
        invariant
            all == names_view(files@),
            out@ == drop_header() + names_bytes(all.take(i as int)),
    {
        let name = &files[i];
        let ghost so_far = out@;
        let ghost units = name@.push(0);
        assert(all.take(i + 1).drop_last() =~= all.take(i as int));
        assert(all.take(i + 1).last() == name@);
        assert(so_far + units_bytes(units.take(0)) =~= so_far);
        for j in 0..name.len()
            invariant
                units == name@.push(0),
                out@ == so_far + units_bytes(units.take(j as int)),
        {
            push_unit(&mut out, name[j]);
            assert(units.take(j + 1).drop_last() =~= units.take(j as int));
            assert(out@ =~= so_far + units_bytes(units.take(j + 1)));
        }
        push_unit(&mut out, 0);
        assert(units.drop_last() =~= units.take(name@.len() as int));
        assert(out@ =~= so_far + units_bytes(units));
        assert(out@ =~= drop_header() + names_bytes(all.take(i + 1)));
    }
    assert(all.take(all.len() as int) =~= all);
    push_unit(&mut out, 0);
    assert(out@ =~= drop_block(all));
    Some(out)
}

// ── Starting a drag ──────────────────────────────────────────────────────────

/// Starts to drag a file. Returns the object that offers it; only Windows has such drags.
pub fn begin_file_drag(path: MediaPath, windows: bool) -> (r: Option<FileDataObject>)
    ensures
        r is Some <==> windows,
        r matches Some(d) ==> d.refcount == 1 && d.files@ == seq![path],
{
    if !windows {
        return None;
    }
    let mut files: Vec<MediaPath> = Vec::new();
    files.push(path);
    assert(files@ =~= seq![path]);
    begin_file_drag_paths(files)
}

/// Starts to drag files; there is no drag without one.
pub fn begin_file_drag_paths(paths: Vec<MediaPath>) -> (r: Option<FileDataObject>)
    ensures
        r is Some <==> paths@.len() > 0,
        r matches Some(d) ==> d.refcount == 1 && d.files@ == paths@,
{
    if paths.len() == 0 {
        None
    } else {
        Some(FileDataObject::new(paths))
    }
}

/// Whether a drag went well, by the code that it ended with.
pub fn drag_went_well(code: i32) -> (r: bool)
    ensures
        r == (code >= 0),
{
    code >= 0
}

// ── What is offered, and as what ─────────────────────────────────────────────

/// Files are offered as a list of files in a block of memory, whole and for their content, and in
/// no other format.
pub proof fn files_are_offered_as_one_list(f: FormatEtc)
    ensures
        is_hdrop(f) <==> f.cf_format == 15 && f.aspect == 1 && f.lindex == -1 && f.tymed % 2 == 1,
{
}

/// A reference counts for one.
pub proof fn references_are_counted(n: usize)
    ensures
        n < usize::MAX ==> one_more(n) == n + 1,
        one_more(usize::MAX) == 0,
{
}

/// The object that offers files and the one that steers a drag are found under `IUnknown` and under
/// their own name, and under no other; without a name or a place there is no answer.
pub proof fn objects_are_found_under_their_names(g: Guid, number: u32)
    ensures
        interface_reply(number, None, true) == Reply::BadPointer,
        interface_reply(number, Some(g), false) == Reply::BadPointer,
        interface_reply(number, None, false) == Reply::BadPointer,
        interface_reply(number, Some(g), true) == Reply::Done <==> (g.data1 == 0 || g.data1
            == number) && g.data2 == 0 && g.data3 == 0 && g.data4 == 0xc000_0000_0000_0046,
        interface_reply(number, Some(g), true) == Reply::Done || interface_reply(
            number,
            Some(g),
            true,
        ) == Reply::NoInterface,
        IDATAOBJECT == 0x10e,
        IDROPSOURCE == 0x121,
{
}

proof fn units_lie_in_turn(s: Seq<u16>, i: int)
    requires
        0 <= i < s.len(),
    ensures
        units_bytes(s).len() == 2 * s.len(),
        units_bytes(s)[2 * i] + 256 * units_bytes(s)[2 * i + 1] == s[i],
    decreases s.len(),
{
    units_take_two_bytes(s);
    let front = s.drop_last();
    units_take_two_bytes(front);
    if i < front.len() {
        units_lie_in_turn(front, i);
        assert(units_bytes(s)[2 * i] == units_bytes(front)[2 * i]);
        assert(units_bytes(s)[2 * i + 1] == units_bytes(front)[2 * i + 1]);
    } else {
        assert(units_bytes(s)[2 * i] == unit_bytes(s.last())[0]);
        assert(units_bytes(s)[2 * i + 1] == unit_bytes(s.last())[1]);
    }
}

/// A block of dropped files says that names start at its twentieth byte and are wide. Then come the
/// names, one after the other, each unit with its low byte first, with a zero behind each name and
/// one more at the end.
pub proof fn a_block_holds_the_names_in_turn(s: Seq<Seq<u16>>, name: Seq<u16>, i: int)
    ensures
        ({
            let b = drop_block(s);
            &&& b.len() == 20 + names_bytes(s).len() + 2
            &&& b[0] == 20 && b[16] == 1
            &&& forall|j: int| 0 < j < 20 && j != 16 ==> #[trigger] b[j] == 0
            &&& b.subrange(20, b.len() - 2) == names_bytes(s)
            &&& b[b.len() - 1] == 0 && b[b.len() - 2] == 0
        }),
        names_bytes(Seq::empty()).len() == 0,
        ({
            let n = names_bytes(s).len() as int;
            let z = n + 2 * name.len() as int;
            let m = names_bytes(s.push(name));
            &&& m.len() == n + 2 * name.len() + 2
            &&& m.take(n) == names_bytes(s)
            &&& 0 <= i < name.len() ==> m[n + 2 * i] + 256 * m[n + 2 * i + 1] == name[i]
            &&& m[z] == 0 && m[z + 1] == 0
        }),
{
    let b = drop_block(s);
    assert(b.subrange(20, b.len() - 2) =~= names_bytes(s));
    let n = names_bytes(s).len() as int;
    let z = 2 * name.len() as int;
    let m = names_bytes(s.push(name));
    let u = units_bytes(name.push(0));
    assert(s.push(name).drop_last() =~= s);
    assert(m =~= names_bytes(s) + u);
    assert(m.take(n) =~= names_bytes(s));
    units_lie_in_turn(name.push(0), name.len() as int);
    assert(m[n + z] == u[z]);
    assert(m[n + z + 1] == u[z + 1]);
    if 0 <= i < name.len() {
        units_lie_in_turn(name.push(0), i);
        assert(m[n + 2 * i] == u[2 * i]);
        assert(m[n + 2 * i + 1] == u[2 * i + 1]);
    }
}

/// A drag goes on while the left button is held; letting go of it drops the files, and Escape ends
/// the drag without a drop.
pub proof fn a_drag_ends_with_the_button_or_escape(
    s: DropSource,
    escape: bool,
    keys: u32,
    r: Reply,
)
    requires
        call_ensures(DropSource::query_continue_drag, (&s, escape, keys), r),
    ensures
        escape ==> r == Reply::Cancelled,
        !escape && keys % 2 == 0 ==> r == Reply::Dropped,
        !escape && keys % 2 == 1 ==> r == Reply::Done,
{
}

/// A drag offers the files that it starts with, and there is none without files or away from
/// Windows.
pub proof fn a_drag_offers_its_files(
    path: MediaPath,
    windows: bool,
    one: Option<FileDataObject>,
    paths: Vec<MediaPath>,
    many: Option<FileDataObject>,
)
    requires
        call_ensures(begin_file_drag, (path, windows), one),
        call_ensures(begin_file_drag_paths, (paths,), many),
    ensures
        windows ==> one is Some && one->0.files@.len() == 1 && one->0.files@[0] == path
            && one->0.refcount == 1,
        !windows ==> one is None,
        paths@.len() > 0 ==> many is Some && many->0.files@ == paths@ && many->0.refcount == 1,
        paths@.len() == 0 ==> many is None,
{
}

} // verus!
