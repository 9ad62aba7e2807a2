//! The thumbnail table: which statements are run on it, with which values, and what they mean
//! for its rows.

use vstd::prelude::*;

use crate::loader::Pixels;

verus! {

/// Rows of other variants come from earlier versions and are passed over.
pub const THUMBNAIL_CACHE_VARIANT: i64 = 2;

/// Write-ahead logging, without checkpoints of its own: those are made when the viewer ends.
pub const OPEN_SQL: &'static str = "PRAGMA journal_mode = WAL; PRAGMA wal_autocheckpoint=0;";

/// Counts the columns `thumb_max` of the table.
pub const HAS_THUMB_MAX_SQL: &'static str =
    "SELECT COUNT(*) FROM pragma_table_info('thumbnails') WHERE name = 'thumb_max'";

/// Counts the columns `cache_variant` of the table.
pub const HAS_VARIANT_SQL: &'static str =
    "SELECT COUNT(*) FROM pragma_table_info('thumbnails') WHERE name = 'cache_variant'";

/// Drops a table of an earlier version.
pub const DROP_SQL: &'static str = "DROP TABLE IF EXISTS thumbnails;";

/// Makes the table. A row is found by its path, the size limit, and the variant.
pub const CREATE_SQL: &'static str =
    "CREATE TABLE IF NOT EXISTS thumbnails (path TEXT NOT NULL, mtime INTEGER NOT NULL, thumb_max INTEGER NOT NULL, cache_variant INTEGER NOT NULL, width INTEGER NOT NULL, height INTEGER NOT NULL, data BLOB NOT NULL, PRIMARY KEY (path, thumb_max, cache_variant));";

/// Finds the row of a thumbnail.
pub const SELECT_SQL: &'static str =
    "SELECT width, height, data FROM thumbnails WHERE path = ?1 AND mtime = ?2 AND thumb_max = ?3 AND cache_variant = ?4";

/// Writes the row of a thumbnail, in place of the one that it is found by.
pub const INSERT_SQL: &'static str =
    "INSERT OR REPLACE INTO thumbnails (path, mtime, thumb_max, cache_variant, width, height, data) VALUES (?1, ?2, ?3, ?4, ?5, ?6, ?7)";

/// Deletes all rows of a path.
pub const DELETE_SQL: &'static str = "DELETE FROM thumbnails WHERE path = ?1";

/// Brings the log into the table.
pub const CHECKPOINT_SQL: &'static str = "PRAGMA wal_checkpoint(FULL);";

/// A value of a statement.
pub enum SqlValue {
    Text(String),
    Integer(i64),
    Blob(Vec<u8>),
}

/// What a value holds.
pub enum ValueSpec {
    Text(Seq<char>),
    Integer(int),
    Blob(Seq<u8>),
}

impl View for SqlValue {
    type V = ValueSpec;

    open spec fn view(&self) -> ValueSpec {
        match self {
            SqlValue::Text(s) => ValueSpec::Text(s@),
            SqlValue::Integer(n) => ValueSpec::Integer(*n as int),
            SqlValue::Blob(b) => ValueSpec::Blob(b@),
        }
    }
}

/// What a list of values holds.
pub open spec fn values_view(s: Seq<SqlValue>) -> Seq<ValueSpec> {
    Seq::new(s.len(), |i: int| s[i]@)
}

/// Whether the table is of an earlier version: it lacks a column. The numbers are how many
/// columns of the name there are, or nothing where that could not be asked.
pub fn is_outdated(thumb_max_columns: Option<i64>, variant_columns: Option<i64>) -> (r: bool)
    ensures
        r == !(thumb_max_columns is Some && thumb_max_columns->0 > 0 && variant_columns is Some
            && variant_columns->0 > 0),
{
    let has_thumb_max = match thumb_max_columns {
        Some(n) => n > 0,
        None => false,
    };
    let has_variant = match variant_columns {
        Some(n) => n > 0,
        None => false,
    };
    !has_thumb_max || !has_variant
}

/// The statements that bring the table up to date, in turn.
pub fn open_statements(outdated: bool) -> (r: Vec<&'static str>)
    ensures
        r@ == if outdated {
            seq![DROP_SQL, CREATE_SQL]
        } else {
            seq![CREATE_SQL]
        },
{
    let mut out: Vec<&'static str> = Vec::new();
    if outdated {
        out.push(DROP_SQL);
    }
    out.push(CREATE_SQL);
    assert(out@ =~= if outdated {
        seq![DROP_SQL, CREATE_SQL]
    } else {
        seq![CREATE_SQL]
    });
    out
}

/// The values that a thumbnail is looked up with.
pub open spec fn select_values(path: Seq<char>, mtime: i64, thumb_max: u32) -> Seq<ValueSpec> {
    seq![
        ValueSpec::Text(path),
        ValueSpec::Integer(mtime as int),
        ValueSpec::Integer(thumb_max as int),
        ValueSpec::Integer(THUMBNAIL_CACHE_VARIANT as int),
    ]
}

/// The values that a thumbnail is written with.
pub open spec fn insert_values(
    path: Seq<char>,
    mtime: i64,
    thumb_max: u32,
    width: u32,
    height: u32,
    data: Seq<u8>,
) -> Seq<ValueSpec> {
    seq![
        ValueSpec::Text(path),
        ValueSpec::Integer(mtime as int),
        ValueSpec::Integer(thumb_max as int),
        ValueSpec::Integer(THUMBNAIL_CACHE_VARIANT as int),
        ValueSpec::Integer(width as int),
        ValueSpec::Integer(height as int),
        ValueSpec::Blob(data),
    ]
}

fn copy_bytes(data: &Vec<u8>) -> (r: Vec<u8>)
    ensures
        r@ == data@,
{
    let mut out: Vec<u8> = Vec::new();
    out.extend_from_slice(data.as_slice());
    assert(out@ =~= data@);
    out
}

/// The values of a look-up of a thumbnail that was made of a file as it is now, for this limit
/// of its long side.
pub fn get(path: &str, mtime: i64, thumb_max: u32) -> (r: Vec<SqlValue>)
    ensures
        values_view(r@) == select_values(path@, mtime, thumb_max),
{
    let mut out: Vec<SqlValue> = Vec::new();
    out.push(SqlValue::Text(path.to_owned()));
    out.push(SqlValue::Integer(mtime));
    out.push(SqlValue::Integer(thumb_max as i64));
    out.push(SqlValue::Integer(THUMBNAIL_CACHE_VARIANT));
    assert(values_view(out@) =~= select_values(path@, mtime, thumb_max));
    out
}

/// The values of the row of a thumbnail.
pub fn put(
    path: &str,
    mtime: i64,
    thumb_max: u32,
    width: u32,
    height: u32,
    data: &Vec<u8>,
) -> (r: Vec<SqlValue>)
    ensures
        values_view(r@) == insert_values(path@, mtime, thumb_max, width, height, data@),
{
    let mut out = get(path, mtime, thumb_max);
    let ghost first = values_view(out@);
    out.push(SqlValue::Integer(width as i64));
    out.push(SqlValue::Integer(height as i64));
    out.push(SqlValue::Blob(copy_bytes(data)));
    assert(values_view(out@) =~= first.push(ValueSpec::Integer(width as int)).push(
        ValueSpec::Integer(height as int),
    ).push(ValueSpec::Blob(data@)));
    assert(values_view(out@) =~= insert_values(path@, mtime, thumb_max, width, height, data@));
    out
}

/// The texts of the paths whose rows are deleted, one statement for each.
pub fn remove_paths(paths: &Vec<crate::path::MediaPath>) -> (r: Vec<String>)
    ensures
        crate::media::texts_view(r@) == crate::settings::path_texts(paths@),
{
    let mut out: Vec<String> = Vec::new();
    for i in 0..paths.len()
        invariant
            out@.len() == i,
            forall|j: int| 0 <= j < i ==> (#[trigger] out@[j])@ == paths@[j].text@,
    {
        out.push(paths[i].text.clone());
    }
    assert(crate::media::texts_view(out@) =~= crate::settings::path_texts(paths@));
    out
}

/// The pixels of a row. A size that is no size of a picture makes none.
pub fn pixels_of_row(width: i64, height: i64, data: Vec<u8>) -> (r: Option<Pixels>)
    ensures
        r is Some <==> 0 <= width <= u32::MAX && 0 <= height <= u32::MAX,
        r matches Some(p) ==> p.width == width && p.height == height && p.rgba@ == data@,
{
    if 0 <= width && width <= 0xffff_ffff && 0 <= height && height <= 0xffff_ffff {
        Some(Pixels { width: width as u32, height: height as u32, rgba: data })
    } else {
        None
    }
}

// ── What the statements mean ─────────────────────────────────────────────────

/// What a row is found by: path, size limit, and variant.
pub struct RowKey {
    pub path: Seq<char>,
    pub thumb_max: int,
    pub variant: int,
}

/// What else a row holds.
pub struct Row {
    pub mtime: int,
    pub width: int,
    pub height: int,
    pub data: Seq<u8>,
}

/// The rows of the table.
pub type Table = Map<RowKey, Row>;

/// The rows after a row was written with these values; values of other kinds write none.
pub open spec fn inserted(t: Table, v: Seq<ValueSpec>) -> Table {
    match (v[0], v[1], v[2], v[3], v[4], v[5], v[6]) {
        (
            ValueSpec::Text(path),
            ValueSpec::Integer(mtime),
            ValueSpec::Integer(thumb_max),
            ValueSpec::Integer(variant),
            ValueSpec::Integer(width),
            ValueSpec::Integer(height),
            ValueSpec::Blob(data),
        ) => t.insert(
            RowKey { path, thumb_max, variant },
            Row { mtime, width, height, data },
        ),
        _ => t,
    }
}

/// The row that a look-up with these values finds.
pub open spec fn selected(t: Table, v: Seq<ValueSpec>) -> Option<Row> {
    match (v[0], v[1], v[2], v[3]) {
        (
            ValueSpec::Text(path),
            ValueSpec::Integer(mtime),
            ValueSpec::Integer(thumb_max),
            ValueSpec::Integer(variant),
        ) => {
            let k = RowKey { path, thumb_max, variant };
            if t.dom().contains(k) && t[k].mtime == mtime {
                Some(t[k])
            } else {
                None
            }
        },
        _ => None,
    }
}

/// The rows without those of a path.
pub open spec fn deleted(t: Table, path: Seq<char>) -> Table {
    Map::new(|k: RowKey| t.dom().contains(k) && k.path != path, |k: RowKey| t[k])
}

/// What was put is got, and only for the same path, the same time of the file, and the same
/// limit; for another path or another limit the table is as before.
pub proof fn what_was_put_is_got(
    t: Table,
    path: Seq<char>,
    mtime: i64,
    thumb_max: u32,
    width: u32,
    height: u32,
    data: Seq<u8>,
    path2: Seq<char>,
    mtime2: i64,
    thumb_max2: u32,
)
    ensures
        selected(
            inserted(t, insert_values(path, mtime, thumb_max, width, height, data)),
            select_values(path2, mtime2, thumb_max2),
        ) == if path2 != path || thumb_max2 != thumb_max {
            selected(t, select_values(path2, mtime2, thumb_max2))
        } else if mtime2 != mtime {
            None
        } else {
            Some(Row { mtime: mtime as int, width: width as int, height: height as int, data })
        },
{
    let v = insert_values(path, mtime, thumb_max, width, height, data);
    let w = select_values(path2, mtime2, thumb_max2);
    assert(v[0] == ValueSpec::Text(path));
    assert(v[6] == ValueSpec::Blob(data));
    assert(w[0] == ValueSpec::Text(path2));
}

/// Of a path whose rows were deleted nothing is got; other paths are as before.
pub proof fn what_was_removed_is_gone(
    t: Table,
    gone: Seq<char>,
    path: Seq<char>,
    mtime: i64,
    thumb_max: u32,
)
    ensures
        selected(deleted(t, gone), select_values(path, mtime, thumb_max)) == if path == gone {
            None
        } else {
            selected(t, select_values(path, mtime, thumb_max))
        },
{
    let w = select_values(path, mtime, thumb_max);
    assert(w[0] == ValueSpec::Text(path));
}

/// The rows without those of each path of a list, deleted one path after the other.
pub open spec fn all_deleted(t: Table, gone: Seq<Seq<char>>) -> Table
    decreases gone.len(),
{
    if gone.len() == 0 {
        t
    } else {
        deleted(all_deleted(t, gone.drop_last()), gone.last())
    }
}

/// Of a list of paths whose rows were deleted nothing is got of any; other paths are as before.
pub proof fn what_was_removed_together_is_gone(
    t: Table,
    gone: Seq<crate::path::MediaPath>,
    path: Seq<char>,
    mtime: i64,
    thumb_max: u32,
)
    ensures
        selected(
            all_deleted(t, crate::settings::path_texts(gone)),
            select_values(path, mtime, thumb_max),
        ) == if crate::settings::path_texts(gone).contains(path) {
            None
        } else {
            selected(t, select_values(path, mtime, thumb_max))
        },
{
    texts_that_were_removed_are_gone(
        t,
        crate::settings::path_texts(gone),
        path,
        mtime,
        thumb_max,
    );
}

proof fn texts_that_were_removed_are_gone(
    t: Table,
    gone: Seq<Seq<char>>,
    path: Seq<char>,
    mtime: i64,
    thumb_max: u32,
)
    ensures
        selected(all_deleted(t, gone), select_values(path, mtime, thumb_max))
            == if gone.contains(path) {
            None
        } else {
            selected(t, select_values(path, mtime, thumb_max))
        },
    decreases gone.len(),
{
    if gone.len() > 0 {
        let front = gone.drop_last();
        texts_that_were_removed_are_gone(t, front, path, mtime, thumb_max);
        what_was_removed_is_gone(
            all_deleted(t, front),
            gone.last(),
            path,
            mtime,
            thumb_max,
        );
        assert(gone[gone.len() - 1] == gone.last());
        if front.contains(path) {
            let i = choose|i: int| 0 <= i < front.len() && front[i] == path;
            assert(gone[i] == path);
        }
        if gone.contains(path) && path != gone.last() {
            let i = choose|i: int| 0 <= i < gone.len() && gone[i] == path;
            assert(front[i] == path);
        }
    }
}

/// A thumbnail is looked up by its path, the time of the file, the limit and the variant, and
/// written with these, its size and its pixels, each at its place in the statement.
pub proof fn values_stand_at_their_places(
    path: Seq<char>,
    mtime: i64,
    thumb_max: u32,
    width: u32,
    height: u32,
    data: Seq<u8>,
)
    ensures
        ({
            let v = insert_values(path, mtime, thumb_max, width, height, data);
            let w = select_values(path, mtime, thumb_max);
            &&& v.len() == 7 && w.len() == 4
            &&& v[0] == ValueSpec::Text(path) && w[0] == ValueSpec::Text(path)
            &&& v[1] == ValueSpec::Integer(mtime as int) && w[1] == ValueSpec::Integer(mtime as int)
            &&& v[2] == ValueSpec::Integer(thumb_max as int) && w[2] == ValueSpec::Integer(
                thumb_max as int,
            )
            &&& v[3] == ValueSpec::Integer(2) && w[3] == ValueSpec::Integer(2)
            &&& v[4] == ValueSpec::Integer(width as int)
            &&& v[5] == ValueSpec::Integer(height as int)
            &&& v[6] == ValueSpec::Blob(data)
        }),
{
}

/// A table that lacks one of the two columns is made anew; the pixels of a row are those that it
/// has, where its size is one.
pub proof fn rows_and_tables_are_taken_as_they_are(
    a: Option<i64>,
    b: Option<i64>,
    outdated: bool,
    statements: Vec<&'static str>,
    width: i64,
    height: i64,
    data: Vec<u8>,
    r: Option<Pixels>,
)
    requires
        call_ensures(is_outdated, (a, b), outdated),
        call_ensures(open_statements, (outdated,), statements),
        call_ensures(pixels_of_row, (width, height, data), r),
    ensures
        !outdated <==> a is Some && a->0 > 0 && b is Some && b->0 > 0,
        outdated ==> statements@.len() == 2 && statements@[0] == DROP_SQL && statements@[1]
            == CREATE_SQL,
        !outdated ==> statements@.len() == 1 && statements@[0] == CREATE_SQL,
        0 <= width <= u32::MAX && 0 <= height <= u32::MAX ==> r is Some && r->0.width == width
            && r->0.height == height && r->0.rgba@ == data@,
        width < 0 || width > u32::MAX || height < 0 || height > u32::MAX ==> r is None,
{
}

} // verus!
