//! Where the viewer keeps its files, and what it takes over from where it kept them before.

use vstd::prelude::*;

verus! {

/// The folder of the viewer.
pub const DATA_DIR: &'static str = "AssetView";

/// The folder that the viewer had under its earlier name.
pub const LEGACY_DATA_DIR: &'static str = "picview";

/// The table of thumbnails.
pub const THUMBNAILS_FILE: &'static str = "thumbnails.db";

/// The settings file.
pub const SETTINGS_FILE: &'static str = "settings.txt";

/// The folder for data where neither of the two that the system may name is there.
pub const FALLBACK_BASE: &'static str = ".";

/// The folder that the folder of the viewer lies in: the local one, else the roaming one, else
/// the current folder.
pub fn data_base(local: Option<String>, roaming: Option<String>) -> (r: String)
    ensures
        r@ == match (local, roaming) {
            (Some(l), _) => l@,
            (None, Some(a)) => a@,
            (None, None) => FALLBACK_BASE@,
        },
{
    match local {
        Some(l) => l,
        None => match roaming {
            Some(a) => a,
            None => FALLBACK_BASE.to_owned(),
        },
    }
}

/// Whether files are taken over at all: there is a folder of before, and it is another one.
pub fn takes_over(legacy_exists: bool, same_folder: bool) -> (r: bool)
    ensures
        r == (legacy_exists && !same_folder),
{
    legacy_exists && !same_folder
}

/// Whether a file is taken over: it was there, and there is none in its place.
pub fn moves_file(old_exists: bool, new_exists: bool) -> (r: bool)
    ensures
        r == (old_exists && !new_exists),
{
    old_exists && !new_exists
}

/// The data lies in the local folder, else in the roaming one, else in the current one. Files of
/// before are taken over from another folder, and none is written over.
pub proof fn files_of_before_are_taken_over(
    local: Option<String>,
    roaming: Option<String>,
    base: String,
    a: bool,
    b: bool,
    over: bool,
    moved: bool,
)
    requires
        call_ensures(data_base, (local, roaming), base),
        call_ensures(takes_over, (a, b), over),
        call_ensures(moves_file, (a, b), moved),
    ensures
        local is Some ==> base@ == local->0@,
        local is None && roaming is Some ==> base@ == roaming->0@,
        local is None && roaming is None ==> base@ == "."@,
        over <==> a && !b,
        moved <==> a && !b,
        DATA_DIR@ == "AssetView"@,
        THUMBNAILS_FILE@ == "thumbnails.db"@,
        SETTINGS_FILE@ == "settings.txt"@,
{
}

} // verus!
