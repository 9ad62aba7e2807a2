//! The debug log: where it is, and how it starts.

use vstd::prelude::*;

use crate::path::MediaPath;
use crate::text::push_text;

verus! {

/// The name of the viewer.
pub const APP_NAME: &'static str = "AssetView";

/// What is said of the log before there is one.
pub const NO_LOG: &'static str = "(log not initialized)";

/// The name of the log file.
pub fn file_name() -> (r: String)
    ensures
        r@ == APP_NAME@ + "_debug.log"@,
{
    let mut out = String::new();
    push_text(&mut out, APP_NAME);
    push_text(&mut out, "_debug.log");
    assert(out@ =~= APP_NAME@ + "_debug.log"@);
    out
}

/// What a new log starts with, in place of what an earlier run left.
pub fn init(version: &str) -> (r: String)
    ensures
        r@ == "=== "@ + APP_NAME@ + seq![' '] + version@ + " start ==="@ + seq!['\n'],
{
    let mut out = String::new();
    push_text(&mut out, "=== ");
    push_text(&mut out, APP_NAME);
    out.push(' ');
    push_text(&mut out, version);
    push_text(&mut out, " start ===");
    out.push('\n');
    assert(out@ =~= "=== "@ + APP_NAME@ + seq![' '] + version@ + " start ==="@ + seq!['\n']);
    out
}

/// What is added to the log for a message: nothing where there is no log.
pub fn append(log: &Option<MediaPath>, msg: &str) -> (r: Option<String>)
    ensures
        r is Some <==> log is Some,
        r matches Some(s) ==> s@ == msg@.push('\n'),
{
    if log.is_none() {
        return None;
    }
    let mut out = String::new();
    push_text(&mut out, msg);
    out.push('\n');
    assert(out@ =~= msg@.push('\n'));
    Some(out)
}

/// Where the log is.
pub fn path(log: &Option<MediaPath>) -> (r: String)
    ensures
        r@ == match *log {
            Some(p) => p.text@,
            None => NO_LOG@,
        },
{
    match log {
        Some(p) => p.text.clone(),
        None => NO_LOG.to_owned(),
    }
}

} // verus!
