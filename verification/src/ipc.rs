//! The local channel between the command line and the running app: where it
//! lives, and which received lines carry a bubble event.
use vstd::prelude::*;

use crate::cli_install::Os;
use crate::text::{join_path, owned, path_join, trim, trim_seq};

verus! {

/// The channel: a Unix socket `<app dir>/eggs-ipc.sock`, or on Windows the
/// named pipe `\\.\pipe\eggs-ipc`.
pub fn endpoint_path(os: Os, app_dir: &str) -> (r: String)
    ensures
        r@ == (if os == Os::Windows {
            "\\\\.\\pipe\\eggs-ipc"@
        } else {
            path_join(app_dir@, "eggs-ipc.sock"@)
        }),
{
    if os == Os::Windows {
        owned("\\\\.\\pipe\\eggs-ipc")
    } else {
        join_path(app_dir, "eggs-ipc.sock")
    }
}

/// The JSON text of a received line: the line trimmed, unless nothing is
/// left.
pub fn event_text(line: &str) -> (r: Option<String>)
    ensures
        match r {
            Some(t) => t@ == trim_seq(line@) && t@.len() > 0,
            None => trim_seq(line@).len() == 0,
        },
{
    let t = trim(line);
    if t.as_str().is_empty() {
        None
    } else {
        Some(t)
    }
}

} // verus!
