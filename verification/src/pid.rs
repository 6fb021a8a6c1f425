//! The pid file of the running app and what is read from it.
use vstd::prelude::*;

use crate::text::{
    contains_exec, decimal, decimal_exec, has_substring, join_path, parse_unsigned,
    parse_unsigned_spec, path_join, trim, trim_seq,
};

verus! {

/// `<app dir>/eggs.pid`.
pub fn pid_path(app_dir: &str) -> (r: String)
    ensures
        r@ == path_join(app_dir@, "eggs.pid"@),
{
    join_path(app_dir, "eggs.pid")
}

/// The pid in the pid file's text: the trimmed text parsed as a `u32`.
pub fn parse_pid(text: &str) -> (r: Option<u32>)
    ensures
        match parse_unsigned_spec(trim_seq(text@), 0xffff_ffff) {
            Some(v) => r == Some(v as u32),
            None => r is None,
        },
{
    let t = trim(text);
    match parse_unsigned(t.as_str(), 0xffff_ffff) {
        Some(v) => Some(v as u32),
        None => None,
    }
}

/// Whether `tasklist` output shows the process: some line of it holds the
/// pid's digits.
pub fn tasklist_lists_pid(output: &str, pid: u32) -> (r: bool)
    ensures
        r == has_substring(output@, decimal(pid as nat)),
{
    let d = decimal_exec(pid as u64);
    contains_exec(output, d.as_str())
}

} // verus!
