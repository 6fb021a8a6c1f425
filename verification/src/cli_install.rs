//! Putting the `eggs` command on the user's PATH and taking it off again:
//! which executables count as installed, where the symlink goes, which
//! symlinks are recognised as ours, and the edits of the Windows user PATH
//! (including reading it back from `reg query`).
use vstd::prelude::*;

use crate::remote::lowercase;
use crate::text::{
    contains_exec, eq_ignore_ascii_case, eq_ignore_ascii_case_exec, has_prefix, has_substring,
    has_suffix, join_path, join_seq, join_with, lines_of, owned, path_join, push_str,
    split_char, split_on, starts_with_exec, ends_with_exec, str_eq, strs_view, text_lines, trim,
    trim_end_char, trim_end_matches_char, trim_seq, trim_start_exec, trim_start_seq, is_ws,
    is_ws_exec, chars_of, string_of,
};

verus! {

#[derive(Debug, Clone, Copy, PartialEq, Eq, Structural)]
pub enum Os {
    MacOs,
    Windows,
    Linux,
    Other,
}

/// An executable counts as installed unless it is a development build: on
/// macOS only inside an app bundle, on Windows and Linux anywhere but under
/// a cargo `target` directory (compared without regard to case on Windows).
pub open spec fn installed_location_spec(os: Os, exe: Seq<char>) -> bool {
    match os {
        Os::MacOs => has_substring(exe, ".app/Contents/MacOS/"@),
        Os::Windows => !has_substring(lowercase(exe), "\\target\\"@),
        Os::Linux => !has_substring(exe, "/target/"@),
        Os::Other => false,
    }
}

pub fn is_installed_location(os: Os, exe: &str) -> (r: bool)
    ensures
        r == installed_location_spec(os, exe@),
{
    match os {
        Os::MacOs => contains_exec(exe, ".app/Contents/MacOS/"),
        Os::Windows => {
            let lower = crate::remote::to_lowercase(exe);
            !contains_exec(lower.as_str(), "\\target\\")
        },
        Os::Linux => !contains_exec(exe, "/target/"),
        Os::Other => false,
    }
}

/// Where the symlink is tried, in order: on macOS `/usr/local/bin/eggs`
/// then `~/.local/bin/eggs`; on Linux the other way round.
pub open spec fn symlink_candidates_spec(os: Os, home: Seq<char>) -> Seq<Seq<char>> {
    match os {
        Os::MacOs => seq!["/usr/local/bin/eggs"@, path_join(home, ".local/bin/eggs"@)],
        Os::Linux => seq![path_join(home, ".local/bin/eggs"@), "/usr/local/bin/eggs"@],
        _ => Seq::empty(),
    }
}

pub fn symlink_candidates(os: Os, home: &str) -> (r: Vec<String>)
    ensures
        strs_view(r@) == symlink_candidates_spec(os, home@),
{
    let mut v: Vec<String> = Vec::new();
    match os {
        Os::MacOs => {
            v.push(owned("/usr/local/bin/eggs"));
            v.push(join_path(home, ".local/bin/eggs"));
        },
        Os::Linux => {
            v.push(join_path(home, ".local/bin/eggs"));
            v.push(owned("/usr/local/bin/eggs"));
        },
        _ => {},
    }
    assert(strs_view(v@) =~= symlink_candidates_spec(os, home@));
    v
}

/// The symlinks looked at when uninstalling: like the install candidates,
/// without the home one when there is no home directory.
pub open spec fn uninstall_candidates_spec(os: Os, home: Option<Seq<char>>) -> Seq<Seq<char>> {
    match home {
        Some(h) => symlink_candidates_spec(os, h),
        None => match os {
            Os::MacOs => seq!["/usr/local/bin/eggs"@],
            Os::Linux => seq!["/usr/local/bin/eggs"@],
            _ => Seq::empty(),
        },
    }
}

pub fn uninstall_candidates(os: Os, home: Option<String>) -> (r: Vec<String>)
    ensures
        strs_view(r@) == uninstall_candidates_spec(
            os,
            match home {
                Some(h) => Some(h@),
                None => None,
            },
        ),
{
    match home {
        Some(h) => symlink_candidates(os, h.as_str()),
        None => {
            let mut v: Vec<String> = Vec::new();
            match os {
                Os::MacOs | Os::Linux => v.push(owned("/usr/local/bin/eggs")),
                _ => {},
            }
            assert(strs_view(v@) =~= uninstall_candidates_spec(os, None));
            v
        },
    }
}

/// Linux packages already put `eggs` in a system bin directory.
pub fn in_system_bin(exe: &str) -> (r: bool)
    ensures
        r == (has_prefix(exe@, "/usr/bin/"@) || has_prefix(exe@, "/usr/local/bin/"@)),
{
    starts_with_exec(exe, "/usr/bin/") || starts_with_exec(exe, "/usr/local/bin/")
}

/// Whether two paths are equal as `std::path::Path`s (component by
/// component).
pub uninterp spec fn same_path(a: Seq<char>, b: Seq<char>) -> bool;

/// `std::path::Path` equality. The contract names the result and says
/// nothing more of it.
#[verifier::external_body]
fn paths_equal(a: &str, b: &str) -> (r: bool)
    ensures
        r == same_path(a@, b@),
{
    std::path::Path::new(a) == std::path::Path::new(b)
}

/// What is known of a candidate symlink: where it points (`None` when it
/// is not a symlink or does not exist) and whether that target exists.
#[derive(Debug, Clone)]
pub struct LinkProbe {
    pub path: String,
    pub link_target: Option<String>,
    pub target_exists: bool,
}

/// A symlink is ours when it points at this executable, at an `Eggs.app`
/// binary (macOS), at the AppImage or an `.AppImage` file (Linux), or at
/// nothing any more.
pub open spec fn looks_like_ours_spec(
    os: Os,
    link: Seq<char>,
    exe: Seq<char>,
    appimage: Option<Seq<char>>,
    target_exists: bool,
) -> bool {
    match os {
        Os::MacOs => same_path(link, exe) || has_substring(link, ".app/Contents/MacOS/eggs"@)
            || !target_exists,
        Os::Linux => same_path(link, exe) || (appimage matches Some(a) && same_path(link, a))
            || !target_exists || has_suffix(link, ".AppImage"@),
        _ => false,
    }
}

pub fn looks_like_ours(
    os: Os,
    link: &str,
    exe: &str,
    appimage: Option<&str>,
    target_exists: bool,
) -> (r: bool)
    ensures
        r == looks_like_ours_spec(
            os,
            link@,
            exe@,
            match appimage {
                Some(a) => Some(a@),
                None => None,
            },
            target_exists,
        ),
{
    match os {
        Os::MacOs => {
            if paths_equal(link, exe) {
                return true;
            }
            if contains_exec(link, ".app/Contents/MacOS/eggs") {
                return true;
            }
            !target_exists
        },
        Os::Linux => {
            if paths_equal(link, exe) {
                return true;
            }
            match appimage {
                Some(a) => {
                    if paths_equal(link, a) {
                        return true;
                    }
                },
                None => {},
            }
            if !target_exists {
                return true;
            }
            ends_with_exec(link, ".AppImage")
        },
        _ => false,
    }
}

/// A symlink to remove, with the line reported once it is removed.
pub struct Removal {
    pub path: String,
    pub message: String,
}

pub open spec fn removal_message_spec(path: Seq<char>, link: Seq<char>) -> Seq<char> {
    "removed symlink "@ + path + " (was -> "@ + link + ")"@
}

pub open spec fn removes(os: Os, exe: Seq<char>, appimage: Option<Seq<char>>, p: LinkProbe) -> bool {
    p.link_target matches Some(t) && looks_like_ours_spec(os, t@, exe, appimage, p.target_exists)
}

pub open spec fn probes_removed(
    os: Os,
    exe: Seq<char>,
    appimage: Option<Seq<char>>,
    probes: Seq<LinkProbe>,
) -> Seq<LinkProbe> {
    probes.filter(|p: LinkProbe| removes(os, exe, appimage, p))
}

pub open spec fn removal_ok(r: Removal, p: LinkProbe) -> bool {
    &&& r.path@ == p.path@
    &&& r.message@ == removal_message_spec(p.path@, p.link_target->0@)
}

/// The symlinks `eggs uninstall-cli` removes, in order: the candidates that
/// are symlinks recognised as ours (see [`looks_like_ours_spec`]).
pub fn uninstall(os: Os, exe: &str, appimage: Option<&str>, probes: &Vec<LinkProbe>) -> (r: Vec<
    Removal,
>)
    ensures
        r@.len() == probes_removed(
            os,
            exe@,
            match appimage {
                Some(a) => Some(a@),
                None => None,
            },
            probes@,
        ).len(),
        forall|i: int|
            0 <= i < r@.len() ==> removal_ok(
                #[trigger] r@[i],
                probes_removed(
                    os,
                    exe@,
                    match appimage {
                        Some(a) => Some(a@),
                        None => None,
                    },
                    probes@,
                )[i],
            ),
{
    let ghost ap = match appimage {
        Some(a) => Some(a@),
        None => None,
    };
    let mut out: Vec<Removal> = Vec::new();
    let mut i: usize = 0;
    while i < probes.len()
        invariant
            i <= probes@.len(),
            ap == (match appimage {
                Some(a) => Some(a@),
                None => None::<Seq<char>>,
            }),
            out@.len() == probes_removed(os, exe@, ap, probes@.take(i as int)).len(),
            forall|k: int|
                0 <= k < out@.len() ==> removal_ok(
                    #[trigger] out@[k],
                    probes_removed(os, exe@, ap, probes@.take(i as int))[k],
                ),
        decreases probes.len() - i,
    {
        let p = &probes[i];
        let ghost t0 = probes@.take(i as int);
        proof {
            assert(probes@.take(i + 1) =~= t0.push(probes@[i as int]));
            t0.lemma_filter_push(probes@[i as int], |q: LinkProbe| removes(os, exe@, ap, q));
        }
        match &p.link_target {
            Some(t) => {
                if looks_like_ours(os, t.as_str(), exe, appimage, p.target_exists) {
                    let mut m = owned("removed symlink ");
                    push_str(&mut m, p.path.as_str());
                    push_str(&mut m, " (was -> ");
                    push_str(&mut m, t.as_str());
                    push_str(&mut m, ")");
                    out.push(Removal { path: p.path.clone(), message: m });
                }
            },
            None => {},
        }
        i += 1;
    }
    assert(probes@.take(probes@.len() as int) =~= probes@);
    out
}

// ---------------------------------------------------------------------------
// the Windows user PATH
// ---------------------------------------------------------------------------

pub open spec fn path_has_dir(current: Seq<char>, dir: Seq<char>) -> bool {
    exists|i: int|
        0 <= i < split_char(current, ';').len() && eq_ignore_ascii_case(
            #[trigger] split_char(current, ';')[i],
            dir,
        )
}

/// The user PATH with `dir` appended, or `None` when it is already listed
/// (compared without regard to ASCII case).
pub open spec fn path_with_dir_spec(current: Seq<char>, dir: Seq<char>) -> Option<Seq<char>> {
    if path_has_dir(current, dir) {
        None
    } else if current.len() == 0 {
        Some(dir)
    } else {
        Some(trim_end_char(current, ';') + ";"@ + dir)
    }
}

fn any_eq_ignore_case(parts: &Vec<String>, dir: &str) -> (r: bool)
    ensures
        r == exists|i: int|
            0 <= i < parts@.len() && eq_ignore_ascii_case(#[trigger] strs_view(parts@)[i], dir@),
{
    let mut i: usize = 0;
    while i < parts.len()
        invariant
            i <= parts@.len(),
            forall|k: int| 0 <= k < i ==> !eq_ignore_ascii_case(#[trigger] strs_view(parts@)[k], dir@),
        decreases parts.len() - i,
    {
        if eq_ignore_ascii_case_exec(parts[i].as_str(), dir) {
            assert(strs_view(parts@)[i as int] == parts@[i as int]@);
            return true;
        }
        assert(strs_view(parts@)[i as int] == parts@[i as int]@);
        i += 1;
    }
    false
}

pub fn path_with_dir(current: &str, dir: &str) -> (r: Option<String>)
    ensures
        match path_with_dir_spec(current@, dir@) {
            Some(p) => r matches Some(s) && s@ == p,
            None => r is None,
        },
{
    let parts = split_on(current, ';');
    if any_eq_ignore_case(&parts, dir) {
        return None;
    }
    if current.is_empty() {
        return Some(owned(dir));
    }
    let mut s = trim_end_matches_char(current, ';');
    push_str(&mut s, ";");
    push_str(&mut s, dir);
    Some(s)
}

pub open spec fn path_entries(current: Seq<char>) -> Seq<Seq<char>> {
    split_char(current, ';').filter(|p: Seq<char>| p.len() > 0)
}

pub open spec fn path_kept(current: Seq<char>, dir: Seq<char>) -> Seq<Seq<char>> {
    path_entries(current).filter(|p: Seq<char>| !eq_ignore_ascii_case(p, dir))
}

/// The user PATH without `dir` (and without empty entries), or `None` when
/// `dir` is not listed.
pub open spec fn path_without_dir_spec(current: Seq<char>, dir: Seq<char>) -> Option<Seq<char>> {
    if path_kept(current, dir).len() == path_entries(current).len() {
        None
    } else {
        Some(join_seq(path_kept(current, dir), ";"@))
    }
}

pub fn path_without_dir(current: &str, dir: &str) -> (r: Option<String>)
    ensures
        match path_without_dir_spec(current@, dir@) {
            Some(p) => r matches Some(s) && s@ == p,
            None => r is None,
        },
{
    let parts = split_on(current, ';');
    let ghost pv = strs_view(parts@);
    let mut entries_len: usize = 0;
    let mut kept: Vec<String> = Vec::new();
    let mut i: usize = 0;
    while i < parts.len()
        invariant
            i <= parts@.len(),
            pv == strs_view(parts@),
            pv == split_char(current@, ';'),
            entries_len == pv.take(i as int).filter(|p: Seq<char>| p.len() > 0).len(),
            strs_view(kept@) == pv.take(i as int).filter(|p: Seq<char>| p.len() > 0).filter(
                |p: Seq<char>| !eq_ignore_ascii_case(p, dir@),
            ),
        decreases parts.len() - i,
    {
        let ghost t0 = pv.take(i as int);
        let ghost x = pv[i as int];
        let ghost e0 = t0.filter(|p: Seq<char>| p.len() > 0);
        proof {
            assert(pv.take(i + 1) =~= t0.push(x));
            t0.lemma_filter_push(x, |p: Seq<char>| p.len() > 0);
            e0.lemma_filter_push(x, |p: Seq<char>| !eq_ignore_ascii_case(p, dir@));
            assert(x == parts@[i as int]@);
        }
        let p = &parts[i];
        if !p.as_str().is_empty() {
            entries_len = entries_len + 1;
            if !eq_ignore_ascii_case_exec(p.as_str(), dir) {
                let ghost before = strs_view(kept@);
                kept.push(p.clone());
                assert(strs_view(kept@) =~= before.push(x));
            }
        }
        i += 1;
    }
    assert(pv.take(pv.len() as int) =~= pv);
    if kept.len() == entries_len {
        return None;
    }
    Some(join_with(&kept, ";"))
}

pub open spec fn path_removed_message(dir: Seq<char>) -> Seq<char> {
    "removed "@ + dir + " from user PATH (open a new shell to refresh)"@
}

pub fn path_removed_line(dir: &str) -> (r: String)
    ensures
        r@ == path_removed_message(dir@),
{
    let mut s = owned("removed ");
    push_str(&mut s, dir);
    push_str(&mut s, " from user PATH (open a new shell to refresh)");
    s
}

/// `str::trim_start_matches` with the pattern `Path`: every leading `Path`
/// removed.
pub open spec fn strip_paths(s: Seq<char>) -> Seq<char>
    decreases s.len(),
{
    if has_prefix(s, "Path"@) && s.len() >= 4 {
        strip_paths(s.skip(4))
    } else {
        s
    }
}

/// `str::split_once(char::is_whitespace)`: the text after the first white
/// space character, if any.
pub open spec fn after_first_ws(s: Seq<char>) -> Option<Seq<char>> {
    if exists|i: int| 0 <= i < s.len() && is_ws(#[trigger] s[i]) {
        let i = choose|i: int|
            0 <= i < s.len() && is_ws(#[trigger] s[i]) && forall|j: int| 0 <= j < i ==> !is_ws(s[j]);
        Some(s.skip(i + 1))
    } else {
        None
    }
}

/// The value of a `reg query` line `Path <type> <value>`: after the name
/// (repeated leading `Path`s skipped) and the type token, trimmed.
pub open spec fn reg_line_value(line: Seq<char>) -> Option<Seq<char>> {
    let t = trim_start_seq(line);
    if !has_prefix(t, "Path"@) {
        None
    } else {
        match after_first_ws(trim_start_seq(strip_paths(t))) {
            Some(v) => Some(trim_seq(v)),
            None => None,
        }
    }
}

/// The user PATH in the output of `reg query HKCU\Environment /v Path`: the
/// value of the first line that has one.
pub open spec fn reg_query_path(out: Seq<char>) -> Option<Seq<char>> {
    let lines = text_lines(out);
    let flags = lines.map_values(|l: Seq<char>| reg_line_value(l) is Some);
    match crate::pet::first_true(flags) {
        Some(k) => reg_line_value(lines[k]),
        None => None,
    }
}

fn strip_paths_exec(s: &str) -> (r: String)
    ensures
        r@ == strip_paths(s@),
{
    let cs = chars_of(s);
    let mut i: usize = 0;
    assert(cs@.skip(0) =~= s@);
    while i < cs.len() && cs.len() - i >= 4 && cs[i] == 'P' && cs[i + 1] == 'a' && cs[i + 2] == 't' && cs[i + 3]
        == 'h'
        invariant
            i <= cs@.len(),
            cs@ == s@,
            strip_paths(s@) == strip_paths(cs@.skip(i as int)),
        decreases cs.len() - i,
    {
        proof {
            reveal_strlit("Path");
            let rest = cs@.skip(i as int);
            assert(rest.subrange(0, 4) =~= "Path"@);
            assert(rest.skip(4) =~= cs@.skip(i + 4));
        }
        i += 4;
    }
    proof {
        reveal_strlit("Path");
        let rest = cs@.skip(i as int);
        if has_prefix(rest, "Path"@) && rest.len() >= 4 {
            let p = "Path"@;
            assert(p =~= seq!['P', 'a', 't', 'h']);
            assert(rest.subrange(0, 4) == p);
            assert(rest.subrange(0, 4)[0] == rest[0]);
            assert(rest.subrange(0, 4)[1] == rest[1]);
            assert(rest.subrange(0, 4)[2] == rest[2]);
            assert(rest.subrange(0, 4)[3] == rest[3]);
            assert(rest[0] == cs@[i as int] && rest[1] == cs@[i + 1] && rest[2] == cs@[i + 2]
                && rest[3] == cs@[i + 3]);
        }
    }
    let mut v: Vec<char> = Vec::new();
    let mut k: usize = i;
    while k < cs.len()
        invariant
            i <= k <= cs@.len(),
            v@ == cs@.subrange(i as int, k as int),
        decreases cs.len() - k,
    {
        v.push(cs[k]);
        assert(cs@.subrange(i as int, k + 1) =~= cs@.subrange(i as int, k as int).push(cs@[k as int]));
        k += 1;
    }
    assert(cs@.subrange(i as int, cs@.len() as int) =~= cs@.skip(i as int));
    string_of(&v)
}

fn after_first_ws_exec(s: &str) -> (r: Option<String>)
    ensures
        match after_first_ws(s@) {
            Some(v) => r matches Some(x) && x@ == v,
            None => r is None,
        },
{
    let cs = chars_of(s);
    let mut i: usize = 0;
    while i < cs.len()
        invariant
            i <= cs@.len(),
            cs@ == s@,
            forall|j: int| 0 <= j < i ==> !is_ws(#[trigger] cs@[j]),
        decreases cs.len() - i,
    {
        if is_ws_exec(cs[i]) {
            let mut v: Vec<char> = Vec::new();
            let mut k: usize = i + 1;
            while k < cs.len()
                invariant
                    i + 1 <= k <= cs@.len(),
                    v@ == cs@.subrange(i + 1, k as int),
                decreases cs.len() - k,
            {
                v.push(cs[k]);
                assert(cs@.subrange(i + 1, k + 1) =~= cs@.subrange(i + 1, k as int).push(
                    cs@[k as int],
                ));
                k += 1;
            }
            proof {
                let w = choose|w: int|
                    0 <= w < s@.len() && is_ws(#[trigger] s@[w]) && forall|j: int|
                        0 <= j < w ==> !is_ws(s@[j]);
                assert(is_ws(s@[i as int]));
                if w < i {
                    assert(!is_ws(cs@[w]));
                } else if w > i {
                    assert(!is_ws(s@[i as int]));
                }
                assert(cs@.subrange(i + 1, cs@.len() as int) =~= s@.skip(i + 1));
            }
            return Some(string_of(&v));
        }
        i += 1;
    }
    None
}

fn reg_line_value_exec(line: &str) -> (r: Option<String>)
    ensures
        match reg_line_value(line@) {
            Some(v) => r matches Some(x) && x@ == v,
            None => r is None,
        },
{
    let t = trim_start_exec(line);
    if !starts_with_exec(t.as_str(), "Path") {
        return None;
    }
    let stripped = strip_paths_exec(t.as_str());
    let rest = trim_start_exec(stripped.as_str());
    match after_first_ws_exec(rest.as_str()) {
        Some(v) => Some(trim(v.as_str())),
        None => None,
    }
}

/// Reads the user PATH from the output of `reg query`.
pub fn read_user_path(out: &str) -> (r: Option<String>)
    ensures
        match reg_query_path(out@) {
            Some(v) => r matches Some(x) && x@ == v,
            None => r is None,
        },
{
    let lines = lines_of(out);
    let ghost lv = strs_view(lines@);
    let ghost flags = lv.map_values(|l: Seq<char>| reg_line_value(l) is Some);
    let mut i: usize = 0;
    while i < lines.len()
        invariant
            i <= lines@.len(),
            lv == strs_view(lines@),
            lv == text_lines(out@),
            flags == lv.map_values(|l: Seq<char>| reg_line_value(l) is Some),
            forall|k: int| 0 <= k < i ==> !flags[k],
            crate::pet::first_true(flags) == crate::pet::first_true_from(flags, i as int),
        decreases lines.len() - i,
    {
        assert(lv[i as int] == lines@[i as int]@);
        match reg_line_value_exec(lines[i].as_str()) {
            Some(v) => {
                assert(flags[i as int]);
                assert(crate::pet::first_true(flags) == Some(i as int));
                return Some(v);
            },
            None => {},
        }
        i += 1;
    }
    None
}

// ---------------------------------------------------------------------------
// laws
// ---------------------------------------------------------------------------

pub open spec fn no_semicolon(s: Seq<char>) -> bool {
    forall|i: int| 0 <= i < s.len() ==> s[i] != ';'
}

/// Splitting a text that ends with `d` (after a `;`, or alone) at `;` ends
/// with the piece `d`, when `d` has no `;`.
proof fn lemma_split_ends_with(x: Seq<char>, d: Seq<char>)
    requires
        no_semicolon(d),
    ensures
        split_char(x + d, ';').len() >= 1,
        (x.len() == 0 || x.last() == ';') ==> split_char(x + d, ';').last() == d,
    decreases d.len(),
{
    crate::text::lemma_split_char_len(x + d, ';');
    if d.len() == 0 {
        assert(x + d =~= x);
        if x.len() > 0 && x.last() == ';' {
            crate::text::lemma_split_char_len(x.drop_last(), ';');
        }
    } else {
        let dd = d.drop_last();
        assert(no_semicolon(dd));
        lemma_split_ends_with(x, dd);
        assert((x + d).drop_last() =~= x + dd);
        assert((x + d).last() == d.last());
        assert(dd.push(d.last()) =~= d);
    }
}

/// Adding the install directory to the user PATH a second time adds
/// nothing: the directory is then already listed.
pub proof fn law_path_add_once(current: Seq<char>, dir: Seq<char>)
    requires
        no_semicolon(dir),
    ensures
        path_with_dir_spec(current, dir) matches Some(p) ==> path_with_dir_spec(p, dir) is None,
{
    reveal_strlit(";");
    if let Some(p) = path_with_dir_spec(current, dir) {
        if current.len() == 0 {
            assert(p == dir);
            lemma_split_ends_with(Seq::empty(), dir);
            assert(Seq::<char>::empty() + dir =~= dir);
        } else {
            let x = trim_end_char(current, ';') + ";"@;
            assert(p =~= x + dir);
            assert(x.last() == ';');
            lemma_split_ends_with(x, dir);
        }
        let parts = split_char(p, ';');
        assert(eq_ignore_ascii_case(parts[parts.len() - 1], dir));
    }
}

/// Splitting at `;` what was joined with `;` gives the pieces back, when
/// none of them has a `;`.
proof fn lemma_split_join(parts: Seq<Seq<char>>)
    requires
        parts.len() >= 1,
        forall|i: int| 0 <= i < parts.len() ==> no_semicolon(#[trigger] parts[i]),
    ensures
        split_char(join_seq(parts, ";"@), ';') == parts,
    decreases parts.len(),
{
    reveal_strlit(";");
    if parts.len() == 1 {
        let d = parts[0];
        assert(join_seq(parts, ";"@) == d);
        lemma_split_no_sep(d);
        assert(parts =~= seq![d]);
    } else {
        let pre = parts.drop_last();
        let d = parts.last();
        assert(no_semicolon(d));
        lemma_split_join(pre);
        let x = join_seq(pre, ";"@) + ";"@;
        assert(join_seq(parts, ";"@) =~= x + d);
        lemma_split_append(join_seq(pre, ";"@), d);
        assert(parts =~= pre.push(d));
    }
}

/// A text without `;` is one piece.
proof fn lemma_split_no_sep(d: Seq<char>)
    requires
        no_semicolon(d),
    ensures
        split_char(d, ';') == seq![d],
    decreases d.len(),
{
    if d.len() > 0 {
        lemma_split_no_sep(d.drop_last());
        assert(d.drop_last().push(d.last()) =~= d);
        assert(seq![d.drop_last()].update(0, d.drop_last().push(d.last())) =~= seq![d]);
    } else {
        assert(d =~= Seq::<char>::empty());
    }
}

/// Appending `;` and a piece without `;` appends that piece to the split.
proof fn lemma_split_append(y: Seq<char>, d: Seq<char>)
    requires
        no_semicolon(d),
    ensures
        split_char(y + ";"@ + d, ';') == split_char(y, ';').push(d),
    decreases d.len(),
{
    reveal_strlit(";");
    if d.len() == 0 {
        let s = y + ";"@ + d;
        assert(s =~= y.push(';'));
        assert(s.drop_last() =~= y);
        assert(s.last() == ';');
        assert(d =~= Seq::<char>::empty());
        assert(split_char(s, ';') == split_char(s.drop_last(), ';').push(Seq::empty()));
    } else {
        let dd = d.drop_last();
        assert(no_semicolon(dd));
        lemma_split_append(y, dd);
        let s = y + ";"@ + d;
        assert(s.drop_last() =~= y + ";"@ + dd);
        assert(s.last() == d.last());
        crate::text::lemma_split_char_len(y, ';');
        assert(dd.push(d.last()) =~= d);
        assert(split_char(y, ';').push(dd).update(split_char(y, ';').len() as int, dd.push(d.last()))
            =~= split_char(y, ';').push(d));
    }
}

/// Removing the install directory from the user PATH leaves no entry of it.
pub proof fn law_path_remove_leaves_none(current: Seq<char>, dir: Seq<char>)
    ensures
        path_without_dir_spec(current, dir) matches Some(p) ==> !path_has_dir(p, dir),
{
    if let Some(p) = path_without_dir_spec(current, dir) {
        let kept = path_kept(current, dir);
        let all = split_char(current, ';');
        assert forall|i: int| 0 <= i < kept.len() implies no_semicolon(#[trigger] kept[i])
            && !eq_ignore_ascii_case(kept[i], dir) by {
            let e = path_entries(current);
            assert(kept.contains(kept[i]));
            lemma_filter_member(e, |q: Seq<char>| !eq_ignore_ascii_case(q, dir), kept[i]);
            lemma_filter_member(all, |q: Seq<char>| q.len() > 0, kept[i]);
            lemma_split_pieces(current);
        }
        if kept.len() == 0 {
            assert(path_entries(current).len() > 0);
            assert(join_seq(kept, ";"@) == Seq::<char>::empty());
            assert(split_char(Seq::<char>::empty(), ';') == seq![Seq::<char>::empty()]);
            assert(crate::text::lower_seq(Seq::<char>::empty()).len() == 0);
            assert(crate::text::lower_seq(dir).len() == dir.len());
            if path_has_dir(p, dir) {
                let i = choose|i: int|
                    0 <= i < split_char(p, ';').len() && eq_ignore_ascii_case(
                        #[trigger] split_char(p, ';')[i],
                        dir,
                    );
                assert(i == 0);
                let e = path_entries(current);
                assert(e.contains(e[0]));
                lemma_filter_member(all, |q: Seq<char>| q.len() > 0, e[0]);
                assert(e.filter(|q: Seq<char>| !eq_ignore_ascii_case(q, dir)).len() == 0);
                lemma_filter_empty(e, |q: Seq<char>| !eq_ignore_ascii_case(q, dir), 0);
                assert(crate::text::lower_seq(e[0]).len() == e[0].len());
                assert(crate::text::lower_seq(dir).len() == dir.len());
            }
        } else {
            lemma_split_join(kept);
        }
    }
}

/// An element of a filtered sequence is in the sequence and passes the
/// filter.
proof fn lemma_filter_member(s: Seq<Seq<char>>, f: spec_fn(Seq<char>) -> bool, x: Seq<char>)
    requires
        s.filter(f).contains(x),
    ensures
        s.contains(x),
        f(x),
    decreases s.len(),
{
    reveal(Seq::filter);
    if s.len() > 0 {
        let pre = s.drop_last();
        if f(s.last()) && x == s.last() {
            assert(s[s.len() - 1] == x);
        } else {
            if f(s.last()) {
                assert(s.filter(f) == pre.filter(f).push(s.last()));
                let k = choose|k: int| 0 <= k < s.filter(f).len() && s.filter(f)[k] == x;
                assert(pre.filter(f)[k] == x);
            } else {
                assert(s.filter(f) == pre.filter(f));
            }
            lemma_filter_member(pre, f, x);
            let k = choose|k: int| 0 <= k < pre.len() && pre[k] == x;
            assert(s[k] == x);
        }
    }
}

/// An element that passes the filter is kept by it.
proof fn lemma_filter_empty(s: Seq<Seq<char>>, f: spec_fn(Seq<char>) -> bool, i: int)
    requires
        0 <= i < s.len(),
        s.filter(f).len() == 0,
    ensures
        !f(s[i]),
    decreases s.len(),
{
    reveal(Seq::filter);
    let pre = s.drop_last();
    if i == s.len() - 1 {
        if f(s.last()) {
            assert(s.filter(f) == pre.filter(f).push(s.last()));
        }
    } else {
        if f(s.last()) {
            assert(s.filter(f) == pre.filter(f).push(s.last()));
        } else {
            assert(s.filter(f) == pre.filter(f));
            assert(pre[i] == s[i]);
            lemma_filter_empty(pre, f, i);
        }
    }
}

/// No piece of a split at `;` holds a `;`.
proof fn lemma_split_pieces(s: Seq<char>)
    ensures
        forall|i: int|
            0 <= i < split_char(s, ';').len() ==> no_semicolon(#[trigger] split_char(s, ';')[i]),
    decreases s.len(),
{
    if s.len() > 0 {
        lemma_split_pieces(s.drop_last());
        crate::text::lemma_split_char_len(s.drop_last(), ';');
        let pre = split_char(s.drop_last(), ';');
        if s.last() != ';' {
            assert forall|i: int| 0 <= i < split_char(s, ';').len() implies no_semicolon(
                #[trigger] split_char(s, ';')[i],
            ) by {
                if i == pre.len() - 1 {
                    let q = pre.last().push(s.last());
                    assert(split_char(s, ';')[i] == q);
                    assert(no_semicolon(pre[pre.len() - 1]));
                    assert forall|j: int| 0 <= j < q.len() implies q[j] != ';' by {
                        if j < pre.last().len() {
                            assert(q[j] == pre.last()[j]);
                        }
                    }
                } else {
                    assert(split_char(s, ';')[i] == pre[i]);
                }
            }
        } else {
            assert forall|i: int| 0 <= i < split_char(s, ';').len() implies no_semicolon(
                #[trigger] split_char(s, ';')[i],
            ) by {
                if i < pre.len() {
                    assert(split_char(s, ';')[i] == pre[i]);
                }
            }
        }
    }
}

} // verus!

