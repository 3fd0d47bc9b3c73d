//! Host paths: where a client-given directory resolves to, and where a job's
//! resume checkpoint is kept.

use vstd::prelude::*;

use crate::text::{chars_of, has_prefix};

verus! {

/// What `std::path::PathBuf::push` makes of `base` with `name` pushed on it.
pub uninterp spec fn spec_path_join(base: Seq<char>, name: Seq<char>) -> Seq<char>;

/// What `std::path::Path::file_stem` gives for `path`.
pub uninterp spec fn spec_file_stem(path: Seq<char>) -> Option<Seq<char>>;

/// What `std::path::Path::parent` gives for `path`.
pub uninterp spec fn spec_parent(path: Seq<char>) -> Option<Seq<char>>;

/// What `std::path::Path::file_name` gives for `path`.
pub uninterp spec fn spec_file_name(path: Seq<char>) -> Option<Seq<char>>;

/// `base` with `name` pushed on it, by `std::path::PathBuf::push`.  The text
/// is a function of the two arguments alone; its rules (separators, absolute
/// names replacing the base) are those of `PathBuf::push` and are not stated
/// here.
#[verifier::external_body]
pub(crate) fn path_join(base: &str, name: &str) -> (joined: String)
    ensures
        joined@ == spec_path_join(base@, name@),
{
    let mut p = std::path::PathBuf::from(base);
    p.push(name);
    p.to_string_lossy().into_owned()
}

/// The stem of the final component of `path`, by `std::path::Path::file_stem`;
/// its rules are not stated here.
#[verifier::external_body]
pub(crate) fn file_stem(path: &str) -> (stem: Option<String>)
    ensures
        stem matches Some(s) ==> spec_file_stem(path@) == Some(s@),
        stem is None ==> spec_file_stem(path@) is None,
{
    std::path::Path::new(path).file_stem().and_then(|s| s.to_str()).map(|s| s.to_string())
}

/// The parent of `path`, by `std::path::Path::parent`; its rules are not
/// stated here.
#[verifier::external_body]
pub(crate) fn parent(path: &str) -> (dir: Option<String>)
    ensures
        dir matches Some(d) ==> spec_parent(path@) == Some(d@),
        dir is None ==> spec_parent(path@) is None,
{
    std::path::Path::new(path).parent().map(|p| p.to_string_lossy().into_owned())
}

/// The final component of `path`, by `std::path::Path::file_name`: `None`
/// when the path ends in `..` or has no component; its rules are not stated
/// here.
#[verifier::external_body]
pub(crate) fn file_name(path: &str) -> (name: Option<String>)
    ensures
        name matches Some(n) ==> spec_file_name(path@) == Some(n@),
        name is None ==> spec_file_name(path@) is None,
{
    std::path::Path::new(path).file_name().and_then(|s| s.to_str()).map(|s| s.to_string())
}

// ---------------------------------------------------------------------------
// Client paths
// ---------------------------------------------------------------------------

/// The name of the environment variable that holds the user's home
/// directory on the host.
pub open spec fn home_var_text(host_is_windows: bool) -> Seq<char> {
    if host_is_windows {
        "USERPROFILE"@
    } else {
        "HOME"@
    }
}

/// The name of the environment variable that holds the user's home directory.
pub fn home_var_name(host_is_windows: bool) -> (name: &'static str)
    ensures
        name@ == home_var_text(host_is_windows),
{
    if host_is_windows {
        "USERPROFILE"
    } else {
        "HOME"
    }
}

/// The home directory: the variable's value, or `C:/` on Windows and `/tmp`
/// elsewhere when it is not set.
pub open spec fn home_dir_text(host_is_windows: bool, var: Option<Seq<char>>) -> Seq<char> {
    match var {
        Some(h) => h,
        None => if host_is_windows {
            "C:/"@
        } else {
            "/tmp"@
        },
    }
}

/// The home directory, given the value of its environment variable.
pub fn home_dir(host_is_windows: bool, var: Option<String>) -> (home: String)
    ensures
        home@ == home_dir_text(
            host_is_windows,
            match var {
                Some(v) => Some(v@),
                None => None,
            },
        ),
{
    match var {
        Some(h) => h,
        None => if host_is_windows {
            "C:/".to_owned()
        } else {
            "/tmp".to_owned()
        },
    }
}

/// The path names a Windows location: it holds a drive colon or a backslash.
pub open spec fn is_windows_path(p: Seq<char>) -> bool {
    p.contains(':') || p.contains('\\')
}

/// A client path that the host cannot use as it stands: empty, a Windows
/// path on another host, or on a Windows host a path that is neither a
/// Windows path nor starts with a backslash.
pub open spec fn needs_fallback(p: Seq<char>, host_is_windows: bool) -> bool {
    ||| p.len() == 0
    ||| is_windows_path(p) && !host_is_windows
    ||| !is_windows_path(p) && host_is_windows && !has_prefix(p, seq!['\\'])
}

/// Where the client path `p` resolves to on the host.
pub open spec fn resolved_path_text(p: Seq<char>, host_is_windows: bool, home_var: Option<Seq<char>>) -> Seq<
    char,
> {
    if needs_fallback(p, host_is_windows) {
        spec_path_join(home_dir_text(host_is_windows, home_var), "gcode_files"@)
    } else {
        p
    }
}

/// Resolves a client-given path to a host path; paths the host cannot use
/// fall back to `gcode_files` under the user's home directory.  `home_var` is
/// the value of the home directory's environment variable, if it is set.
pub fn get_resolved_path(path_arg: &str, host_is_windows: bool, home_var: Option<String>) -> (p:
    String)
    ensures
        p@ == resolved_path_text(
            path_arg@,
            host_is_windows,
            match home_var {
                Some(v) => Some(v@),
                None => None,
            },
        ),
{
    let cs = chars_of(path_arg);
    let windows_path = crate::text::contains_char(&cs, ':') || crate::text::contains_char(
        &cs,
        '\\',
    );
    let starts_backslash = cs.len() > 0 && cs[0] == '\\';
    proof {
        if cs.len() > 0 {
            assert(has_prefix(cs@, seq!['\\']) == (cs@[0] == '\\')) by {
                if cs@[0] == '\\' {
                    assert(cs@.take(1) =~= seq!['\\']);
                } else {
                    assert(cs@.take(1)[0] != seq!['\\'][0]);
                }
            }
        }
    }
    if cs.len() == 0 || (windows_path && !host_is_windows) || (!windows_path && host_is_windows
        && !starts_backslash) {
        let home = home_dir(host_is_windows, home_var);
        return path_join(home.as_str(), "gcode_files");
    }
    path_arg.to_owned()
}

/// A path separator on the host: `/`, and on Windows `\\` too.
pub open spec fn is_separator(c: char, host_is_windows: bool) -> bool {
    c == '/' || (host_is_windows && c == '\\')
}

/// A `..` component starts at index `i` of `n`: two dots that are the whole
/// text between two separators (or the ends of `n`).
pub open spec fn parent_component_at(n: Seq<char>, i: int, host_is_windows: bool) -> bool {
    &&& 0 <= i
    &&& i + 2 <= n.len()
    &&& n[i] == '.'
    &&& n[i + 1] == '.'
    &&& (i == 0 || is_separator(n[i - 1], host_is_windows))
    &&& (i + 2 == n.len() || is_separator(n[i + 2], host_is_windows))
}

/// `n` has a `..` component, which climbs out of the directory.
pub open spec fn has_parent_component(n: Seq<char>, host_is_windows: bool) -> bool {
    exists|i: int| parent_component_at(n, i, host_is_windows)
}

/// `n` starts with a separator: an absolute path.
pub open spec fn is_absolute_name(n: Seq<char>, host_is_windows: bool) -> bool {
    n.len() > 0 && is_separator(n[0], host_is_windows)
}

/// On Windows, `n` starts with a drive, such as `C:`.
pub open spec fn has_drive_prefix(n: Seq<char>, host_is_windows: bool) -> bool {
    &&& host_is_windows
    &&& n.len() >= 2
    &&& ('a' <= n[0] && n[0] <= 'z') || ('A' <= n[0] && n[0] <= 'Z')
    &&& n[1] == ':'
}

/// A file name that stays in the directory it is saved to on the host: it
/// is not absolute, names no drive and has no `..` component.
pub open spec fn stays_in_directory(n: Seq<char>, host_is_windows: bool) -> bool {
    &&& !is_absolute_name(n, host_is_windows)
    &&& !has_drive_prefix(n, host_is_windows)
    &&& !has_parent_component(n, host_is_windows)
}

/// The error that refuses a file name that would leave its directory.
pub open spec fn invalid_filename_text() -> Seq<char> {
    "Invalid filename"@
}

fn is_sep(c: char, host_is_windows: bool) -> (r: bool)
    ensures
        r == is_separator(c, host_is_windows),
{
    c == '/' || (host_is_windows && c == '\\')
}

/// Whether `n` has a `..` component.
fn find_parent_component(n: &Vec<char>, host_is_windows: bool) -> (r: bool)
    ensures
        r == has_parent_component(n@, host_is_windows),
{
    let w = host_is_windows;
    let mut i: usize = 0;
    while i < n.len() && n.len() - i >= 2
        invariant
            i <= n.len(),
            w == host_is_windows,
            forall|j: int| 0 <= j < i ==> !parent_component_at(n@, j, w),
        decreases n.len() - i,
    {
        if n[i] == '.' && n[i + 1] == '.' && (i == 0 || is_sep(n[i - 1], w)) && (i + 2 == n.len()
            || is_sep(n[i + 2], w)) {
            assert(parent_component_at(n@, i as int, w));
            return true;
        }
        i = i + 1;
    }
    assert forall|j: int| !parent_component_at(n@, j, w) by {
        if j >= i as int {
            assert(j + 2 > n@.len());
        }
    }
    false
}

/// Where the file named `filename` in the directory `dir` is read, saved or
/// deleted: the name pushed on the directory, when it stays in the
/// directory; a name that would leave it (absolute, with a drive on Windows,
/// or climbing with `..`) is refused.
pub fn local_file_target(dir: &str, filename: &str, host_is_windows: bool) -> (r: Result<
    String,
    String,
>)
    ensures
        match r {
            Ok(p) => stays_in_directory(filename@, host_is_windows) && p@ == spec_path_join(
                dir@,
                filename@,
            ),
            Err(e) => !stays_in_directory(filename@, host_is_windows) && e@
                == invalid_filename_text(),
        },
{
    let n = chars_of(filename);
    let absolute = n.len() > 0 && is_sep(n[0], host_is_windows);
    let drive = host_is_windows && n.len() >= 2 && (('a' <= n[0] && n[0] <= 'z') || ('A' <= n[0]
        && n[0] <= 'Z')) && n[1] == ':';
    if absolute || drive || find_parent_component(&n, host_is_windows) {
        Err("Invalid filename".to_owned())
    } else {
        Ok(path_join(dir, filename))
    }
}

/// Where `copy_to_storage` copies the file `source` in the directory
/// `dest_dir`: the final component of `source` pushed on the directory; a
/// source without one is refused.
pub fn storage_target(source: &str, dest_dir: &str) -> (r: Result<String, String>)
    ensures
        match r {
            Ok(p) => spec_file_name(source@) matches Some(n) && p@ == spec_path_join(dest_dir@, n),
            Err(e) => spec_file_name(source@) is None && e@ == invalid_filename_text(),
        },
{
    match file_name(source) {
        Some(n) => Ok(path_join(dest_dir, n.as_str())),
        None => Err("Invalid filename".to_owned()),
    }
}

/// On a host other than Windows, a non-empty path with neither a drive
/// colon nor a backslash is used as it stands, and an empty one resolves to
/// `gcode_files` under the home directory.
pub proof fn law_unix_paths_resolve(p: Seq<char>, home_var: Option<Seq<char>>)
    ensures
        p.len() > 0 && !p.contains(':') && !p.contains('\\') ==> resolved_path_text(p, false, home_var)
            == p,
        p.len() == 0 ==> resolved_path_text(p, false, home_var) == spec_path_join(
            home_dir_text(false, home_var),
            "gcode_files"@,
        ),
{
}

/// On a Windows host, a path that names a Windows location (it holds a
/// drive colon or a backslash) is used as it stands, and any other path,
/// the empty one included, resolves to `gcode_files` under the home
/// directory.  On any other host a path that holds a drive colon or a
/// backslash falls back in the same way.
pub proof fn law_windows_paths_resolve(p: Seq<char>, home_var: Option<Seq<char>>)
    ensures
        p.contains(':') || p.contains('\\') ==> resolved_path_text(p, true, home_var) == p,
        !p.contains(':') && !p.contains('\\') ==> resolved_path_text(p, true, home_var)
            == spec_path_join(home_dir_text(true, home_var), "gcode_files"@),
        p.contains(':') || p.contains('\\') ==> resolved_path_text(p, false, home_var)
            == spec_path_join(home_dir_text(false, home_var), "gcode_files"@),
{
    if has_prefix(p, seq!['\\']) {
        assert(p.take(1)[0] == '\\');
        assert(p[0] == '\\');
        assert(p.contains('\\'));
    }
    if p.contains(':') || p.contains('\\') {
        assert(p.len() > 0);
    }
}

/// The home directory is the value of `USERPROFILE` on Windows and of `HOME`
/// elsewhere, whatever that value is; when the variable is not set it is
/// `C:/` on Windows and `/tmp` elsewhere.
pub proof fn law_home_directory(host_is_windows: bool, value: Seq<char>)
    ensures
        home_var_text(true) == "USERPROFILE"@,
        home_var_text(false) == "HOME"@,
        home_dir_text(host_is_windows, Some(value)) == value,
        home_dir_text(true, None) == "C:/"@,
        home_dir_text(false, None) == "/tmp"@,
{
}

} // verus!
