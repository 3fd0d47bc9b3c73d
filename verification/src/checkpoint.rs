//! Job checkpoints: the modal state a resumed job needs, and where a job's
//! checkpoint file is kept.

use vstd::prelude::*;

use crate::paths::{file_stem, parent, path_join, spec_file_stem, spec_parent, spec_path_join};
use crate::text::chars_of;

verus! {

/// The G-code modal state that a job needs to resume safely.
pub struct ModalState {
    /// `G20` or `G21`.
    pub units: String,
    /// `G90` or `G91`.
    pub distance_mode: String,
    /// `G17`, `G18` or `G19`.
    pub plane: String,
    /// `G0`, `G1`, `G2` or `G3`.
    pub motion_mode: String,
    /// `G93`, `G94` or `G95`.
    pub feed_mode: String,
}

/// The name of the resume checkpoint of a file whose stem is `stem`.
pub open spec fn resume_file_name_text(stem: Option<Seq<char>>) -> Seq<char> {
    let base = match stem {
        Some(s) => s,
        None => "checkpoint"@,
    };
    base + ".resume.json"@
}

/// The directory that holds a file whose parent is `dir`.
pub open spec fn dir_or_current(dir: Option<Seq<char>>) -> Seq<char> {
    match dir {
        Some(d) => d,
        None => "."@,
    }
}

/// The resume checkpoint path of the G-code file `path`: `{stem}.resume.json`
/// beside it.
pub open spec fn resume_path_text(path: Seq<char>) -> Seq<char> {
    spec_path_join(
        dir_or_current(spec_parent(path)),
        resume_file_name_text(spec_file_stem(path)),
    )
}

/// The name of the resume checkpoint of a file whose stem is `stem`
/// (`checkpoint` when it has none).
pub fn resume_file_name(stem: Option<&str>) -> (name: String)
    ensures
        name@ == resume_file_name_text(
            match stem {
                Some(s) => Some(s@),
                None => None,
            },
        ),
{
    let mut buf: Vec<char> = match stem {
        Some(s) => chars_of(s),
        None => chars_of("checkpoint"),
    };
    crate::text::push_str(&mut buf, ".resume.json");
    crate::text::string_from_chars(&buf)
}

/// The directory that holds a file whose parent is `dir` (`.` when it has none).
pub fn checkpoint_dir(dir: Option<String>) -> (d: String)
    ensures
        d@ == dir_or_current(
            match dir {
                Some(s) => Some(s@),
                None => None,
            },
        ),
{
    match dir {
        Some(d) => d,
        None => ".".to_owned(),
    }
}

/// The default resume checkpoint path for the G-code file `gcode_path`.
pub fn get_resume_checkpoint_path(gcode_path: &str) -> (p: String)
    ensures
        p@ == resume_path_text(gcode_path@),
{
    let stem = file_stem(gcode_path);
    let name = match &stem {
        Some(s) => resume_file_name(Some(s.as_str())),
        None => resume_file_name(None),
    };
    let dir = checkpoint_dir(parent(gcode_path));
    path_join(dir.as_str(), name.as_str())
}

/// Where a checkpoint of the job over `file_path` is saved: `save_path`, or
/// the job file's resume checkpoint path when `save_path` is empty.
pub fn checkpoint_save_path(file_path: &str, save_path: &str) -> (p: String)
    ensures
        p@ == if save_path@.len() == 0 {
            resume_path_text(file_path@)
        } else {
            save_path@
        },
{
    if save_path.is_empty() {
        get_resume_checkpoint_path(file_path)
    } else {
        save_path.to_owned()
    }
}

// ---------------------------------------------------------------------------
// Arguments of the checkpoint commands
// ---------------------------------------------------------------------------

/// The text of an optional string argument.
pub open spec fn opt_text(a: Option<&str>) -> Option<Seq<char>> {
    match a {
        Some(s) => Some(s@),
        None => None,
    }
}

/// The first of `a`, `b` and `c` that is given, or the empty text when none
/// is.
pub open spec fn first_given(a: Option<Seq<char>>, b: Option<Seq<char>>, c: Option<Seq<char>>) -> Seq<
    char,
> {
    match a {
        Some(t) => t,
        None => match b {
            Some(t) => t,
            None => match c {
                Some(t) => t,
                None => seq![],
            },
        },
    }
}

fn first_of(a: Option<&str>, b: Option<&str>, c: Option<&str>) -> (r: String)
    ensures
        r@ == first_given(opt_text(a), opt_text(b), opt_text(c)),
{
    match a {
        Some(t) => t.to_owned(),
        None => match b {
            Some(t) => t.to_owned(),
            None => match c {
                Some(t) => t.to_owned(),
                None => String::new(),
            },
        },
    }
}

/// The path that `load_checkpoint` reads: its `checkpointPath`, `path` or
/// `filePath` argument, the first that is given; an empty one is refused.
pub fn checkpoint_path_arg(
    checkpoint_path: Option<&str>,
    path: Option<&str>,
    file_path: Option<&str>,
) -> (r: Result<String, String>)
    ensures
        ({
            let p = first_given(opt_text(checkpoint_path), opt_text(path), opt_text(file_path));
            match r {
                Ok(v) => p.len() > 0 && v@ == p,
                Err(e) => p.len() == 0 && e@ == "No checkpoint path provided"@,
            }
        }),
{
    let p = first_of(checkpoint_path, path, file_path);
    if p.as_str().is_empty() {
        Err("No checkpoint path provided".to_owned())
    } else {
        Ok(p)
    }
}

/// The G-code file whose resume checkpoint path is asked for: its `path`
/// or `filePath` argument, the first that is given; an empty one is refused.
pub fn resume_source_arg(path: Option<&str>, file_path: Option<&str>) -> (r: Result<String, String>)
    ensures
        ({
            let p = first_given(opt_text(path), opt_text(file_path), None);
            match r {
                Ok(v) => p.len() > 0 && v@ == p,
                Err(e) => p.len() == 0 && e@ == "No G-code path provided"@,
            }
        }),
{
    let p = first_of(path, file_path, None);
    if p.as_str().is_empty() {
        Err("No G-code path provided".to_owned())
    } else {
        Ok(p)
    }
}

/// The file whose hash is asked for: its `path` or `filePath` argument, the
/// first that is given; an empty one is refused.
pub fn hash_source_arg(path: Option<&str>, file_path: Option<&str>) -> (r: Result<String, String>)
    ensures
        ({
            let p = first_given(opt_text(path), opt_text(file_path), None);
            match r {
                Ok(v) => p.len() > 0 && v@ == p,
                Err(e) => p.len() == 0 && e@ == "No file path provided"@,
            }
        }),
{
    let p = first_of(path, file_path, None);
    if p.as_str().is_empty() {
        Err("No file path provided".to_owned())
    } else {
        Ok(p)
    }
}

/// The checkpoint that `save_checkpoint` is given; a request without one is
/// refused.
pub fn checkpoint_data_arg<T>(data: Option<T>) -> (r: Result<T, String>)
    ensures
        match data {
            Some(d) => r == Ok::<T, String>(d),
            None => r matches Err(e) && e@ == "No checkpoint data provided"@,
        },
{
    match data {
        Some(d) => Ok(d),
        None => Err("No checkpoint data provided".to_owned()),
    }
}

/// What `save_checkpoint` answers once the checkpoint `checkpoint_id` is
/// saved.
pub fn checkpoint_saved_message(checkpoint_id: &str) -> (m: String)
    ensures
        m@ == "Checkpoint saved: "@ + checkpoint_id@,
{
    let mut buf = chars_of("Checkpoint saved: ");
    crate::text::push_str(&mut buf, checkpoint_id);
    crate::text::string_from_chars(&buf)
}

} // verus!
