//! The sandboxed file-access policy: every path handed in by the
//! presentation layer is validated against the absolute-path rule and the
//! extension allow-lists before any read or write is permitted. The checks
//! themselves are pure; the live filesystem answers arrive either through
//! the probe wrappers or as explicit arguments.

use vstd::prelude::*;
use crate::paths::{ext_of_spec, is_absolute_spec, is_image_path_spec, is_image_path,
    is_allowed_write_path, is_write_ext_opt, normalize_device_path_spec,
    normalize_to_absolute_path, parent_dir, parent_dir_spec};
use crate::probe::{path_exists, path_is_file};

verus! {

/// The read-side verdict for a candidate path, given whether the target is
/// an existing regular file: the normalized path to read, or the exact
/// refusal reason.
pub open spec fn read_gate_spec(s: Seq<char>, windows: bool, target_is_file: bool) -> Result<
    Seq<char>,
    Seq<char>,
> {
    let p = normalize_device_path_spec(s);
    if !is_absolute_spec(p, windows) {
        Err("path must be absolute"@)
    } else if !target_is_file {
        Err("path is not an existing file"@)
    } else if !is_image_path_spec(p, windows) {
        Err("only image files can be read"@)
    } else {
        Ok(p)
    }
}

/// The write-side verdict for a candidate path, given whether its parent
/// directory exists: the normalized path to write, or the exact refusal
/// reason. The guard never creates directories.
pub open spec fn write_gate_spec(s: Seq<char>, windows: bool, parent_exists: bool) -> Result<
    Seq<char>,
    Seq<char>,
> {
    let p = normalize_device_path_spec(s);
    if !is_absolute_spec(p, windows) {
        Err("path must be absolute"@)
    } else if !is_write_ext_opt(ext_of_spec(p, windows)) {
        Err("file extension not allowed"@)
    } else if parent_dir_spec(p, windows) is None {
        Err("invalid target path"@)
    } else if !parent_exists {
        Err("target directory does not exist"@)
    } else {
        Ok(p)
    }
}

/// `r` is exactly the read-side verdict for `s` under `target_is_file`.
pub open spec fn matches_read_gate(
    r: Result<String, String>,
    s: Seq<char>,
    windows: bool,
    target_is_file: bool,
) -> bool {
    match r {
        Ok(p) => read_gate_spec(s, windows, target_is_file) == Ok::<Seq<char>, Seq<char>>(p@),
        Err(e) => read_gate_spec(s, windows, target_is_file) == Err::<Seq<char>, Seq<char>>(e@),
    }
}

/// `r` is exactly the write-side verdict for `s` under `parent_exists`.
pub open spec fn matches_write_gate(
    r: Result<String, String>,
    s: Seq<char>,
    windows: bool,
    parent_exists: bool,
) -> bool {
    match r {
        Ok(p) => write_gate_spec(s, windows, parent_exists) == Ok::<Seq<char>, Seq<char>>(p@),
        Err(e) => write_gate_spec(s, windows, parent_exists) == Err::<Seq<char>, Seq<char>>(e@),
    }
}

/// The pure read-side decision: every rule of the read gate applied to the
/// path, with the filesystem's answer supplied by the caller.
pub fn read_access_decision(path: &str, windows: bool, target_is_file: bool) -> (r: Result<
    String,
    String,
>)
    ensures
        matches_read_gate(r, path@, windows, target_is_file),
{
    let p = match normalize_to_absolute_path(path, windows) {
        Ok(p) => p,
        Err(e) => {
            return Err(e);
        },
    };
    if !target_is_file {
        return Err(String::from_str("path is not an existing file"));
    }
    if !is_image_path(p.as_str(), windows) {
        return Err(String::from_str("only image files can be read"));
    }
    Ok(p)
}

/// The pure write-side decision: every rule of the write gate applied to
/// the path, with the parent directory's existence supplied by the caller.
pub fn write_access_decision(path: &str, windows: bool, parent_exists: bool) -> (r: Result<
    String,
    String,
>)
    ensures
        matches_write_gate(r, path@, windows, parent_exists),
{
    let p = match normalize_to_absolute_path(path, windows) {
        Ok(p) => p,
        Err(e) => {
            return Err(e);
        },
    };
    if !is_allowed_write_path(p.as_str(), windows) {
        return Err(String::from_str("file extension not allowed"));
    }
    match parent_dir(p.as_str(), windows) {
        None => Err(String::from_str("invalid target path")),
        Some(_) => {
            if !parent_exists {
                Err(String::from_str("target directory does not exist"))
            } else {
                Ok(p)
            }
        },
    }
}

/// The read gate against the live filesystem: validates the path and, on
/// success, returns the normalized path whose bytes the host may read. The
/// filesystem is probed only once the path has passed the absolute-path
/// rule.
pub fn read_image_file_check(path: &str, windows: bool) -> (r: Result<String, String>)
    ensures
        exists|b: bool| #[trigger] matches_read_gate(r, path@, windows, b),
{
    match normalize_to_absolute_path(path, windows) {
        Err(e) => {
            let r = Err(e);
            proof {
                assert(matches_read_gate(r, path@, windows, true));
            }
            r
        },
        Ok(p) => {
            let target_is_file = path_is_file(p.as_str());
            let r = read_access_decision(path, windows, target_is_file);
            proof {
                assert(matches_read_gate(r, path@, windows, target_is_file));
            }
            r
        },
    }
}

/// The write gate against the live filesystem: validates the path and, on
/// success, returns the normalized path the host may overwrite with the
/// caller's bytes. The parent directory is probed only once the path has
/// passed the absolute-path rule and the extension allow-list.
pub fn write_allowed_file_check(path: &str, windows: bool) -> (r: Result<String, String>)
    ensures
        exists|b: bool| #[trigger] matches_write_gate(r, path@, windows, b),
{
    match normalize_to_absolute_path(path, windows) {
        Err(e) => {
            let r = Err(e);
            proof {
                assert(matches_write_gate(r, path@, windows, true));
            }
            r
        },
        Ok(p) => {
            if !is_allowed_write_path(p.as_str(), windows) {
                let r = Err(String::from_str("file extension not allowed"));
                proof {
                    assert(matches_write_gate(r, path@, windows, true));
                }
                return r;
            }
            let parent_exists = match parent_dir(p.as_str(), windows) {
                Some(d) => path_exists(d.as_str()),
                None => false,
            };
            let r = write_access_decision(path, windows, parent_exists);
            proof {
                assert(matches_write_gate(r, path@, windows, parent_exists));
            }
            r
        },
    }
}

} // verus!
