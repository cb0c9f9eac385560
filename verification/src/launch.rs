//! Launch-argument resolution: turning raw process arguments into the
//! canonical path of the image document to open, with `file://` URLs
//! resolved through the url crate and a repair fallback for the
//! non-standard Windows drive form.

use vstd::prelude::*;
use crate::text::{clean_arg_spec, clean_argument, char_to_string, has_prefix, starts_with_str,
    str_eq};
use crate::paths::{is_ascii_alpha, is_image_path, is_image_path_spec, normalize_device_path,
    normalize_device_path_spec};
use crate::probe::{canonicalize_path, path_is_file};

verus! {

/// The url crate's parsed-URL type, opaque to this library.
#[verifier::external_type_specification]
#[verifier::external_body]
pub struct ExUrl(url::Url);

/// Whether `url::Url::parse` accepts a string; the answer depends on the
/// string alone.
pub uninterp spec fn url_parse_ok(s: Seq<char>) -> bool;

/// Whether the URL a string parses to carries the scheme `file`; like
/// acceptance, a function of the string alone.
pub uninterp spec fn url_is_file_scheme(s: Seq<char>) -> bool;

/// Relies on `url::Url::parse` and `url::Url::scheme`: the parsed URL is
/// handed back exactly when the input parses and its scheme is `file`, and
/// both facts are functions of the input alone.
#[verifier::external_body]
fn parse_file_url(input: &str) -> (r: Option<url::Url>)
    ensures
        r is Some == (url_parse_ok(input@) && url_is_file_scheme(input@)),
{
    match url::Url::parse(input) {
        Ok(u) => if u.scheme() == "file" {
            Some(u)
        } else {
            None
        },
        Err(_) => None,
    }
}

/// Relies on `url::Url::to_file_path`: the platform path a `file:` URL
/// denotes, or nothing for non-standard encodings; the lossy string form
/// of that path.
#[verifier::external_body]
fn url_to_file_path_string(u: &url::Url) -> Option<String> {
    match u.to_file_path() {
        Ok(p) => Some(p.to_string_lossy().into_owned()),
        Err(()) => None,
    }
}

/// `s` with one leading `file://` prefix removed.
pub open spec fn strip_file_prefix_spec(s: Seq<char>) -> Seq<char> {
    if has_prefix(s, "file://"@) {
        s.skip(7)
    } else {
        s
    }
}

/// `s` with a leading slash removed when it hides a drive letter, the
/// repair for the non-standard `file://C:/...` form.
pub open spec fn repair_drive_spec(s: Seq<char>) -> Seq<char> {
    if s.len() >= 3 && s[0] == '/' && is_ascii_alpha(s[1]) && s[2] == ':' {
        s.skip(1)
    } else {
        s
    }
}

/// `s` with every forward slash turned into a backslash.
pub open spec fn backslashes_spec(s: Seq<char>) -> Seq<char> {
    s.map_values(
        |c: char|
            if c == '/' {
                '\\'
            } else {
                c
            },
    )
}

/// The manual Windows fallback for a `file://` URL the url crate could not
/// convert: strip the prefix, repair a slash before a drive letter, and
/// use backslashes throughout.
pub open spec fn windows_file_url_fallback_spec(s: Seq<char>) -> Seq<char> {
    backslashes_spec(repair_drive_spec(strip_file_prefix_spec(s)))
}

/// Every forward slash replaced by a backslash.
fn replace_slashes(s: &str) -> (r: String)
    ensures
        r@ == backslashes_spec(s@),
{
    let n = s.unicode_len();
    let mut out = String::new();
    let mut i: usize = 0;
    while i < n
        invariant
            0 <= i <= n,
            n == s@.len(),
            out@ == backslashes_spec(s@).take(i as int),
        decreases n - i,
    {
        let c = s.get_char(i);
        let mapped = if c == '/' {
            '\\'
        } else {
            c
        };
        let piece = char_to_string(mapped);
        out.append(piece.as_str());
        proof {
            assert(out@ =~= backslashes_spec(s@).take(i + 1));
        }
        i = i + 1;
    }
    proof {
        assert(backslashes_spec(s@).take(n as int) =~= backslashes_spec(s@));
    }
    out
}

/// The manual Windows fallback conversion, on the cleaned argument.
fn windows_file_url_fallback(input: &str) -> (r: String)
    ensures
        r@ == windows_file_url_fallback_spec(input@),
{
    proof {
        reveal_strlit("file://");
    }
    let n = input.unicode_len();
    let raw = if starts_with_str(input, "file://") {
        input.substring_char(7, n)
    } else {
        input
    };
    let m = raw.unicode_len();
    let repaired = if m >= 3 && raw.get_char(0) == '/' && {
        let c1 = raw.get_char(1) as u32;
        (65 <= c1 && c1 <= 90) || (97 <= c1 && c1 <= 122)
    } && raw.get_char(2) == ':' {
        raw.substring_char(1, m)
    } else {
        raw
    };
    proof {
        assert(repaired@ =~= repair_drive_spec(strip_file_prefix_spec(input@)));
    }
    replace_slashes(repaired)
}

/// The platform path a `file://` launch argument denotes: the url crate's
/// conversion when it succeeds, the manual repair on Windows otherwise,
/// nothing for strings the url crate rejects or whose scheme is not
/// `file`. On Windows a parsed `file:` URL always yields a path, since the
/// repair fallback is total; elsewhere one the crate cannot convert yields
/// nothing.
pub fn file_url_to_path(input: &str, windows: bool) -> (r: Option<String>)
    ensures
        !(url_parse_ok(input@) && url_is_file_scheme(input@)) ==> r is None,
        url_parse_ok(input@) && url_is_file_scheme(input@) && windows ==> r is Some,
{
    let u = match parse_file_url(input) {
        None => {
            return None;
        },
        Some(u) => u,
    };
    match url_to_file_path_string(&u) {
        Some(p) => Some(p),
        None => {
            if windows {
                Some(windows_file_url_fallback(input))
            } else {
                None
            }
        },
    }
}

/// Cleans one raw launch argument and resolves it to a candidate path: the
/// empty argument yields nothing; a `file://` argument goes through URL
/// conversion; anything else is taken as a path; device prefixes are
/// stripped from the result.
pub fn normalize_launch_arg(arg: &str, windows: bool) -> (r: Option<String>)
    ensures
        clean_arg_spec(arg@).len() == 0 ==> r is None,
        (clean_arg_spec(arg@).len() > 0 && !has_prefix(clean_arg_spec(arg@), "file://"@)) ==> match r {
            Some(p) => p@ == normalize_device_path_spec(clean_arg_spec(arg@)),
            None => false,
        },
        (has_prefix(clean_arg_spec(arg@), "file://"@) && !(url_parse_ok(clean_arg_spec(arg@))
            && url_is_file_scheme(clean_arg_spec(arg@)))) ==> r is None,
        (has_prefix(clean_arg_spec(arg@), "file://"@) && url_parse_ok(clean_arg_spec(arg@))
            && url_is_file_scheme(clean_arg_spec(arg@)) && windows) ==> r is Some,
        r is Some ==> clean_arg_spec(arg@).len() > 0,
{
    proof {
        reveal_strlit("file://");
    }
    let trimmed = clean_argument(arg);
    if trimmed.unicode_len() == 0 {
        return None;
    }
    if starts_with_str(trimmed, "file://") {
        match file_url_to_path(trimmed, windows) {
            Some(p) => Some(normalize_device_path(p.as_str())),
            None => None,
        }
    } else {
        Some(normalize_device_path(trimmed))
    }
}

/// Whether a candidate path names the running executable. The caller hands
/// in the executable's own canonicalized path; without one nothing is ever
/// treated as the executable.
pub fn is_current_exe(path: &str, exe_canonical: Option<&str>) -> (r: bool)
    ensures
        exe_canonical is None ==> r == false,
{
    match exe_canonical {
        None => false,
        Some(exe) => match canonicalize_path(path) {
            Some(c) => str_eq(c.as_str(), exe),
            None => false,
        },
    }
}

/// The per-candidate acceptance rule over the probe answers: a candidate is
/// kept exactly when it is not the running executable, names an existing
/// regular file, and carries an image extension.
pub open spec fn candidate_gate_spec(
    s: Seq<char>,
    windows: bool,
    is_self: bool,
    is_file: bool,
) -> bool {
    !is_self && is_file && is_image_path_spec(s, windows)
}

/// The pure acceptance decision, with the self-test's and the filesystem's
/// answers supplied by the caller.
pub fn candidate_decision(path: &str, windows: bool, is_self: bool, is_file: bool) -> (r: bool)
    ensures
        r == candidate_gate_spec(path@, windows, is_self, is_file),
{
    !is_self && is_file && is_image_path(path, windows)
}

/// The acceptance test of the resolution pipeline against the live process
/// and filesystem: the pure acceptance rule applied to the probes' answers.
/// A path without an image extension is never accepted, whether or not the
/// file exists.
pub fn is_openable_image(path: &str, windows: bool, exe_canonical: Option<&str>) -> (r: bool)
    ensures
        r ==> is_image_path_spec(path@, windows),
        exists|is_self: bool, is_file: bool| r == #[trigger] candidate_gate_spec(
            path@,
            windows,
            is_self,
            is_file,
        ),
{
    let is_self = is_current_exe(path, exe_canonical);
    let on_disk = path_is_file(path);
    let r = candidate_decision(path, windows, is_self, on_disk);
    proof {
        assert(r == candidate_gate_spec(path@, windows, is_self, on_disk));
    }
    r
}

/// An argument the pipeline rejects before any filesystem look-up: it
/// cleans to nothing, or it is a plain (non-URL) argument whose normalized
/// form does not carry an image extension.
pub open spec fn arg_rejected_outright(a: Seq<char>, windows: bool) -> bool {
    let t = clean_arg_spec(a);
    t.len() == 0 || (!has_prefix(t, "file://"@) && !is_image_path_spec(
        normalize_device_path_spec(t),
        windows,
    ))
}

/// The candidate in its canonical form: symlinks and relative segments
/// resolved when the filesystem can resolve them, the candidate itself
/// otherwise.
pub fn normalize_candidate(path: &str) -> String {
    match canonicalize_path(path) {
        Some(abs) => abs,
        None => String::from_str(path),
    }
}

/// Resolves a startup argument list to the single path to open: the first
/// normalized candidate that is an existing image file and not the running
/// executable, canonicalized; nothing when no argument qualifies. When
/// every argument is rejected outright — empty, or a plain path without an
/// image extension — nothing is resolved, whatever the filesystem holds.
pub fn first_file_path(args: &Vec<String>, windows: bool, exe_canonical: Option<&str>) -> (r:
    Option<String>)
    ensures
        (forall|i: int| 0 <= i < args@.len() ==> arg_rejected_outright(#[trigger] args@[i]@, windows))
            ==> r is None,
        r is Some ==> exists|i: int|
            0 <= i < args@.len() && !arg_rejected_outright(#[trigger] args@[i]@, windows),
{
    let mut candidates: Vec<String> = Vec::new();
    let mut k: usize = 0;
    while k < args.len()
        invariant
            0 <= k <= args@.len(),
            forall|j: int|
                0 <= j < candidates@.len() && is_image_path_spec(
                    #[trigger] candidates@[j]@,
                    windows,
                ) ==> exists|i: int|
                    0 <= i < args@.len() && !arg_rejected_outright(#[trigger] args@[i]@, windows),
        decreases args@.len() - k,
    {
        match normalize_launch_arg(args[k].as_str(), windows) {
            Some(s) => {
                proof {
                    let a = args@[k as int]@;
                    if has_prefix(clean_arg_spec(a), "file://"@) {
                        assert(!arg_rejected_outright(a, windows));
                    } else {
                        assert(s@ == normalize_device_path_spec(clean_arg_spec(a)));
                        if is_image_path_spec(s@, windows) {
                            assert(!arg_rejected_outright(a, windows));
                        }
                    }
                }
                candidates.push(s);
            },
            None => {},
        }
        k = k + 1;
    }
    let mut j: usize = 0;
    while j < candidates.len()
        invariant
            forall|jj: int|
                0 <= jj < candidates@.len() && is_image_path_spec(
                    #[trigger] candidates@[jj]@,
                    windows,
                ) ==> exists|i: int|
                    0 <= i < args@.len() && !arg_rejected_outright(#[trigger] args@[i]@, windows),
        decreases candidates@.len() - j,
    {
        let s = &candidates[j];
        if is_openable_image(s.as_str(), windows, exe_canonical) {
            proof {
                assert(is_image_path_spec(candidates@[j as int]@, windows));
            }
            return Some(normalize_candidate(s.as_str()));
        }
        j = j + 1;
    }
    None
}

/// Resolves a secondary launch's argument list to every path that should be
/// routed, in argument order: each normalized candidate that is an existing
/// image file and not the running executable, canonicalized. When every
/// argument is rejected outright the list is empty, whatever the
/// filesystem holds.
pub fn collect_image_paths(args: &Vec<String>, windows: bool, exe_canonical: Option<&str>) -> (r:
    Vec<String>)
    ensures
        r@.len() <= args@.len(),
        (forall|i: int| 0 <= i < args@.len() ==> arg_rejected_outright(#[trigger] args@[i]@, windows))
            ==> r@.len() == 0,
        r@.len() > 0 ==> exists|i: int|
            0 <= i < args@.len() && !arg_rejected_outright(#[trigger] args@[i]@, windows),
{
    let mut out: Vec<String> = Vec::new();
    let mut k: usize = 0;
    while k < args.len()
        invariant
            0 <= k <= args@.len(),
            out@.len() <= k,
            out@.len() > 0 ==> exists|i: int|
                0 <= i < args@.len() && !arg_rejected_outright(#[trigger] args@[i]@, windows),
        decreases args@.len() - k,
    {
        match normalize_launch_arg(args[k].as_str(), windows) {
            Some(s) => {
                if is_openable_image(s.as_str(), windows, exe_canonical) {
                    proof {
                        let a = args@[k as int]@;
                        if has_prefix(clean_arg_spec(a), "file://"@) {
                            assert(!arg_rejected_outright(a, windows));
                        } else {
                            assert(s@ == normalize_device_path_spec(clean_arg_spec(a)));
                            assert(is_image_path_spec(s@, windows));
                            assert(!arg_rejected_outright(a, windows));
                        }
                    }
                    out.push(normalize_candidate(s.as_str()));
                }
            },
            None => {},
        }
        k = k + 1;
    }
    out
}

} // verus!
