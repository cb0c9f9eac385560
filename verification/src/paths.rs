//! Pure path analysis: file-name extensions, the image and write allow-lists,
//! extended-length device prefixes, absolute-path and parent-directory tests.
//! Platform-dependent rules take an explicit `windows` flag instead of being
//! compiled in, so every branch is checked on every platform.

use vstd::prelude::*;
use crate::text::{has_prefix, trim_spec, trim_str, starts_with_str};

verus! {

/// Path-component separators: `/` everywhere, `\` as well on Windows.
pub open spec fn is_sep_char(c: char, windows: bool) -> bool {
    c == '/' || (windows && c == '\\')
}

/// Index of the last separator in `s`, or -1 when there is none.
pub open spec fn last_sep_index(s: Seq<char>, windows: bool) -> int
    decreases s.len(),
{
    if s.len() == 0 {
        -1
    } else if is_sep_char(s.last(), windows) {
        s.len() - 1
    } else {
        last_sep_index(s.drop_last(), windows)
    }
}

/// Index of the last dot in `s`, or -1 when there is none.
pub open spec fn last_dot_index(s: Seq<char>) -> int
    decreases s.len(),
{
    if s.len() == 0 {
        -1
    } else if s.last() == '.' {
        s.len() - 1
    } else {
        last_dot_index(s.drop_last())
    }
}

/// The final path component of `s`.
pub open spec fn file_name_spec(s: Seq<char>, windows: bool) -> Seq<char> {
    s.skip(last_sep_index(s, windows) + 1)
}

/// The extension of `s`: what follows the final dot of the final component,
/// or nothing when that component has no dot or starts with its only dot.
pub open spec fn ext_of_spec(s: Seq<char>, windows: bool) -> Option<Seq<char>> {
    let f = file_name_spec(s, windows);
    let d = last_dot_index(f);
    if d <= 0 {
        None
    } else {
        Some(f.skip(d + 1))
    }
}

/// Case-insensitive match of one character against a lowercase reference.
pub open spec fn chars_ci_equal(c: char, lower: char) -> bool {
    c == lower || (65 <= c as u32 <= 90 && c as u32 + 32 == lower as u32)
}

/// Case-insensitive match of `s` against a lowercase reference string.
pub open spec fn seq_ci_equal(s: Seq<char>, lower: Seq<char>) -> bool {
    s.len() == lower.len() && forall|i: int|
        0 <= i < s.len() ==> chars_ci_equal(#[trigger] s[i], lower[i])
}

/// The fixed allow-list of image extensions, case-insensitive.
pub open spec fn is_image_ext_seq(e: Seq<char>) -> bool {
    ||| seq_ci_equal(e, "png"@)
    ||| seq_ci_equal(e, "jpg"@)
    ||| seq_ci_equal(e, "jpeg"@)
    ||| seq_ci_equal(e, "bmp"@)
    ||| seq_ci_equal(e, "gif"@)
    ||| seq_ci_equal(e, "webp"@)
}

/// The broader allow-list for writes: images plus palette files.
pub open spec fn is_write_ext_seq(e: Seq<char>) -> bool {
    is_image_ext_seq(e) || seq_ci_equal(e, "pal"@)
}

/// Lifts an extension predicate over a missing extension: none is refused.
pub open spec fn is_image_ext_opt(e: Option<Seq<char>>) -> bool {
    match e {
        Some(x) => is_image_ext_seq(x),
        None => false,
    }
}

/// The write allow-list over a possibly missing extension.
pub open spec fn is_write_ext_opt(e: Option<Seq<char>>) -> bool {
    match e {
        Some(x) => is_write_ext_seq(x),
        None => false,
    }
}

/// A path whose extension is in the image allow-list.
pub open spec fn is_image_path_spec(s: Seq<char>, windows: bool) -> bool {
    is_image_ext_opt(ext_of_spec(s, windows))
}

/// The views of an optional borrowed string.
pub open spec fn opt_str_view(e: Option<&str>) -> Option<Seq<char>> {
    match e {
        Some(x) => Some(x@),
        None => None,
    }
}

/// The extended-length prefix that rewrites to a conventional UNC path.
pub open spec fn unc_device_prefix() -> Seq<char> {
    seq!['\\', '\\', '?', '\\', 'U', 'N', 'C', '\\']
}

/// The plain extended-length device prefix.
pub open spec fn plain_device_prefix() -> Seq<char> {
    seq!['\\', '\\', '?', '\\']
}

/// `s` after trimming and stripping an extended-length device prefix, the
/// UNC form rewritten back to `\\server\share`.
pub open spec fn normalize_device_path_spec(s: Seq<char>) -> Seq<char> {
    let t = trim_spec(s);
    if has_prefix(t, unc_device_prefix()) {
        seq!['\\', '\\'] + t.skip(8)
    } else if has_prefix(t, plain_device_prefix()) {
        t.skip(4)
    } else {
        t
    }
}

/// Absolute paths: rooted at `/`, or on Windows at a drive letter or a UNC
/// server prefix.
pub open spec fn is_absolute_spec(s: Seq<char>, windows: bool) -> bool {
    if windows {
        ||| (s.len() >= 3 && is_ascii_alpha(s[0]) && s[1] == ':' && (s[2] == '\\' || s[2] == '/'))
        ||| (s.len() >= 2 && s[0] == '\\' && s[1] == '\\')
    } else {
        s.len() >= 1 && s[0] == '/'
    }
}

/// An ASCII letter.
pub open spec fn is_ascii_alpha(c: char) -> bool {
    (65 <= c as u32 <= 90) || (97 <= c as u32 <= 122)
}

/// The directory holding `s`: everything before the last separator, kept as
/// the bare root for `/x` and as `C:\` for a Windows drive root.
pub open spec fn parent_dir_spec(s: Seq<char>, windows: bool) -> Option<Seq<char>> {
    let k = last_sep_index(s, windows);
    if k < 0 {
        None
    } else if k == 0 {
        Some(s.take(1))
    } else if windows && k == 2 && s[1] == ':' {
        Some(s.take(3))
    } else {
        Some(s.take(k))
    }
}

/// The recursive last-separator search agrees with an index found by
/// scanning from the end.
proof fn lemma_last_sep_at(s: Seq<char>, k: int, windows: bool)
    requires
        -1 <= k < s.len(),
        k >= 0 ==> is_sep_char(s[k], windows),
        forall|i: int| k < i < s.len() ==> !is_sep_char(#[trigger] s[i], windows),
    ensures
        last_sep_index(s, windows) == k,
    decreases s.len(),
{
    if s.len() == 0 {
    } else if is_sep_char(s.last(), windows) {
        assert(k == s.len() - 1);
    } else {
        assert(k < s.len() - 1);
        lemma_last_sep_at(s.drop_last(), k, windows);
    }
}

/// The recursive last-dot search agrees with an index found by scanning
/// from the end.
proof fn lemma_last_dot_at(s: Seq<char>, k: int)
    requires
        -1 <= k < s.len(),
        k >= 0 ==> s[k] == '.',
        forall|i: int| k < i < s.len() ==> #[trigger] s[i] != '.',
    ensures
        last_dot_index(s) == k,
    decreases s.len(),
{
    if s.len() == 0 {
    } else if s.last() == '.' {
        assert(k == s.len() - 1);
    } else {
        assert(k < s.len() - 1);
        lemma_last_dot_at(s.drop_last(), k);
    }
}

/// Separator test on one character.
pub fn is_sep(c: char, windows: bool) -> (r: bool)
    ensures
        r == is_sep_char(c, windows),
{
    c == '/' || (windows && c == '\\')
}

/// The extension of `path`, when its final component has one.
pub fn extension_of<'a>(path: &'a str, windows: bool) -> (r: Option<&'a str>)
    ensures
        opt_str_view(r) == ext_of_spec(path@, windows),
{
    let n = path.unicode_len();
    let mut j: usize = n;
    while j > 0 && !is_sep(path.get_char(j - 1), windows)
        invariant
            0 <= j <= n,
            n == path@.len(),
            forall|i: int| j <= i < n ==> !is_sep_char(#[trigger] path@[i], windows),
        decreases j,
    {
        j = j - 1;
    }
    proof {
        if j == 0 {
            lemma_last_sep_at(path@, -1, windows);
        } else {
            lemma_last_sep_at(path@, j - 1, windows);
        }
        assert(file_name_spec(path@, windows) =~= path@.skip(j as int));
    }
    let mut e: usize = n;
    while e > j && path.get_char(e - 1) != '.'
        invariant
            j <= e <= n,
            n == path@.len(),
            forall|i: int| e <= i < n ==> #[trigger] path@[i] != '.',
        decreases e,
    {
        e = e - 1;
    }
    let ghost f = path@.skip(j as int);
    proof {
        assert(forall|i: int| 0 <= i < f.len() ==> f[i] == path@[i + j]);
        if e == j {
            lemma_last_dot_at(f, -1);
        } else {
            assert(f[e - 1 - j] == path@[e - 1]);
            lemma_last_dot_at(f, e - 1 - j);
        }
    }
    if e == j {
        None
    } else if e - 1 == j {
        None
    } else {
        let r = path.substring_char(e, n);
        proof {
            assert(r@ =~= f.skip(e - j));
        }
        Some(r)
    }
}

/// Case-insensitive equality against a lowercase reference string.
pub fn eq_ignore_ascii_case(s: &str, lower: &str) -> (r: bool)
    ensures
        r == seq_ci_equal(s@, lower@),
{
    let n = s.unicode_len();
    let m = lower.unicode_len();
    if n != m {
        return false;
    }
    let mut i: usize = 0;
    while i < n
        invariant
            0 <= i <= n,
            n == s@.len(),
            n == lower@.len(),
            forall|k: int| 0 <= k < i ==> chars_ci_equal(#[trigger] s@[k], lower@[k]),
        decreases n - i,
    {
        let a = s.get_char(i) as u32;
        let b = lower.get_char(i) as u32;
        if !(a == b || (65 <= a && a <= 90 && a + 32 == b)) {
            proof {
                assert(s@[i as int] as u32 == a && lower@[i as int] as u32 == b);
                assert(!chars_ci_equal(s@[i as int], lower@[i as int]));
            }
            return false;
        }
        i = i + 1;
    }
    true
}

/// Membership of an optional extension in the image allow-list.
pub fn is_image_extension(ext: Option<&str>) -> (r: bool)
    ensures
        r == is_image_ext_opt(opt_str_view(ext)),
{
    match ext {
        None => false,
        Some(e) => {
            eq_ignore_ascii_case(e, "png") || eq_ignore_ascii_case(e, "jpg")
                || eq_ignore_ascii_case(e, "jpeg") || eq_ignore_ascii_case(e, "bmp")
                || eq_ignore_ascii_case(e, "gif") || eq_ignore_ascii_case(e, "webp")
        },
    }
}

/// Membership of an optional extension in the write allow-list.
pub fn is_allowed_write_extension(ext: Option<&str>) -> (r: bool)
    ensures
        r == is_write_ext_opt(opt_str_view(ext)),
{
    match ext {
        None => false,
        Some(e) => {
            eq_ignore_ascii_case(e, "png") || eq_ignore_ascii_case(e, "jpg")
                || eq_ignore_ascii_case(e, "jpeg") || eq_ignore_ascii_case(e, "bmp")
                || eq_ignore_ascii_case(e, "gif") || eq_ignore_ascii_case(e, "webp")
                || eq_ignore_ascii_case(e, "pal")
        },
    }
}

/// A path whose final component carries an image extension.
pub fn is_image_path(path: &str, windows: bool) -> (r: bool)
    ensures
        r == is_image_path_spec(path@, windows),
{
    let ext = extension_of(path, windows);
    is_image_extension(ext)
}

/// A path whose final component carries a write-allowed extension.
pub fn is_allowed_write_path(path: &str, windows: bool) -> (r: bool)
    ensures
        r == is_write_ext_opt(ext_of_spec(path@, windows)),
{
    let ext = extension_of(path, windows);
    is_allowed_write_extension(ext)
}

/// Strips an extended-length device prefix after trimming, rewriting the
/// UNC form back to a conventional server path.
pub fn normalize_device_path(path: &str) -> (r: String)
    ensures
        r@ == normalize_device_path_spec(path@),
{
    proof {
        reveal_strlit("\\\\?\\UNC\\");
        reveal_strlit("\\\\?\\");
        reveal_strlit("\\\\");
        assert("\\\\?\\UNC\\"@ =~= unc_device_prefix());
        assert("\\\\?\\"@ =~= plain_device_prefix());
    }
    let t = trim_str(path);
    let n = t.unicode_len();
    if starts_with_str(t, "\\\\?\\UNC\\") {
        let mut out = String::new();
        out.append("\\\\");
        out.append(t.substring_char(8, n));
        proof {
            assert(out@ =~= seq!['\\', '\\'] + t@.skip(8));
        }
        out
    } else if starts_with_str(t, "\\\\?\\") {
        let rest = t.substring_char(4, n);
        let out = String::from_str(rest);
        proof {
            assert(out@ =~= t@.skip(4));
        }
        out
    } else {
        String::from_str(t)
    }
}

/// Absolute-path test over the library's platform rules.
pub fn path_is_absolute(path: &str, windows: bool) -> (r: bool)
    ensures
        r == is_absolute_spec(path@, windows),
{
    let n = path.unicode_len();
    if windows {
        let drive = n >= 3 && {
            let c0 = path.get_char(0) as u32;
            let c1 = path.get_char(1);
            let c2 = path.get_char(2);
            ((65 <= c0 && c0 <= 90) || (97 <= c0 && c0 <= 122)) && c1 == ':' && (c2 == '\\' || c2
                == '/')
        };
        let unc = n >= 2 && path.get_char(0) == '\\' && path.get_char(1) == '\\';
        drive || unc
    } else {
        n >= 1 && path.get_char(0) == '/'
    }
}

/// Trims and strips device prefixes, then requires the result be absolute;
/// a relative path is refused with the guard's reason.
pub fn normalize_to_absolute_path(path: &str, windows: bool) -> (r: Result<String, String>)
    ensures
        match r {
            Ok(p) => p@ == normalize_device_path_spec(path@) && is_absolute_spec(p@, windows),
            Err(e) => !is_absolute_spec(normalize_device_path_spec(path@), windows) && e@
                == "path must be absolute"@,
        },
{
    let normalized = normalize_device_path(path);
    if path_is_absolute(normalized.as_str(), windows) {
        Ok(normalized)
    } else {
        Err(String::from_str("path must be absolute"))
    }
}

/// The directory that holds `path`, when the path names one.
pub fn parent_dir(path: &str, windows: bool) -> (r: Option<String>)
    ensures
        match r {
            Some(p) => parent_dir_spec(path@, windows) == Some(p@),
            None => parent_dir_spec(path@, windows) is None,
        },
{
    let n = path.unicode_len();
    let mut j: usize = n;
    while j > 0 && !is_sep(path.get_char(j - 1), windows)
        invariant
            0 <= j <= n,
            n == path@.len(),
            forall|i: int| j <= i < n ==> !is_sep_char(#[trigger] path@[i], windows),
        decreases j,
    {
        j = j - 1;
    }
    proof {
        if j == 0 {
            lemma_last_sep_at(path@, -1, windows);
        } else {
            lemma_last_sep_at(path@, j - 1, windows);
        }
    }
    if j == 0 {
        None
    } else if j == 1 {
        proof {
            assert(path@.subrange(0, 1) =~= path@.take(1));
        }
        Some(String::from_str(path.substring_char(0, 1)))
    } else if windows && j == 3 && path.get_char(1) == ':' {
        proof {
            assert(path@.subrange(0, 3) =~= path@.take(3));
        }
        Some(String::from_str(path.substring_char(0, 3)))
    } else {
        proof {
            assert(path@.subrange(0, j - 1) =~= path@.take(j - 1));
        }
        Some(String::from_str(path.substring_char(0, j - 1)))
    }
}

} // verus!
