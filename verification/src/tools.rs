//! Where the GIF optimizer is found.

use vstd::prelude::*;
use crate::paths::{join, path_join, string_of_range};
use crate::output_path::{is_white_space, white_space_char};
use crate::strings::chars_of;

verus! {

/// `std::path::MAIN_SEPARATOR`: `\` on Windows, `/` elsewhere. Which one a
/// build has depends on its target, so nothing is claimed of it.
#[verifier::external_body]
fn main_separator() -> char {
    std::path::MAIN_SEPARATOR
}

/// The name of the gifsicle executable on a platform with the given path
/// separator: with `.exe` where it is `\`.
pub open spec fn spec_gifsicle_binary_name(separator: char) -> Seq<char> {
    if separator == '\\' { "gifsicle.exe"@ } else { "gifsicle"@ }
}

pub fn gifsicle_binary_name_for(separator: char) -> (r: &'static str)
    ensures
        r@ == spec_gifsicle_binary_name(separator),
{
    if separator == '\\' { "gifsicle.exe" } else { "gifsicle" }
}

/// The name of the gifsicle executable on this platform.
pub fn gifsicle_binary_name() -> (r: &'static str)
    ensures
        r@ == "gifsicle.exe"@ || r@ == "gifsicle"@,
{
    gifsicle_binary_name_for(main_separator())
}

/// Where a bundled gifsicle lies: `vendor/gifsicle/<name>` under the project.
pub open spec fn spec_bundled_gifsicle(project_root: Seq<char>, binary_name: Seq<char>) -> Seq<char> {
    path_join(path_join(path_join(project_root, "vendor"@), "gifsicle"@), binary_name)
}

pub fn bundled_gifsicle_path(project_root: &str, binary_name: &str) -> (r: String)
    ensures
        r@ == spec_bundled_gifsicle(project_root@, binary_name@),
{
    let vendor = join(project_root, "vendor");
    let folder = join(vendor.as_str(), "gifsicle");
    join(folder.as_str(), binary_name)
}

/// The bundled gifsicle, where the caller found that it exists.
pub fn gifsicle_path(project_root: &str, bundled_exists: bool) -> (r: Option<String>)
    ensures
        bundled_exists <==> r.is_some(),
        match r {
            Some(p) => p@ == spec_bundled_gifsicle(project_root@, "gifsicle.exe"@)
                || p@ == spec_bundled_gifsicle(project_root@, "gifsicle"@),
            None => true,
        },
{
    if !bundled_exists {
        return None;
    }
    Some(bundled_gifsicle_path(project_root, gifsicle_binary_name()))
}

/// Text with white space removed from its start.
pub open spec fn trim_start(s: Seq<char>) -> Seq<char>
    decreases s.len(),
{
    if s.len() > 0 && is_white_space(s[0]) { trim_start(s.drop_first()) } else { s }
}

/// Text with white space removed from its end.
pub open spec fn trim_end(s: Seq<char>) -> Seq<char>
    decreases s.len(),
{
    if s.len() > 0 && is_white_space(s.last()) { trim_end(s.drop_last()) } else { s }
}

/// Text with white space removed from both ends (that of `str::trim`).
pub open spec fn trimmed(s: Seq<char>) -> Seq<char> {
    trim_end(trim_start(s))
}

/// `s` with white space removed from both ends.
pub fn trim_text(s: &str) -> (r: String)
    ensures
        r@ == trimmed(s@),
{
    let chars = chars_of(s);
    let n = chars.len();
    let mut i: usize = 0;
    assert(s@.subrange(0, n as int) =~= s@);
    while i < n && white_space_char(chars[i])
        invariant
            i <= n,
            n == chars@.len(),
            chars@ == s@,
            trim_start(s@) == trim_start(s@.subrange(i as int, n as int)),
        decreases n - i,
    {
        assert(s@.subrange(i as int, n as int).drop_first() =~= s@.subrange(i + 1, n as int));
        i = i + 1;
    }
    assert(trim_start(s@.subrange(i as int, n as int)) == s@.subrange(i as int, n as int));
    let mut j: usize = n;
    while j > i && white_space_char(chars[j - 1])
        invariant
            i <= j <= n,
            n == chars@.len(),
            chars@ == s@,
            trimmed(s@) == trim_end(s@.subrange(i as int, j as int)),
        decreases j - i,
    {
        assert(s@.subrange(i as int, j as int).drop_last() =~= s@.subrange(i as int, j - 1));
        j = j - 1;
    }
    assert(trim_end(s@.subrange(i as int, j as int)) == s@.subrange(i as int, j as int));
    string_of_range(&chars, i, j)
}

/// The first of `paths` that is a file, as `is_file` tells.
pub open spec fn spec_first_file(paths: Seq<Seq<char>>, is_file: Seq<bool>) -> Option<Seq<char>>
    decreases paths.len(),
{
    if paths.len() == 0 || is_file.len() == 0 {
        None
    } else if is_file[0] {
        Some(paths[0])
    } else {
        spec_first_file(paths.drop_first(), is_file.drop_first())
    }
}

/// Where gifsicle is taken from: the `DROPSLIM_GIFSICLE` setting, trimmed,
/// where it is not empty and names a file; else the bundled executable where
/// it is a file; else the first candidate on the search path that is a file.
pub open spec fn spec_locate_gifsicle(
    from_env: Option<Seq<char>>,
    env_is_file: bool,
    bundled: Seq<char>,
    bundled_is_file: bool,
    on_path: Seq<Seq<char>>,
    on_path_is_file: Seq<bool>,
) -> Option<Seq<char>> {
    if from_env.is_some() && trimmed(from_env.unwrap()).len() > 0 && env_is_file {
        Some(trimmed(from_env.unwrap()))
    } else if bundled_is_file {
        Some(bundled)
    } else {
        spec_first_file(on_path, on_path_is_file)
    }
}

/// Chooses the gifsicle executable. The caller says whether the trimmed
/// setting, the bundled executable and each search-path candidate is a file.
pub fn locate_gifsicle(
    from_env: Option<&str>,
    env_is_file: bool,
    bundled: &str,
    bundled_is_file: bool,
    on_path: &Vec<String>,
    on_path_is_file: &Vec<bool>,
) -> (r: Option<String>)
    requires
        on_path@.len() == on_path_is_file@.len(),
    ensures
        match r {
            Some(p) => spec_locate_gifsicle(
                match from_env { Some(v) => Some(v@), None => None },
                env_is_file,
                bundled@,
                bundled_is_file,
                on_path@.map_values(|p: String| p@),
                on_path_is_file@,
            ) == Some(p@),
            None => spec_locate_gifsicle(
                match from_env { Some(v) => Some(v@), None => None },
                env_is_file,
                bundled@,
                bundled_is_file,
                on_path@.map_values(|p: String| p@),
                on_path_is_file@,
            ).is_none(),
        },
{
    match from_env {
        Some(v) => {
            let t = trim_text(v);
            if t.unicode_len() > 0 && env_is_file {
                return Some(t);
            }
        },
        None => {},
    }
    if bundled_is_file {
        return Some(bundled.to_owned());
    }
    let ghost texts = on_path@.map_values(|p: String| p@);
    assert(texts.subrange(0, texts.len() as int) =~= texts);
    assert(on_path_is_file@.subrange(0, on_path_is_file@.len() as int) =~= on_path_is_file@);
    let mut i: usize = 0;
    while i < on_path.len()
        invariant
            i <= on_path@.len(),
            on_path@.len() == on_path_is_file@.len(),
            texts == on_path@.map_values(|p: String| p@),
            !bundled_is_file,
            !(from_env.is_some() && trimmed(from_env.unwrap()@).len() > 0 && env_is_file),
            spec_first_file(texts, on_path_is_file@) == spec_first_file(
                texts.subrange(i as int, texts.len() as int),
                on_path_is_file@.subrange(i as int, on_path_is_file@.len() as int),
            ),
        decreases on_path@.len() - i,
    {
        if on_path_is_file[i] {
            assert(texts.subrange(i as int, texts.len() as int)[0] == on_path@[i as int]@);
            assert(on_path_is_file@.subrange(i as int, on_path_is_file@.len() as int)[0]);
            let found = on_path[i].clone();
            assert(found@ == on_path@[i as int]@);
            return Some(found);
        }
        assert(texts.subrange(i as int, texts.len() as int).drop_first() =~= texts.subrange(i + 1, texts.len() as int));
        assert(on_path_is_file@.subrange(i as int, on_path_is_file@.len() as int).drop_first()
            =~= on_path_is_file@.subrange(i + 1, on_path_is_file@.len() as int));
        i = i + 1;
    }
    None
}

} // verus!
