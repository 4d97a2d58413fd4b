//! Path handling over plain strings.
//!
//! The component-level operations (`file_name`, `parent`, `join`,
//! `with_file_name`, `is_absolute`) are those of `std::path::Path`; the
//! extension and stem of a file name follow the rule that `std::path::Path`
//! documents for them and are computed here.

use vstd::prelude::*;
use crate::strings::{chars_of, push_char};

verus! {

/// What `std::path::Path::file_name` returns for a path, as text.
pub uninterp spec fn path_file_name(path: Seq<char>) -> Option<Seq<char>>;

/// What `std::path::Path::parent` returns for a path, as text.
pub uninterp spec fn path_parent(path: Seq<char>) -> Option<Seq<char>>;

/// What `std::path::Path::join` returns for a base and a pushed path, as text.
pub uninterp spec fn path_join(base: Seq<char>, pushed: Seq<char>) -> Seq<char>;

/// What `std::path::Path::with_file_name` returns for a path and a name, as text.
pub uninterp spec fn path_with_file_name(path: Seq<char>, name: Seq<char>) -> Seq<char>;

/// `std::path::Path::file_name`, as text. The final component of a path
/// built from UTF-8 text is UTF-8 text, so the conversion never fails.
/// Claimed: the result is the named value `path_file_name` of the input.
#[verifier::external_body]
pub fn file_name(path: &str) -> (r: Option<String>)
    ensures
        match r {
            Some(name) => path_file_name(path@) == Some(name@),
            None => path_file_name(path@).is_none(),
        },
{
    std::path::Path::new(path).file_name().map(|name| name.to_string_lossy().into_owned())
}

/// `std::path::Path::parent`, as text.
/// Claimed: the result is the named value `path_parent` of the input.
#[verifier::external_body]
pub fn parent(path: &str) -> (r: Option<String>)
    ensures
        match r {
            Some(dir) => path_parent(path@) == Some(dir@),
            None => path_parent(path@).is_none(),
        },
{
    std::path::Path::new(path).parent().map(|dir| dir.to_string_lossy().into_owned())
}

/// `std::path::Path::join`, as text.
/// Claimed: the result is the named value `path_join` of the two inputs; and,
/// as joining a relative name appends it as the last component, a plain name
/// is the file name of the result.
#[verifier::external_body]
pub fn join(base: &str, pushed: &str) -> (r: String)
    ensures
        r@ == path_join(base@, pushed@),
        plain_file_name(pushed@) ==> path_file_name(r@) == Some(pushed@),
{
    std::path::Path::new(base).join(pushed).to_string_lossy().into_owned()
}

/// A name that is one ordinary path component on every platform: not empty,
/// not `.` or `..`, and free of `/`, `\\` and `:`.
pub open spec fn plain_file_name(name: Seq<char>) -> bool {
    &&& name.len() > 0
    &&& name != seq!['.']
    &&& name != seq!['.', '.']
    &&& forall|i: int| 0 <= i < name.len() ==> #[trigger] name[i] != '/' && name[i] != '\\' && name[i] != ':'
}

/// `std::path::Path::with_file_name`, as text.
/// Claimed: the result is the named value `path_with_file_name` of the
/// inputs; and, as `with_file_name` drops the last component (if any) and
/// pushes the name, a plain name is the file name of the result.
#[verifier::external_body]
pub fn with_file_name(path: &str, name: &str) -> (r: String)
    ensures
        r@ == path_with_file_name(path@, name@),
        plain_file_name(name@) ==> path_file_name(r@) == Some(name@),
{
    std::path::Path::new(path).with_file_name(name).to_string_lossy().into_owned()
}

/// What `std::path::Path::is_absolute` returns for a path, as text. The rule
/// is the build target's: a leading root on Unix-like systems, a prefix and a
/// root on Windows.
pub uninterp spec fn path_is_absolute(path: Seq<char>) -> bool;

/// `std::path::Path::is_absolute`.
/// Claimed: the result is the named value `path_is_absolute` of the input.
#[verifier::external_body]
pub fn is_absolute(path: &str) -> (r: bool)
    ensures
        r == path_is_absolute(path@),
{
    std::path::Path::new(path).is_absolute()
}

/// Whether `std::path::Path`'s equality holds between two paths, as text.
pub uninterp spec fn path_eq(a: Seq<char>, b: Seq<char>) -> bool;

/// `==` on `std::path::Path`, which compares paths component by component.
/// Claimed: the result is the named value `path_eq` of the two inputs.
#[verifier::external_body]
pub fn same_path(a: &str, b: &str) -> (r: bool)
    ensures
        r == path_eq(a@, b@),
{
    std::path::Path::new(a) == std::path::Path::new(b)
}

/// Index of the last `.` in `s`, if any.
pub open spec fn last_dot(s: Seq<char>) -> Option<int>
    decreases s.len(),
{
    if s.len() == 0 {
        None
    } else if s.last() == '.' {
        Some(s.len() - 1)
    } else {
        last_dot(s.drop_last())
    }
}

/// The extension of a file name: the text after its last `.`, unless the
/// name has no `.` or its only `.` is the first character.
pub open spec fn name_extension(name: Seq<char>) -> Option<Seq<char>> {
    match last_dot(name) {
        Some(i) => if i == 0 { None } else { Some(name.subrange(i + 1, name.len() as int)) },
        None => None,
    }
}

/// The stem of a file name: the text before its last `.`, or the whole name
/// where `name_extension` finds none.
pub open spec fn name_stem(name: Seq<char>) -> Seq<char> {
    match last_dot(name) {
        Some(i) => if i == 0 { name } else { name.subrange(0, i) },
        None => name,
    }
}

/// The extension of a path (that of `std::path::Path::extension`).
pub open spec fn path_extension(path: Seq<char>) -> Option<Seq<char>> {
    match path_file_name(path) {
        Some(name) => name_extension(name),
        None => None,
    }
}

/// The stem of a path (that of `std::path::Path::file_stem`).
pub open spec fn path_file_stem(path: Seq<char>) -> Option<Seq<char>> {
    match path_file_name(path) {
        Some(name) => Some(name_stem(name)),
        None => None,
    }
}

pub proof fn lemma_last_dot_bounds(s: Seq<char>)
    ensures
        match last_dot(s) {
            Some(i) => 0 <= i < s.len() && s[i] == '.'
                && forall|j: int| i < j < s.len() ==> s[j] != '.',
            None => forall|j: int| 0 <= j < s.len() ==> s[j] != '.',
        },
    decreases s.len(),
{
    if s.len() > 0 && s.last() != '.' {
        lemma_last_dot_bounds(s.drop_last());
        assert(forall|j: int| 0 <= j < s.len() - 1 ==> s.drop_last()[j] == s[j]);
    }
}

/// Finds the last `.` in `chars`.
fn find_last_dot(chars: &Vec<char>) -> (r: Option<usize>)
    ensures
        match r {
            Some(i) => last_dot(chars@) == Some(i as int) && i < chars.len(),
            None => last_dot(chars@).is_none(),
        },
{
    let mut i = chars.len();
    assert(chars@.subrange(0, i as int) == chars@);
    while i > 0
        invariant
            i <= chars@.len(),
            last_dot(chars@) == last_dot(chars@.subrange(0, i as int)),
        decreases i,
    {
        let ghost prefix = chars@.subrange(0, i as int);
        if chars[i - 1] == '.' {
            assert(prefix.last() == '.');
            return Some(i - 1);
        }
        assert(prefix.drop_last() == chars@.subrange(0, i - 1));
        i = i - 1;
    }
    None
}

/// Text of `chars[from..to]`.
pub fn string_of_range(chars: &Vec<char>, from: usize, to: usize) -> (r: String)
    requires
        from <= to <= chars@.len(),
    ensures
        r@ == chars@.subrange(from as int, to as int),
{
    let mut out = String::new();
    let mut i = from;
    while i < to
        invariant
            from <= i <= to,
            to <= chars@.len(),
            out@ == chars@.subrange(from as int, i as int),
        decreases to - i,
    {
        push_char(&mut out, chars[i]);
        assert(chars@.subrange(from as int, i + 1) == chars@.subrange(from as int, i as int).push(chars@[i as int]));
        i = i + 1;
    }
    out
}

/// The extension of a file name.
pub fn extension_of_name(name: &str) -> (r: Option<String>)
    ensures
        match r {
            Some(ext) => name_extension(name@) == Some(ext@),
            None => name_extension(name@).is_none(),
        },
{
    let chars = chars_of(name);
    match find_last_dot(&chars) {
        Some(i) => {
            if i == 0 {
                None
            } else {
                Some(string_of_range(&chars, i + 1, chars.len()))
            }
        },
        None => None,
    }
}

/// The stem of a file name.
pub fn stem_of_name(name: &str) -> (r: String)
    ensures
        r@ == name_stem(name@),
{
    let chars = chars_of(name);
    match find_last_dot(&chars) {
        Some(i) => {
            if i == 0 {
                name.to_owned()
            } else {
                string_of_range(&chars, 0, i)
            }
        },
        None => name.to_owned(),
    }
}

/// The extension of a path, as `std::path::Path::extension` gives it.
pub fn extension(path: &str) -> (r: Option<String>)
    ensures
        match r {
            Some(ext) => path_extension(path@) == Some(ext@),
            None => path_extension(path@).is_none(),
        },
{
    match file_name(path) {
        Some(name) => extension_of_name(name.as_str()),
        None => None,
    }
}

/// The stem of a path, as `std::path::Path::file_stem` gives it.
pub fn file_stem(path: &str) -> (r: Option<String>)
    ensures
        match r {
            Some(stem) => path_file_stem(path@) == Some(stem@),
            None => path_file_stem(path@).is_none(),
        },
{
    match file_name(path) {
        Some(name) => Some(stem_of_name(name.as_str())),
        None => None,
    }
}

} // verus!
