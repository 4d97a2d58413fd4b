//! The scratch file an optimization writes before it is kept or dropped.

use vstd::prelude::*;
use crate::paths::{
    extension, file_stem, lemma_last_dot_bounds, name_extension, name_stem, path_extension,
    path_file_name, path_file_stem, path_with_file_name, plain_file_name, with_file_name,
};

verus! {

/// The file name of the scratch file for `output`: its stem (`output` where
/// it has none), `.dropslim`, then `.` and its extension if it has one.
pub open spec fn spec_temp_file_name(output: Seq<char>) -> Seq<char> {
    let stem = match path_file_stem(output) {
        Some(s) => s,
        None => "output"@,
    };
    let ext = match path_extension(output) {
        Some(e) => "."@ + e,
        None => Seq::empty(),
    };
    stem + ".dropslim"@ + ext
}

/// The scratch path for `output`: beside it, under `spec_temp_file_name`.
/// Where the output has a file name and the scratch name is one plain
/// component, the scratch path is not the output's path.
pub fn dropslim_temp_path(output: &str) -> (r: String)
    ensures
        r@ == path_with_file_name(output@, spec_temp_file_name(output@)),
        path_file_name(output@).is_some() && plain_file_name(spec_temp_file_name(output@)) ==> r@ != output@,
{
    proof {
        reveal_strlit("output");
        reveal_strlit(".dropslim");
        reveal_strlit(".");
    }
    let mut name = match file_stem(output) {
        Some(s) => s,
        None => "output".to_owned(),
    };
    name.append(".dropslim");
    let ghost base = name@;
    match extension(output) {
        Some(ext) => {
            name.append(".");
            name.append(ext.as_str());
            assert(name@ =~= base + ("."@ + ext@));
        },
        None => {
            assert(name@ + Seq::<char>::empty() == name@);
        },
    }
    let r = with_file_name(output, name.as_str());
    proof {
        lemma_temp_name_differs(output@);
    }
    r
}

/// The scratch file never takes the name of the output it stands for, so
/// writing it never touches the output.
pub proof fn lemma_temp_name_differs(output: Seq<char>)
    ensures
        match path_file_name(output) {
            Some(name) => spec_temp_file_name(output) != name,
            None => true,
        },
{
    match path_file_name(output) {
        Some(name) => {
            lemma_last_dot_bounds(name);
            let t = spec_temp_file_name(output);
            assert(".dropslim"@.len() == 9) by { reveal_strlit(".dropslim"); }
            assert("."@.len() == 1) by { reveal_strlit("."); }
            match name_extension(name) {
                Some(e) => {
                    assert(name_stem(name).len() + 1 + e.len() == name.len());
                    assert(t.len() == name.len() + 9);
                },
                None => {
                    assert(name_stem(name) == name);
                    assert(t.len() == name.len() + 9);
                },
            }
        },
        None => {},
    }
}

/// A scratch file for one output.
pub struct TempFile {
    path: String,
}

impl TempFile {
    pub closed spec fn spec_path(&self) -> Seq<char> {
        self.path@
    }

    /// The scratch file for `output`. Removing it once done is the caller's
    /// part.
    pub fn at(output: &str) -> (r: Self)
        ensures
            r.spec_path() == path_with_file_name(output@, spec_temp_file_name(output@)),
            path_file_name(output@).is_some() && plain_file_name(spec_temp_file_name(output@))
                ==> r.spec_path() != output@,
    {
        TempFile { path: dropslim_temp_path(output) }
    }

    pub fn path(&self) -> (r: &str)
        ensures
            r@ == self.spec_path(),
    {
        self.path.as_str()
    }
}

} // verus!
