//! Gathering the images of a selection: what is kept, what is missing, what
//! cannot be read.
//!
//! Walking folders and resolving paths is the caller's part; it hands each
//! finding to a `Collector`, which decides what to keep.

use vstd::prelude::*;
use crate::formats::{is_supported_path, spec_is_supported_path};
use crate::paths::{file_name, path_file_name};
use crate::strings::{chars_equal, chars_of};

verus! {

/// The images of a selection, in the order found, and the names of the paths
/// that were missing or could not be read.
pub struct CollectResult {
    pub paths: Vec<String>,
    pub missing: Vec<String>,
    pub unreadable: Vec<String>,
}

/// The texts of a sequence of strings.
pub open spec fn texts_of(v: Seq<String>) -> Seq<Seq<char>> {
    v.map_values(|s: String| s@)
}

/// The name a path is reported under: its file name, or the whole path.
pub open spec fn spec_label_for_path(path: Seq<char>) -> Seq<char> {
    match path_file_name(path) {
        Some(name) => name,
        None => path,
    }
}

pub fn label_for_path(path: &str) -> (r: String)
    ensures
        r@ == spec_label_for_path(path@),
{
    match file_name(path) {
        Some(name) => name,
        None => path.to_owned(),
    }
}

/// No text occurs twice.
pub open spec fn distinct(s: Seq<Seq<char>>) -> bool {
    forall|i: int, j: int| 0 <= i < j < s.len() ==> s[i] != s[j]
}

/// Whether `v` holds a string with the text `t`.
fn holds(v: &Vec<String>, t: &str) -> (r: bool)
    ensures
        r == texts_of(v@).contains(t@),
{
    let wanted = chars_of(t);
    let mut i: usize = 0;
    while i < v.len()
        invariant
            i <= v.len(),
            wanted@ == t@,
            forall|j: int| 0 <= j < i ==> v@[j]@ != t@,
        decreases v.len() - i,
    {
        if chars_equal(chars_of(v[i].as_str()).as_slice(), wanted.as_slice()) {
            assert(texts_of(v@)[i as int] == t@);
            return true;
        }
        i = i + 1;
    }
    proof {
        if texts_of(v@).contains(t@) {
            let k = choose|k: int| 0 <= k < texts_of(v@).len() && texts_of(v@)[k] == t@;
            assert(v@[k]@ == t@);
        }
    }
    false
}

/// A collection in progress. Every kept image is a supported one, and none is
/// kept twice.
pub struct Collector {
    found: CollectResult,
}

impl Collector {
    pub closed spec fn wf(&self) -> bool {
        &&& distinct(texts_of(self.found.paths@))
        &&& forall|i: int| 0 <= i < self.found.paths@.len()
            ==> spec_is_supported_path(#[trigger] self.found.paths@[i]@)
    }

    pub closed spec fn paths(&self) -> Seq<Seq<char>> {
        texts_of(self.found.paths@)
    }

    pub closed spec fn missing(&self) -> Seq<Seq<char>> {
        texts_of(self.found.missing@)
    }

    pub closed spec fn unreadable(&self) -> Seq<Seq<char>> {
        texts_of(self.found.unreadable@)
    }

    pub fn new() -> (r: Self)
        ensures
            r.wf(),
            r.paths() == Seq::<Seq<char>>::empty(),
            r.missing() == Seq::<Seq<char>>::empty(),
            r.unreadable() == Seq::<Seq<char>>::empty(),
    {
        let r = Collector {
            found: CollectResult { paths: Vec::new(), missing: Vec::new(), unreadable: Vec::new() },
        };
        assert(r.paths() =~= Seq::<Seq<char>>::empty());
        assert(r.missing() =~= Seq::<Seq<char>>::empty());
        assert(r.unreadable() =~= Seq::<Seq<char>>::empty());
        r
    }

    /// A selected path that does not exist.
    pub fn add_missing(&mut self, input: &str)
        requires
            old(self).wf(),
        ensures
            final(self).wf(),
            final(self).paths() == old(self).paths(),
            final(self).missing() == old(self).missing().push(spec_label_for_path(input@)),
            final(self).unreadable() == old(self).unreadable(),
    {
        let label = label_for_path(input);
        self.found.missing.push(label);
        assert(self.missing() =~= old(self).missing().push(spec_label_for_path(input@)));
    }

    /// A file that was found, with the resolved path where it could be
    /// resolved. A resolved supported image is kept unless it already was; a
    /// file that cannot be resolved is reported by its name.
    pub fn add_file(&mut self, path: &str, resolved: Option<String>)
        requires
            old(self).wf(),
        ensures
            final(self).wf(),
            match resolved {
                None => final(self).paths() == old(self).paths()
                    && final(self).unreadable() == old(self).unreadable().push(spec_label_for_path(path@)),
                Some(r) => final(self).unreadable() == old(self).unreadable()
                    && final(self).paths() == if spec_is_supported_path(r@) && !old(self).paths().contains(r@) {
                        old(self).paths().push(r@)
                    } else {
                        old(self).paths()
                    },
            },
            final(self).missing() == old(self).missing(),
    {
        match resolved {
            None => {
                let label = label_for_path(path);
                self.found.unreadable.push(label);
                assert(self.unreadable() =~= old(self).unreadable().push(spec_label_for_path(path@)));
            },
            Some(r) => {
                if is_supported_path(r.as_str()) && !holds(&self.found.paths, r.as_str()) {
                    let ghost before = self.found.paths@;
                    proof {
                        assert forall|i: int, j: int| 0 <= i < j < before.len() + 1 implies
                            texts_of(before.push(r))[i] != texts_of(before.push(r))[j] by {
                            if j == before.len() {
                                assert(texts_of(before)[i] == before[i]@);
                            } else {
                                assert(texts_of(before)[i] != texts_of(before)[j]);
                            }
                        }
                    }
                    self.found.paths.push(r);
                    assert(self.paths() =~= old(self).paths().push(r@));
                }
            },
        }
    }

    /// The finished collection.
    pub fn finish(self) -> (r: CollectResult)
        requires
            self.wf(),
        ensures
            texts_of(r.paths@) == self.paths(),
            texts_of(r.missing@) == self.missing(),
            texts_of(r.unreadable@) == self.unreadable(),
            distinct(texts_of(r.paths@)),
            forall|i: int| 0 <= i < r.paths@.len() ==> spec_is_supported_path(#[trigger] r.paths@[i]@),
    {
        let Collector { found } = self;
        found
    }
}

} // verus!
