//! User settings and where an optimized image is written.

use vstd::prelude::*;
use crate::formats::OutputFormatSetting;
use crate::paths::{
    extension, file_stem, join, lemma_last_dot_bounds, last_dot, name_extension, name_stem, parent,
    path_extension, path_file_name, path_file_stem, path_join, path_parent, plain_file_name,
};

verus! {

/// The user's output settings.
#[derive(Debug, Clone)]
pub struct UserSettings {
    /// Write beside the source (`true`) or into the save folder (`false`).
    pub folderswitch: bool,
    /// Add `.min` before the extension.
    pub suffix: bool,
    /// Write into a `minified` folder inside the target folder.
    pub subfolder: bool,
    /// The save folder; its first entry counts.
    pub savepath: Option<Vec<String>>,
    pub limit_dimensions: bool,
    pub max_width: Option<u32>,
    pub max_height: Option<u32>,
    pub output_format: OutputFormatSetting,
}

impl Default for UserSettings {
    fn default() -> (r: Self)
        ensures
            r.folderswitch,
            r.suffix,
            !r.subfolder,
            r.savepath.is_none(),
            !r.limit_dimensions,
            r.max_width.is_none(),
            r.max_height.is_none(),
            r.output_format == OutputFormatSetting::Original,
    {
        UserSettings {
            folderswitch: true,
            suffix: true,
            subfolder: false,
            savepath: None,
            limit_dimensions: false,
            max_width: None,
            max_height: None,
            output_format: OutputFormatSetting::Original,
        }
    }
}

/// The dimension limits in force: none unless limiting is on and at least one
/// bound is given.
pub open spec fn spec_dimension_limits(
    limit_dimensions: bool,
    max_width: Option<u32>,
    max_height: Option<u32>,
) -> Option<(Option<u32>, Option<u32>)> {
    if !limit_dimensions || (max_width.is_none() && max_height.is_none()) {
        None
    } else {
        Some((max_width, max_height))
    }
}

impl UserSettings {
    pub fn dimension_limits(&self) -> (r: Option<(Option<u32>, Option<u32>)>)
        ensures
            r == spec_dimension_limits(self.limit_dimensions, self.max_width, self.max_height),
    {
        if !self.limit_dimensions {
            return None;
        }
        match (self.max_width, self.max_height) {
            (None, None) => None,
            (max_width, max_height) => Some((max_width, max_height)),
        }
    }
}

/// Unicode white space (the characters `char::is_whitespace` accepts).
pub open spec fn is_white_space(c: char) -> bool {
    let n = c as u32;
    (0x09 <= n <= 0x0d) || n == 0x20 || n == 0x85 || n == 0xa0 || n == 0x1680
        || (0x2000 <= n <= 0x200a) || n == 0x2028 || n == 0x2029 || n == 0x202f
        || n == 0x205f || n == 0x3000
}

/// Text that is empty once white space is trimmed from both ends.
pub open spec fn is_blank(s: Seq<char>) -> bool {
    forall|i: int| 0 <= i < s.len() ==> is_white_space(#[trigger] s[i])
}

pub fn white_space_char(c: char) -> (r: bool)
    ensures
        r == is_white_space(c),
{
    let n = c as u32;
    (0x09 <= n && n <= 0x0d) || n == 0x20 || n == 0x85 || n == 0xa0 || n == 0x1680
        || (0x2000 <= n && n <= 0x200a) || n == 0x2028 || n == 0x2029 || n == 0x202f
        || n == 0x205f || n == 0x3000
}

/// Whether `s` holds nothing but white space.
pub fn blank(s: &str) -> (r: bool)
    ensures
        r == is_blank(s@),
{
    let n = s.unicode_len();
    let mut i: usize = 0;
    while i < n
        invariant
            n == s@.len(),
            i <= n,
            forall|j: int| 0 <= j < i ==> is_white_space(#[trigger] s@[j]),
        decreases n - i,
    {
        if !white_space_char(s.get_char(i)) {
            return false;
        }
        i = i + 1;
    }
    true
}

/// The save folder is chosen but none is given: no entry, or a blank first
/// entry.
pub open spec fn spec_save_folder_missing(folderswitch: bool, savepath: Option<Seq<Seq<char>>>) -> bool {
    !folderswitch && match savepath {
        None => true,
        Some(paths) => paths.len() == 0 || is_blank(paths[0]),
    }
}

/// The save paths as texts.
pub open spec fn savepath_view(savepath: Option<Vec<String>>) -> Option<Seq<Seq<char>>> {
    match savepath {
        None => None,
        Some(paths) => Some(paths@.map_values(|p: String| p@)),
    }
}

pub fn custom_save_folder_missing(settings: &UserSettings) -> (r: bool)
    ensures
        r == spec_save_folder_missing(settings.folderswitch, savepath_view(settings.savepath)),
{
    if settings.folderswitch {
        return false;
    }
    match &settings.savepath {
        None => true,
        Some(paths) => {
            if paths.len() == 0 {
                true
            } else {
                blank(paths[0].as_str())
            }
        },
    }
}

/// The folder an output goes to: the source's folder (`.` where the path has
/// none), or the first save path where the save folder is chosen and one is
/// given; inside it a `minified` folder where that is asked for.
pub open spec fn spec_output_directory(
    input: Seq<char>,
    folderswitch: bool,
    savepath: Option<Seq<Seq<char>>>,
    subfolder: bool,
) -> Seq<char> {
    let beside = match path_parent(input) {
        Some(dir) => dir,
        None => seq!['.'],
    };
    let dir = if !folderswitch && savepath.is_some() && savepath.unwrap().len() > 0 {
        savepath.unwrap()[0]
    } else {
        beside
    };
    if subfolder {
        path_join(dir, seq!['m', 'i', 'n', 'i', 'f', 'i', 'e', 'd'])
    } else {
        dir
    }
}

/// The `minified` subfolder goes inside whichever folder the output would
/// otherwise go to, beside the source or in the save folder alike.
pub proof fn lemma_subfolder_nests(input: Seq<char>, folderswitch: bool, savepath: Option<Seq<Seq<char>>>)
    ensures
        spec_output_directory(input, folderswitch, savepath, true) == path_join(
            spec_output_directory(input, folderswitch, savepath, false),
            "minified"@,
        ),
{
    assert("minified"@ == seq!['m', 'i', 'n', 'i', 'f', 'i', 'e', 'd']) by { reveal_strlit("minified"); }
}

/// The extension an output gets: that of the target format, else the
/// source's (none where it has none).
pub open spec fn spec_output_extension(input: Seq<char>, format: OutputFormatSetting) -> Seq<char> {
    match format.spec_extension() {
        Some(ext) => ext,
        None => match path_extension(input) {
            Some(ext) => ext,
            None => Seq::empty(),
        },
    }
}

/// The file name of an output: the source's stem (`output` where it has
/// none), `.min` where the suffix is on, then `.` and the extension if any.
pub open spec fn spec_output_file_name(input: Seq<char>, suffix: bool, format: OutputFormatSetting) -> Seq<char> {
    let stem = match path_file_stem(input) {
        Some(s) => s,
        None => seq!['o', 'u', 't', 'p', 'u', 't'],
    };
    let ext = spec_output_extension(input, format);
    let base = if suffix { stem + seq!['.', 'm', 'i', 'n'] } else { stem };
    if ext.len() == 0 { base } else { base + seq!['.'] + ext }
}

pub fn output_directory(input: &str, settings: &UserSettings) -> (r: String)
    ensures
        r@ == spec_output_directory(
            input@,
            settings.folderswitch,
            savepath_view(settings.savepath),
            settings.subfolder,
        ),
{
    proof { reveal_strlit("."); }
    let mut dir = match parent(input) {
        Some(d) => d,
        None => ".".to_owned(),
    };
    assert(dir@ == match path_parent(input@) { Some(d) => d, None => seq!['.'] });
    if !settings.folderswitch {
        match &settings.savepath {
            Some(paths) => {
                if paths.len() > 0 {
                    dir = paths[0].clone();
                    assert(savepath_view(settings.savepath).unwrap()[0] == paths@[0]@);
                }
            },
            None => {},
        }
    }
    if settings.subfolder {
        proof { reveal_strlit("minified"); }
        assert("minified"@ == seq!['m', 'i', 'n', 'i', 'f', 'i', 'e', 'd']);
        dir = join(dir.as_str(), "minified");
    }
    dir
}

pub fn output_file_name(input: &str, settings: &UserSettings) -> (r: String)
    ensures
        r@ == spec_output_file_name(input@, settings.suffix, settings.output_format),
{
    let stem = match file_stem(input) {
        Some(s) => s,
        None => "output".to_owned(),
    };
    proof {
        reveal_strlit("output");
        reveal_strlit(".min");
        reveal_strlit(".");
    }
    let ext = match settings.output_format.extension() {
        Some(e) => e.to_owned(),
        None => match extension(input) {
            Some(e) => e,
            None => String::new(),
        },
    };
    let mut name = stem;
    if settings.suffix {
        name.append(".min");
    }
    if ext.unicode_len() > 0 {
        name.append(".");
        name.append(ext.as_str());
    }
    name
}

/// With the `.min` suffix, an output's file name is never its source's.
pub proof fn lemma_suffixed_name_differs(input: Seq<char>, format: OutputFormatSetting)
    requires
        path_file_name(input).is_some(),
    ensures
        spec_output_file_name(input, true, format) != path_file_name(input).unwrap(),
{
    let n = path_file_name(input).unwrap();
    let out = spec_output_file_name(input, true, format);
    let stem = name_stem(n);
    let ext = spec_output_extension(input, format);
    lemma_last_dot_bounds(n);
    assert(".min"@ == seq!['.', 'm', 'i', 'n']) by { reveal_strlit(".min"); }
    match name_extension(n) {
        None => {
            assert(stem == n);
            assert(out.len() >= n.len() + 4);
        },
        Some(e0) => {
            let i = last_dot(n).unwrap();
            assert(stem == n.subrange(0, i));
            if ext.len() == 0 {
                assert(out.len() == i + 4);
                assert(out[i + 1] == 'm');
                if out == n {
                    assert(n[i + 1] == 'm');
                    assert(i + 4 == n.len());
                    assert(ext == e0 || format.spec_extension().is_some());
                }
            } else {
                assert(out[i + 4] == '.');
                if out == n {
                    assert(n[i + 4] == '.');
                }
            }
        },
    }
}

/// Where the optimized copy of `input` is written. The folder is that of
/// `output_directory`, which the caller creates before writing. With the
/// `.min` suffix on, and an output name that is one plain path component,
/// the output is never the source itself.
pub fn build_output_path(input: &str, settings: &UserSettings) -> (r: String)
    ensures
        r@ == path_join(
            spec_output_directory(
                input@,
                settings.folderswitch,
                savepath_view(settings.savepath),
                settings.subfolder,
            ),
            spec_output_file_name(input@, settings.suffix, settings.output_format),
        ),
        settings.suffix && plain_file_name(spec_output_file_name(input@, true, settings.output_format))
            ==> r@ != input@,
{
    let dir = output_directory(input, settings);
    let name = output_file_name(input, settings);
    let r = join(dir.as_str(), name.as_str());
    proof {
        if settings.suffix && path_file_name(input@).is_some() {
            lemma_suffixed_name_differs(input@, settings.output_format);
        }
    }
    r
}

} // verus!
