//! Image formats the library recognises, by file extension.

use vstd::prelude::*;
use crate::paths::{extension, path_extension};
use crate::strings::{chars_equal, lower_chars, lower_seq};

verus! {

/// The extensions the library accepts, compared after ASCII lowercasing:
/// svg, jpg, jpeg, png, gif, webp, avif, heic, heif.
pub open spec fn is_supported_lower_extension(e: Seq<char>) -> bool {
    ||| e == seq!['s', 'v', 'g']
    ||| e == seq!['j', 'p', 'g']
    ||| e == seq!['j', 'p', 'e', 'g']
    ||| e == seq!['p', 'n', 'g']
    ||| e == seq!['g', 'i', 'f']
    ||| e == seq!['w', 'e', 'b', 'p']
    ||| e == seq!['a', 'v', 'i', 'f']
    ||| e == seq!['h', 'e', 'i', 'c']
    ||| e == seq!['h', 'e', 'i', 'f']
}

/// Whether an extension (in any ASCII case) is one the library accepts.
pub open spec fn spec_is_supported_extension(ext: Seq<char>) -> bool {
    is_supported_lower_extension(lower_seq(ext))
}

/// Whether a path has an extension the library accepts.
pub open spec fn spec_is_supported_path(path: Seq<char>) -> bool {
    match path_extension(path) {
        Some(ext) => spec_is_supported_extension(ext),
        None => false,
    }
}

pub fn is_supported_extension(ext: &str) -> (r: bool)
    ensures
        r == spec_is_supported_extension(ext@),
{
    ImageFormat::from_extension(ext).is_some()
}

pub fn is_supported_path(path: &str) -> (r: bool)
    ensures
        r == spec_is_supported_path(path@),
{
    match extension(path) {
        Some(ext) => is_supported_extension(ext.as_str()),
        None => false,
    }
}

#[derive(Clone, Copy, Debug, PartialEq, Eq, Structural)]
pub enum ImageFormat {
    Svg,
    Jpeg,
    Png,
    Gif,
    Webp,
    Avif,
    Heic,
}

/// The format an already lowercased extension names.
pub open spec fn format_of_lower_extension(e: Seq<char>) -> Option<ImageFormat> {
    if e == seq!['s', 'v', 'g'] {
        Some(ImageFormat::Svg)
    } else if e == seq!['j', 'p', 'g'] || e == seq!['j', 'p', 'e', 'g'] {
        Some(ImageFormat::Jpeg)
    } else if e == seq!['p', 'n', 'g'] {
        Some(ImageFormat::Png)
    } else if e == seq!['g', 'i', 'f'] {
        Some(ImageFormat::Gif)
    } else if e == seq!['w', 'e', 'b', 'p'] {
        Some(ImageFormat::Webp)
    } else if e == seq!['a', 'v', 'i', 'f'] {
        Some(ImageFormat::Avif)
    } else if e == seq!['h', 'e', 'i', 'c'] || e == seq!['h', 'e', 'i', 'f'] {
        Some(ImageFormat::Heic)
    } else {
        None
    }
}

impl ImageFormat {
    /// The format an extension names, in any ASCII case.
    pub open spec fn spec_from_extension(ext: Seq<char>) -> Option<ImageFormat> {
        format_of_lower_extension(lower_seq(ext))
    }

    /// The format a path's extension names.
    pub open spec fn spec_from_path(path: Seq<char>) -> Option<ImageFormat> {
        match path_extension(path) {
            Some(ext) => Self::spec_from_extension(ext),
            None => None,
        }
    }

    pub fn from_extension(ext: &str) -> (r: Option<Self>)
        ensures
            r == Self::spec_from_extension(ext@),
    {
        let e = lower_chars(ext);
        let s = e.as_slice();
        if chars_equal(s, &['s', 'v', 'g']) {
            Some(ImageFormat::Svg)
        } else if chars_equal(s, &['j', 'p', 'g']) || chars_equal(s, &['j', 'p', 'e', 'g']) {
            Some(ImageFormat::Jpeg)
        } else if chars_equal(s, &['p', 'n', 'g']) {
            Some(ImageFormat::Png)
        } else if chars_equal(s, &['g', 'i', 'f']) {
            Some(ImageFormat::Gif)
        } else if chars_equal(s, &['w', 'e', 'b', 'p']) {
            Some(ImageFormat::Webp)
        } else if chars_equal(s, &['a', 'v', 'i', 'f']) {
            Some(ImageFormat::Avif)
        } else if chars_equal(s, &['h', 'e', 'i', 'c']) || chars_equal(s, &['h', 'e', 'i', 'f']) {
            Some(ImageFormat::Heic)
        } else {
            None
        }
    }

    pub fn from_path(path: &str) -> (r: Option<Self>)
        ensures
            r == Self::spec_from_path(path@),
    {
        match extension(path) {
            Some(ext) => Self::from_extension(ext.as_str()),
            None => None,
        }
    }
}

/// The output format chosen in the settings: keep the source's, or convert.
#[derive(Clone, Copy, Debug, PartialEq, Eq, Structural)]
pub enum OutputFormatSetting {
    Original,
    Jpeg,
    Png,
    Webp,
    Avif,
}

impl Default for OutputFormatSetting {
    fn default() -> (r: Self)
        ensures
            r == OutputFormatSetting::Original,
    {
        OutputFormatSetting::Original
    }
}

impl OutputFormatSetting {
    pub open spec fn spec_target_format(self) -> Option<ImageFormat> {
        match self {
            OutputFormatSetting::Original => None,
            OutputFormatSetting::Jpeg => Some(ImageFormat::Jpeg),
            OutputFormatSetting::Png => Some(ImageFormat::Png),
            OutputFormatSetting::Webp => Some(ImageFormat::Webp),
            OutputFormatSetting::Avif => Some(ImageFormat::Avif),
        }
    }

    pub fn target_format(self) -> (r: Option<ImageFormat>)
        ensures
            r == self.spec_target_format(),
    {
        match self {
            OutputFormatSetting::Original => None,
            OutputFormatSetting::Jpeg => Some(ImageFormat::Jpeg),
            OutputFormatSetting::Png => Some(ImageFormat::Png),
            OutputFormatSetting::Webp => Some(ImageFormat::Webp),
            OutputFormatSetting::Avif => Some(ImageFormat::Avif),
        }
    }

    /// The file extension written for the target format.
    pub open spec fn spec_extension(self) -> Option<Seq<char>> {
        match self {
            OutputFormatSetting::Original => None,
            OutputFormatSetting::Jpeg => Some(seq!['j', 'p', 'g']),
            OutputFormatSetting::Png => Some(seq!['p', 'n', 'g']),
            OutputFormatSetting::Webp => Some(seq!['w', 'e', 'b', 'p']),
            OutputFormatSetting::Avif => Some(seq!['a', 'v', 'i', 'f']),
        }
    }

    pub fn extension(self) -> (r: Option<&'static str>)
        ensures
            match r {
                Some(ext) => self.spec_extension() == Some(ext@),
                None => self.spec_extension().is_none(),
            },
    {
        proof {
            reveal_strlit("jpg");
            reveal_strlit("png");
            reveal_strlit("webp");
            reveal_strlit("avif");
        }
        match self {
            OutputFormatSetting::Original => None,
            OutputFormatSetting::Jpeg => Some("jpg"),
            OutputFormatSetting::Png => Some("png"),
            OutputFormatSetting::Webp => Some("webp"),
            OutputFormatSetting::Avif => Some("avif"),
        }
    }
}

/// The extension written for a target format names that same format, and
/// there is an extension exactly when there is a target format.
pub proof fn lemma_output_extension_matches_target(setting: OutputFormatSetting)
    ensures
        setting.spec_extension().is_some() <==> setting.spec_target_format().is_some(),
        match setting.spec_extension() {
            Some(ext) => ImageFormat::spec_from_extension(ext) == setting.spec_target_format()
                && spec_is_supported_extension(ext),
            None => true,
        },
{
    match setting.spec_extension() {
        Some(ext) => {
            assert(lower_seq(ext) =~= ext);
        },
        None => {},
    }
}

/// An extension is accepted exactly when it names a format.
pub proof fn lemma_supported_iff_format(ext: Seq<char>)
    ensures
        spec_is_supported_extension(ext) <==> ImageFormat::spec_from_extension(ext).is_some(),
{
}

/// Extensions are matched without regard to ASCII case.
pub proof fn lemma_from_extension_ignores_case(ext: Seq<char>)
    ensures
        ImageFormat::spec_from_extension(ext) == ImageFormat::spec_from_extension(lower_seq(ext)),
{
    assert(lower_seq(lower_seq(ext)) =~= lower_seq(ext));
}

} // verus!
