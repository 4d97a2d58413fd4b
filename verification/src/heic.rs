//! HEIC/HEIF handling. It needs the platform's ImageIO framework, which only
//! macOS has; elsewhere HEIC images are never animated and cannot be
//! re-encoded.

use vstd::prelude::*;
use crate::payloads::{code_only, ErrorPayload};
use crate::image::Raster;
use crate::paths::{extension, path_extension};
use crate::strings::{lower_seq, lower_chars};

verus! {

pub fn heic_is_animated(_input: &str) -> (r: Result<bool, ErrorPayload>)
    ensures
        r == Ok::<bool, ErrorPayload>(false),
{
    Ok(false)
}

pub fn optimize_heic(_input: &str, _output: &str) -> (r: Result<(), ErrorPayload>)
    ensures
        match r {
            Ok(_) => false,
            Err(e) => e@ == code_only("heicUnsupportedPlatform"@),
        },
{
    Err(ErrorPayload::heic_unsupported_platform())
}

/// The uniform type an output is written as: HEIF for a `.heif` extension in
/// any case, HEIC otherwise.
pub open spec fn spec_output_type_identifier(output: Seq<char>) -> Seq<char> {
    match path_extension(output) {
        Some(ext) => if lower_seq(ext) == "heif"@ { "public.heif"@ } else { "public.heic"@ },
        None => "public.heic"@,
    }
}

pub fn output_type_identifier(output: &str) -> (r: &'static str)
    ensures
        r@ == spec_output_type_identifier(output@),
{
    proof { reveal_strlit("heif"); }
    match extension(output) {
        Some(ext) => {
            let lower = lower_chars(ext.as_str());
            let heif = ['h', 'e', 'i', 'f'];
            assert(heif@ == "heif"@);
            if crate::strings::chars_equal(lower.as_slice(), &heif) {
                "public.heif"
            } else {
                "public.heic"
            }
        },
        None => "public.heic",
    }
}

/// Decodes a HEIC image; without ImageIO this always fails.
pub fn decode_heic(_input: &str) -> (r: Result<Raster, ErrorPayload>)
    ensures
        match r {
            Ok(_) => false,
            Err(e) => e@ == code_only("heicUnsupportedPlatform"@),
        },
{
    Err(ErrorPayload::heic_unsupported_platform())
}

} // verus!
