//! Payloads reported to the user: per-image summaries, batch totals, errors.

use vstd::prelude::*;
use crate::strings::chars_of;

verus! {

/// What one optimized image reports.
#[derive(Debug, Clone, PartialEq, Eq)]
pub enum SummaryPayload {
    AlreadyOptimized { size: String },
    Saved { percent: u64, from: String, to: String },
    SavedMore { percent: u64, from: String, to: String },
}

/// `SummaryPayload` with its texts as character sequences.
pub enum SummaryView {
    AlreadyOptimized { size: Seq<char> },
    Saved { percent: u64, from: Seq<char>, to: Seq<char> },
    SavedMore { percent: u64, from: Seq<char>, to: Seq<char> },
}

impl View for SummaryPayload {
    type V = SummaryView;

    open spec fn view(&self) -> SummaryView {
        match self {
            SummaryPayload::AlreadyOptimized { size } => SummaryView::AlreadyOptimized { size: size@ },
            SummaryPayload::Saved { percent, from, to } => SummaryView::Saved {
                percent: *percent,
                from: from@,
                to: to@,
            },
            SummaryPayload::SavedMore { percent, from, to } => SummaryView::SavedMore {
                percent: *percent,
                from: from@,
                to: to@,
            },
        }
    }
}

/// Totals of a finished batch.
#[derive(Debug, Clone, Copy, PartialEq, Eq, Structural)]
pub struct BatchSummaryPayload {
    pub total: u32,
    pub succeeded: u32,
    pub failed: u32,
    pub bytes_before: u64,
    pub bytes_after: u64,
}

/// An error reported for one file (or for the whole selection): a code, and
/// the details that code carries.
#[derive(Debug, Clone, PartialEq, Eq)]
pub struct ErrorPayload {
    pub code: String,
    pub count: Option<u32>,
    pub max: Option<u32>,
    pub detail: Option<String>,
}

/// `ErrorPayload` with its texts as character sequences.
pub struct ErrorView {
    pub code: Seq<char>,
    pub count: Option<u32>,
    pub max: Option<u32>,
    pub detail: Option<Seq<char>>,
}

impl View for ErrorPayload {
    type V = ErrorView;

    open spec fn view(&self) -> ErrorView {
        ErrorView {
            code: self.code@,
            count: self.count,
            max: self.max,
            detail: match self.detail {
                Some(d) => Some(d@),
                None => None,
            },
        }
    }
}

/// An error that carries nothing but its code.
pub open spec fn code_only(code: Seq<char>) -> ErrorView {
    ErrorView { code, count: None, max: None, detail: None }
}

/// An error that carries its code and a detail text.
pub open spec fn code_with_detail(code: Seq<char>, detail: Seq<char>) -> ErrorView {
    ErrorView { code, count: None, max: None, detail: Some(detail) }
}

/// The prefix of the message a failed gifsicle run produces.
pub open spec fn gifsicle_prefix() -> Seq<char> {
    seq!['g', 'i', 'f', 's', 'i', 'c', 'l', 'e', ' ', 'e', 'x', 'i', 't', 'e', 'd', ' ', 'w', 'i', 't', 'h', ' ']
}

/// Whether `s` starts with `p`.
pub open spec fn starts_with(s: Seq<char>, p: Seq<char>) -> bool {
    p.len() <= s.len() && s.subrange(0, p.len() as int) == p
}

/// `s` with every leading repetition of the non-empty `p` removed.
pub open spec fn strip_prefix_repeatedly(s: Seq<char>, p: Seq<char>) -> Seq<char>
    decreases s.len(),
{
    if p.len() > 0 && starts_with(s, p) {
        strip_prefix_repeatedly(s.subrange(p.len() as int, s.len() as int), p)
    } else {
        s
    }
}

/// The error that an error message stands for.
pub open spec fn error_for_message(message: Seq<char>) -> ErrorView {
    if starts_with(message, gifsicle_prefix()) {
        code_with_detail("gifsicleFailed"@, strip_prefix_repeatedly(message, gifsicle_prefix()))
    } else {
        code_with_detail("io"@, message)
    }
}

/// Whether `s[from..]` starts with `p`.
pub fn starts_with_at(s: &Vec<char>, from: usize, p: &[char]) -> (r: bool)
    requires
        from <= s@.len(),
    ensures
        r == starts_with(s@.subrange(from as int, s@.len() as int), p@),
        r ==> from + p@.len() <= s.len(),
{
    let ghost rest = s@.subrange(from as int, s@.len() as int);
    if p.len() > s.len() - from {
        return false;
    }
    let mut i: usize = 0;
    while i < p.len()
        invariant
            p@.len() <= s.len() - from,
            from <= s.len(),
            rest == s@.subrange(from as int, s@.len() as int),
            i <= p@.len(),
            forall|j: int| 0 <= j < i ==> rest[j] == p@[j],
        decreases p@.len() - i,
    {
        if s[from + i] != p[i] {
            assert(rest.subrange(0, p@.len() as int)[i as int] != p@[i as int]);
            return false;
        }
        i = i + 1;
    }
    assert(rest.subrange(0, p@.len() as int) =~= p@);
    true
}

impl ErrorPayload {
    fn code(code: &str) -> (r: Self)
        ensures
            r@ == code_only(code@),
    {
        ErrorPayload { code: code.to_owned(), count: None, max: None, detail: None }
    }

    pub fn file_not_found() -> (r: Self)
        ensures
            r@ == code_only("fileNotFound"@),
    {
        Self::code("fileNotFound")
    }

    pub fn no_supported_images() -> (r: Self)
        ensures
            r@ == code_only("noSupportedImages"@),
    {
        Self::code("noSupportedImages")
    }

    pub fn too_many_images(count: u32, max: u32) -> (r: Self)
        ensures
            r@ == (ErrorView {
                code: "tooManyImages"@,
                count: Some(count),
                max: Some(max),
                detail: None,
            }),
    {
        ErrorPayload { code: "tooManyImages".to_owned(), count: Some(count), max: Some(max), detail: None }
    }

    pub fn save_folder_required() -> (r: Self)
        ensures
            r@ == code_only("saveFolderRequired"@),
    {
        Self::code("saveFolderRequired")
    }

    pub fn optimization_in_progress() -> (r: Self)
        ensures
            r@ == code_only("optimizationInProgress"@),
    {
        Self::code("optimizationInProgress")
    }

    pub fn unsupported_format() -> (r: Self)
        ensures
            r@ == code_only("unsupportedFormat"@),
    {
        Self::code("unsupportedFormat")
    }

    pub fn gif_optimizer_unavailable() -> (r: Self)
        ensures
            r@ == code_only("gifOptimizerUnavailable"@),
    {
        Self::code("gifOptimizerUnavailable")
    }

    pub fn gifsicle_failed(code: &str) -> (r: Self)
        ensures
            r@ == code_with_detail("gifsicleFailed"@, code@),
    {
        ErrorPayload {
            code: "gifsicleFailed".to_owned(),
            count: None,
            max: None,
            detail: Some(code.to_owned()),
        }
    }

    pub fn heic_invalid_path() -> (r: Self)
        ensures
            r@ == code_only("heicInvalidPath"@),
    {
        Self::code("heicInvalidPath")
    }

    pub fn heic_read_failed() -> (r: Self)
        ensures
            r@ == code_only("heicReadFailed"@),
    {
        Self::code("heicReadFailed")
    }

    pub fn heic_no_frames() -> (r: Self)
        ensures
            r@ == code_only("heicNoFrames"@),
    {
        Self::code("heicNoFrames")
    }

    pub fn heic_create_failed() -> (r: Self)
        ensures
            r@ == code_only("heicCreateFailed"@),
    {
        Self::code("heicCreateFailed")
    }

    pub fn heic_write_failed() -> (r: Self)
        ensures
            r@ == code_only("heicWriteFailed"@),
    {
        Self::code("heicWriteFailed")
    }

    pub fn heic_unsupported_platform() -> (r: Self)
        ensures
            r@ == code_only("heicUnsupportedPlatform"@),
    {
        Self::code("heicUnsupportedPlatform")
    }

    pub fn animated_not_supported() -> (r: Self)
        ensures
            r@ == code_only("animatedNotSupported"@),
    {
        Self::code("animatedNotSupported")
    }

    pub fn io(detail: &str) -> (r: Self)
        ensures
            r@ == code_with_detail("io"@, detail@),
    {
        ErrorPayload { code: "io".to_owned(), count: None, max: None, detail: Some(detail.to_owned()) }
    }

    /// The error a message stands for: a failed gifsicle run, or else an I/O error.
    pub fn from_message(message: &str) -> (r: Self)
        ensures
            r@ == error_for_message(message@),
    {
        let prefix: [char; 21] = [
            'g', 'i', 'f', 's', 'i', 'c', 'l', 'e', ' ', 'e', 'x', 'i', 't', 'e', 'd', ' ', 'w', 'i',
            't', 'h', ' ',
        ];
        assert(prefix@ == gifsicle_prefix());
        let chars = chars_of(message);
        if !starts_with_at(&chars, 0, &prefix) {
            assert(chars@.subrange(0, chars@.len() as int) == chars@);
            return Self::io(message);
        }
        assert(chars@.subrange(0, chars@.len() as int) == chars@);
        let mut from: usize = 0;
        while starts_with_at(&chars, from, &prefix)
            invariant
                from <= chars@.len(),
                prefix@ == gifsicle_prefix(),
                strip_prefix_repeatedly(chars@, gifsicle_prefix()) == strip_prefix_repeatedly(
                    chars@.subrange(from as int, chars@.len() as int),
                    gifsicle_prefix(),
                ),
            decreases chars@.len() - from,
        {
            let ghost rest = chars@.subrange(from as int, chars@.len() as int);
            assert(rest.subrange(21, rest.len() as int) == chars@.subrange(from + 21, chars@.len() as int));
            from = from + 21;
        }
        let mut detail = String::new();
        let mut i = from;
        while i < chars.len()
            invariant
                from <= i <= chars@.len(),
                detail@ == chars@.subrange(from as int, i as int),
            decreases chars@.len() - i,
        {
            crate::strings::push_char(&mut detail, chars[i]);
            assert(chars@.subrange(from as int, i + 1) == chars@.subrange(from as int, i as int).push(chars@[i as int]));
            i = i + 1;
        }
        ErrorPayload { code: "gifsicleFailed".to_owned(), count: None, max: None, detail: Some(detail) }
    }
}

/// A message that is the gifsicle prefix followed by a text that does not
/// itself start with it stands for a gifsicle failure carrying that text;
/// any message without the prefix stands for an I/O error carrying the message.
pub proof fn lemma_message_round_trip(code: Seq<char>, message: Seq<char>)
    ensures
        !starts_with(code, gifsicle_prefix()) ==> error_for_message(gifsicle_prefix() + code)
            == code_with_detail("gifsicleFailed"@, code),
        !starts_with(message, gifsicle_prefix()) ==> error_for_message(message) == code_with_detail(
            "io"@,
            message,
        ),
{
    let m = gifsicle_prefix() + code;
    assert(m.subrange(0, 21) =~= gifsicle_prefix());
    assert(m.subrange(21, m.len() as int) =~= code);
    if !starts_with(code, gifsicle_prefix()) {
        assert(strip_prefix_repeatedly(code, gifsicle_prefix()) == code);
        assert(strip_prefix_repeatedly(m, gifsicle_prefix()) == code);
    }
}

} // verus!
