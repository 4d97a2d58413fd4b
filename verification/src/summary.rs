//! Sizes and savings as shown to the user.
//!
//! The shown numbers are those of the double-precision arithmetic the
//! messages are defined with (`as f64`, `/`, `*`, `f64::round`, `{:.1}`),
//! computed exactly by `crate::float_model`.

use vstd::prelude::*;
use crate::float_model::{
    f64_div, f64_div_exec, f64_mul, f64_mul_exec, f64_of, f64_of_exec, lemma_exponent_below,
    lemma_two_pow_mono, lemma_two_pow_values, round_half_away,
    round_half_away_exec, tenths_half_even, tenths_half_even_exec, two_pow,
};
use crate::payloads::{BatchSummaryPayload, SummaryPayload, SummaryView};
use crate::strings::{decimal, digit_char, digit_str, push_decimal};

verus! {

/// Which kilo/mega a size is shown in: powers of 1000 (as macOS shows sizes)
/// or of 1024 (as other systems do).
#[derive(Clone, Copy, Debug, PartialEq, Eq, Structural)]
pub enum ByteUnits {
    Decimal,
    Binary,
}

/// The units a platform shows sizes in: decimal on macOS, binary elsewhere.
pub open spec fn spec_platform_units(macos: bool) -> ByteUnits {
    if macos { ByteUnits::Decimal } else { ByteUnits::Binary }
}

impl ByteUnits {
    /// The units of the platform the caller runs on.
    pub fn for_platform(macos: bool) -> (r: Self)
        ensures
            r == spec_platform_units(macos),
    {
        if macos { ByteUnits::Decimal } else { ByteUnits::Binary }
    }
}

pub open spec fn unit_of(units: ByteUnits) -> nat {
    match units {
        ByteUnits::Decimal => 1000,
        ByteUnits::Binary => 1024,
    }
}

/// `t` tenths as text with one decimal: `12` is "1.2".
pub open spec fn one_decimal(t: nat) -> Seq<char> {
    decimal(t / 10) + seq!['.', digit_char(t % 10)]
}

/// A byte count as text: below one unit in bytes ("512 B"); below one unit
/// squared in kilobytes, whole for decimal units ("2 KB") and with one
/// decimal for binary ones ("1.5 KB"); otherwise in megabytes with one
/// decimal ("2.5 MB").
pub open spec fn spec_format_bytes(bytes: nat, units: ByteUnits) -> Seq<char> {
    let unit = unit_of(units);
    if bytes < unit {
        decimal(bytes) + " B"@
    } else if bytes < unit * unit {
        match units {
            ByteUnits::Decimal => decimal(round_half_away(f64_div(f64_of(bytes), (1000, 0))))
                + " KB"@,
            ByteUnits::Binary => one_decimal(tenths_half_even(f64_div(f64_of(bytes), (1024, 0))))
                + " KB"@,
        }
    } else {
        match units {
            ByteUnits::Decimal => one_decimal(
                tenths_half_even(f64_div(f64_of(bytes), (1000000, 0))),
            ) + " MB"@,
            ByteUnits::Binary => one_decimal(tenths_half_even(f64_div(f64_of(bytes), (1, 20))))
                + " MB"@,
        }
    }
}

/// `part` as a percentage of `whole` (both positive), as
/// `((100.0 / whole as f64) * part as f64).round() as u64` gives it.
pub open spec fn spec_percent(part: nat, whole: nat) -> nat {
    let v = f64_mul(f64_div((100, 0), f64_of(whole)), f64_of(part));
    let r = round_half_away(v);
    if r > u64::MAX {
        u64::MAX as nat
    } else {
        r
    }
}

fn push_one_decimal(out: &mut String, t: u128)
    ensures
        final(out)@ == old(out)@ + one_decimal(t as nat),
{
    push_decimal(out, t / 10);
    proof {
        reveal_strlit(".");
    }
    out.append(".");
    out.append(digit_str(t % 10));
    assert(final(out)@ =~= old(out)@ + one_decimal(t as nat));
}

/// A byte count as text, in the given units.
pub fn format_bytes(bytes: u64, units: ByteUnits) -> (r: String)
    ensures
        r@ == spec_format_bytes(bytes as nat, units),
{
    let unit: u64 = match units {
        ByteUnits::Decimal => 1000,
        ByteUnits::Binary => 1024,
    };
    let mut out = String::new();
    if bytes < unit {
        push_decimal(&mut out, bytes as u128);
        out.append(" B");
        return out;
    }
    let fb = f64_of_exec(bytes);
    proof {
        lemma_two_pow_values();
    }
    if bytes < unit * unit {
        match units {
            ByteUnits::Decimal => {
                let v = f64_div_exec(fb, (1000, 0));
                proof {
                    lemma_exponent_below(fb.0 as nat, 1000, v.1 - fb.1, 44);
                }
                let n = round_half_away_exec(v);
                push_decimal(&mut out, n);
                out.append(" KB");
            },
            ByteUnits::Binary => {
                let v = f64_div_exec(fb, (1024, 0));
                proof {
                    lemma_exponent_below(fb.0 as nat, 1024, v.1 - fb.1, 44);
                }
                let t = tenths_half_even_exec(v);
                push_one_decimal(&mut out, t);
                out.append(" KB");
            },
        }
    } else {
        let v = match units {
            ByteUnits::Decimal => {
                let v = f64_div_exec(fb, (1000000, 0));
                proof {
                    lemma_exponent_below(fb.0 as nat, 1000000, v.1 - fb.1, 34);
                }
                v
            },
            ByteUnits::Binary => {
                let v = f64_div_exec(fb, (1, 20));
                proof {
                    lemma_exponent_below(fb.0 as nat, 1, v.1 - fb.1 + 20, 54);
                }
                v
            },
        };
        let t = tenths_half_even_exec(v);
        push_one_decimal(&mut out, t);
        out.append(" MB");
    }
    out
}

/// `part` as a percentage of `whole`, computed.
pub fn percent(part: u64, whole: u64) -> (r: u64)
    requires
        part > 0,
        whole > 0,
    ensures
        r as nat == spec_percent(part as nat, whole as nat),
{
    let fw = f64_of_exec(whole);
    let fp = f64_of_exec(part);
    let d = f64_div_exec((100, 0), fw);
    let v = f64_mul_exec(d, fp);
    if v.1 >= 64 {
        proof {
            lemma_two_pow_values();
            lemma_two_pow_mono(64, v.1 as nat);
            assert(v.0 * two_pow(v.1 as nat) >= two_pow(64)) by (nonlinear_arith)
                requires
                    v.0 >= 1,
                    two_pow(v.1 as nat) >= two_pow(64),
            ;
        }
        return u64::MAX;
    }
    let n = round_half_away_exec(v);
    if n > u64::MAX as u128 {
        u64::MAX
    } else {
        n as u64
    }
}

/// Whether a freshly optimized candidate is worth keeping: it must be
/// smaller than the previous output where there is one, else than the source.
pub open spec fn spec_should_keep(candidate_size: nat, size_orig: nat, previous_output_size: Option<u64>) -> bool {
    match previous_output_size {
        Some(previous) => candidate_size < previous,
        None => candidate_size < size_orig,
    }
}

pub fn should_keep_optimized_output(
    candidate_size: u64,
    size_orig: u64,
    previous_output_size: Option<u64>,
) -> (r: bool)
    ensures
        r == spec_should_keep(candidate_size as nat, size_orig as nat, previous_output_size),
{
    let threshold = match previous_output_size {
        Some(previous) => previous,
        None => size_orig,
    };
    candidate_size < threshold
}

/// The summary of one optimization: already optimized where nothing was
/// saved against the source (first pass) or the previous output (later
/// passes, where less than half a percent more also counts as nothing);
/// otherwise the percentage saved, from what size to what size.
pub open spec fn spec_optimize_summary(
    size_orig: nat,
    size_optimized: nat,
    previous_output_size: Option<u64>,
    units: ByteUnits,
) -> SummaryView {
    let new_label = spec_format_bytes(size_optimized, units);
    match previous_output_size {
        None => if size_optimized >= size_orig {
            SummaryView::AlreadyOptimized { size: new_label }
        } else {
            SummaryView::Saved {
                percent: spec_percent((size_orig - size_optimized) as nat, size_orig) as u64,
                from: spec_format_bytes(size_orig, units),
                to: new_label,
            }
        },
        Some(previous) => if size_optimized >= previous {
            SummaryView::AlreadyOptimized { size: new_label }
        } else if spec_percent((previous - size_optimized) as nat, previous as nat) < 1 {
            SummaryView::AlreadyOptimized { size: new_label }
        } else {
            SummaryView::SavedMore {
                percent: spec_percent((previous - size_optimized) as nat, previous as nat) as u64,
                from: spec_format_bytes(previous as nat, units),
                to: new_label,
            }
        },
    }
}

pub fn build_optimize_summary_payload(
    size_orig: u64,
    size_optimized: u64,
    previous_output_size: Option<u64>,
    units: ByteUnits,
) -> (r: SummaryPayload)
    ensures
        r@ == spec_optimize_summary(size_orig as nat, size_optimized as nat, previous_output_size, units),
{
    let new_label = format_bytes(size_optimized, units);
    match previous_output_size {
        None => {
            if size_optimized >= size_orig {
                return SummaryPayload::AlreadyOptimized { size: new_label };
            }
            let saved = size_orig - size_optimized;
            SummaryPayload::Saved {
                percent: percent(saved, size_orig),
                from: format_bytes(size_orig, units),
                to: new_label,
            }
        },
        Some(previous) => {
            if size_optimized >= previous {
                return SummaryPayload::AlreadyOptimized { size: new_label };
            }
            let extra_saved = previous - size_optimized;
            let extra_percent = percent(extra_saved, previous);
            if extra_percent < 1 {
                return SummaryPayload::AlreadyOptimized { size: new_label };
            }
            SummaryPayload::SavedMore {
                percent: extra_percent,
                from: format_bytes(previous, units),
                to: new_label,
            }
        },
    }
}

pub fn build_batch_summary_payload(
    total: usize,
    succeeded: usize,
    failed: usize,
    bytes_before: u64,
    bytes_after: u64,
) -> (r: BatchSummaryPayload)
    ensures
        r.total == total as u32,
        r.succeeded == succeeded as u32,
        r.failed == failed as u32,
        r.bytes_before == bytes_before,
        r.bytes_after == bytes_after,
{
    BatchSummaryPayload {
        total: total as u32,
        succeeded: succeeded as u32,
        failed: failed as u32,
        bytes_before,
        bytes_after,
    }
}

/// The one-line text of an optimization summary.
pub open spec fn summary_text(summary: SummaryView) -> Seq<char> {
    match summary {
        SummaryView::AlreadyOptimized { size } => "Already optimized · "@ + size,
        SummaryView::Saved { percent, from, to } => "You saved "@ + decimal(percent as nat) + "% · "@
            + from + " → "@ + to,
        SummaryView::SavedMore { percent, from, to } => "Saved "@ + decimal(percent as nat)
            + "% more · "@ + from + " → "@ + to,
    }
}

fn render_summary(summary: &SummaryPayload) -> (r: String)
    ensures
        r@ == summary_text(summary@),
{
    let mut out = String::new();
    match summary {
        SummaryPayload::AlreadyOptimized { size } => {
            out.append("Already optimized · ");
            out.append(size.as_str());
        },
        SummaryPayload::Saved { percent, from, to } => {
            out.append("You saved ");
            push_decimal(&mut out, *percent as u128);
            out.append("% · ");
            out.append(from.as_str());
            out.append(" → ");
            out.append(to.as_str());
        },
        SummaryPayload::SavedMore { percent, from, to } => {
            out.append("Saved ");
            push_decimal(&mut out, *percent as u128);
            out.append("% more · ");
            out.append(from.as_str());
            out.append(" → ");
            out.append(to.as_str());
        },
    }
    out
}

pub fn build_optimize_summary(
    size_orig: u64,
    size_optimized: u64,
    previous_output_size: Option<u64>,
    units: ByteUnits,
) -> (r: String)
    ensures
        r@ == summary_text(
            spec_optimize_summary(size_orig as nat, size_optimized as nat, previous_output_size, units),
        ),
{
    let payload = build_optimize_summary_payload(size_orig, size_optimized, previous_output_size, units);
    render_summary(&payload)
}

/// The one-line text of a batch: how many images, how many failed, and what
/// was saved ("3 images · saved 180 KB (60%)"); "already optimized" where
/// everything succeeded and nothing was saved.
pub open spec fn spec_batch_summary(
    total: nat,
    succeeded: nat,
    failed: nat,
    bytes_before: nat,
    bytes_after: nat,
    units: ByteUnits,
) -> Seq<char> {
    let images = if total == 1 { "1 image"@ } else { decimal(total) + " images"@ };
    let with_failed = if failed > 0 { images + " · "@ + decimal(failed) + " failed"@ } else { images };
    let saved: nat = if bytes_before > bytes_after { (bytes_before - bytes_after) as nat } else { 0 };
    if succeeded > 0 && saved > 0 {
        with_failed + " · "@ + "saved "@ + spec_format_bytes(saved, units) + " ("@ + decimal(
            spec_percent(saved, bytes_before),
        ) + "%)"@
    } else if succeeded > 0 && failed == 0 {
        with_failed + " · "@ + "already optimized"@
    } else {
        with_failed
    }
}

pub fn build_batch_summary(
    total: usize,
    succeeded: usize,
    failed: usize,
    bytes_before: u64,
    bytes_after: u64,
    units: ByteUnits,
) -> (r: String)
    ensures
        r@ == spec_batch_summary(
            total as nat,
            succeeded as nat,
            failed as nat,
            bytes_before as nat,
            bytes_after as nat,
            units,
        ),
{
    let mut out = String::new();
    if total == 1 {
        out.append("1 image");
    } else {
        push_decimal(&mut out, total as u128);
        out.append(" images");
    }
    if failed > 0 {
        out.append(" · ");
        push_decimal(&mut out, failed as u128);
        out.append(" failed");
    }
    if succeeded > 0 {
        let saved = if bytes_before > bytes_after { bytes_before - bytes_after } else { 0 };
        if saved > 0 {
            let p = percent(saved, bytes_before);
            let label = format_bytes(saved, units);
            out.append(" · ");
            out.append("saved ");
            out.append(label.as_str());
            out.append(" (");
            push_decimal(&mut out, p as u128);
            out.append("%)");
        } else if failed == 0 {
            out.append(" · ");
            out.append("already optimized");
        }
    }
    out
}

/// A first optimization reports savings exactly when the new file is smaller
/// than the source, from the source's size to the new one; otherwise it
/// reports the new file as already optimized.
pub proof fn lemma_first_pass_saves_when_smaller(size_orig: nat, size_optimized: nat, units: ByteUnits)
    ensures
        (spec_optimize_summary(size_orig, size_optimized, None, units) is Saved) <==> size_optimized
            < size_orig,
        match spec_optimize_summary(size_orig, size_optimized, None, units) {
            SummaryView::Saved { percent, from, to } => from == spec_format_bytes(size_orig, units)
                && to == spec_format_bytes(size_optimized, units)
                && percent == spec_percent((size_orig - size_optimized) as nat, size_orig) as u64,
            SummaryView::AlreadyOptimized { size } => size == spec_format_bytes(size_optimized, units),
            SummaryView::SavedMore { .. } => false,
        },
{
}

/// Optimizing again reports savings exactly when the new output is smaller
/// than the earlier one by a percentage that rounds to at least 1: then it
/// says how much more was saved, from the earlier output's size to the new
/// one; otherwise it reports the new output as already optimized.
pub proof fn lemma_saved_more_when_a_percent_is_saved(
    size_orig: nat,
    size_optimized: nat,
    previous: u64,
    units: ByteUnits,
)
    requires
        size_optimized < previous,
    ensures
        (spec_optimize_summary(size_orig, size_optimized, Some(previous), units) is SavedMore)
            <==> spec_percent((previous - size_optimized) as nat, previous as nat) >= 1,
        (spec_optimize_summary(size_orig, size_optimized, Some(previous), units) is AlreadyOptimized)
            <==> spec_percent((previous - size_optimized) as nat, previous as nat) == 0,
        match spec_optimize_summary(size_orig, size_optimized, Some(previous), units) {
            SummaryView::SavedMore { percent, from, to } => percent
                == spec_percent((previous - size_optimized) as nat, previous as nat) as u64
                && from == spec_format_bytes(previous as nat, units)
                && to == spec_format_bytes(size_optimized, units),
            SummaryView::AlreadyOptimized { size } => size == spec_format_bytes(size_optimized, units),
            SummaryView::Saved { .. } => false,
        },
{
}

/// The outcome of an optimization never shows growth: a summary that reports
/// savings has a smaller new size than the size it is compared with, and a
/// candidate is kept only where it is smaller than what it replaces.
pub proof fn lemma_summary_reports_only_savings(
    size_orig: nat,
    size_optimized: nat,
    previous_output_size: Option<u64>,
    units: ByteUnits,
)
    ensures
        (spec_optimize_summary(size_orig, size_optimized, previous_output_size, units) is Saved)
            ==> previous_output_size.is_none() && size_optimized < size_orig,
        (spec_optimize_summary(size_orig, size_optimized, previous_output_size, units) is SavedMore)
            ==> previous_output_size.is_some() && size_optimized < previous_output_size.unwrap(),
        spec_should_keep(size_optimized, size_orig, previous_output_size) ==> size_optimized < match previous_output_size {
            Some(p) => p as nat,
            None => size_orig,
        },
{
}

} // verus!
