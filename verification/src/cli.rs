//! The command line's rules: exit codes, settings from flags, and what each
//! event prints.

use vstd::prelude::*;
use crate::events::{EventSink, EventView, ProcessorEvent};
use crate::formats::OutputFormatSetting;
use crate::image::DimensionChange;
use crate::output_path::UserSettings;
use crate::payloads::{ErrorPayload, SummaryPayload, SummaryView};
use crate::strings::{decimal, push_decimal};

verus! {

/// How a run ended.
#[derive(Debug, Clone, Copy, PartialEq, Eq, Structural)]
pub enum RunOutcome {
    Succeeded,
    Failed,
    Cancelled,
}

pub open spec fn spec_exit_code(outcome: RunOutcome) -> u8 {
    match outcome {
        RunOutcome::Succeeded => 0,
        RunOutcome::Failed => 1,
        RunOutcome::Cancelled => 130,
    }
}

/// The process exit code of an outcome: 0, 1, or 130 as after an interrupt.
pub fn exit_code(outcome: RunOutcome) -> (r: u8)
    ensures
        r == spec_exit_code(outcome),
{
    match outcome {
        RunOutcome::Succeeded => 0,
        RunOutcome::Failed => 1,
        RunOutcome::Cancelled => 130,
    }
}

/// The settings that the command line's flags stand for. An output folder
/// turns the save folder on; any bound turns dimension limits on.
pub fn settings_from_flags(
    no_suffix: bool,
    subfolder: bool,
    out: Option<&str>,
    max_width: Option<u32>,
    max_height: Option<u32>,
    format: OutputFormatSetting,
) -> (r: UserSettings)
    ensures
        r.folderswitch == out.is_none(),
        r.suffix == !no_suffix,
        r.subfolder == subfolder,
        match out {
            Some(dir) => r.savepath.is_some() && r.savepath.unwrap()@.len() == 1
                && r.savepath.unwrap()@[0]@ == dir@,
            None => r.savepath.is_none(),
        },
        r.limit_dimensions == (max_width.is_some() || max_height.is_some()),
        r.max_width == max_width,
        r.max_height == max_height,
        r.output_format == format,
{
    let limit_dimensions = max_width.is_some() || max_height.is_some();
    let (folderswitch, savepath) = match out {
        Some(dir) => {
            let mut paths: Vec<String> = Vec::new();
            paths.push(dir.to_owned());
            (false, Some(paths))
        },
        None => (true, None),
    };
    UserSettings {
        folderswitch,
        suffix: !no_suffix,
        subfolder,
        savepath,
        limit_dimensions,
        max_width,
        max_height,
        output_format: format,
    }
}

/// How a run ended: cancelled where the sink saw a cancellation or an
/// interrupt arrived, failed where any file failed, else well.
pub fn run_outcome(sink_cancelled: bool, interrupted: bool, failed: u32) -> (r: RunOutcome)
    ensures
        r == if sink_cancelled || interrupted {
            RunOutcome::Cancelled
        } else if failed > 0 {
            RunOutcome::Failed
        } else {
            RunOutcome::Succeeded
        },
{
    if sink_cancelled || interrupted {
        RunOutcome::Cancelled
    } else if failed > 0 {
        RunOutcome::Failed
    } else {
        RunOutcome::Succeeded
    }
}

/// The exit code of a `compress` run: 2 where the output folder was
/// refused (nothing is processed), 1 where the run itself failed, else that
/// of how it ended.
pub open spec fn spec_compress_exit_code(
    out_dir_ok: bool,
    run_ok: bool,
    sink_cancelled: bool,
    interrupted: bool,
    failed: u32,
) -> u8 {
    if !out_dir_ok {
        2
    } else if !run_ok {
        1
    } else if sink_cancelled || interrupted {
        130
    } else if failed > 0 {
        1
    } else {
        0
    }
}

pub fn compress_exit_code(
    out_dir_ok: bool,
    run_ok: bool,
    sink_cancelled: bool,
    interrupted: bool,
    failed: u32,
) -> (r: u8)
    ensures
        r == spec_compress_exit_code(out_dir_ok, run_ok, sink_cancelled, interrupted, failed),
{
    if !out_dir_ok {
        return 2;
    }
    if !run_ok {
        return 1;
    }
    exit_code(run_outcome(sink_cancelled, interrupted, failed))
}

/// An output folder, where one is given, must not be empty.
pub fn validate_out_dir(out: Option<&str>) -> (r: Result<(), String>)
    ensures
        r.is_ok() <==> (out.is_none() || out.unwrap()@.len() > 0),
        match r {
            Err(message) => message@ == "output directory must not be empty"@,
            Ok(_) => true,
        },
{
    match out {
        None => Ok(()),
        Some(dir) => {
            if dir.unicode_len() == 0 {
                Err("output directory must not be empty".to_owned())
            } else {
                Ok(())
            }
        },
    }
}

/// How many of `events` are errors.
pub open spec fn drop_error_count(events: Seq<ProcessorEvent>) -> nat
    decreases events.len(),
{
    if events.len() == 0 {
        0
    } else {
        drop_error_count(events.drop_last()) + if events.last() is DropError { 1nat } else { 0nat }
    }
}

/// Whether any of `events` reports a cancelled batch.
pub open spec fn any_cancelled(events: Seq<ProcessorEvent>) -> bool {
    exists|i: int| 0 <= i < events.len() && #[trigger] events[i] is BatchCancelled
}

/// The sink of the command line: it counts errors (modulo 2^32, as a 32-bit
/// counter does) and notes a cancellation.
pub struct CliEventSink {
    json: bool,
    quiet: bool,
    failed: u32,
    cancelled: bool,
    log: Ghost<Seq<ProcessorEvent>>,
}

impl CliEventSink {
    #[verifier::type_invariant]
    spec fn counts_match(self) -> bool {
        &&& self.failed == drop_error_count(self.log@) % 0x1_0000_0000
        &&& self.cancelled == any_cancelled(self.log@)
    }

    /// Whether events print as JSON lines.
    pub closed spec fn json_mode(&self) -> bool {
        self.json
    }

    /// Whether progress and successes are kept quiet.
    pub closed spec fn quiet_mode(&self) -> bool {
        self.quiet
    }

    pub fn new(json: bool, quiet: bool) -> (r: Self)
        ensures
            r.json_mode() == json,
            r.quiet_mode() == quiet,
            r.sent() == Seq::<ProcessorEvent>::empty(),
    {
        CliEventSink { json, quiet, failed: 0, cancelled: false, log: Ghost(Seq::empty()) }
    }

    /// How many errors were received.
    pub fn failed(&self) -> (r: u32)
        ensures
            r == drop_error_count(self.sent()) % 0x1_0000_0000,
    {
        proof { use_type_invariant(self); }
        self.failed
    }

    /// Whether a cancellation was received.
    pub fn cancelled(&self) -> (r: bool)
        ensures
            r == any_cancelled(self.sent()),
    {
        proof { use_type_invariant(self); }
        self.cancelled
    }

    /// What this sink prints for `event`.
    pub fn output(&self, event: &ProcessorEvent) -> (r: CliOutput)
        ensures
            r@ == spec_cli_output(self.json_mode(), self.quiet_mode(), event@),
    {
        cli_output(self.json, self.quiet, event)
    }
}

impl EventSink for CliEventSink {
    closed spec fn sent(&self) -> Seq<ProcessorEvent> {
        self.log@
    }

    fn send(&mut self, event: ProcessorEvent) {
        proof { use_type_invariant(&*self); }
        let is_error = matches!(event, ProcessorEvent::DropError { .. });
        let is_cancel = matches!(event, ProcessorEvent::BatchCancelled { .. });
        let ghost old_log = self.log@;
        let ghost new_log = old_log.push(event);
        let failed = if is_error {
            if self.failed == u32::MAX { 0 } else { self.failed + 1 }
        } else {
            self.failed
        };
        proof {
            assert(new_log.drop_last() == old_log);
            if is_cancel {
                assert(new_log[old_log.len() as int] is BatchCancelled);
            }
            if any_cancelled(old_log) {
                let i = choose|i: int| 0 <= i < old_log.len() && #[trigger] old_log[i] is BatchCancelled;
                assert(new_log[i] is BatchCancelled);
            }
            if any_cancelled(new_log) && !is_cancel {
                let i = choose|i: int| 0 <= i < new_log.len() && #[trigger] new_log[i] is BatchCancelled;
                assert(old_log[i] is BatchCancelled);
            }
        }
        let cancelled = self.cancelled || is_cancel;
        *self = CliEventSink {
            json: self.json,
            quiet: self.quiet,
            failed,
            cancelled,
            log: Ghost(new_log),
        };
    }
}

/// What one event prints: nothing, the event as a JSON line on standard
/// output, or a line of text on standard output or standard error.
pub enum CliOutput {
    Silent,
    Json,
    Stdout(String),
    Stderr(String),
}

/// `CliOutput` with its text as a character sequence.
pub enum CliOutputView {
    Silent,
    Json,
    Stdout(Seq<char>),
    Stderr(Seq<char>),
}

impl View for CliOutput {
    type V = CliOutputView;

    open spec fn view(&self) -> CliOutputView {
        match self {
            CliOutput::Silent => CliOutputView::Silent,
            CliOutput::Json => CliOutputView::Json,
            CliOutput::Stdout(s) => CliOutputView::Stdout(s@),
            CliOutput::Stderr(s) => CliOutputView::Stderr(s@),
        }
    }
}

/// The resize note of a success line: " (W×H → W×H)", or nothing.
pub open spec fn resize_note(resized: Option<DimensionChange>) -> Seq<char> {
    match resized {
        Some(c) => " ("@ + decimal(c.from_width as nat) + "×"@ + decimal(c.from_height as nat)
            + " → "@ + decimal(c.to_width as nat) + "×"@ + decimal(c.to_height as nat) + ")"@,
        None => Seq::empty(),
    }
}

/// The outcome part of a success line.
pub open spec fn outcome_note(summary: SummaryView) -> Seq<char> {
    match summary {
        SummaryView::AlreadyOptimized { size } => "already optimized ("@ + size + ")"@,
        SummaryView::Saved { percent, from, to } => "-"@ + decimal(percent as nat) + "% ("@ + from
            + " → "@ + to + ")"@,
        SummaryView::SavedMore { percent, from, to } => "-"@ + decimal(percent as nat) + "% ("@
            + from + " → "@ + to + ")"@,
    }
}

/// A first or a further saving reads the same on the command line: the
/// percentage saved, then the earlier size and the new size, in that order.
pub proof fn lemma_savings_read_alike(percent: u64, from: Seq<char>, to: Seq<char>)
    ensures
        outcome_note(SummaryView::SavedMore { percent, from, to }) == outcome_note(
            SummaryView::Saved { percent, from, to },
        ),
        outcome_note(SummaryView::Saved { percent, from, to }) == seq!['-'] + decimal(percent as nat)
            + seq!['%', ' ', '('] + from + seq![' ', '→', ' '] + to + seq![')'],
{
    reveal_strlit("-");
    reveal_strlit("% (");
    reveal_strlit(" → ");
    reveal_strlit(")");
    assert(outcome_note(SummaryView::Saved { percent, from, to }) =~= seq!['-'] + decimal(percent as nat)
        + seq!['%', ' ', '('] + from + seq![' ', '→', ' '] + to + seq![')']);
}

/// What an event prints. JSON mode prints the reportable events as JSON and
/// progress as text on standard error; text mode prints a line for each. A
/// quiet run prints only errors and cancellations (and, in JSON mode, the
/// batch totals).
pub open spec fn spec_cli_output(json: bool, quiet: bool, event: EventView) -> CliOutputView {
    match event {
        EventView::BatchStarted { total } => if quiet {
            CliOutputView::Silent
        } else if json {
            CliOutputView::Json
        } else {
            CliOutputView::Stderr("compressing "@ + decimal(total as nat) + " file(s)"@)
        },
        EventView::FileProcessing(name) => if quiet {
            CliOutputView::Silent
        } else if json {
            CliOutputView::Stderr("processing "@ + name)
        } else {
            CliOutputView::Stderr("… "@ + name)
        },
        EventView::BatchProgress(p) => if quiet {
            CliOutputView::Silent
        } else if json {
            CliOutputView::Stderr("progress "@ + decimal(p.done as nat) + "/"@ + decimal(p.total as nat))
        } else {
            CliOutputView::Stderr("["@ + decimal(p.done as nat) + "/"@ + decimal(p.total as nat) + "]"@)
        },
        EventView::ImageOptimized { output_path, summary, source_name, resized } => if quiet {
            CliOutputView::Silent
        } else if json {
            CliOutputView::Json
        } else {
            CliOutputView::Stdout(source_name + " → "@ + output_path + resize_note(resized) + " "@
                + outcome_note(summary))
        },
        EventView::DropError { file_name, error } => if json {
            CliOutputView::Json
        } else {
            CliOutputView::Stderr("error: "@ + file_name + ": "@ + error.code + match error.detail {
                Some(d) => " ("@ + d + ")"@,
                None => Seq::empty(),
            })
        },
        EventView::BatchComplete(s) => if json {
            CliOutputView::Json
        } else if quiet {
            CliOutputView::Silent
        } else {
            CliOutputView::Stderr("done: "@ + decimal(s.succeeded as nat) + " ok, "@ + decimal(
                s.failed as nat,
            ) + " failed ("@ + decimal(s.bytes_before as nat) + " → "@ + decimal(s.bytes_after as nat)
                + ")"@)
        },
        EventView::BatchCancelled { done, total, succeeded, failed } => if json {
            CliOutputView::Json
        } else {
            CliOutputView::Stderr("cancelled after "@ + decimal(done as nat) + "/"@ + decimal(
                total as nat,
            ) + " ("@ + decimal(succeeded as nat) + " ok, "@ + decimal(failed as nat)
                + " failed)"@)
        },
    }
}

fn push_resize_note(out: &mut String, resized: Option<DimensionChange>)
    ensures
        final(out)@ == old(out)@ + resize_note(resized),
{
    match resized {
        Some(c) => {
            out.append(" (");
            push_decimal(out, c.from_width as u128);
            out.append("×");
            push_decimal(out, c.from_height as u128);
            out.append(" → ");
            push_decimal(out, c.to_width as u128);
            out.append("×");
            push_decimal(out, c.to_height as u128);
            out.append(")");
        },
        None => {
            assert(old(out)@ + Seq::<char>::empty() == old(out)@);
        },
    }
}

fn push_outcome_note(out: &mut String, summary: &SummaryPayload)
    ensures
        final(out)@ == old(out)@ + outcome_note(summary@),
{
    match summary {
        SummaryPayload::AlreadyOptimized { size } => {
            out.append("already optimized (");
            out.append(size.as_str());
            out.append(")");
        },
        SummaryPayload::Saved { percent, from, to } | SummaryPayload::SavedMore { percent, from, to } => {
            out.append("-");
            push_decimal(out, *percent as u128);
            out.append("% (");
            out.append(from.as_str());
            out.append(" → ");
            out.append(to.as_str());
            out.append(")");
        },
    }
}

fn push_error_detail(out: &mut String, error: &ErrorPayload)
    ensures
        final(out)@ == old(out)@ + match error@.detail {
            Some(d) => " ("@ + d + ")"@,
            None => Seq::<char>::empty(),
        },
{
    match &error.detail {
        Some(d) => {
            out.append(" (");
            out.append(d.as_str());
            out.append(")");
        },
        None => {
            assert(old(out)@ + Seq::<char>::empty() == old(out)@);
        },
    }
}

/// What an event prints in JSON or text mode, quiet or not.
pub fn cli_output(json: bool, quiet: bool, event: &ProcessorEvent) -> (r: CliOutput)
    ensures
        r@ == spec_cli_output(json, quiet, event@),
{
    let mut line = String::new();
    match event {
        ProcessorEvent::BatchStarted { total } => {
            if quiet {
                CliOutput::Silent
            } else if json {
                CliOutput::Json
            } else {
                line.append("compressing ");
                push_decimal(&mut line, *total as u128);
                line.append(" file(s)");
                CliOutput::Stderr(line)
            }
        },
        ProcessorEvent::FileProcessing(name) => {
            if quiet {
                CliOutput::Silent
            } else {
                if json {
                    line.append("processing ");
                } else {
                    line.append("… ");
                }
                line.append(name.as_str());
                CliOutput::Stderr(line)
            }
        },
        ProcessorEvent::BatchProgress(p) => {
            if quiet {
                CliOutput::Silent
            } else if json {
                line.append("progress ");
                push_decimal(&mut line, p.done as u128);
                line.append("/");
                push_decimal(&mut line, p.total as u128);
                CliOutput::Stderr(line)
            } else {
                line.append("[");
                push_decimal(&mut line, p.done as u128);
                line.append("/");
                push_decimal(&mut line, p.total as u128);
                line.append("]");
                CliOutput::Stderr(line)
            }
        },
        ProcessorEvent::ImageOptimized { output_path, summary, source_name, resized } => {
            if quiet {
                CliOutput::Silent
            } else if json {
                CliOutput::Json
            } else {
                line.append(source_name.as_str());
                line.append(" → ");
                line.append(output_path.as_str());
                push_resize_note(&mut line, *resized);
                line.append(" ");
                push_outcome_note(&mut line, summary);
                CliOutput::Stdout(line)
            }
        },
        ProcessorEvent::DropError { file_name, error } => {
            if json {
                CliOutput::Json
            } else {
                line.append("error: ");
                line.append(file_name.as_str());
                line.append(": ");
                line.append(error.code.as_str());
                push_error_detail(&mut line, error);
                CliOutput::Stderr(line)
            }
        },
        ProcessorEvent::BatchComplete(s) => {
            if json {
                CliOutput::Json
            } else if quiet {
                CliOutput::Silent
            } else {
                line.append("done: ");
                push_decimal(&mut line, s.succeeded as u128);
                line.append(" ok, ");
                push_decimal(&mut line, s.failed as u128);
                line.append(" failed (");
                push_decimal(&mut line, s.bytes_before as u128);
                line.append(" → ");
                push_decimal(&mut line, s.bytes_after as u128);
                line.append(")");
                CliOutput::Stderr(line)
            }
        },
        ProcessorEvent::BatchCancelled { done, total, succeeded, failed } => {
            if json {
                CliOutput::Json
            } else {
                line.append("cancelled after ");
                push_decimal(&mut line, *done as u128);
                line.append("/");
                push_decimal(&mut line, *total as u128);
                line.append(" (");
                push_decimal(&mut line, *succeeded as u128);
                line.append(" ok, ");
                push_decimal(&mut line, *failed as u128);
                line.append(" failed)");
                CliOutput::Stderr(line)
            }
        },
    }
}

} // verus!
