//! The decisions of a batch: which selections start one, what each finished
//! file reports, and when the batch is complete.
//!
//! Reading files, running the encoders and the worker tasks are the caller's
//! part; it hands each outcome to these functions, which send the events.

use vstd::prelude::*;
use crate::collect::CollectResult;
use crate::events::{BatchProgress, EventSink, EventView, ProcessorEvent, views_of};
use crate::formats::{ImageFormat, OutputFormatSetting};
use crate::image::DimensionChange;
use crate::output_path::{custom_save_folder_missing, savepath_view, spec_save_folder_missing, UserSettings};
use crate::paths::{file_name, path_file_name};
use crate::payloads::{code_only, code_with_detail, ErrorPayload, ErrorView, SummaryPayload};
use crate::summary::{
    build_batch_summary_payload, build_optimize_summary_payload, should_keep_optimized_output,
    spec_optimize_summary, spec_should_keep, ByteUnits,
};

verus! {

/// How many files a batch may hold.
pub const MAX_BATCH_FILES: usize = 10_000;

/// How many files are optimized at once.
pub const OPTIMIZATION_CONCURRENCY: usize = 3;

/// How many workers a batch of `total` files gets.
pub fn worker_count(total: usize) -> (r: usize)
    ensures
        r == if total < OPTIMIZATION_CONCURRENCY { total } else { OPTIMIZATION_CONCURRENCY },
{
    if total < OPTIMIZATION_CONCURRENCY { total } else { OPTIMIZATION_CONCURRENCY }
}

/// The running totals of a batch.
pub struct BatchState {
    pub total: usize,
    pub pending: usize,
    pub succeeded: usize,
    pub failed: usize,
    pub bytes_before: u64,
    pub bytes_after: u64,
}

impl BatchState {
    /// Every file is pending, done well, or failed.
    pub open spec fn wf(&self) -> bool {
        self.pending + self.succeeded + self.failed == self.total
    }

    pub fn new(total: usize) -> (r: Self)
        ensures
            r.wf(),
            r.total == total,
            r.pending == total,
            r.succeeded == 0,
            r.failed == 0,
            r.bytes_before == 0,
            r.bytes_after == 0,
    {
        BatchState { total, pending: total, succeeded: 0, failed: 0, bytes_before: 0, bytes_after: 0 }
    }

    /// How many files are done, as a 32-bit count.
    pub fn done(&self) -> (r: u32)
        requires
            self.wf(),
        ensures
            r == (self.succeeded + self.failed) as u32,
    {
        (self.succeeded + self.failed) as u32
    }

    /// One more file done well, with its size before and after.
    pub fn complete_success(&mut self, bytes_before: u64, bytes_after: u64)
        requires
            old(self).wf(),
            old(self).pending > 0,
            old(self).bytes_before + bytes_before <= u64::MAX,
            old(self).bytes_after + bytes_after <= u64::MAX,
        ensures
            final(self).wf(),
            final(self).total == old(self).total,
            final(self).pending == old(self).pending - 1,
            final(self).succeeded == old(self).succeeded + 1,
            final(self).failed == old(self).failed,
            final(self).bytes_before == old(self).bytes_before + bytes_before,
            final(self).bytes_after == old(self).bytes_after + bytes_after,
    {
        self.pending = self.pending - 1;
        self.succeeded = self.succeeded + 1;
        self.bytes_before = self.bytes_before + bytes_before;
        self.bytes_after = self.bytes_after + bytes_after;
    }

    /// One more file failed.
    pub fn complete_failure(&mut self)
        requires
            old(self).wf(),
            old(self).pending > 0,
        ensures
            final(self).wf(),
            final(self).total == old(self).total,
            final(self).pending == old(self).pending - 1,
            final(self).succeeded == old(self).succeeded,
            final(self).failed == old(self).failed + 1,
            final(self).bytes_before == old(self).bytes_before,
            final(self).bytes_after == old(self).bytes_after,
    {
        self.pending = self.pending - 1;
        self.failed = self.failed + 1;
    }

    /// The progress of the batch.
    pub open spec fn progress_view(&self) -> EventView {
        EventView::BatchProgress(
            BatchProgress { done: (self.succeeded + self.failed) as u32, total: self.total as u32 },
        )
    }

    /// The totals of the batch, once nothing is pending.
    pub open spec fn complete_view(&self) -> EventView {
        EventView::BatchComplete(
            crate::payloads::BatchSummaryPayload {
                total: self.total as u32,
                succeeded: self.succeeded as u32,
                failed: self.failed as u32,
                bytes_before: self.bytes_before,
                bytes_after: self.bytes_after,
            },
        )
    }

    /// Sends the progress of the batch.
    pub fn emit_progress<E: EventSink>(&self, sink: &mut E)
        requires
            self.wf(),
        ensures
            final(sink).sent().len() == old(sink).sent().len() + 1,
            final(sink).sent().subrange(0, old(sink).sent().len() as int) == old(sink).sent(),
            final(sink).sent().last()@ == self.progress_view(),
    {
        let event = ProcessorEvent::BatchProgress(
            BatchProgress { done: self.done(), total: self.total as u32 },
        );
        sink.send(event);
        assert(final(sink).sent().subrange(0, old(sink).sent().len() as int) =~= old(sink).sent());
    }

    /// Sends the totals of the batch where nothing is pending any more, and
    /// nothing otherwise.
    pub fn finish_if_done<E: EventSink>(&self, sink: &mut E)
        requires
            self.wf(),
        ensures
            self.pending != 0 ==> final(sink).sent() == old(sink).sent(),
            self.pending == 0 ==> final(sink).sent().len() == old(sink).sent().len() + 1
                && final(sink).sent().subrange(0, old(sink).sent().len() as int) == old(sink).sent()
                && final(sink).sent().last()@ == self.complete_view(),
    {
        if self.pending != 0 {
            return;
        }
        let summary = build_batch_summary_payload(
            self.total,
            self.succeeded,
            self.failed,
            self.bytes_before,
            self.bytes_after,
        );
        sink.send(ProcessorEvent::BatchComplete(summary));
        assert(final(sink).sent().subrange(0, old(sink).sent().len() as int) =~= old(sink).sent());
    }

    /// What a cancelled batch reports: where files are still pending, how far
    /// it got; nothing where every file is done.
    pub fn cancelled_event(&self) -> (r: Option<ProcessorEvent>)
        requires
            self.wf(),
        ensures
            self.pending == 0 <==> r.is_none(),
            match r {
                Some(e) => e@ == (EventView::BatchCancelled {
                    done: (self.succeeded + self.failed) as u32,
                    total: self.total as u32,
                    succeeded: self.succeeded as u32,
                    failed: self.failed as u32,
                }),
                None => true,
            },
    {
        if self.pending > 0 {
            Some(ProcessorEvent::BatchCancelled {
                done: self.done(),
                total: self.total as u32,
                succeeded: self.succeeded as u32,
                failed: self.failed as u32,
            })
        } else {
            None
        }
    }
}

/// The error event for one file.
pub fn drop_error(file_name: String, error: ErrorPayload) -> (r: ProcessorEvent)
    ensures
        r@ == (EventView::DropError { file_name: file_name@, error: error@ }),
{
    ProcessorEvent::DropError { file_name, error }
}

/// The path a finished file reports: the output where the candidate was kept
/// or an earlier output exists, else the source itself.
pub open spec fn spec_report_output_path(
    file_path: Seq<char>,
    output_path: Seq<char>,
    previous_output_size: Option<u64>,
    kept_output: bool,
) -> Seq<char> {
    if kept_output || previous_output_size.is_some() {
        output_path
    } else {
        file_path
    }
}

pub fn report_output_path(
    file_path: &str,
    output_path: &str,
    previous_output_size: Option<u64>,
    kept_output: bool,
) -> (r: String)
    ensures
        r@ == spec_report_output_path(file_path@, output_path@, previous_output_size, kept_output),
{
    if kept_output {
        return output_path.to_owned();
    }
    if previous_output_size.is_some() {
        output_path.to_owned()
    } else {
        file_path.to_owned()
    }
}

/// Whether the settings turn the file into another format: its format is
/// known, is neither GIF nor SVG (which are never converted), and differs
/// from the target.
pub open spec fn spec_is_real_format_convert(file_path: Seq<char>, output_format: OutputFormatSetting) -> bool {
    match ImageFormat::spec_from_path(file_path) {
        None => false,
        Some(source) => source != ImageFormat::Gif && source != ImageFormat::Svg && match output_format.spec_target_format() {
            Some(target) => target != source,
            None => false,
        },
    }
}

pub fn is_real_format_convert(file_path: &str, output_format: OutputFormatSetting) -> (r: bool)
    ensures
        r == spec_is_real_format_convert(file_path@, output_format),
{
    let source = match ImageFormat::from_path(file_path) {
        Some(f) => f,
        None => return false,
    };
    if source == ImageFormat::Gif || source == ImageFormat::Svg {
        return false;
    }
    match output_format.target_format() {
        Some(target) => target != source,
        None => false,
    }
}

/// The size a finished file ends at: the candidate's where it is kept, else
/// the size it failed to beat.
pub open spec fn spec_size_after(
    file_path: Seq<char>,
    output_format: OutputFormatSetting,
    size_orig: nat,
    previous_output_size: Option<u64>,
    candidate_size: nat,
) -> nat {
    if spec_is_real_format_convert(file_path, output_format) || spec_should_keep(
        candidate_size,
        size_orig,
        previous_output_size,
    ) {
        candidate_size
    } else {
        match previous_output_size {
            Some(p) => p as nat,
            None => size_orig,
        }
    }
}

/// Optimizing again never grows an output: unless the file is converted to
/// another format, what a file ends at is no larger than the earlier output
/// (or, on a first pass, than the source), and smaller exactly where the new
/// candidate is kept.
pub proof fn lemma_output_never_grows(
    file_path: Seq<char>,
    output_format: OutputFormatSetting,
    size_orig: nat,
    previous_output_size: Option<u64>,
    candidate_size: nat,
)
    requires
        !spec_is_real_format_convert(file_path, output_format),
    ensures
        spec_size_after(file_path, output_format, size_orig, previous_output_size, candidate_size)
            <= match previous_output_size {
            Some(p) => p as nat,
            None => size_orig,
        },
        spec_should_keep(candidate_size, size_orig, previous_output_size) ==> spec_size_after(
            file_path,
            output_format,
            size_orig,
            previous_output_size,
            candidate_size,
        ) < match previous_output_size {
            Some(p) => p as nat,
            None => size_orig,
        },
{
}

/// What one optimized file comes to.
pub struct ResolvedOptimization {
    /// Whether the candidate replaces the output.
    pub keep_candidate: bool,
    pub output_path: String,
    pub summary: SummaryPayload,
    pub size_after: u64,
    pub resized: Option<DimensionChange>,
}

/// Decides over a finished candidate; sizes are labelled in `units`. A real format conversion is always
/// kept; otherwise the candidate is kept only where it beats the source and
/// any earlier output. A dropped candidate reports the size it failed to beat
/// and no resize.
pub fn resolve_optimization(
    file_path: &str,
    output_path: &str,
    output_format: OutputFormatSetting,
    size_orig: u64,
    previous_output_size: Option<u64>,
    candidate_size: u64,
    resized: Option<DimensionChange>,
    units: ByteUnits,
) -> (r: ResolvedOptimization)
    ensures
        r.keep_candidate == (spec_is_real_format_convert(file_path@, output_format)
            || spec_should_keep(candidate_size as nat, size_orig as nat, previous_output_size)),
        r.size_after == spec_size_after(
            file_path@,
            output_format,
            size_orig as nat,
            previous_output_size,
            candidate_size as nat,
        ),
        r.keep_candidate ==> r.output_path@ == output_path@ && r.size_after == candidate_size
            && r.summary@ == spec_optimize_summary(
                size_orig as nat,
                candidate_size as nat,
                previous_output_size,
                units,
            ) && r.resized == resized,
        !r.keep_candidate ==> r.output_path@ == spec_report_output_path(
            file_path@,
            output_path@,
            previous_output_size,
            false,
        ) && r.size_after == match previous_output_size {
            Some(p) => p,
            None => size_orig,
        } && r.summary@ == spec_optimize_summary(
            size_orig as nat,
            r.size_after as nat,
            previous_output_size,
            units,
        ) && r.resized.is_none(),
{
    let threshold = match previous_output_size {
        Some(p) => p,
        None => size_orig,
    };
    let force_keep = is_real_format_convert(file_path, output_format);
    let keep = force_keep || should_keep_optimized_output(candidate_size, size_orig, previous_output_size);
    if keep {
        ResolvedOptimization {
            keep_candidate: true,
            output_path: output_path.to_owned(),
            summary: build_optimize_summary_payload(size_orig, candidate_size, previous_output_size, units),
            size_after: candidate_size,
            resized,
        }
    } else {
        ResolvedOptimization {
            keep_candidate: false,
            output_path: report_output_path(file_path, output_path, previous_output_size, false),
            summary: build_optimize_summary_payload(size_orig, threshold, previous_output_size, units),
            size_after: threshold,
            resized: None,
        }
    }
}

/// The name under which an unusable selection is reported: the file's name
/// where a single path was dropped, else "Dropped selection".
pub open spec fn spec_selection_label(input_paths: Seq<Seq<char>>) -> Seq<char> {
    if input_paths.len() == 1 {
        match path_file_name(input_paths[0]) {
            Some(name) => name,
            None => "Dropped selection"@,
        }
    } else {
        "Dropped selection"@
    }
}

/// The texts of a sequence of strings.
pub open spec fn texts(v: Seq<String>) -> Seq<Seq<char>> {
    v.map_values(|s: String| s@)
}

pub fn unsupported_selection_label(input_paths: &[String]) -> (r: String)
    ensures
        r@ == spec_selection_label(texts(input_paths@)),
{
    if input_paths.len() == 1 {
        assert(texts(input_paths@)[0] == input_paths@[0]@);
        match file_name(input_paths[0].as_str()) {
            Some(name) => name,
            None => "Dropped selection".to_owned(),
        }
    } else {
        "Dropped selection".to_owned()
    }
}

/// The name a file is reported under: its file name, or "image".
pub open spec fn spec_file_label(path: Seq<char>) -> Seq<char> {
    match path_file_name(path) {
        Some(name) => name,
        None => "image"@,
    }
}

pub fn file_label(path: &str) -> (r: String)
    ensures
        r@ == spec_file_label(path@),
{
    match file_name(path) {
        Some(name) => name,
        None => "image".to_owned(),
    }
}

/// Starts a file: reports it by its name, before its result. Returns the
/// name it is reported under, for its result.
pub fn start_file<E: EventSink>(sink: &mut E, file_path: &str) -> (r: String)
    ensures
        r@ == spec_file_label(file_path@),
        views_of(final(sink).sent()) == views_of(old(sink).sent()).push(
            EventView::FileProcessing(spec_file_label(file_path@)),
        ),
{
    let name = file_label(file_path);
    let ghost before = sink.sent();
    sink.send(ProcessorEvent::FileProcessing(name.clone()));
    assert(views_of(sink.sent()) =~= views_of(before).push(EventView::FileProcessing(name@)));
    name
}

/// The error reported for a path that does not exist.
pub open spec fn not_found_event(name: Seq<char>) -> EventView {
    EventView::DropError { file_name: name, error: code_only("fileNotFound"@) }
}

/// The error reported for a file whose path cannot be resolved.
pub open spec fn unreadable_event(name: Seq<char>) -> EventView {
    EventView::DropError { file_name: name, error: code_with_detail("io"@, "Could not read file path."@) }
}

/// What ends the admission of a selection: an error that refuses it, or the
/// start of the batch. A selection with nothing to optimize is reported only
/// where no path was missing or unreadable.
pub open spec fn admission_tail(
    label: Seq<char>,
    n_paths: nat,
    had_errors: bool,
    folder_missing: bool,
) -> Seq<EventView> {
    if n_paths == 0 {
        if had_errors {
            Seq::empty()
        } else {
            seq![EventView::DropError { file_name: label, error: code_only("noSupportedImages"@) }]
        }
    } else if n_paths > MAX_BATCH_FILES {
        seq![EventView::DropError {
            file_name: "Batch"@,
            error: ErrorView {
                code: "tooManyImages"@,
                count: Some(n_paths as u32),
                max: Some(MAX_BATCH_FILES as u32),
                detail: None,
            },
        }]
    } else if folder_missing {
        seq![EventView::DropError { file_name: "Settings"@, error: code_only("saveFolderRequired"@) }]
    } else {
        seq![EventView::BatchStarted { total: n_paths as u32 }]
    }
}

/// Everything the admission of a collected selection reports.
pub open spec fn admission_events(
    input_paths: Seq<Seq<char>>,
    missing: Seq<Seq<char>>,
    unreadable: Seq<Seq<char>>,
    n_paths: nat,
    folder_missing: bool,
) -> Seq<EventView> {
    if input_paths.len() == 0 {
        Seq::empty()
    } else {
        missing.map_values(|m: Seq<char>| not_found_event(m)) + unreadable.map_values(
            |u: Seq<char>| unreadable_event(u),
        ) + admission_tail(
            spec_selection_label(input_paths),
            n_paths,
            missing.len() > 0 || unreadable.len() > 0,
            folder_missing,
        )
    }
}

fn send_all<E: EventSink>(sink: &mut E, names: &Vec<String>, not_found: bool)
    ensures
        views_of(final(sink).sent()) == views_of(old(sink).sent()) + if not_found {
            texts(names@).map_values(|m: Seq<char>| not_found_event(m))
        } else {
            texts(names@).map_values(|u: Seq<char>| unreadable_event(u))
        },
{
    let ghost start = views_of(sink.sent());
    let ghost f = if not_found {
        |m: Seq<char>| not_found_event(m)
    } else {
        |u: Seq<char>| unreadable_event(u)
    };
    let mut i: usize = 0;
    while i < names.len()
        invariant
            i <= names.len(),
            f == (if not_found {
                |m: Seq<char>| not_found_event(m)
            } else {
                |u: Seq<char>| unreadable_event(u)
            }),
            views_of(sink.sent()) == start + texts(names@).subrange(0, i as int).map_values(f),
        decreases names.len() - i,
    {
        let error = if not_found {
            ErrorPayload::file_not_found()
        } else {
            ErrorPayload::io("Could not read file path.")
        };
        let ghost before = sink.sent();
        sink.send(drop_error(names[i].clone(), error));
        proof {
            assert(views_of(sink.sent()) =~= views_of(before).push(sink.sent().last()@));
            assert(texts(names@).subrange(0, i + 1).map_values(f) =~= texts(names@).subrange(
                0,
                i as int,
            ).map_values(f).push(f(names@[i as int]@)));
        }
        i = i + 1;
    }
    assert(texts(names@).subrange(0, names.len() as int) =~= texts(names@));
}

/// Admits a collected selection: reports the missing and the unreadable
/// paths, then refuses the selection (nothing to optimize, too many files,
/// no save folder) or starts the batch. Returns the files to optimize where
/// the batch starts.
pub fn admit_batch<E: EventSink>(
    sink: &mut E,
    input_paths: &[String],
    collected: CollectResult,
    settings: &UserSettings,
) -> (r: Option<Vec<String>>)
    ensures
        views_of(final(sink).sent()) == views_of(old(sink).sent()) + admission_events(
            texts(input_paths@),
            texts(collected.missing@),
            texts(collected.unreadable@),
            collected.paths@.len(),
            spec_save_folder_missing(settings.folderswitch, savepath_view(settings.savepath)),
        ),
        r.is_some() <==> (input_paths@.len() > 0 && 0 < collected.paths@.len() <= MAX_BATCH_FILES
            && !spec_save_folder_missing(settings.folderswitch, savepath_view(settings.savepath))),
        match r {
            Some(paths) => paths@ == collected.paths@,
            None => true,
        },
{
    let ghost start = views_of(sink.sent());
    if input_paths.len() == 0 {
        assert(views_of(sink.sent()) =~= start + Seq::<EventView>::empty());
        return None;
    }
    send_all(sink, &collected.missing, true);
    send_all(sink, &collected.unreadable, false);
    let ghost mid = views_of(sink.sent());
    let had_errors = collected.missing.len() > 0 || collected.unreadable.len() > 0;
    let n = collected.paths.len();
    let folder_missing = custom_save_folder_missing(settings);
    let ghost tail = admission_tail(
        spec_selection_label(texts(input_paths@)),
        n as nat,
        had_errors,
        folder_missing,
    );
    let result = if n == 0 {
        if !had_errors {
            let label = unsupported_selection_label(input_paths);
            sink.send(drop_error(label, ErrorPayload::no_supported_images()));
        }
        None
    } else if n > MAX_BATCH_FILES {
        sink.send(drop_error("Batch".to_owned(), ErrorPayload::too_many_images(n as u32, MAX_BATCH_FILES as u32)));
        None
    } else if folder_missing {
        sink.send(drop_error("Settings".to_owned(), ErrorPayload::save_folder_required()));
        None
    } else {
        sink.send(ProcessorEvent::BatchStarted { total: n as u32 });
        Some(collected.paths)
    };
    proof {
        reveal_strlit("Batch");
        reveal_strlit("Settings");
        if n == 0 && had_errors {
            assert(views_of(sink.sent()) =~= mid + tail);
        } else {
            assert(views_of(sink.sent()) =~= mid + tail);
        }
    }
    result
}

/// The sizes a file adds to the totals: before and after where it was
/// optimized, none where it failed.
pub open spec fn outcome_sizes(result: Result<FileOutcome, ErrorPayload>) -> Option<(u64, u64)> {
    match result {
        Ok(o) => Some((o.size_orig, o.size_after)),
        Err(_) => None,
    }
}

/// The totals once one more file is done, with the sizes it adds (none for
/// a failure).
pub open spec fn spec_record(b: BatchState, sizes: Option<(u64, u64)>) -> BatchState {
    match sizes {
        Some((before, after)) => BatchState {
            total: b.total,
            pending: (b.pending - 1) as usize,
            succeeded: (b.succeeded + 1) as usize,
            failed: b.failed,
            bytes_before: (b.bytes_before + before) as u64,
            bytes_after: (b.bytes_after + after) as u64,
        },
        None => BatchState {
            total: b.total,
            pending: (b.pending - 1) as usize,
            succeeded: b.succeeded,
            failed: (b.failed + 1) as usize,
            bytes_before: b.bytes_before,
            bytes_after: b.bytes_after,
        },
    }
}

/// The totals of a fresh batch of `total` files.
pub open spec fn spec_new_batch(total: usize) -> BatchState {
    BatchState { total, pending: total, succeeded: 0, failed: 0, bytes_before: 0, bytes_after: 0 }
}

/// The totals after the files' results are recorded in order.
pub open spec fn run_batch(b: BatchState, outcomes: Seq<Option<(u64, u64)>>) -> BatchState
    decreases outcomes.len(),
{
    if outcomes.len() == 0 {
        b
    } else {
        spec_record(run_batch(b, outcomes.drop_last()), outcomes.last())
    }
}

/// How many of the results are successes.
pub open spec fn count_ok(outcomes: Seq<Option<(u64, u64)>>) -> nat
    decreases outcomes.len(),
{
    if outcomes.len() == 0 {
        0
    } else {
        count_ok(outcomes.drop_last()) + if outcomes.last().is_some() { 1nat } else { 0nat }
    }
}

/// The sizes before, summed over the successes.
pub open spec fn sum_before(outcomes: Seq<Option<(u64, u64)>>) -> nat
    decreases outcomes.len(),
{
    if outcomes.len() == 0 {
        0
    } else {
        sum_before(outcomes.drop_last()) + match outcomes.last() { Some((b, _)) => b as nat, None => 0nat }
    }
}

/// The sizes after, summed over the successes.
pub open spec fn sum_after(outcomes: Seq<Option<(u64, u64)>>) -> nat
    decreases outcomes.len(),
{
    if outcomes.len() == 0 {
        0
    } else {
        sum_after(outcomes.drop_last()) + match outcomes.last() { Some((_, a)) => a as nat, None => 0nat }
    }
}

proof fn lemma_sums_of_prefix(outcomes: Seq<Option<(u64, u64)>>, k: int)
    requires
        0 <= k <= outcomes.len(),
    ensures
        sum_before(outcomes.take(k)) <= sum_before(outcomes),
        sum_after(outcomes.take(k)) <= sum_after(outcomes),
        count_ok(outcomes.take(k)) <= k,
    decreases outcomes.len(),
{
    if k == outcomes.len() {
        assert(outcomes.take(k) =~= outcomes);
        lemma_count_ok_bound(outcomes);
    } else {
        assert(outcomes.drop_last().take(k) =~= outcomes.take(k));
        lemma_sums_of_prefix(outcomes.drop_last(), k);
    }
}

proof fn lemma_count_ok_bound(outcomes: Seq<Option<(u64, u64)>>)
    ensures
        count_ok(outcomes) <= outcomes.len(),
    decreases outcomes.len(),
{
    if outcomes.len() > 0 {
        lemma_count_ok_bound(outcomes.drop_last());
    }
}

proof fn lemma_run_batch(total: usize, outcomes: Seq<Option<(u64, u64)>>)
    requires
        outcomes.len() <= total,
        sum_before(outcomes) <= u64::MAX,
        sum_after(outcomes) <= u64::MAX,
    ensures
        run_batch(spec_new_batch(total), outcomes).wf(),
        run_batch(spec_new_batch(total), outcomes).total == total,
        run_batch(spec_new_batch(total), outcomes).pending == total - outcomes.len(),
        run_batch(spec_new_batch(total), outcomes).succeeded == count_ok(outcomes),
        run_batch(spec_new_batch(total), outcomes).failed == outcomes.len() - count_ok(outcomes),
        run_batch(spec_new_batch(total), outcomes).bytes_before == sum_before(outcomes),
        run_batch(spec_new_batch(total), outcomes).bytes_after == sum_after(outcomes),
    decreases outcomes.len(),
{
    if outcomes.len() > 0 {
        lemma_run_batch(total, outcomes.drop_last());
        lemma_count_ok_bound(outcomes.drop_last());
    }
}

/// A batch of `total` files whose results are recorded one by one, in any
/// order of successes and failures: every file stays counted as pending,
/// done well or failed; the progress after the k-th result is k of total;
/// the last result, and no earlier one, leaves nothing pending (so the
/// totals are reported exactly once, after the last file);
/// and the totals count the successes, the failures and the sizes of the
/// successes.
pub proof fn lemma_batch_completes_once(total: usize, outcomes: Seq<Option<(u64, u64)>>)
    requires
        outcomes.len() == total,
        sum_before(outcomes) <= u64::MAX,
        sum_after(outcomes) <= u64::MAX,
    ensures
        forall|k: int| 0 <= k <= total ==> (#[trigger] run_batch(spec_new_batch(total), outcomes.take(k))).wf()
            && (run_batch(spec_new_batch(total), outcomes.take(k)).pending == 0 <==> k == total)
            && run_batch(spec_new_batch(total), outcomes.take(k)).progress_view() == EventView::BatchProgress(
                BatchProgress { done: k as u32, total: total as u32 },
            ),
        run_batch(spec_new_batch(total), outcomes).succeeded == count_ok(outcomes),
        run_batch(spec_new_batch(total), outcomes).failed == total - count_ok(outcomes),
        run_batch(spec_new_batch(total), outcomes).bytes_before == sum_before(outcomes),
        run_batch(spec_new_batch(total), outcomes).bytes_after == sum_after(outcomes),
{
    assert forall|k: int| 0 <= k <= total implies (#[trigger] run_batch(spec_new_batch(total), outcomes.take(k))).wf()
        && (run_batch(spec_new_batch(total), outcomes.take(k)).pending == 0 <==> k == total)
        && run_batch(spec_new_batch(total), outcomes.take(k)).progress_view() == EventView::BatchProgress(
            BatchProgress { done: k as u32, total: total as u32 },
        ) by {
        lemma_sums_of_prefix(outcomes, k);
        lemma_run_batch(total, outcomes.take(k));
    }
    lemma_run_batch(total, outcomes);
}

/// What a file that was optimized reports and adds to the totals.
pub struct FileOutcome {
    pub output_path: String,
    pub summary: SummaryPayload,
    pub source_name: String,
    pub size_orig: u64,
    pub size_after: u64,
    pub resized: Option<DimensionChange>,
}

/// The event that reports a file's result.
pub open spec fn result_view(error_file_name: Seq<char>, result: Result<FileOutcome, ErrorPayload>) -> EventView {
    match result {
        Ok(o) => EventView::ImageOptimized {
            output_path: o.output_path@,
            summary: o.summary@,
            source_name: o.source_name@,
            resized: o.resized,
        },
        Err(e) => EventView::DropError { file_name: error_file_name, error: e@ },
    }
}

/// Records one finished file: reports its result, counts it, reports the
/// progress, and the totals where it was the last pending file.
pub fn record_file_result<E: EventSink>(
    sink: &mut E,
    batch: &mut BatchState,
    error_file_name: String,
    result: Result<FileOutcome, ErrorPayload>,
)
    requires
        old(batch).wf(),
        old(batch).pending > 0,
        match result {
            Ok(o) => old(batch).bytes_before + o.size_orig <= u64::MAX
                && old(batch).bytes_after + o.size_after <= u64::MAX,
            Err(_) => true,
        },
    ensures
        final(batch).wf(),
        *final(batch) == spec_record(*old(batch), outcome_sizes(result)),
        final(batch).total == old(batch).total,
        final(batch).pending == old(batch).pending - 1,
        match result {
            Ok(o) => final(batch).succeeded == old(batch).succeeded + 1
                && final(batch).failed == old(batch).failed
                && final(batch).bytes_before == old(batch).bytes_before + o.size_orig
                && final(batch).bytes_after == old(batch).bytes_after + o.size_after,
            Err(_) => final(batch).succeeded == old(batch).succeeded
                && final(batch).failed == old(batch).failed + 1
                && final(batch).bytes_before == old(batch).bytes_before
                && final(batch).bytes_after == old(batch).bytes_after,
        },
        views_of(final(sink).sent()) == views_of(old(sink).sent()) + seq![
            result_view(error_file_name@, result),
            final(batch).progress_view(),
        ] + if final(batch).pending == 0 {
            seq![final(batch).complete_view()]
        } else {
            Seq::<EventView>::empty()
        },
{
    let ghost start = views_of(sink.sent());
    let ghost rv = result_view(error_file_name@, result);
    match result {
        Ok(o) => {
            let size_orig = o.size_orig;
            let size_after = o.size_after;
            sink.send(ProcessorEvent::ImageOptimized {
                output_path: o.output_path,
                summary: o.summary,
                source_name: o.source_name,
                resized: o.resized,
            });
            batch.complete_success(size_orig, size_after);
        },
        Err(error) => {
            sink.send(drop_error(error_file_name, error));
            batch.complete_failure();
        },
    }
    let ghost s1 = sink.sent();
    assert(views_of(s1) =~= start.push(rv));
    batch.emit_progress(sink);
    let ghost s2 = sink.sent();
    assert(views_of(s2) =~= views_of(s1).push(batch.progress_view()));
    batch.finish_if_done(sink);
    proof {
        if batch.pending == 0 {
            assert(views_of(sink.sent()) =~= views_of(s2).push(batch.complete_view()));
        } else {
            assert(views_of(sink.sent()) =~= views_of(s2));
        }
        assert(views_of(sink.sent()) =~= start + seq![rv, batch.progress_view()] + if batch.pending == 0 {
            seq![batch.complete_view()]
        } else {
            Seq::<EventView>::empty()
        });
    }
}

} // verus!
