//! Events a batch reports while it runs, and the sinks that receive them.

use vstd::prelude::*;
use crate::image::DimensionChange;
use crate::payloads::{BatchSummaryPayload, ErrorPayload, ErrorView, SummaryPayload, SummaryView};

verus! {

/// How many files of a batch are done.
#[derive(Debug, Clone, Copy, PartialEq, Eq, Structural)]
pub struct BatchProgress {
    pub done: u32,
    pub total: u32,
}

/// One step of a batch, as reported to its sink.
#[derive(Debug, Clone, PartialEq, Eq)]
pub enum ProcessorEvent {
    BatchStarted { total: u32 },
    FileProcessing(String),
    BatchProgress(BatchProgress),
    ImageOptimized {
        output_path: String,
        summary: SummaryPayload,
        source_name: String,
        resized: Option<DimensionChange>,
    },
    DropError { file_name: String, error: ErrorPayload },
    BatchComplete(BatchSummaryPayload),
    BatchCancelled { done: u32, total: u32, succeeded: u32, failed: u32 },
}

/// `ProcessorEvent` with its texts as character sequences.
pub enum EventView {
    BatchStarted { total: u32 },
    FileProcessing(Seq<char>),
    BatchProgress(BatchProgress),
    ImageOptimized {
        output_path: Seq<char>,
        summary: SummaryView,
        source_name: Seq<char>,
        resized: Option<DimensionChange>,
    },
    DropError { file_name: Seq<char>, error: ErrorView },
    BatchComplete(BatchSummaryPayload),
    BatchCancelled { done: u32, total: u32, succeeded: u32, failed: u32 },
}

impl View for ProcessorEvent {
    type V = EventView;

    open spec fn view(&self) -> EventView {
        match self {
            ProcessorEvent::BatchStarted { total } => EventView::BatchStarted { total: *total },
            ProcessorEvent::FileProcessing(name) => EventView::FileProcessing(name@),
            ProcessorEvent::BatchProgress(p) => EventView::BatchProgress(*p),
            ProcessorEvent::ImageOptimized { output_path, summary, source_name, resized } =>
                EventView::ImageOptimized {
                    output_path: output_path@,
                    summary: summary@,
                    source_name: source_name@,
                    resized: *resized,
                },
            ProcessorEvent::DropError { file_name, error } => EventView::DropError {
                file_name: file_name@,
                error: error@,
            },
            ProcessorEvent::BatchComplete(s) => EventView::BatchComplete(*s),
            ProcessorEvent::BatchCancelled { done, total, succeeded, failed } =>
                EventView::BatchCancelled {
                    done: *done,
                    total: *total,
                    succeeded: *succeeded,
                    failed: *failed,
                },
        }
    }
}

/// The views of a sequence of events.
pub open spec fn views_of(events: Seq<ProcessorEvent>) -> Seq<EventView> {
    events.map_values(|e: ProcessorEvent| e@)
}

/// The name of the window event each batch event is emitted under.
pub open spec fn spec_event_channel(event: EventView) -> Seq<char> {
    match event {
        EventView::BatchStarted { .. } => "batch-started"@,
        EventView::FileProcessing(_) => "file-processing"@,
        EventView::BatchProgress(_) => "batch-progress"@,
        EventView::ImageOptimized { .. } => "image-optimized"@,
        EventView::DropError { .. } => "drop-error"@,
        EventView::BatchComplete(_) => "batch-complete"@,
        EventView::BatchCancelled { .. } => "batch-cancelled"@,
    }
}

pub fn event_channel(event: &ProcessorEvent) -> (r: &'static str)
    ensures
        r@ == spec_event_channel(event@),
{
    match event {
        ProcessorEvent::BatchStarted { .. } => "batch-started",
        ProcessorEvent::FileProcessing(_) => "file-processing",
        ProcessorEvent::BatchProgress(_) => "batch-progress",
        ProcessorEvent::ImageOptimized { .. } => "image-optimized",
        ProcessorEvent::DropError { .. } => "drop-error",
        ProcessorEvent::BatchComplete(_) => "batch-complete",
        ProcessorEvent::BatchCancelled { .. } => "batch-cancelled",
    }
}

/// A receiver of batch events. `sent` is everything it has received, in order.
pub trait EventSink {
    spec fn sent(&self) -> Seq<ProcessorEvent>;

    fn send(&mut self, event: ProcessorEvent)
        ensures
            final(self).sent() == old(self).sent().push(event),
    ;
}

/// A sink that keeps every event it receives.
pub struct RecordingEventSink {
    events: Vec<ProcessorEvent>,
}

impl RecordingEventSink {
    pub fn new() -> (r: Self)
        ensures
            r.sent() == Seq::<ProcessorEvent>::empty(),
    {
        RecordingEventSink { events: Vec::new() }
    }

    /// The events received so far, in order.
    pub fn events(&self) -> (r: &[ProcessorEvent])
        ensures
            r@ == self.sent(),
    {
        self.events.as_slice()
    }
}

impl EventSink for RecordingEventSink {
    closed spec fn sent(&self) -> Seq<ProcessorEvent> {
        self.events@
    }

    fn send(&mut self, event: ProcessorEvent) {
        self.events.push(event);
    }
}

} // verus!
