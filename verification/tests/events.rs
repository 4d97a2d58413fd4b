use dropslim::events::{event_channel, BatchProgress};
use dropslim::events::{EventSink, ProcessorEvent, RecordingEventSink};
use dropslim::payloads::{BatchSummaryPayload, ErrorPayload, SummaryPayload};

#[test]
fn events_records_batch_and_error_events() {
    let mut sink = RecordingEventSink::new();

    sink.send(ProcessorEvent::BatchStarted { total: 2 });
    sink.send(ProcessorEvent::DropError {
        file_name: "photo.png".to_string(),
        error: ErrorPayload::file_not_found(),
    });
    sink.send(ProcessorEvent::BatchComplete(BatchSummaryPayload {
        total: 1,
        succeeded: 1,
        failed: 0,
        bytes_before: 100,
        bytes_after: 40,
    }));

    assert_eq!(
        sink.events(),
        vec![
            ProcessorEvent::BatchStarted { total: 2 },
            ProcessorEvent::DropError {
                file_name: "photo.png".to_string(),
                error: ErrorPayload::file_not_found(),
            },
            ProcessorEvent::BatchComplete(BatchSummaryPayload {
                total: 1,
                succeeded: 1,
                failed: 0,
                bytes_before: 100,
                bytes_after: 40,
            }),
        ]
    );
}

#[test]
fn events_records_image_optimized_payload() {
    let mut sink = RecordingEventSink::new();

    sink.send(ProcessorEvent::ImageOptimized {
        output_path: "/tmp/photo.min.png".to_string(),
        summary: SummaryPayload::AlreadyOptimized {
            size: "40 KB".to_string(),
        },
        source_name: "photo.png".to_string(),
        resized: None,
    });

    assert!(matches!(
        sink.events(),
        [ProcessorEvent::ImageOptimized { .. }]
    ));
}

#[test]
fn each_event_has_its_window_channel() {
    assert_eq!(event_channel(&ProcessorEvent::BatchStarted { total: 1 }), "batch-started");
    assert_eq!(event_channel(&ProcessorEvent::FileProcessing("a".into())), "file-processing");
    assert_eq!(
        event_channel(&ProcessorEvent::BatchProgress(BatchProgress { done: 1, total: 2 })),
        "batch-progress"
    );
    assert_eq!(
        event_channel(&ProcessorEvent::BatchCancelled { done: 0, total: 1, succeeded: 0, failed: 0 }),
        "batch-cancelled"
    );
}
