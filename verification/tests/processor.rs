use dropslim::collect::CollectResult;
use dropslim::events::{BatchProgress, ProcessorEvent, RecordingEventSink};
use dropslim::formats::OutputFormatSetting;
use dropslim::output_path::UserSettings;
use dropslim::payloads::{BatchSummaryPayload, ErrorPayload, SummaryPayload};
use dropslim::summary::ByteUnits;
use dropslim::processor::{
    admit_batch, start_file, is_real_format_convert, record_file_result, resolve_optimization,
    unsupported_selection_label, worker_count, BatchState, FileOutcome, MAX_BATCH_FILES,
};

#[test]
fn batch_summary_only_after_multi_file_batch() {
    let mut batch = BatchState::new(2);
    batch.complete_success(100, 80);
    assert_eq!(batch.pending, 1);

    batch.complete_failure();
    assert_eq!(batch.pending, 0);
    assert_eq!(batch.succeeded, 1);
    assert_eq!(batch.failed, 1);
}

#[test]
fn single_file_batch_emits_summary_when_done() {
    let mut recording = RecordingEventSink::new();
    let mut batch = BatchState::new(1);
    batch.complete_success(100_000, 40_000);
    batch.finish_if_done(&mut recording);

    assert_eq!(
        recording.events(),
        vec![ProcessorEvent::BatchComplete(BatchSummaryPayload {
            total: 1,
            succeeded: 1,
            failed: 0,
            bytes_before: 100_000,
            bytes_after: 40_000,
        })]
    );
}

#[test]
fn unsupported_selection_label_uses_file_name() {
    let label = unsupported_selection_label(&["/tmp/notes.txt".to_string()]);
    assert_eq!(label, "notes.txt");
    let label = unsupported_selection_label(&["/tmp/a.txt".to_string(), "/tmp/b.txt".to_string()]);
    assert_eq!(label, "Dropped selection");
}

#[test]
fn detects_real_format_convert() {
    assert!(is_real_format_convert("photo.png", OutputFormatSetting::Avif));
    assert!(is_real_format_convert("photo.jpeg", OutputFormatSetting::Webp));
    assert!(!is_real_format_convert("photo.png", OutputFormatSetting::Original));
    assert!(!is_real_format_convert("photo.jpeg", OutputFormatSetting::Jpeg));
    assert!(!is_real_format_convert("anim.gif", OutputFormatSetting::Avif));
}

fn collected(paths: &[&str], missing: &[&str]) -> CollectResult {
    CollectResult {
        paths: paths.iter().map(|p| p.to_string()).collect(),
        missing: missing.iter().map(|p| p.to_string()).collect(),
        unreadable: vec![],
    }
}

#[test]
fn empty_selection_reports_nothing() {
    let mut sink = RecordingEventSink::new();
    let admitted = admit_batch(&mut sink, &[], collected(&[], &[]), &UserSettings::default());
    assert!(admitted.is_none());
    assert!(sink.events().is_empty());
}

#[test]
fn missing_paths_are_reported_and_nothing_else() {
    let mut sink = RecordingEventSink::new();
    let input = vec!["/no/such/photo.png".to_string()];
    let admitted = admit_batch(&mut sink, &input, collected(&[], &["photo.png"]), &UserSettings::default());
    assert!(admitted.is_none());
    assert_eq!(
        sink.events(),
        vec![ProcessorEvent::DropError {
            file_name: "photo.png".to_string(),
            error: ErrorPayload::file_not_found(),
        }]
    );
}

#[test]
fn selection_without_images_is_reported_by_name() {
    let mut sink = RecordingEventSink::new();
    let input = vec!["/tmp/notes.txt".to_string()];
    let admitted = admit_batch(&mut sink, &input, collected(&[], &[]), &UserSettings::default());
    assert!(admitted.is_none());
    assert_eq!(
        sink.events(),
        vec![ProcessorEvent::DropError {
            file_name: "notes.txt".to_string(),
            error: ErrorPayload::no_supported_images(),
        }]
    );
}

#[test]
fn missing_save_folder_refuses_the_batch() {
    let mut sink = RecordingEventSink::new();
    let input = vec!["/tmp/photo.png".to_string()];
    let settings = UserSettings { folderswitch: false, savepath: Some(vec![]), ..Default::default() };
    let admitted = admit_batch(&mut sink, &input, collected(&["/tmp/photo.png"], &[]), &settings);
    assert!(admitted.is_none());
    assert_eq!(
        sink.events(),
        vec![ProcessorEvent::DropError {
            file_name: "Settings".to_string(),
            error: ErrorPayload::save_folder_required(),
        }]
    );
}

#[test]
fn too_many_images_refuse_the_batch() {
    let mut sink = RecordingEventSink::new();
    let input = vec!["/tmp/big".to_string()];
    let paths: Vec<String> = (0..MAX_BATCH_FILES + 1).map(|i| format!("/tmp/big/{i}.png")).collect();
    let result = CollectResult { paths, missing: vec![], unreadable: vec![] };
    let admitted = admit_batch(&mut sink, &input, result, &UserSettings::default());
    assert!(admitted.is_none());
    assert_eq!(
        sink.events(),
        vec![ProcessorEvent::DropError {
            file_name: "Batch".to_string(),
            error: ErrorPayload::too_many_images(10_001, 10_000),
        }]
    );
}

#[test]
fn admitted_batch_starts_and_counts_its_files() {
    let mut sink = RecordingEventSink::new();
    let input = vec!["/tmp/a.png".to_string(), "/tmp/gone.png".to_string()];
    let admitted = admit_batch(
        &mut sink,
        &input,
        collected(&["/tmp/a.png"], &["gone.png"]),
        &UserSettings::default(),
    );
    assert_eq!(admitted, Some(vec!["/tmp/a.png".to_string()]));
    assert_eq!(
        sink.events(),
        vec![
            ProcessorEvent::DropError {
                file_name: "gone.png".to_string(),
                error: ErrorPayload::file_not_found(),
            },
            ProcessorEvent::BatchStarted { total: 1 },
        ]
    );
    assert_eq!(worker_count(1), 1);
    assert_eq!(worker_count(6), 3);
}

#[test]
fn finished_files_report_progress_then_totals() {
    let mut sink = RecordingEventSink::new();
    let mut batch = BatchState::new(2);
    let outcome = FileOutcome {
        output_path: "/tmp/a.min.png".to_string(),
        summary: SummaryPayload::AlreadyOptimized { size: "1 KB".to_string() },
        source_name: "a.png".to_string(),
        size_orig: 1000,
        size_after: 900,
        resized: None,
    };
    record_file_result(&mut sink, &mut batch, "a.png".to_string(), Ok(outcome));
    record_file_result(&mut sink, &mut batch, "b.png".to_string(), Err(ErrorPayload::unsupported_format()));
    let events = sink.events();
    assert_eq!(events.len(), 5);
    assert!(matches!(events[0], ProcessorEvent::ImageOptimized { .. }));
    assert_eq!(events[1], ProcessorEvent::BatchProgress(BatchProgress { done: 1, total: 2 }));
    assert_eq!(
        events[2],
        ProcessorEvent::DropError { file_name: "b.png".to_string(), error: ErrorPayload::unsupported_format() }
    );
    assert_eq!(events[3], ProcessorEvent::BatchProgress(BatchProgress { done: 2, total: 2 }));
    assert_eq!(
        events[4],
        ProcessorEvent::BatchComplete(BatchSummaryPayload {
            total: 2,
            succeeded: 1,
            failed: 1,
            bytes_before: 1000,
            bytes_after: 900,
        })
    );
    assert!(batch.cancelled_event().is_none());
}

#[test]
fn cancelled_batch_reports_how_far_it_got() {
    let mut batch = BatchState::new(6);
    batch.complete_success(10, 5);
    batch.complete_failure();
    assert_eq!(
        batch.cancelled_event(),
        Some(ProcessorEvent::BatchCancelled { done: 2, total: 6, succeeded: 1, failed: 1 })
    );
}

#[test]
fn larger_candidates_are_dropped_unless_converting() {
    let dropped = resolve_optimization(
        "/tmp/tiny.png",
        "/tmp/tiny.min.png",
        OutputFormatSetting::Original,
        100,
        Some(1),
        150,
        None,
        ByteUnits::Binary,
    );
    assert!(!dropped.keep_candidate);
    assert_eq!(dropped.output_path, "/tmp/tiny.min.png");
    assert_eq!(dropped.size_after, 1);
    assert!(matches!(dropped.summary, SummaryPayload::AlreadyOptimized { .. }));

    let first = resolve_optimization("/tmp/t.png", "/tmp/t.min.png", OutputFormatSetting::Original, 100, None, 150, None, ByteUnits::Binary);
    assert!(!first.keep_candidate);
    assert_eq!(first.output_path, "/tmp/t.png");
    assert_eq!(first.size_after, 100);

    let converted = resolve_optimization("/tmp/t.png", "/tmp/t.min.avif", OutputFormatSetting::Avif, 100, None, 150, None, ByteUnits::Binary);
    assert!(converted.keep_candidate);
    assert_eq!(converted.output_path, "/tmp/t.min.avif");
    assert_eq!(converted.size_after, 150);

    let smaller = resolve_optimization("/tmp/t.png", "/tmp/t.min.png", OutputFormatSetting::Original, 100, None, 40, None, ByteUnits::Binary);
    assert!(smaller.keep_candidate);
    assert_eq!(smaller.size_after, 40);
}

#[test]
fn totals_come_once_after_the_last_of_many_files() {
    let mut sink = RecordingEventSink::new();
    let mut batch = BatchState::new(3);
    for (index, ok) in [true, false, true].into_iter().enumerate() {
        let name = format!("{index}.png");
        let result = if ok {
            Ok(FileOutcome {
                output_path: format!("/tmp/{index}.min.png"),
                summary: SummaryPayload::AlreadyOptimized { size: "1 KB".to_string() },
                source_name: name.clone(),
                size_orig: 100,
                size_after: 60,
                resized: None,
            })
        } else {
            Err(ErrorPayload::unsupported_format())
        };
        record_file_result(&mut sink, &mut batch, name, result);
    }
    let events = sink.events();
    let completes: Vec<usize> = events
        .iter()
        .enumerate()
        .filter(|(_, e)| matches!(e, ProcessorEvent::BatchComplete(_)))
        .map(|(i, _)| i)
        .collect();
    assert_eq!(completes, vec![events.len() - 1]);
    assert_eq!(
        events[events.len() - 1],
        ProcessorEvent::BatchComplete(BatchSummaryPayload {
            total: 3,
            succeeded: 2,
            failed: 1,
            bytes_before: 200,
            bytes_after: 120,
        })
    );
}

#[test]
fn a_file_is_announced_by_its_name_first() {
    let mut sink = RecordingEventSink::new();
    let name = start_file(&mut sink, "/tmp/photos/a.png");
    assert_eq!(name, "a.png");
    assert_eq!(sink.events(), vec![ProcessorEvent::FileProcessing("a.png".to_string())]);
    let mut sink = RecordingEventSink::new();
    assert_eq!(start_file(&mut sink, "/"), "image");
}
