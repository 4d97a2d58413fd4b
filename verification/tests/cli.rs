use dropslim::cli::compress_exit_code;
use dropslim::cli::run_outcome;
use dropslim::cli::{
    cli_output, exit_code, settings_from_flags, validate_out_dir, CliEventSink, CliOutput, RunOutcome,
};
use dropslim::events::{BatchProgress, EventSink, ProcessorEvent};
use dropslim::formats::OutputFormatSetting;
use dropslim::image::DimensionChange;
use dropslim::payloads::{BatchSummaryPayload, ErrorPayload, SummaryPayload};

#[test]
fn maps_outcomes_to_exit_codes() {
    assert_eq!(exit_code(RunOutcome::Succeeded), 0);
    assert_eq!(exit_code(RunOutcome::Failed), 1);
    assert_eq!(exit_code(RunOutcome::Cancelled), 130);
}

#[test]
fn default_writes_beside_source_with_suffix() {
    let settings = settings_from_flags(false, false, None, None, None, OutputFormatSetting::Original);
    assert!(settings.folderswitch);
    assert!(settings.suffix);
    assert!(!settings.subfolder);
    assert!(settings.savepath.is_none());
    assert!(!settings.limit_dimensions);
}

#[test]
fn out_disables_folderswitch() {
    let out = "/tmp/out";
    let settings = settings_from_flags(true, true, Some(out), Some(800), None, OutputFormatSetting::Webp);
    assert!(!settings.folderswitch);
    assert!(!settings.suffix);
    assert!(settings.subfolder);
    assert_eq!(settings.savepath.as_deref(), Some(&["/tmp/out".to_string()][..]));
    assert!(settings.limit_dimensions);
    assert_eq!(settings.max_width, Some(800));
    assert_eq!(settings.output_format, OutputFormatSetting::Webp);
}

#[test]
fn empty_output_directory_is_refused() {
    assert_eq!(validate_out_dir(None), Ok(()));
    assert_eq!(validate_out_dir(Some("dest")), Ok(()));
    assert_eq!(
        validate_out_dir(Some("")),
        Err("output directory must not be empty".to_string())
    );
}

#[test]
fn sink_counts_errors_and_notes_cancellation() {
    let mut sink = CliEventSink::new(false, true);
    assert_eq!(sink.failed(), 0);
    assert!(!sink.cancelled());
    sink.send(ProcessorEvent::DropError {
        file_name: "a.png".to_string(),
        error: ErrorPayload::file_not_found(),
    });
    sink.send(ProcessorEvent::BatchStarted { total: 2 });
    sink.send(ProcessorEvent::DropError {
        file_name: "b.png".to_string(),
        error: ErrorPayload::unsupported_format(),
    });
    assert_eq!(sink.failed(), 2);
    assert!(!sink.cancelled());
    sink.send(ProcessorEvent::BatchCancelled { done: 2, total: 3, succeeded: 0, failed: 2 });
    assert!(sink.cancelled());
}

fn stderr(output: CliOutput) -> String {
    match output {
        CliOutput::Stderr(line) => line,
        _ => panic!("expected a line on standard error"),
    }
}

#[test]
fn human_lines_describe_each_event() {
    assert_eq!(
        stderr(cli_output(false, false, &ProcessorEvent::BatchStarted { total: 3 })),
        "compressing 3 file(s)"
    );
    assert_eq!(
        stderr(cli_output(false, false, &ProcessorEvent::FileProcessing("a.png".to_string()))),
        "… a.png"
    );
    assert_eq!(
        stderr(cli_output(
            false,
            false,
            &ProcessorEvent::BatchProgress(BatchProgress { done: 1, total: 3 })
        )),
        "[1/3]"
    );
    let optimized = ProcessorEvent::ImageOptimized {
        output_path: "/tmp/a.min.png".to_string(),
        summary: SummaryPayload::Saved {
            percent: 40,
            from: "10 KB".to_string(),
            to: "6 KB".to_string(),
        },
        source_name: "a.png".to_string(),
        resized: Some(DimensionChange { from_width: 80, from_height: 60, to_width: 40, to_height: 30 }),
    };
    match cli_output(false, false, &optimized) {
        CliOutput::Stdout(line) => {
            assert_eq!(line, "a.png → /tmp/a.min.png (80×60 → 40×30) -40% (10 KB → 6 KB)")
        }
        _ => panic!("expected a line on standard output"),
    }
    assert!(matches!(
        cli_output(true, true, &ProcessorEvent::FileProcessing("a.png".to_string())),
        CliOutput::Silent
    ));
    assert_eq!(
        stderr(cli_output(true, false, &ProcessorEvent::FileProcessing("a.png".to_string()))),
        "processing a.png"
    );
}

#[test]
fn quiet_runs_print_only_errors_and_cancellations() {
    let error = ProcessorEvent::DropError {
        file_name: "b.gif".to_string(),
        error: ErrorPayload::gifsicle_failed("2"),
    };
    assert_eq!(stderr(cli_output(false, true, &error)), "error: b.gif: gifsicleFailed (2)");
    assert!(matches!(
        cli_output(false, true, &ProcessorEvent::BatchStarted { total: 1 }),
        CliOutput::Silent
    ));
    let complete = ProcessorEvent::BatchComplete(BatchSummaryPayload {
        total: 2,
        succeeded: 1,
        failed: 1,
        bytes_before: 100,
        bytes_after: 40,
    });
    assert!(matches!(cli_output(false, true, &complete), CliOutput::Silent));
    assert_eq!(stderr(cli_output(false, false, &complete)), "done: 1 ok, 1 failed (100 → 40)");
    assert!(matches!(cli_output(true, true, &complete), CliOutput::Json));
    let cancelled = ProcessorEvent::BatchCancelled { done: 2, total: 6, succeeded: 2, failed: 0 };
    assert_eq!(
        stderr(cli_output(false, true, &cancelled)),
        "cancelled after 2/6 (2 ok, 0 failed)"
    );
}

#[test]
fn run_outcome_prefers_cancellation_then_failure() {
    assert_eq!(run_outcome(false, false, 0), RunOutcome::Succeeded);
    assert_eq!(run_outcome(false, false, 2), RunOutcome::Failed);
    assert_eq!(run_outcome(true, false, 2), RunOutcome::Cancelled);
    assert_eq!(run_outcome(false, true, 0), RunOutcome::Cancelled);
}

#[test]
fn compress_exit_codes() {
    assert_eq!(compress_exit_code(false, false, false, false, 0), 2);
    assert_eq!(compress_exit_code(true, false, false, false, 0), 1);
    assert_eq!(compress_exit_code(true, true, false, false, 3), 1);
    assert_eq!(compress_exit_code(true, true, true, false, 3), 130);
    assert_eq!(compress_exit_code(true, true, false, true, 0), 130);
    assert_eq!(compress_exit_code(true, true, false, false, 0), 0);
}
