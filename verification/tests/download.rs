use perihelion::download::{
    announced_size, request_failure, DownloadJob, DownloadProgress, DownloadStep, FileOutcome,
    ReadStep, REPORT_STEP,
};
use perihelion::engine::{ModelVariant, MODEL_FILES};
use perihelion::events::DownloadEvent;

#[test]
fn the_announced_size_is_read() {
    assert_eq!(announced_size(Some("1048576")), 1048576);
    assert_eq!(announced_size(Some("18446744073709551615")), u64::MAX);
    assert_eq!(announced_size(Some("18446744073709551616")), 0);
    assert_eq!(announced_size(Some("many")), 0);
    assert_eq!(announced_size(Some("")), 0);
    assert_eq!(announced_size(None), 0);
}

#[test]
fn reports_come_every_so_often_and_at_the_end() {
    let mut progress = DownloadProgress::new(REPORT_STEP + 10);
    assert_eq!(progress.take_read(Some(100)), ReadStep::Write { report: false });
    assert_eq!(progress.take_read(Some(REPORT_STEP as usize - 101)), ReadStep::Write { report: false });
    assert_eq!(progress.take_read(Some(1)), ReadStep::Write { report: true });
    assert_eq!(progress.last_reported, REPORT_STEP);
    assert_eq!(progress.take_read(Some(9)), ReadStep::Write { report: false });
    assert_eq!(progress.take_read(Some(1)), ReadStep::Write { report: true });
    assert_eq!(progress.downloaded, REPORT_STEP + 10);
    assert_eq!(progress.last_reported, REPORT_STEP + 10);
    match progress.event("encoder.int8.onnx") {
        DownloadEvent::Progress { file, bytes, total } => {
            assert_eq!(file, "encoder.int8.onnx");
            assert_eq!(bytes, REPORT_STEP + 10);
            assert_eq!(total, REPORT_STEP + 10);
        }
        other => panic!("{other:?}"),
    }
}

#[test]
fn without_an_announced_size_reports_come_too() {
    let mut progress = DownloadProgress::new(0);
    assert_eq!(progress.take_read(Some(5)), ReadStep::Write { report: false });
    assert_eq!(progress.take_read(Some(REPORT_STEP as usize)), ReadStep::Write { report: true });
    assert_eq!(progress.take_read(Some(5)), ReadStep::Write { report: false });
}

#[test]
fn only_a_body_that_was_read_to_its_end_is_a_file() {
    let mut progress = DownloadProgress::new(100);
    assert_eq!(progress.take_read(Some(40)), ReadStep::Write { report: false });
    let before = progress;
    assert_eq!(progress.take_read(None), ReadStep::Abort);
    assert_eq!(progress, before);
    assert_eq!(progress.take_read(Some(0)), ReadStep::Finish);
    assert_eq!(progress, before);
}

#[test]
fn every_file_is_seen_to_in_order() {
    let mut job = DownloadJob::new(ModelVariant::Small);
    for (i, expected) in MODEL_FILES.iter().enumerate() {
        match job.step() {
            DownloadStep::File { file, url } => {
                assert_eq!(file, *expected);
                assert_eq!(
                    url,
                    format!(
                        "https://huggingface.co/ilmina/qwen3-asr-0.6b-sherpa-onnx/resolve/main/{expected}"
                    )
                );
            }
            other => panic!("{other:?}"),
        }
        let outcome = if i % 2 == 0 { FileOutcome::Present } else { FileOutcome::Downloaded };
        match job.finish_file(outcome) {
            DownloadEvent::FileDone(file) => assert_eq!(file, *expected),
            other => panic!("{other:?}"),
        }
    }
    assert!(matches!(job.step(), DownloadStep::Complete));
}

#[test]
fn a_file_that_fails_ends_the_download() {
    let mut job = DownloadJob::new(ModelVariant::Large);
    job.finish_file(FileOutcome::Downloaded);
    match job.finish_file(FileOutcome::Failed("HTTP request failed: 404".to_string())) {
        DownloadEvent::Error(e) => assert_eq!(e, "encoder.int8.onnx: HTTP request failed: 404"),
        other => panic!("{other:?}"),
    }
    assert!(matches!(job.step(), DownloadStep::Failed));
    assert_eq!(job.done, 1);
}

#[test]
fn a_request_that_fails_is_told() {
    assert_eq!(request_failure("timeout"), "HTTP request failed: timeout");
}
