use stt::catalog::{select_model, ModelSpec};
use stt::download::REPORT_STEP;
use stt::fetch::{ArchiveFetch, FetchOutcome, FetchStep};
use stt::models::DownloadProgress;

fn small_model(size: u64) -> ModelSpec {
    ModelSpec {
        lang: "xx-XX",
        name: "small",
        url: "https://example.org/small.zip",
        md5: "900150983cd24fb0d6963f7d28e17f72",
        size,
    }
}

fn downloading(progress: u8) -> Option<DownloadProgress> {
    Some(DownloadProgress { status: "downloading", model: "small", progress })
}

/// A server and a disk: runs a download on `file` until it is over. The server
/// honours ranges or not, and sends at most `cut` bytes.
fn run(archive: &[u8], file: &mut Vec<u8>, honours_range: bool, cut: usize) -> FetchStep {
    let mut fetch = ArchiveFetch::new(small_model(archive.len() as u64));
    let mut body: Vec<u8> = Vec::new();
    let mut pending: Vec<u8> = Vec::new();
    loop {
        let outcome = match fetch.step().clone() {
            FetchStep::Measure => FetchOutcome::Size(file.len() as u64),
            FetchStep::DiscardPartial => {
                file.clear();
                FetchOutcome::Done
            }
            FetchStep::SendRequest(range) => {
                let from = match range {
                    Some(value) if honours_range => {
                        value.trim_start_matches("bytes=").trim_end_matches('-').parse().unwrap()
                    }
                    _ => 0usize,
                };
                body = archive[from..].iter().copied().take(cut).collect();
                if from > 0 {
                    FetchOutcome::Status(206, "206 Partial Content".to_string())
                } else {
                    FetchOutcome::Status(200, "200 OK".to_string())
                }
            }
            FetchStep::ReadRefusal(_) => FetchOutcome::Body(None),
            FetchStep::OpenPartial => FetchOutcome::Done,
            FetchStep::CreateFile => {
                file.clear();
                FetchOutcome::Done
            }
            FetchStep::ReadChunk => {
                pending = body.drain(..body.len().min(3)).collect();
                FetchOutcome::Chunk(pending.len())
            }
            FetchStep::WriteChunk(n) => {
                assert_eq!(n, pending.len());
                file.extend_from_slice(&pending);
                FetchOutcome::Done
            }
            FetchStep::FlushBroken(_) | FetchStep::Flush => FetchOutcome::Done,
            last => return last,
        };
        fetch.advance(outcome);
    }
}

#[test]
fn whole_archive_is_fetched() {
    let archive: Vec<u8> = (0..100).collect();
    let mut file = Vec::new();
    assert_eq!(run(&archive, &mut file, true, 1000), FetchStep::Complete);
    assert_eq!(file, archive);
}

#[test]
fn interrupted_download_is_resumed() {
    let archive: Vec<u8> = (0..100).collect();
    let mut file = Vec::new();
    assert_eq!(
        run(&archive, &mut file, true, 40),
        FetchStep::Failed(
            "Download stopped short: got 40 of 100 bytes — retry to resume".to_string()
        )
    );
    assert_eq!(file, archive[..40]);
    assert_eq!(run(&archive, &mut file, true, 1000), FetchStep::Complete);
    assert_eq!(file, archive);
}

#[test]
fn copies_are_never_spliced() {
    let archive: Vec<u8> = (0..100).collect();
    let mut file = archive[..40].to_vec();
    assert_eq!(run(&archive, &mut file, false, 1000), FetchStep::Complete);
    assert_eq!(file, archive);
}

#[test]
fn restart_owes_nothing_to_what_was_kept() {
    let archive: Vec<u8> = (0..100).collect();
    let mut file = vec![7; 40];
    assert_eq!(run(&archive, &mut file, false, 1000), FetchStep::Complete);
    assert_eq!(file, archive);
}

#[test]
fn oversized_partial_is_discarded() {
    let archive: Vec<u8> = (0..100).collect();
    let mut file = vec![7; 101];
    assert_eq!(run(&archive, &mut file, true, 1000), FetchStep::Complete);
    assert_eq!(file, archive);
}

#[test]
fn complete_archive_is_not_fetched_again() {
    let model = select_model(None, None);
    let mut fetch = ArchiveFetch::new(model);
    assert_eq!(fetch.step(), &FetchStep::Measure);
    assert_eq!(fetch.advance(FetchOutcome::Size(model.size)), None);
    assert_eq!(fetch.step(), &FetchStep::Complete);
}

#[test]
fn progress_is_reported_at_the_request_and_at_each_step() {
    let mut fetch = ArchiveFetch::new(small_model(4 * REPORT_STEP));
    assert_eq!(fetch.advance(FetchOutcome::Size(REPORT_STEP)), downloading(11));
    assert_eq!(fetch.step(), &FetchStep::SendRequest(Some("bytes=5242880-".to_string())));
    assert_eq!(fetch.advance(FetchOutcome::Status(206, "206".to_string())), None);
    assert_eq!(fetch.step(), &FetchStep::OpenPartial);
    assert_eq!(fetch.advance(FetchOutcome::Done), None);
    assert_eq!(fetch.advance(FetchOutcome::Chunk(100)), None);
    assert_eq!(fetch.step(), &FetchStep::WriteChunk(100));
    assert_eq!(fetch.advance(FetchOutcome::Done), None);
    assert_eq!(fetch.advance(FetchOutcome::Chunk(REPORT_STEP as usize)), None);
    assert_eq!(fetch.advance(FetchOutcome::Done), downloading(22));
}

#[test]
fn refused_download_reports_the_answer() {
    for (body, text) in [
        (Some("no such file".to_string()), "no such file"),
        (None, "Failed to get error details"),
    ] {
        let mut fetch = ArchiveFetch::new(small_model(10));
        fetch.advance(FetchOutcome::Size(0));
        assert_eq!(fetch.step(), &FetchStep::SendRequest(None));
        fetch.advance(FetchOutcome::Status(404, "404 Not Found".to_string()));
        assert_eq!(fetch.step(), &FetchStep::ReadRefusal("404 Not Found".to_string()));
        fetch.advance(FetchOutcome::Body(body));
        assert_eq!(
            fetch.step(),
            &FetchStep::Failed(format!("Failed to download model: HTTP 404 Not Found - {text}"))
        );
    }
}

#[test]
fn each_broken_fetch_step_has_its_message() {
    let why = || FetchOutcome::Broken("why".to_string());
    let ok = || FetchOutcome::Status(200, "200 OK".to_string());
    let cases: Vec<(u64, Vec<FetchOutcome>, &str)> = vec![
        (
            0,
            vec![FetchOutcome::NoClient("why".to_string())],
            "Failed to create HTTP client: why",
        ),
        (0, vec![why()], "Failed to download model from https://example.org/small.zip: why"),
        (0, vec![ok(), why()], "Failed to create download file: why"),
        (
            4,
            vec![FetchOutcome::Status(206, "206".to_string()), why()],
            "Failed to open partial download: why",
        ),
        (
            0,
            vec![ok(), FetchOutcome::Done, why(), FetchOutcome::Done],
            "Failed to read chunk: why",
        ),
        (
            0,
            vec![ok(), FetchOutcome::Done, FetchOutcome::Chunk(3), why()],
            "Failed to write download: why",
        ),
        (
            0,
            vec![ok(), FetchOutcome::Done, FetchOutcome::Chunk(0), why()],
            "Failed to flush download: why",
        ),
    ];
    for (have, outcomes, message) in cases {
        let mut fetch = ArchiveFetch::new(small_model(10));
        fetch.advance(FetchOutcome::Size(have));
        for outcome in outcomes {
            fetch.advance(outcome);
        }
        assert_eq!(fetch.step(), &FetchStep::Failed(message.to_string()));
    }
}
