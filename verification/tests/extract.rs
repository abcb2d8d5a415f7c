use stt::catalog::select_model;
use stt::extract::{
    entry_action, extract_progress, ArchiveExtraction, EntryAction, ExtractOutcome, ExtractStep,
    EXTRACT_PROGRESS_SPAN, EXTRACT_PROGRESS_START,
};

fn entry(enclosed: bool, name: &str) -> ExtractOutcome {
    ExtractOutcome::Entry(enclosed, name.to_string())
}

fn opened(entries: usize) -> ArchiveExtraction {
    let mut extraction = ArchiveExtraction::new(select_model(Some("de"), None));
    assert_eq!(extraction.step(), &ExtractStep::OpenArchive);
    assert_eq!(extraction.advance(ExtractOutcome::Done), None);
    assert_eq!(extraction.step(), &ExtractStep::ReadDirectory);
    assert_eq!(extraction.advance(ExtractOutcome::Entries(entries)), None);
    extraction
}

#[test]
fn entries_are_directories_files_or_skipped() {
    assert_eq!(entry_action(true, "model/"), EntryAction::CreateDir);
    assert_eq!(entry_action(true, "model/am/final.mdl"), EntryAction::WriteFile);
    assert_eq!(entry_action(true, ""), EntryAction::WriteFile);
    assert_eq!(entry_action(false, "../escape/"), EntryAction::Skip);
    assert_eq!(entry_action(false, "../escape"), EntryAction::Skip);
}

#[test]
fn extraction_progress_fills_its_span() {
    assert_eq!(extract_progress(0, 10), EXTRACT_PROGRESS_START);
    assert_eq!(extract_progress(5, 10), 74);
    assert_eq!(extract_progress(10, 10), 99);
    assert_eq!(extract_progress(1, 1), EXTRACT_PROGRESS_START + EXTRACT_PROGRESS_SPAN);
    let mut last = 0u8;
    for done in 0..=500usize {
        let percent = extract_progress(done, 500);
        assert!((50..=99).contains(&percent) && percent >= last);
        last = percent;
    }
}

#[test]
fn extraction_progress_agrees_with_division() {
    assert_eq!(extract_progress(1, 49), 50);
    for total in 1..400usize {
        for done in 0..=total {
            let share = (done as f64 / total as f64 * 49.0) as u8;
            assert_eq!(extract_progress(done, total), 50 + share);
        }
    }
    assert_eq!(extract_progress(usize::MAX, usize::MAX), 99);
    assert_eq!(extract_progress(usize::MAX / 2, usize::MAX), 74);
}

#[test]
fn directories_and_files_are_unpacked_in_order() {
    let mut extraction = opened(2);
    assert_eq!(extraction.step(), &ExtractStep::InspectEntry(0));
    assert_eq!(extraction.advance(entry(true, "model/")), None);
    assert_eq!(extraction.step(), &ExtractStep::CreateDir(0));
    let report = extraction.advance(ExtractOutcome::Done).unwrap();
    assert_eq!(report.status, "extracting");
    assert_eq!(report.model, "vosk-model-de-0.21");
    assert_eq!(report.progress, 74);
    assert_eq!(extraction.step(), &ExtractStep::InspectEntry(1));
    extraction.advance(entry(true, "model/README"));
    assert_eq!(extraction.step(), &ExtractStep::CreateFile(1));
    extraction.advance(ExtractOutcome::Done);
    assert_eq!(extraction.step(), &ExtractStep::CopyContent(1));
    assert_eq!(extraction.advance(ExtractOutcome::Done).unwrap().progress, 99);
    assert_eq!(extraction.step(), &ExtractStep::Finished);
}

#[test]
fn escaping_entries_are_left_out() {
    let mut extraction = opened(2);
    assert_eq!(extraction.advance(entry(false, "../../etc/passwd")), None);
    assert_eq!(extraction.step(), &ExtractStep::InspectEntry(1));
    assert_eq!(extraction.advance(entry(false, "/abs/")), None);
    assert_eq!(extraction.step(), &ExtractStep::Finished);
}

#[test]
fn empty_archive_is_finished_at_once() {
    assert_eq!(opened(0).step(), &ExtractStep::Finished);
}

#[test]
fn extraction_reports_only_when_the_percentage_grows() {
    let mut extraction = opened(490);
    let mut reports = Vec::new();
    for _ in 0..490 {
        extraction.advance(entry(true, "d/"));
        if let Some(report) = extraction.advance(ExtractOutcome::Done) {
            reports.push(report.progress);
        }
    }
    assert_eq!(extraction.step(), &ExtractStep::Finished);
    assert_eq!(reports, (51..=99).collect::<Vec<u8>>());
}

#[test]
fn directories_that_cannot_be_created_do_not_fail() {
    let mut extraction = opened(1);
    extraction.advance(entry(true, "d/"));
    extraction.advance(ExtractOutcome::Broken("exists".to_string()));
    assert_eq!(extraction.step(), &ExtractStep::Finished);
}

#[test]
fn each_broken_extract_step_has_its_message() {
    let why = || ExtractOutcome::Broken("why".to_string());
    let cases: Vec<(Vec<ExtractOutcome>, &str)> = vec![
        (vec![why()], "Failed to open archive: why"),
        (vec![ExtractOutcome::Done, why()], "Failed to open zip: why"),
        (
            vec![ExtractOutcome::Done, ExtractOutcome::Entries(1), why()],
            "Failed to read zip entry: why",
        ),
        (
            vec![ExtractOutcome::Done, ExtractOutcome::Entries(1), entry(true, "f"), why()],
            "Failed to create file: why",
        ),
        (
            vec![
                ExtractOutcome::Done,
                ExtractOutcome::Entries(1),
                entry(true, "f"),
                ExtractOutcome::Done,
                why(),
            ],
            "Failed to extract file: why",
        ),
    ];
    for (outcomes, message) in cases {
        let mut extraction = ArchiveExtraction::new(select_model(None, None));
        for outcome in outcomes {
            assert_eq!(extraction.advance(outcome), None);
        }
        assert_eq!(extraction.step(), &ExtractStep::Failed(message.to_string()));
    }
}
