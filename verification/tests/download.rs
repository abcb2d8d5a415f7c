use stt::download::{
    download_progress, plan_fetch, range_header, refused_message, response_action, FetchPlan,
    ResponseAction, Transfer, DOWNLOAD_PROGRESS_SHARE, REPORT_STEP,
};

#[test]
fn download_progress_is_a_share() {
    let size = 2_423_807_363u64;
    assert_eq!(download_progress(0, size), 0);
    assert_eq!(download_progress(size / 2, size), 22);
    assert_eq!(download_progress(size - 1, size), 44);
    assert_eq!(download_progress(size, size), DOWNLOAD_PROGRESS_SHARE);
    assert_eq!(download_progress(u64::MAX, 1), 255);
    assert_eq!(download_progress(u64::MAX, u64::MAX), 45);
    assert_eq!(download_progress(0, 0), 0);
    assert_eq!(download_progress(1, 0), 255);
}

#[test]
fn download_progress_agrees_with_division() {
    for size in [1_045_975_323u64, 2_423_807_363] {
        for i in 0..=1000u64 {
            let written = size / 1000 * i;
            let share = (written as f64 / size as f64) * 45.0;
            assert_eq!(download_progress(written, size), share as u8);
        }
    }
}

#[test]
fn download_progress_agrees_with_division_everywhere() {
    let mut x = 88_172_645_463_325_252u64;
    let mut next = || {
        x ^= x << 13;
        x ^= x >> 7;
        x ^= x << 17;
        x
    };
    for i in 0..200_000u64 {
        let size = (next() >> (i % 64)).max(1);
        let written = match i % 3 {
            0 => next() >> (next() % 64),
            1 => next() % size,
            _ => (size / 45).saturating_mul(next() % 46),
        };
        let share = (written as f64 / size as f64) * 45.0;
        assert_eq!(download_progress(written, size), share as u8);
    }
    for size in 1..300u64 {
        for written in 0..=size {
            let share = (written as f64 / size as f64) * 45.0;
            assert_eq!(download_progress(written, size), share as u8);
        }
    }
}

#[test]
fn download_progress_never_falls() {
    let size = 1000u64;
    let mut last = 0u8;
    for written in 0..=size {
        let percent = download_progress(written, size);
        assert!(percent >= last && percent <= DOWNLOAD_PROGRESS_SHARE);
        last = percent;
    }
    assert_eq!(last, DOWNLOAD_PROGRESS_SHARE);
}

#[test]
fn next_attempt_continues_where_the_last_stopped() {
    assert_eq!(
        plan_fetch(40, 100),
        FetchPlan { discard_partial: false, complete: false, resume_from: 40 }
    );
    assert_eq!(
        plan_fetch(0, 100),
        FetchPlan { discard_partial: false, complete: false, resume_from: 0 }
    );
    assert_eq!(
        plan_fetch(100, 100),
        FetchPlan { discard_partial: false, complete: true, resume_from: 100 }
    );
    assert_eq!(
        plan_fetch(101, 100),
        FetchPlan { discard_partial: true, complete: false, resume_from: 0 }
    );
}

#[test]
fn range_starts_at_the_first_missing_byte() {
    assert_eq!(range_header(0), None);
    assert_eq!(range_header(1), Some("bytes=1-".to_string()));
    assert_eq!(range_header(1_048_576), Some("bytes=1048576-".to_string()));
}

#[test]
fn only_partial_content_continues_a_prefix() {
    assert_eq!(response_action(10, 206), ResponseAction::Append);
    assert_eq!(response_action(10, 200), ResponseAction::Restart);
    assert_eq!(response_action(0, 206), ResponseAction::Restart);
    assert_eq!(response_action(0, 200), ResponseAction::Restart);
    for status in [100u16, 199, 300, 404, 416, 500] {
        assert_eq!(response_action(10, status), ResponseAction::Refused);
    }
}

#[test]
fn refusals_name_status_and_body() {
    assert_eq!(
        refused_message("404 Not Found", "gone"),
        "Failed to download model: HTTP 404 Not Found - gone"
    );
}

#[test]
fn transfer_reports_every_step_once() {
    let size = 4 * REPORT_STEP;
    let mut transfer = Transfer::new(size, 0, ResponseAction::Restart);
    let half = (REPORT_STEP / 2) as usize;
    assert_eq!(transfer.chunk_written(half), None);
    assert_eq!(transfer.chunk_written(half), Some(11));
    assert_eq!(transfer.chunk_written(half), None);
    assert_eq!(transfer.chunk_written(2 * REPORT_STEP as usize), Some(39));
    assert_eq!(
        transfer.finish(),
        Err(format!(
            "Download stopped short: got {} of {} bytes — retry to resume",
            REPORT_STEP * 7 / 2,
            size
        ))
    );
    assert_eq!(transfer.chunk_written(half), Some(45));
    assert_eq!(transfer.finish(), Ok(()));
}

#[test]
fn resumed_transfer_counts_what_was_kept() {
    let size = 2 * REPORT_STEP;
    let mut resumed = Transfer::new(size, REPORT_STEP + 1, ResponseAction::Append);
    assert_eq!(resumed.chunk_written(10), None);
    assert_eq!(resumed.chunk_written(REPORT_STEP as usize - 11), Some(45));
    assert_eq!(resumed.finish(), Ok(()));

    let restarted = Transfer::new(size, REPORT_STEP + 1, ResponseAction::Restart);
    assert_eq!(
        restarted.finish(),
        Err(format!("Download stopped short: got 0 of {size} bytes — retry to resume"))
    );
}
