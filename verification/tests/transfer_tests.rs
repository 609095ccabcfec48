use ftp_browser::progress::{outcome_event, transfer_events, ProgressTracker, TransferOutcome, EMIT_BYTE_THRESHOLD};
use ftp_browser::upload::{
    TransferMode, TransferFault, UploadStrategy, UploadPhase, is_retryable, run_upload,
};
use suppaftp::types::Response;
use suppaftp::{FtpError, Status};

#[test]
fn progress_of_300_kib_in_16_kib_chunks() {
    // 300 KiB moved in 16 KiB reads with the final partial read: emissions at
    // the 128 KiB and 256 KiB cumulative boundaries, plus the final one.
    let mut chunks: Vec<u64> = vec![16 * 1024; 18];
    chunks.push(300 * 1024 - 18 * 16 * 1024);
    let events = transfer_events("t1", Some(300 * 1024), &chunks);
    let totals: Vec<u64> = events.iter().map(|e| e.transferred).collect();
    assert_eq!(totals, vec![128 * 1024, 256 * 1024, 300 * 1024]);
    for e in &events {
        assert_eq!(e.id, "t1");
        assert_eq!(e.total, Some(300 * 1024));
    }
}

#[test]
fn progress_of_one_large_chunk() {
    // a single read crossing the threshold emits once, then the final report
    let events = transfer_events("t4", None, &vec![300 * 1024]);
    let totals: Vec<u64> = events.iter().map(|e| e.transferred).collect();
    assert_eq!(totals, vec![300 * 1024, 300 * 1024]);
}

#[test]
fn progress_with_uneven_chunks() {
    // 100 KiB reads: the threshold is crossed at 200 KiB, and the rest is
    // carried by the final report
    let chunks = vec![100 * 1024, 100 * 1024, 100 * 1024];
    let events = transfer_events("t5", None, &chunks);
    let totals: Vec<u64> = events.iter().map(|e| e.transferred).collect();
    assert_eq!(totals, vec![200 * 1024, 300 * 1024]);
}

#[test]
fn progress_below_threshold_still_reports_completion() {
    let events = transfer_events("t2", None, &vec![100, 200]);
    assert_eq!(events.len(), 1);
    assert_eq!(events[0].transferred, 300);
    assert_eq!(events[0].total, None);
}

#[test]
fn progress_of_empty_transfer_reports_zero() {
    let events = transfer_events("t3", Some(0), &vec![]);
    assert_eq!(events.len(), 1);
    assert_eq!(events[0].transferred, 0);
}

#[test]
fn tracker_emits_on_timer_even_below_threshold() {
    let mut t = ProgressTracker::new();
    assert!(!t.record(10, false));
    assert!(t.record(10, true));
    assert_eq!(t.transferred, 20);
    assert_eq!(t.last_emit, 20);
    // nothing moved: no emission even with the timer elapsed
    assert!(!t.record(0, true));
}

#[test]
fn tracker_emits_at_byte_threshold() {
    let mut t = ProgressTracker::new();
    assert!(!t.record(EMIT_BYTE_THRESHOLD - 1, false));
    assert!(t.record(1, false));
    assert_eq!(t.last_emit, EMIT_BYTE_THRESHOLD);
}

#[test]
fn one_terminal_outcome_per_transfer() {
    match outcome_event("t9", Ok(())) {
        TransferOutcome::Success { id } => assert_eq!(id, "t9"),
        TransferOutcome::Failure { .. } => panic!("expected success"),
    }
    match outcome_event("t9", Err("broken pipe".to_string())) {
        TransferOutcome::Failure { id, message } => {
            assert_eq!(id, "t9");
            assert_eq!(message, "broken pipe");
        },
        TransferOutcome::Success { .. } => panic!("expected failure"),
    }
}

#[test]
fn fault_425_is_retryable_and_550_is_not() {
    let f425 = TransferFault::Protocol { code: 425, message: "cannot open data connection".to_string() };
    let f550 = TransferFault::Protocol { code: 550, message: "file unavailable".to_string() };
    assert!(is_retryable(&f425));
    assert!(!is_retryable(&f550));
    let timeout = TransferFault::Connection { timed_out: true, os_code: None, message: "t".to_string() };
    let os_code = TransferFault::Connection { timed_out: false, os_code: Some(10060), message: "t".to_string() };
    let refused = TransferFault::Connection { timed_out: false, os_code: Some(111), message: "t".to_string() };
    assert!(is_retryable(&timeout));
    assert!(is_retryable(&os_code));
    assert!(!is_retryable(&refused));
    assert!(!is_retryable(&TransferFault::Other { message: "x".to_string() }));
}

#[test]
fn upload_retries_exactly_once_on_425() {
    let first = Err(TransferFault::Protocol { code: 425, message: "no data connection".to_string() });
    let report = run_upload(first, Ok(()));
    assert_eq!(report.attempts, vec![TransferMode::Passive, TransferMode::ExtendedPassive]);
    assert!(report.outcome.is_ok());
    assert_eq!(report.final_mode, TransferMode::Passive);
}

#[test]
fn upload_retry_failure_is_final_and_mode_resets() {
    let first = Err(TransferFault::Connection { timed_out: true, os_code: None, message: "a".to_string() });
    let again = Err(TransferFault::Protocol { code: 550, message: "denied".to_string() });
    let report = run_upload(first, again);
    assert_eq!(report.attempts, vec![TransferMode::Passive, TransferMode::ExtendedPassive]);
    assert!(matches!(report.outcome, Err(TransferFault::Protocol { code: 550, .. })));
    assert_eq!(report.final_mode, TransferMode::Passive);
}

#[test]
fn upload_does_not_retry_permanent_error() {
    let first = Err(TransferFault::Protocol { code: 550, message: "denied".to_string() });
    let report = run_upload(first, Ok(()));
    assert_eq!(report.attempts, vec![TransferMode::Passive]);
    assert!(matches!(report.outcome, Err(TransferFault::Protocol { code: 550, .. })));
    assert_eq!(report.final_mode, TransferMode::Passive);
}

#[test]
fn upload_success_makes_one_attempt() {
    let report = run_upload(Ok(()), Ok(()));
    assert_eq!(report.attempts, vec![TransferMode::Passive]);
    assert!(report.outcome.is_ok());
    assert_eq!(report.final_mode, TransferMode::Passive);
}

#[test]
fn ftp_error_425_triggers_one_extended_passive_retry() {
    let (mut strategy, first_mode) = UploadStrategy::begin();
    assert_eq!(first_mode, TransferMode::Passive);
    let err = FtpError::UnexpectedResponse(Response { status: Status::from(425u32), body: vec![] });
    let (next, fault) = strategy.on_ftp_error(&err);
    assert_eq!(next, Some(TransferMode::ExtendedPassive));
    assert!(matches!(fault, TransferFault::Protocol { code: 425, .. }));
    assert_eq!(strategy.phase, UploadPhase::RetryAttempt);
    // the retry fails again: no further attempt
    let err2 = FtpError::UnexpectedResponse(Response { status: Status::from(425u32), body: vec![] });
    let (next2, _fault2) = strategy.on_ftp_error(&err2);
    assert_eq!(next2, None);
    assert_eq!(strategy.phase, UploadPhase::Finished);
}

#[test]
fn ftp_error_550_is_terminal() {
    let (mut strategy, _) = UploadStrategy::begin();
    let err = FtpError::UnexpectedResponse(Response { status: Status::from(550u32), body: vec![] });
    let (next, fault) = strategy.on_ftp_error(&err);
    assert_eq!(next, None);
    assert!(matches!(fault, TransferFault::Protocol { code: 550, .. }));
    assert_eq!(strategy.phase, UploadPhase::Finished);
}

#[test]
fn io_timeout_errors_are_retryable() {
    let (mut strategy, _) = UploadStrategy::begin();
    let err = FtpError::ConnectionError(std::io::Error::new(std::io::ErrorKind::TimedOut, "slow"));
    let (next, fault) = strategy.on_ftp_error(&err);
    assert_eq!(next, Some(TransferMode::ExtendedPassive));
    assert!(matches!(fault, TransferFault::Connection { timed_out: true, .. }));

    let (mut strategy2, _) = UploadStrategy::begin();
    let err2 = FtpError::ConnectionError(std::io::Error::from_raw_os_error(10060));
    let (next2, fault2) = strategy2.on_ftp_error(&err2);
    assert_eq!(next2, Some(TransferMode::ExtendedPassive));
    assert!(matches!(fault2, TransferFault::Connection { os_code: Some(10060), .. }));
}

#[test]
fn bad_response_error_is_not_retryable() {
    let (mut strategy, _) = UploadStrategy::begin();
    let (next, fault) = strategy.on_ftp_error(&FtpError::BadResponse);
    assert_eq!(next, None);
    assert!(matches!(fault, TransferFault::Other { .. }));
}
