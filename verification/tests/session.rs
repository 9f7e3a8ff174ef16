//! Worker sessions: retries, framing and answers.
use scanner_core::contract::ErrorCode;
use scanner_core::session::{
    parse_response, read_line_bounded, retry_action, ByteReader, PdfClassifierResultStatus,
    PdfClassifierResultV1, PythonOperationDiagnosticV1, PythonOperationErrorCode,
    PythonOperationStage, PythonSessionOperation, PythonSessionResponseStatus,
    PythonSessionResponseV1, PythonSessionResultV1, RetryAction, SessionError, SessionParams,
};
use std::time::Duration;

#[test]
fn session_params_defaults_follow_spec() {
    let params = SessionParams::default();
    assert_eq!(params.concurrency, 4);
    assert_eq!(params.max_requests_per_session, 128);
    assert_eq!(params.idle_ttl, Duration::from_secs(30));
    assert_eq!(params.rss_limit_bytes, 512 * 1024 * 1024);
    assert_eq!(SessionParams::with_default_concurrency(8).concurrency, 4);
    assert_eq!(SessionParams::with_default_concurrency(2).concurrency, 2);
    assert_eq!(SessionParams::with_default_concurrency(0).concurrency, 1);
}

#[test]
fn retry_policy_matches_spec_7_3() {
    let timeout = SessionError::Timeout;
    assert_eq!(retry_action(&timeout, 0), RetryAction::GiveUp);
    assert_eq!(retry_action(&timeout, 1), RetryAction::GiveUp);

    let deterministic = SessionError::Rejected(PythonOperationDiagnosticV1 {
        error_code: PythonOperationErrorCode::ParserFailed,
        message: "corrupt pdf".to_string(),
        retryable: false,
        stage: PythonOperationStage::Parse,
        file_path: None,
        backend: None,
    });
    assert_eq!(retry_action(&deterministic, 0), RetryAction::GiveUp);

    let retryable = SessionError::Rejected(PythonOperationDiagnosticV1 {
        error_code: PythonOperationErrorCode::ParserStartFailed,
        message: "transient io".to_string(),
        retryable: true,
        stage: PythonOperationStage::Process,
        file_path: None,
        backend: None,
    });
    assert_eq!(retry_action(&retryable, 0), RetryAction::RetrySession);
    assert_eq!(retry_action(&retryable, 1), RetryAction::OneShot);

    assert_eq!(retry_action(&SessionError::Eof, 0), RetryAction::RetrySession);
    assert_eq!(retry_action(&SessionError::Eof, 1), RetryAction::OneShot);
    assert_eq!(
        retry_action(&SessionError::StartFailed, 0),
        RetryAction::RetrySession
    );
    assert_eq!(retry_action(&SessionError::Crashed, 0), RetryAction::RetrySession);

    assert_eq!(
        retry_action(&SessionError::ProtocolCorruption("x".to_string()), 0),
        RetryAction::RetrySession
    );
    assert_eq!(
        retry_action(&SessionError::ProtocolCorruption("x".to_string()), 1),
        RetryAction::GiveUp
    );
}

#[test]
fn read_line_bounded_enforces_cap_and_newline() {
    let mut reader = ByteReader::new(b"line1\nline2".to_vec(), 8_192);
    let line = read_line_bounded(&mut reader, 1024).expect("first line");
    assert_eq!(line.unwrap(), b"line1\n");
    let line = read_line_bounded(&mut reader, 1024).expect("last line without newline");
    assert_eq!(line.unwrap(), b"line2");

    let mut reader = ByteReader::new(b"0123456789".to_vec(), 8_192);
    assert_eq!(
        read_line_bounded(&mut reader, 4),
        Err(SessionError::FrameTooLarge)
    );
}

#[test]
fn lines_are_the_same_however_they_are_cut() {
    for piece in 1..13 {
        let mut reader = ByteReader::new(b"line1\nline2".to_vec(), piece);
        assert_eq!(
            read_line_bounded(&mut reader, 1024),
            Ok(Some(b"line1\n".to_vec()))
        );
        assert_eq!(
            read_line_bounded(&mut reader, 1024),
            Ok(Some(b"line2".to_vec()))
        );
        assert_eq!(read_line_bounded(&mut reader, 1024), Ok(None));
    }
}

#[test]
fn session_error_maps_to_scanner_diagnostic() {
    let failure = SessionError::Timeout.diagnostic(Some("C:\\x.pdf"));
    assert_eq!(failure.diagnostic.error_code, ErrorCode::ParserTimeout);
    assert!(!failure.diagnostic.retryable);
    assert_eq!(failure.diagnostic.file_path.as_deref(), Some("C:\\x.pdf"));
}

fn response(request_id: &str) -> PythonSessionResponseV1 {
    PythonSessionResponseV1 {
        contract: "ai_daily_python_session".to_string(),
        protocol_version: 1,
        request_id: request_id.to_string(),
        operation: PythonSessionOperation::ClassifyPdfV1,
        status: PythonSessionResponseStatus::Complete,
        result: Some(PythonSessionResultV1::Classify(PdfClassifierResultV1 {
            status: PdfClassifierResultStatus::TextInParseWindow,
            page_count: Some(1),
            result_examined_pages: Some(1),
            diagnostic: None,
        })),
        error: None,
    }
}

#[test]
fn parse_response_accepts_matching_request_id() {
    let request_id = "11111111-1111-4111-8111-111111111111".to_string();
    let parsed = parse_response(
        Some(response(&request_id)),
        Ok(()),
        PythonSessionOperation::ClassifyPdfV1,
        &request_id,
    )
    .expect("matching request_id must be accepted");
    assert_eq!(parsed.request_id, request_id);
}

#[test]
fn parse_response_rejects_mismatched_request_id() {
    let error = parse_response(
        Some(response("22222222-2222-4222-8222-222222222222")),
        Ok(()),
        PythonSessionOperation::ClassifyPdfV1,
        "11111111-1111-4111-8111-111111111111",
    )
    .expect_err("mismatched request_id must be protocol corruption");
    assert!(matches!(error, SessionError::ProtocolCorruption(_)));
}

#[test]
fn unreadable_and_refused_answers_are_corruption() {
    let id = "11111111-1111-4111-8111-111111111111";
    assert_eq!(
        parse_response(None, Ok(()), PythonSessionOperation::ClassifyPdfV1, id),
        Err(SessionError::ProtocolCorruption(
            "session stdout is not one strict JSON response".to_string()
        ))
    );
    assert_eq!(
        parse_response(
            Some(response(id)),
            Err("bad".to_string()),
            PythonSessionOperation::ClassifyPdfV1,
            id
        ),
        Err(SessionError::ProtocolCorruption(
            "session response violates the strict contract: bad".to_string()
        ))
    );
}
