use codex_chat_fallback::responses_retry::reconnecting_message;
use codex_chat_fallback::error::CodexErr;
use codex_chat_fallback::error::UnexpectedResponseError;
use codex_chat_fallback::responses_retry::handle_retryable_response_stream_error;
use codex_chat_fallback::responses_retry::retries_exhausted;
use codex_chat_fallback::responses_retry::retry_delay;
use codex_chat_fallback::responses_retry::should_fallback_to_chat;
use codex_chat_fallback::responses_retry::RetryDelay;
use codex_chat_fallback::responses_retry::RetryStep;
use http::StatusCode;
use std::time::Duration;

fn unexpected(status: StatusCode, body: &str) -> CodexErr {
    CodexErr::UnexpectedStatus(UnexpectedResponseError {
        status,
        body: body.into(),
        user_message: None,
        url: None,
        cf_ray: None,
        request_id: None,
        identity_authorization_error: None,
        identity_error_code: None,
    })
}

#[test]
fn stream_closed_before_completed_does_not_trigger_fallback() {
    let err = CodexErr::Stream("stream closed before response.completed".into(), None);
    assert!(!should_fallback_to_chat(&err));
}

#[test]
fn unrelated_stream_error_does_not_trigger_fallback() {
    let err = CodexErr::Stream("some other stream error".into(), None);
    assert!(!should_fallback_to_chat(&err));
}

#[test]
fn gateway_400005_body_triggers_fallback() {
    let body = r#"{"error":{"message":"model 'deepseek-v4-pro' does not allow Responses API access via Chat Completions conversion","type":"gateway_error","param":"","code":"400005"}}"#;
    assert!(should_fallback_to_chat(&CodexErr::InvalidRequest(
        body.into()
    )));
}

#[test]
fn code_400005_alone_triggers_fallback() {
    let body = r#"{"error":{"code":"400005","message":"unrelated message"}}"#;
    assert!(should_fallback_to_chat(&CodexErr::InvalidRequest(
        body.into()
    )));
}

#[test]
fn generic_invalid_request_does_not_trigger_fallback() {
    assert!(!should_fallback_to_chat(&CodexErr::InvalidRequest(
        "invalid model name".into()
    )));
}

#[test]
fn unexpected_status_with_responses_rejection_triggers_fallback() {
    let body = r#"{"error":{"message":"does not allow Responses API access"}}"#;
    let err = CodexErr::UnexpectedStatus(UnexpectedResponseError {
        status: StatusCode::FORBIDDEN,
        body: body.into(),
        user_message: None,
        url: None,
        cf_ray: None,
        request_id: None,
        identity_authorization_error: None,
        identity_error_code: None,
    });
    assert!(should_fallback_to_chat(&err));
}

#[test]
fn unexpected_status_other_does_not_trigger_fallback() {
    let err = CodexErr::UnexpectedStatus(UnexpectedResponseError {
        status: StatusCode::INTERNAL_SERVER_ERROR,
        body: "internal server error".into(),
        user_message: None,
        url: None,
        cf_ray: None,
        request_id: None,
        identity_authorization_error: None,
        identity_error_code: None,
    });
    assert!(!should_fallback_to_chat(&err));
}

#[test]
fn non_stream_non_status_errors_do_not_trigger_fallback() {
    assert!(!should_fallback_to_chat(&CodexErr::Timeout));
    assert!(!should_fallback_to_chat(&CodexErr::TurnAborted));
}

#[test]
fn stream_closed_before_completed_does_not_trigger_chat_fallback() {
    let err = CodexErr::Stream("stream closed before response.completed".into(), None);
    assert!(!should_fallback_to_chat(&err));
}

#[test]
fn unrelated_stream_error_does_not_trigger_chat_fallback() {
    let err = CodexErr::Stream("some other stream error".into(), None);
    assert!(!should_fallback_to_chat(&err));
}

#[test]
fn gateway_400005_body_triggers_chat_fallback() {
    let body = r#"{"error":{"message":"model 'deepseek-v4-pro' does not allow Responses API access via Chat Completions conversion","type":"gateway_error","param":"","code":"400005"}}"#;
    assert!(should_fallback_to_chat(&CodexErr::InvalidRequest(
        body.into()
    )));
}

#[test]
fn code_400005_alone_triggers_chat_fallback() {
    let body = r#"{"error":{"code":"400005","message":"unrelated message"}}"#;
    assert!(should_fallback_to_chat(&CodexErr::InvalidRequest(
        body.into()
    )));
}

#[test]
fn generic_invalid_request_does_not_trigger_chat_fallback() {
    assert!(!should_fallback_to_chat(&CodexErr::InvalidRequest(
        "invalid model name".into()
    )));
}

#[test]
fn unexpected_status_with_responses_rejection_triggers_chat_fallback() {
    let body = r#"{"error":{"message":"does not allow Responses API access"}}"#;
    let err = CodexErr::UnexpectedStatus(UnexpectedResponseError {
        status: StatusCode::FORBIDDEN,
        body: body.into(),
        user_message: None,
        url: None,
        cf_ray: None,
        request_id: None,
        identity_authorization_error: None,
        identity_error_code: None,
    });
    assert!(should_fallback_to_chat(&err));
}

#[test]
fn unexpected_status_other_does_not_trigger_chat_fallback() {
    let err = CodexErr::UnexpectedStatus(UnexpectedResponseError {
        status: StatusCode::INTERNAL_SERVER_ERROR,
        body: "internal server error".into(),
        user_message: None,
        url: None,
        cf_ray: None,
        request_id: None,
        identity_authorization_error: None,
        identity_error_code: None,
    });
    assert!(!should_fallback_to_chat(&err));
}

#[test]
fn non_stream_non_status_errors_do_not_trigger_chat_fallback() {
    assert!(!should_fallback_to_chat(&CodexErr::Timeout));
    assert!(!should_fallback_to_chat(&CodexErr::TurnAborted));
}

#[test]
fn markers_in_a_stream_error_do_not_trigger_fallback() {
    let err = CodexErr::Stream(r#"{"code":"400005"}"#.into(), None);
    assert!(!should_fallback_to_chat(&err));
}

#[test]
fn marker_with_other_spacing_does_not_trigger_fallback() {
    assert!(!should_fallback_to_chat(&CodexErr::InvalidRequest(
        r#"{"code": "400005"}"#.into()
    )));
    assert!(!should_fallback_to_chat(&unexpected(
        StatusCode::BAD_REQUEST,
        "does not allow responses api"
    )));
}

#[test]
fn marker_at_the_very_end_triggers_fallback() {
    assert!(should_fallback_to_chat(&unexpected(
        StatusCode::BAD_REQUEST,
        "model does not allow Responses API"
    )));
    assert!(should_fallback_to_chat(&CodexErr::InvalidRequest(
        "\"code\":\"400005\"".into()
    )));
}

#[test]
fn retry_counts_up_to_the_limit_then_gives_up() {
    let err = CodexErr::Stream("closed".into(), None);
    let mut retries: u64 = 0;
    for expected in 1..=3u64 {
        let step = handle_retryable_response_stream_error(&mut retries, 3, false, &err, true, false);
        match step {
            RetryStep::Retry { retry_count, delay, report_error } => {
                assert_eq!(retry_count, expected);
                assert!(matches!(delay, RetryDelay::Backoff));
                assert_eq!(report_error, expected > 1);
            }
            other => panic!("unexpected step {other:?}"),
        }
        assert_eq!(retries, expected);
    }
    assert!(retries_exhausted(retries, 3));
    let step = handle_retryable_response_stream_error(&mut retries, 3, false, &err, true, false);
    assert!(matches!(step, RetryStep::GiveUp));
    assert_eq!(retries, 3);
}

#[test]
fn exhausted_retries_fall_back_to_https_and_restart() {
    let err = CodexErr::Stream("closed".into(), None);
    let mut retries: u64 = 5;
    let step = handle_retryable_response_stream_error(&mut retries, 5, true, &err, true, false);
    assert!(matches!(step, RetryStep::FallBackToHttps));
    assert_eq!(retries, 0);
}

#[test]
fn transport_switch_is_ignored_while_retries_remain() {
    let err = CodexErr::Timeout;
    let mut retries: u64 = 1;
    let step = handle_retryable_response_stream_error(&mut retries, 5, true, &err, true, false);
    assert!(matches!(step, RetryStep::Retry { retry_count: 2, report_error: true, .. }));
    assert_eq!(retries, 2);
    assert!(!retries_exhausted(retries, 5));
}

#[test]
fn first_retry_is_reported_in_debug_builds_or_without_websockets() {
    let err = CodexErr::Timeout;
    let mut retries: u64 = 0;
    let step = handle_retryable_response_stream_error(&mut retries, 5, false, &err, true, true);
    assert!(matches!(step, RetryStep::Retry { retry_count: 1, report_error: true, .. }));
    let mut retries: u64 = 0;
    let step = handle_retryable_response_stream_error(&mut retries, 5, false, &err, false, false);
    assert!(matches!(step, RetryStep::Retry { retry_count: 1, report_error: true, .. }));
}

#[test]
fn requested_delay_wins_over_backoff() {
    let err = CodexErr::Stream("slow down".into(), Some(Duration::from_millis(750)));
    match retry_delay(&err) {
        RetryDelay::Requested(d) => assert_eq!(d, Duration::from_millis(750)),
        RetryDelay::Backoff => panic!("the requested delay was dropped"),
    }
    let mut retries: u64 = 0;
    let step = handle_retryable_response_stream_error(&mut retries, 2, false, &err, false, false);
    match step {
        RetryStep::Retry { delay: RetryDelay::Requested(d), .. } => {
            assert_eq!(d, Duration::from_millis(750))
        }
        other => panic!("unexpected step {other:?}"),
    }
}

#[test]
fn zero_max_retries_gives_up_at_once() {
    let err = CodexErr::Timeout;
    let mut retries: u64 = 0;
    let step = handle_retryable_response_stream_error(&mut retries, 0, false, &err, true, false);
    assert!(matches!(step, RetryStep::GiveUp));
    assert_eq!(retries, 0);
}

#[test]
fn reconnecting_message_counts_retries() {
    assert_eq!(reconnecting_message(2, 5), "Reconnecting... 2/5");
    assert_eq!(reconnecting_message(0, 0), "Reconnecting... 0/0");
    assert_eq!(reconnecting_message(10, 120), "Reconnecting... 10/120");
    assert_eq!(
        reconnecting_message(u64::MAX, 9),
        format!("Reconnecting... {}/9", u64::MAX)
    );
}

#[test]
fn retry_count_stays_within_the_limit() {
    let err = CodexErr::Timeout;
    for start in 0..=4u64 {
        for switched in [false, true] {
            let mut retries = start;
            handle_retryable_response_stream_error(&mut retries, 4, switched, &err, true, false);
            assert!(retries <= 4);
        }
    }
}
