//! What is sent to the phone.

use copilot_session_tui::notifications::{
    begins_inside_a_line, event_window, latest_assistant_message, message_of_event, notification_message,
    notification_title, publish_once, publish_with_retry, sanitize_message, truncate_utf8,
    wants_context, ConfigCheck, NotificationKind, NotificationRequest, NotificationWorker,
    PublishFailure, RetryStep, MAX_MESSAGE_BYTES, MAX_TITLE_CHARS,
};

const VALID: ConfigCheck = ConfigCheck { server: true, topic: true, token: true };

fn request(title: &str, kind: NotificationKind) -> NotificationRequest {
    NotificationRequest {
        server: "https://ntfy.example".to_string(),
        topic: "private_topic".to_string(),
        access_token: String::new(),
        verbose: false,
        session_title: title.to_string(),
        kind,
        events_path: None,
        events_start: None,
        events_end: None,
    }
}

#[test]
fn title_removes_controls_and_has_a_length_bound() {
    let title = notification_title(&format!("hello\r\n{}\u{7}", "x".repeat(300)));

    assert!(title.starts_with("CST · hello  "));
    assert!(!title.contains('\r'));
    assert!(!title.contains('\n'));
    assert!(title.chars().count() <= MAX_TITLE_CHARS + 6);
}

#[test]
fn direct_http_publish_sends_title_only_json() {
    let publication =
        publish_once(&request("Plan review", NotificationKind::Ready), VALID, None).unwrap();

    assert_eq!(publication.topic, "private_topic");
    assert_eq!(publication.title, "CST · Plan review");
    assert_eq!(publication.message, "Ready for attention");
    assert_eq!(publication.priority, 3);
    assert_eq!(publication.tags, ("robot", "question"));
    assert_eq!(publication.authorization, None);
}

#[test]
fn error_notification_uses_high_priority_warning_tag() {
    let publication =
        publish_once(&request("Agent", NotificationKind::Error), VALID, None).unwrap();

    assert_eq!(publication.priority, 4);
    assert_eq!(publication.tags, ("robot", "warning"));
}

#[test]
fn worker_serializes_requests_and_reports_results() {
    let mut worker = NotificationWorker::start();
    for title in ["First", "Second"] {
        worker.enqueue(request(title, NotificationKind::Ready)).unwrap();
    }

    let first = worker.next_request().unwrap();
    worker.finish(Ok(()));
    let second = worker.next_request().unwrap();
    worker.finish(Ok(()));

    assert!(worker.try_result().unwrap().result.is_ok());
    assert!(worker.try_result().unwrap().result.is_ok());
    assert!(worker.try_result().is_none());
    assert_eq!(publish_once(&first, VALID, None).unwrap().title, "CST · First");
    assert_eq!(publish_once(&second, VALID, None).unwrap().title, "CST · Second");
}

#[test]
fn transient_server_error_retries_once() {
    assert_eq!(publish_with_retry(0, Err(PublishFailure::Status(500))), RetryStep::Retry);
    assert_eq!(publish_with_retry(1, Ok(())), RetryStep::Delivered);
    assert_eq!(
        publish_with_retry(1, Err(PublishFailure::Status(500))),
        RetryStep::Failed(PublishFailure::Status(500))
    );
}

#[test]
fn a_refused_notification_is_not_tried_again() {
    for failure in [
        PublishFailure::InvalidServer,
        PublishFailure::InvalidTopic,
        PublishFailure::InvalidToken,
        PublishFailure::Status(403),
        PublishFailure::BadRequest,
    ] {
        assert!(!failure.retryable());
        assert_eq!(publish_with_retry(0, Err(failure)), RetryStep::Failed(failure));
    }
    assert!(PublishFailure::Unreachable.retryable());
    assert_eq!(PublishFailure::InvalidServer.message(), "invalid ntfy server configuration");
    assert_eq!(PublishFailure::InvalidTopic.message(), "invalid ntfy topic configuration");
    assert_eq!(PublishFailure::InvalidToken.message(), "invalid ntfy access token configuration");
    assert_eq!(PublishFailure::Status(503).message(), "ntfy server returned an error");
    assert_eq!(PublishFailure::Status(403).message(), "ntfy rejected the notification");
    assert_eq!(PublishFailure::BadRequest.message(), "invalid ntfy request");
    assert_eq!(PublishFailure::Unreachable.message(), "could not reach the ntfy server");
}

#[test]
fn the_first_invalid_part_of_the_configuration_is_named() {
    let plain = request("Agent", NotificationKind::Ready);
    let check = ConfigCheck { server: false, topic: false, token: false };
    assert_eq!(publish_once(&plain, check, None).unwrap_err(), PublishFailure::InvalidServer);
    let check = ConfigCheck { server: true, ..check };
    assert_eq!(publish_once(&plain, check, None).unwrap_err(), PublishFailure::InvalidTopic);
    let check = ConfigCheck { topic: true, ..check };
    assert_eq!(publish_once(&plain, check, None).unwrap_err(), PublishFailure::InvalidToken);
}

#[test]
fn access_token_uses_bearer_auth_without_entering_the_payload() {
    let request = NotificationRequest {
        access_token: "tk_example_private_token".to_string(),
        ..request("Authenticated", NotificationKind::Ready)
    };

    let publication = publish_once(&request, VALID, None).unwrap();

    assert_eq!(publication.authorization.as_deref(), Some("Bearer tk_example_private_token"));
    for text in [&publication.topic, &publication.message, &publication.title] {
        assert!(!text.contains("tk_example_private_token"));
    }
}

fn event(kind: &str, turn: &str, content: Option<&str>) -> String {
    let mut data = serde_json::Map::new();
    data.insert("turnId".to_string(), serde_json::Value::String(turn.to_string()));
    if let Some(content) = content {
        data.insert("content".to_string(), serde_json::Value::String(content.to_string()));
    }
    let mut event = serde_json::Map::new();
    event.insert("type".to_string(), serde_json::Value::String(kind.to_string()));
    event.insert("data".to_string(), serde_json::Value::Object(data));
    serde_json::Value::Object(event).to_string()
}

fn verbose(start: u64, end: u64) -> NotificationRequest {
    NotificationRequest {
        verbose: true,
        events_path: Some("events.jsonl".to_string()),
        events_start: Some(start),
        events_end: Some(end),
        ..request("Verbose", NotificationKind::Ready)
    }
}

/// The context that the log of a work cycle gives.
fn context(log: &str, start: u64, end: u64) -> Option<String> {
    let (from, to) = event_window(log.len() as u64, start, end)?;
    let bytes = log.as_bytes()[from as usize..to as usize].to_vec();
    let previous = from.checked_sub(1).map(|at| log.as_bytes()[at as usize]);
    latest_assistant_message(&bytes, begins_inside_a_line(from, previous))
}

#[test]
fn a_part_that_begins_behind_a_line_break_is_whole() {
    assert!(!begins_inside_a_line(0, None));
    assert!(!begins_inside_a_line(5, Some(b'\n')));
    assert!(begins_inside_a_line(5, Some(b'x')));

    let line = event("assistant.message", "turn", Some("Answer"));
    let log = format!("{line}\n{line}\n");
    let second = line.len() as u64 + 1;
    let length = log.len() as u64;
    assert_eq!(context(&log, second, length).as_deref(), Some("Answer"));
    assert_eq!(context(&log, second + 1, length), None);
}

#[test]
fn verbose_mode_uses_the_latest_assistant_message_with_a_size_bound() {
    let log = format!(
        "{}\n{}\n{}\n",
        event("assistant.turn_start", "current-turn", None),
        event("assistant.message", "current-turn", Some("Older response")),
        event(
            "assistant.message",
            "current-turn",
            Some(&format!("Useful final context {}", "🚀".repeat(2_000)))
        ),
    );
    let request = verbose(0, log.len() as u64);
    assert!(wants_context(&request));

    let message = notification_message(&request, context(&log, 0, log.len() as u64));

    assert!(message.starts_with("Ready for attention\n\nUseful final context"));
    assert!(!message.contains("Older response"));
    assert!(message.len() <= MAX_MESSAGE_BYTES);
    assert!(std::str::from_utf8(message.as_bytes()).is_ok());
}

#[test]
fn verbose_mode_never_reuses_a_previous_work_cycles_response() {
    let previous = format!(
        "{}\n{}\n",
        event("assistant.turn_start", "previous-turn", None),
        event("assistant.message", "previous-turn", Some("Stale previous answer")),
    );
    let cycle_start = previous.len() as u64;
    let mut log = previous;
    log.push_str(&format!("{}\n", event("assistant.turn_start", "current-turn", None)));
    let mut request = verbose(cycle_start, log.len() as u64);

    let message = notification_message(&request, context(&log, cycle_start, log.len() as u64));
    assert!(message.contains("No assistant response was persisted"));
    assert!(!message.contains("Stale previous answer"));

    log.push_str(&format!(
        "{}\n",
        event("assistant.message", "current-turn", Some("Current answer"))
    ));
    request.events_end = Some(log.len() as u64);
    let answer = context(&log, cycle_start, log.len() as u64);
    assert!(notification_message(&request, answer.clone()).contains("Current answer"));

    request.kind = NotificationKind::Error;
    let error = notification_message(&request, answer);
    assert!(error.contains("No assistant response was persisted"));
    assert!(!error.contains("Current answer"));
}

#[test]
fn only_an_assistant_message_with_text_is_quoted() {
    let some = |text: &str| Some(text.to_string());
    assert_eq!(message_of_event(some("assistant.message"), some("done")), some("done"));
    assert_eq!(message_of_event(some("user.message"), some("hello")), None);
    assert_eq!(message_of_event(some("assistant.message"), some("  ")), None);
    assert_eq!(message_of_event(some("assistant.message"), None), None);
    assert_eq!(message_of_event(None, some("done")), None);
}

#[test]
fn a_log_with_broken_lines_is_read_around_them() {
    let log = format!(
        "not json\n{}\n{{\"type\":\"assistant.message\"\n",
        event("assistant.message", "t", Some("kept")),
    );
    assert_eq!(
        latest_assistant_message(&log.as_bytes().to_vec(), false).as_deref(),
        Some("kept")
    );
    assert_eq!(latest_assistant_message(&b"\xff\xfe\n".to_vec(), false), None);
}

#[test]
fn a_cut_message_ends_at_a_character() {
    assert_eq!(truncate_utf8("hello", 5), "hello");
    assert_eq!(truncate_utf8("hello world", 8), "hello…");
    assert_eq!(truncate_utf8("ééé", 5), "é…");
    assert_eq!(sanitize_message("a\u{7}b\u{1b}[0m"), "a b [0m");
    let once = sanitize_message(" \r\u{0}one\r\n\ttwo\u{9b} ");
    assert_eq!(once, "one\n\ttwo");
    assert_eq!(sanitize_message(&once), once);
}

#[test]
fn every_kind_of_notification_has_its_text() {
    assert_eq!(NotificationKind::Ready.message(), "Ready for attention");
    assert_eq!(NotificationKind::Error.message(), "Copilot reported an error");
}
