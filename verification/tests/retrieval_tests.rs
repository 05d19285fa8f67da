use logview::retrieval::{
    chronological_messages, current_query_range, default_query_range, entries_from_rows,
    sort_entries, LogEntry, PollReply, QueryPollStatus, ResultField, Retrieval, RetrievalStatus,
};
use logview::shared::ONE_DAY_MS;

fn field(name: &str, value: &str) -> ResultField {
    ResultField { field: Some(name.to_string()), value: Some(value.to_string()) }
}

fn row(ts: &str, msg: &str) -> Vec<ResultField> {
    vec![field("@timestamp", ts), field("@message", msg)]
}

#[test]
fn collaborator_order_never_leaks_into_the_lines() {
    // The collaborator hands rows in the order c, a, b while their
    // timestamps order them a, b, c: the extraction must return oldest
    // first.
    let rows = vec![
        row("2024-01-01 00:00:02.000", "c"),
        row("2024-01-01 00:00:00.000", "a"),
        row("2024-01-01 00:00:01.000", "b"),
    ];
    assert_eq!(chronological_messages(&rows), vec!["a", "b", "c"]);
}

#[test]
fn rows_without_timestamps_keep_arrival_order() {
    let rows = vec![
        vec![field("@message", "first")],
        vec![field("@message", "second")],
        vec![field("@message", "third")],
    ];
    assert_eq!(chronological_messages(&rows), vec!["first", "second", "third"]);
}

#[test]
fn equal_timestamps_keep_arrival_order() {
    let rows = vec![
        row("2024-01-01 00:00:01.000", "x"),
        row("2024-01-01 00:00:00.000", "early"),
        row("2024-01-01 00:00:01.000", "y"),
    ];
    assert_eq!(chronological_messages(&rows), vec!["early", "x", "y"]);
}

#[test]
fn rows_without_a_message_field_contribute_no_line() {
    let rows = vec![
        vec![field("@timestamp", "2024-01-01 00:00:00.000")],
        vec![field("@message", "kept"), field("other", "dropped")],
    ];
    assert_eq!(chronological_messages(&rows), vec!["kept"]);
}

#[test]
fn a_message_without_a_value_becomes_an_empty_line() {
    let rows = vec![vec![ResultField {
        field: Some("@message".to_string()),
        value: None,
    }]];
    assert_eq!(chronological_messages(&rows), vec![""]);
}

#[test]
fn extraction_reads_the_parsed_timestamp() {
    let rows = vec![row("2024-01-01 00:00:05.250", "m")];
    let entries = entries_from_rows(&rows);
    assert_eq!(entries.len(), 1);
    // 2024-01-01 00:00:05.250 UTC in milliseconds since the epoch.
    assert_eq!(entries[0].timestamp_ms, 1_704_067_205_250);
    assert_eq!(entries[0].message, "m");
}

#[test]
fn sort_is_a_stable_permutation() {
    let entries = vec![
        LogEntry { timestamp_ms: 5, message: "e".to_string() },
        LogEntry { timestamp_ms: 1, message: "a1".to_string() },
        LogEntry { timestamp_ms: 3, message: "c".to_string() },
        LogEntry { timestamp_ms: 1, message: "a2".to_string() },
    ];
    let sorted = sort_entries(&entries);
    let messages: Vec<String> = sorted.iter().map(|e| e.message.clone()).collect();
    assert_eq!(messages, vec!["a1", "a2", "c", "e"]);
}

#[test]
fn machine_runs_submit_poll_loaded() {
    let mut r = Retrieval::new();
    assert!(matches!(r.status, RetrievalStatus::Idle));
    r.submit();
    assert!(matches!(r.status, RetrievalStatus::Submitted));
    let handle = r.on_start(Ok(Some("handle-1".to_string())));
    assert_eq!(handle, Some("handle-1".to_string()));
    assert!(matches!(r.status, RetrievalStatus::Running));

    // A partial page while the query still runs: lines update, not done.
    let partial = PollReply {
        status: QueryPollStatus::Running,
        rows: vec![row("2024-01-01 00:00:00.000", "early")],
    };
    assert!(!r.on_poll(Ok(partial)));
    assert!(matches!(r.status, RetrievalStatus::Running));
    assert_eq!(r.lines, vec!["early"]);
    assert!(r.outcome().is_none());

    // Completion: final lines, terminal state, exactly one outcome.
    let complete = PollReply {
        status: QueryPollStatus::Complete,
        rows: vec![
            row("2024-01-01 00:00:01.000", "late"),
            row("2024-01-01 00:00:00.000", "early"),
        ],
    };
    assert!(r.on_poll(Ok(complete)));
    assert!(matches!(r.status, RetrievalStatus::Loaded));
    assert_eq!(r.lines, vec!["early", "late"]);
    assert_eq!(r.outcome(), Some(Ok(vec!["early".to_string(), "late".to_string()])));
}

#[test]
fn a_queued_query_keeps_polling_without_touching_lines() {
    let mut r = Retrieval::new();
    r.submit();
    r.on_start(Ok(Some("h".to_string())));
    let queued = PollReply { status: QueryPollStatus::Other, rows: vec![row("x", "ignored")] };
    assert!(!r.on_poll(Ok(queued)));
    assert!(matches!(r.status, RetrievalStatus::Running));
    assert!(r.lines.is_empty());
}

#[test]
fn missing_handle_fails_the_retrieval() {
    let mut r = Retrieval::new();
    r.submit();
    let handle = r.on_start(Ok(None));
    assert_eq!(handle, None);
    match &r.status {
        RetrievalStatus::Failed(reason) => {
            assert_eq!(reason, "no query handle returned")
        },
        other => panic!("expected a failure, got {:?}", std::mem::discriminant(other)),
    }
}

#[test]
fn transport_errors_fail_instead_of_crashing() {
    let mut r = Retrieval::new();
    r.submit();
    r.on_start(Ok(Some("h".to_string())));
    assert!(r.on_poll(Err("connection reset".to_string())));
    assert_eq!(r.outcome(), Some(Err("connection reset".to_string())));
}

#[test]
fn remote_failure_and_timeout_map_to_their_states() {
    let mut r = Retrieval::new();
    r.submit();
    r.on_start(Ok(Some("h".to_string())));
    let failed = PollReply { status: QueryPollStatus::Failed, rows: Vec::new() };
    assert!(r.on_poll(Ok(failed)));
    assert_eq!(r.outcome(), Some(Err("Failed".to_string())));

    let mut t = Retrieval::new();
    t.submit();
    t.on_start(Ok(Some("h".to_string())));
    let timed_out = PollReply { status: QueryPollStatus::TimedOut, rows: Vec::new() };
    assert!(t.on_poll(Ok(timed_out)));
    assert!(matches!(t.status, RetrievalStatus::TimedOut));
    assert_eq!(t.outcome(), Some(Err("Timeout".to_string())));
}

#[test]
fn restart_begins_a_fresh_instance() {
    let mut r = Retrieval::new();
    r.submit();
    r.on_start(Err("down".to_string()));
    assert!(matches!(r.status, RetrievalStatus::Failed(_)));
    r.submit();
    assert!(matches!(r.status, RetrievalStatus::Submitted));
    assert!(r.lines.is_empty());
}

#[test]
fn current_range_ends_at_the_clock_and_reaches_a_day_back() {
    let (start, end) = current_query_range();
    // The machine's clock is past 1971, so the clamp at the smallest
    // instant cannot apply and the window is exactly one day wide.
    assert!(end > ONE_DAY_MS);
    assert_eq!(end - start, ONE_DAY_MS);
}

#[test]
fn query_range_spans_one_day_back() {
    let (start, end) = default_query_range(1_704_067_205_250);
    assert_eq!(end, 1_704_067_205_250);
    assert_eq!(end - start, ONE_DAY_MS);
    let (clamped_start, _) = default_query_range(i64::MIN + 5);
    assert_eq!(clamped_start, i64::MIN);
}
