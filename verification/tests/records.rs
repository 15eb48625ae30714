use my_quick_feed::db::{dashboard_stats, lists_all_topics, recent_window_modifier, tags_json, LogEntry, RECENT_TITLE_DAYS};
use my_quick_feed::discord::{
    bot_auth_header, build_thread_description, current_user_url, format_article_message, forum_threads_url,
    message_posted_result, request_failed_error, thread_created_result, thread_messages_url, token_check_failed_error,
    token_check_result,
};
use my_quick_feed::error::AppError;
use my_quick_feed::logs::{export_log_text, make_log_entry, read_logs, unquote_field, LogBuffer, LOG_CAPACITY};
use my_quick_feed::sessions::{
    collect_topic_sessions, key_less_exec, local_time_string, prompt_belongs_to_topic, read_session_file,
    strip_file_wrapper, topic_not_found_message, truncate_preview,
};

fn entry(msg: &str) -> LogEntry {
    LogEntry {
        timestamp: "12:00:00".to_string(),
        level: "INFO".to_string(),
        topic: "APEX".to_string(),
        message: msg.to_string(),
    }
}

#[test]
fn log_keeps_the_latest_thousand_entries() {
    let mut log = LogBuffer::new();
    for i in 0..1005 {
        log.push(entry(&format!("m{}", i)));
    }
    assert_eq!(log.len(), LOG_CAPACITY);
    let all = read_logs(&log);
    assert_eq!(all[0].message, "m5");
    assert_eq!(all[999].message, "m1004");
    log.clear();
    assert_eq!(log.len(), 0);
    assert!(read_logs(&log).is_empty());
}

#[test]
fn log_entries_fall_back_to_the_target() {
    let e = make_log_entry("t".to_string(), "WARN".to_string(), String::new(), "my_quick_feed::x", "m".to_string());
    assert_eq!(e.topic, "my_quick_feed::x");
    let e = make_log_entry("t".to_string(), "WARN".to_string(), "APEX".to_string(), "x", "m".to_string());
    assert_eq!(e.topic, "APEX");
    assert_eq!(unquote_field("\"quoted\""), "quoted");
    assert_eq!(unquote_field("plain"), "plain");
}

#[test]
fn log_export_lines() {
    assert_eq!(export_log_text(&Vec::new()), Err("No logs to export".to_string()));
    let text = export_log_text(&vec![entry("a"), entry("b")]).unwrap();
    assert_eq!(text, "[12:00:00] [INFO] [APEX] a\n[12:00:00] [INFO] [APEX] b\n");
}

#[test]
fn stored_tags_and_windows() {
    assert!(tags_json(&Vec::new()).is_none());
    assert_eq!(tags_json(&vec!["a\"b".to_string(), "c".to_string()]).as_deref(), Some("[\"a\\\"b\",\"c\"]"));
    assert_eq!(
        tags_json(&vec!["t\tx\u{1}\\".to_string()]).as_deref(),
        Some("[\"t\\tx\\u0001\\\\\"]")
    );
    assert_eq!(recent_window_modifier(RECENT_TITLE_DAYS), "-2 days");
    assert!(lists_all_topics(""));
    assert!(!lists_all_topics("APEX"));
    let s = dashboard_stats(7, 3);
    assert_eq!((s.total_topics, s.total_articles, s.total_posts), (3, 7, 7));
}

#[test]
fn discord_requests() {
    assert_eq!(bot_auth_header("tok"), "Bot tok");
    assert_eq!(current_user_url(), "https://discord.com/api/v10/users/@me");
    assert_eq!(forum_threads_url("42"), "https://discord.com/api/v10/channels/42/threads");
    assert_eq!(thread_messages_url("7"), "https://discord.com/api/v10/channels/7/messages");
    assert_eq!(format_article_message("T", "  body \n", Some("https://i")), "**T**\n\nbody\n\n![image](https://i)");
    assert_eq!(format_article_message("T", "body", Some("")), "**T**\n\nbody");
    assert_eq!(format_article_message("T", "body", None), "**T**\n\nbody");
    assert_eq!(
        build_thread_description("APEX"),
        "\u{1f58a}\u{fe0f} 【APEX】APEX に関するニュースを自動収集・まとめます"
    );
}

#[test]
fn discord_answers() {
    assert!(token_check_result(200, "200 OK", "{\"id\":\"1\"}").is_ok());
    match token_check_result(401, "401 Unauthorized", "no") {
        Err(AppError::Discord(m)) => assert_eq!(m, "Authentication failed (401 Unauthorized): no"),
        _ => panic!(),
    }
    match token_check_result(200, "200 OK", "<html>") {
        Err(AppError::Http(m)) => assert_eq!(m, "error decoding response body"),
        _ => panic!(),
    }
    let (msg, thread) = thread_created_result(201, "201 Created", "{\"id\":\"T\",\"message\":{\"id\":\"M\"}}").unwrap();
    assert_eq!((msg.as_str(), thread.as_str()), ("M", "T"));
    match thread_created_result(201, "201 Created", "{\"message\":{\"id\":\"M\"}}") {
        Err(AppError::Discord(m)) => assert_eq!(m, "No thread id in response"),
        _ => panic!(),
    }
    match thread_created_result(201, "201 Created", "{\"id\":\"T\"}") {
        Err(AppError::Discord(m)) => assert_eq!(m, "No message id in response"),
        _ => panic!(),
    }
    match thread_created_result(400, "400 Bad Request", "bad") {
        Err(AppError::Discord(m)) => assert_eq!(m, "Failed to create forum thread (400 Bad Request): bad"),
        _ => panic!(),
    }
    assert_eq!(message_posted_result(200, "200 OK", "{\"id\":\"M2\"}").ok().as_deref(), Some("M2"));
    match message_posted_result(500, "500 Internal Server Error", "x") {
        Err(AppError::Discord(m)) => assert_eq!(m, "Failed to post to thread (500 Internal Server Error): x"),
        _ => panic!(),
    }
    match request_failed_error("timeout") {
        AppError::Discord(m) => assert_eq!(m, "HTTP request failed: timeout"),
        _ => panic!(),
    }
    match token_check_failed_error("dns") {
        AppError::Discord(m) => assert_eq!(m, "HTTP error: dns"),
        _ => panic!(),
    }
}

#[test]
fn errors_carry_their_message() {
    let e = AppError::Config("API key not configured".to_string());
    assert_eq!(e.message(), "API key not configured");
    assert!(matches!(e.duplicate(), AppError::Config(m) if m == "API key not configured"));
}

#[test]
fn local_times_match_chrono() {
    for ts in [
        "1970-01-01T00:00:00Z",
        "2024-02-29T23:59:59+09:00",
        "1960-07-01T12:34:56Z",
        "1900-03-01T00:00:00Z",
        "2000-02-29T12:00:00-05:00",
        "0000-01-01T00:00:00Z",
        "9999-12-31T23:59:59Z",
        "2016-12-31T23:59:60Z",
    ] {
        let expected = chrono::DateTime::parse_from_rfc3339(ts)
            .unwrap()
            .with_timezone(&chrono::Local)
            .format("%Y-%m-%d %H:%M:%S")
            .to_string();
        assert_eq!(local_time_string(ts), expected, "for {}", ts);
    }
}

#[test]
fn a_later_topic_marker_counts() {
    assert!(prompt_belongs_to_topic("## トピック\nAPEX2\n## トピック\nAPEX\n", "APEX"));
    assert!(prompt_belongs_to_topic("## トピック\nAI news\nx\n## トピック\nAI\r\n", "AI"));
    assert!(!prompt_belongs_to_topic("## トピック\nAI news\n## トピック\nAIs\n", "AI"));
}

#[test]
fn prompt_helpers() {
    assert_eq!(strip_file_wrapper("  <file name=\"p.txt\">\n  body  "), "body");
    assert_eq!(strip_file_wrapper(" plain "), "plain");
    assert!(prompt_belongs_to_topic("x\n## トピック\nAPEX\n", "APEX"));
    assert!(prompt_belongs_to_topic("## トピック\nAPEX", "APEX"));
    assert!(!prompt_belongs_to_topic("## トピック\nAPEX2\n", "APEX"));
    assert!(!prompt_belongs_to_topic("nothing", "APEX"));
    assert_eq!(truncate_preview("  <file name=\"a\">\n  hello"), "hello");
    let long = "x".repeat(201);
    assert_eq!(truncate_preview(&long), format!("{}…", "x".repeat(200)));
    assert_eq!(truncate_preview("short"), "short");
    assert_eq!(topic_not_found_message("Z"), "トピック 'Z' が見つかりません");
    assert_eq!(local_time_string("not a time"), "not a time");
    let shown = local_time_string("2024-01-01T12:00:00Z");
    assert_eq!(shown.len(), "2024-01-01 12:00:00".len());
    assert_eq!(&shown[4..5], "-");
    assert_eq!(&shown[10..11], " ");
    assert!(key_less_exec("2024-01-01", "2024-01-02"));
    assert!(!key_less_exec("b", "a"));
}

fn session_file(ts: &str, topic: &str, answer: &str) -> String {
    format!(
        "{{\"type\":\"message\",\"timestamp\":\"{ts}\",\"message\":{{\"role\":\"user\",\"content\":\"## トピック\\n{topic}\\nrest\"}}}}\n\
{{\"type\":\"message\",\"timestamp\":\"{ts}\",\"message\":{{\"role\":\"assistant\",\"content\":[{{\"type\":\"thinking\",\"thinking\":\"hmm\"}},{{\"type\":\"text\",\"text\":\"{answer}\"}}]}}}}\n\
not json\n"
    )
}

#[test]
fn session_file_of_a_topic() {
    let content = session_file("2024-01-01T00:00:00Z", "APEX", "done");
    let (key, s) = read_session_file(&content, "APEX").unwrap();
    assert_eq!(key, "2024-01-01T00:00:00Z");
    assert_eq!(s.prompt_full, "## トピック\nAPEX\nrest");
    assert_eq!(s.response_full, "done");
    assert_eq!(s.response_preview, "done");
    assert_eq!(s.thinking_full, "hmm");
    assert!(read_session_file(&content, "Other").is_none());
    assert!(read_session_file("", "APEX").is_none());
}

#[test]
fn sessions_newest_first_at_most_ten() {
    let mut files = Vec::new();
    for d in 1..=12 {
        files.push(session_file(&format!("2024-01-{:02}T00:00:00Z", d), "APEX", &format!("a{}", d)));
    }
    files.push(session_file("2024-02-01T00:00:00Z", "Other", "x"));
    let shown = collect_topic_sessions(&files, "APEX");
    assert_eq!(shown.len(), 10);
    assert_eq!(shown[0].response_full, "a12");
    assert_eq!(shown[9].response_full, "a3");
}
