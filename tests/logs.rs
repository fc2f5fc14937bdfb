use kv_router::logs::strip_log_prefix;

#[test]
fn test_strip_log_prefix() {
    let line = "INFO 05-06 09:38:50 [async_llm.py:252] Added request 1";
    let expected = "[async_llm.py:252] Added request 1";
    assert_eq!(strip_log_prefix(line), expected);

    let line = "Just a regular line.";
    assert_eq!(strip_log_prefix(line), line);

    let line = "INFO this is not a full prefix";
    assert_eq!(strip_log_prefix(line), line);

    let line = "[2025-05-06 11:58:51] Capture cuda graph bs [1, 2, 4, 8]";
    assert_eq!(strip_log_prefix(line), "Capture cuda graph bs [1, 2, 4, 8]");
}

#[test]
fn strip_log_prefix_edge_cases() {
    // lower-case level
    let line = "info 05-06 09:38:50 message";
    assert_eq!(strip_log_prefix(line), line);
    // empty message after the prefix
    assert_eq!(strip_log_prefix("WARNING 12-31 23:59:59 "), "");
    // a message of more than one line is kept whole
    let line = "INFO 05-06 09:38:50 a\nb";
    assert_eq!(strip_log_prefix(line), line);
    // a letter where a digit belongs
    let line = "[2025-0x-06 11:58:51] msg";
    assert_eq!(strip_log_prefix(line), line);
    assert_eq!(strip_log_prefix(""), "");
}
