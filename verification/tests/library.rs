use de_ai_hilfer::library::{check_backup_format, delete_outcome, import_message, BACKUP_FORMAT};
use de_ai_hilfer::stream_events::{sse_delta, sse_error, sse_event, StreamEvent};

#[test]
fn delete_messages() {
    assert_eq!(delete_outcome(0, 5), Err("knowledge entry not found".to_string()));
    assert_eq!(delete_outcome(1, 42), Ok("已删除词条 #42".to_string()));
    assert_eq!(delete_outcome(2, -3), Ok("已删除词条 #-3".to_string()));
}

#[test]
fn backups_are_read_in_their_own_format() {
    assert_eq!(check_backup_format(BACKUP_FORMAT), Ok(()));
    assert_eq!(check_backup_format("v0"), Err("unsupported backup format: v0".to_string()));
    assert_eq!(import_message(3, 0, 12), "已导入 3 个词条、0 条追问和 12 条学习进度");
}

#[test]
fn event_frames() {
    assert_eq!(sse_event("delta", Some("{\"text\":\"a\"}")), "event: delta\ndata: {\"text\":\"a\"}\n\n");
    assert_eq!(
        sse_event(StreamEvent::Error.as_str(), None),
        "event: error\ndata: {\"message\":\"serialization failed\"}\n\n"
    );
    assert_eq!(StreamEvent::Meta.as_str(), "meta");
    assert_eq!(StreamEvent::Complete.as_str(), "complete");
}

#[test]
fn text_frames_are_escaped_json() {
    assert_eq!(sse_delta("a\"b\n"), "event: delta\ndata: {\"delta\":\"a\\\"b\\n\"}\n\n");
    assert_eq!(sse_error("ü"), "event: error\ndata: {\"message\":\"ü\"}\n\n");
}

#[test]
fn delta_frames_escape_controls_in_lower_hex() {
    assert_eq!(sse_delta("\u{1}\u{1f}\t\\\u{8}\u{c}\r\u{7f}"), "event: delta\ndata: {\"delta\":\"\\u0001\\u001f\\t\\\\\\b\\f\\r\u{7f}\"}\n\n");
}

