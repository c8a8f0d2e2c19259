use bless::logger::Level;
use bless::rpc::{
    capnp_level_display, collect_session_summaries, dirs_or_default, format_session_log_line, resolve_tcp_addr,
    sanitize_session_component, serve_bind_addr, session_end_line, session_file_name, session_index_entry,
    SessionRegistry, SessionSummaryData, WireLine,
};

fn summary(uuid: &str, label: &str, command: &str, duration: &str, line_count: u64, exit_code: i32) -> SessionSummaryData {
    SessionSummaryData {
        uuid: uuid.into(),
        label: label.into(),
        command: command.into(),
        duration: duration.into(),
        line_count,
        exit_code,
    }
}

#[test]
fn colon_port_is_localhost() {
    assert_eq!(resolve_tcp_addr(":9000"), "127.0.0.1:9000");
    assert_eq!(resolve_tcp_addr(":5678"), "127.0.0.1:5678");
}

#[test]
fn explicit_addr_is_unchanged() {
    assert_eq!(resolve_tcp_addr("192.168.1.10:9000"), "192.168.1.10:9000");
    assert_eq!(resolve_tcp_addr("0.0.0.0:9000"), "0.0.0.0:9000");
    assert_eq!(resolve_tcp_addr("127.0.0.1:9000"), "127.0.0.1:9000");
}

#[test]
fn serve_colon_port_binds_all_interfaces() {
    assert_eq!(serve_bind_addr(":9000"), "0.0.0.0:9000");
    assert_eq!(serve_bind_addr("127.0.0.1:9000"), "127.0.0.1:9000");
}

#[test]
fn accepts_plain_label_and_uuid() {
    assert_eq!(sanitize_session_component("my-label.v1_0").unwrap(), "my-label.v1_0");
    assert_eq!(
        sanitize_session_component("01234567-89ab-cdef-0123-456789abcdef").unwrap(),
        "01234567-89ab-cdef-0123-456789abcdef"
    );
}

#[test]
fn rejects_dotdot() {
    assert!(sanitize_session_component("..").is_err());
    assert!(sanitize_session_component("../etc").is_err());
    assert!(sanitize_session_component("foo..bar").is_err());
}

#[test]
fn rejects_absolute_and_separators() {
    assert!(sanitize_session_component("/tmp/x").is_err());
    assert!(sanitize_session_component("a/b").is_err());
    assert!(sanitize_session_component("a\\b").is_err());
    assert!(sanitize_session_component("lab el").is_err());
}

#[test]
fn rejects_empty() {
    assert!(sanitize_session_component("").is_err());
}

#[test]
fn sanitize_messages_name_the_rule() {
    assert_eq!(sanitize_session_component("").unwrap_err(), "empty label/uuid");
    assert_eq!(sanitize_session_component("a..b").unwrap_err(), "label/uuid must not contain ..");
    assert_eq!(sanitize_session_component("/x").unwrap_err(), "label/uuid must not be an absolute path");
    assert_eq!(sanitize_session_component("a b").unwrap_err(), "label/uuid may only contain [A-Za-z0-9._-]");
}

#[test]
fn session_path_stays_under_data_dir() {
    let name = session_file_name("lab", "u-1").unwrap();
    assert_eq!(name, "lab_u-1.log.gz");
    assert!(!name.contains('/'));
}

#[test]
fn session_path_rejects_escape_label() {
    assert!(session_file_name("../etc", "u1").is_err());
    assert!(session_file_name("lab", "/tmp/x").is_err());
}

#[test]
fn formats_unix_timestamp_as_rfc3339_display_level_line() {
    let line = format_session_log_line(0.0f64 as u64, Level::Info.as_str(), "hello");
    assert_eq!(line, "[1970-01-01T00:00:00Z INFO] hello");

    let line = format_session_log_line(1_000_000_000.9f64 as u64, Level::Warn.as_str(), "tick");
    assert_eq!(line, "[2001-09-09T01:46:40Z WARN] tick");
}

#[test]
fn capnp_levels_map_to_log_display() {
    assert_eq!(capnp_level_display(Some(Level::Trace)), "TRACE");
    assert_eq!(capnp_level_display(Some(Level::Debug)), "DEBUG");
    assert_eq!(capnp_level_display(Some(Level::Info)), "INFO");
    assert_eq!(capnp_level_display(Some(Level::Warn)), "WARN");
    assert_eq!(capnp_level_display(Some(Level::Error)), "ERROR");
    assert_eq!(capnp_level_display(None), "UNKNOWN");
    assert_ne!(format!("{:?}", Level::Info), capnp_level_display(Some(Level::Info)));
}

#[test]
fn formats_all_levels_via_log_display_not_debug() {
    for (level, expected) in [
        (Level::Trace, "TRACE"),
        (Level::Debug, "DEBUG"),
        (Level::Info, "INFO"),
        (Level::Warn, "WARN"),
        (Level::Error, "ERROR"),
    ] {
        let line = format_session_log_line(0, level.as_str(), "m");
        assert_eq!(line, format!("[1970-01-01T00:00:00Z {expected}] m"));
        assert!(!line.contains(&format!("{:?}", level)), "must not use Debug Level: {line}");
    }
}

#[test]
fn list_summaries_sets_all_session_summary_fields() {
    let live = [summary("live-u", "live-lab", "echo", "", 3, 0)];
    let done = [summary("done-u", "done-lab", "false", "1.2s", 7, 1)];
    let rows = collect_session_summaries(&live, &done, 10);
    assert_eq!(rows.len(), 2);

    assert_eq!(rows[0].uuid, "live-u");
    assert_eq!(rows[0].label, "live-lab");
    assert_eq!(rows[0].command, "echo");
    assert_eq!(rows[0].duration, "");
    assert_eq!(rows[0].line_count, 3);
    assert_eq!(rows[0].exit_code, 0);

    assert_eq!(rows[1].uuid, "done-u");
    assert_eq!(rows[1].label, "done-lab");
    assert_eq!(rows[1].command, "false");
    assert_eq!(rows[1].duration, "1.2s");
    assert_eq!(rows[1].line_count, 7);
    assert_eq!(rows[1].exit_code, 1);
}

#[test]
fn list_summaries_live_first_then_completed_respects_limit() {
    let live = [summary("a", "la", "cmd-a", "", 1, 0), summary("b", "lb", "cmd-b", "", 2, 0)];
    let done = [summary("c", "lc", "cmd-c", "10ms", 3, 0), summary("d", "ld", "cmd-d", "20ms", 4, 2)];

    let all = collect_session_summaries(&live, &done, 10);
    assert_eq!(all.iter().map(|s| s.uuid.as_str()).collect::<Vec<_>>(), ["a", "b", "c", "d"]);

    let limited = collect_session_summaries(&live, &done, 3);
    assert_eq!(limited.iter().map(|s| s.uuid.as_str()).collect::<Vec<_>>(), ["a", "b", "c"]);
    assert_eq!(limited[2].duration, "10ms");
    assert_eq!(limited[2].exit_code, 0);

    let empty = collect_session_summaries(&[], &[], 5);
    assert!(empty.is_empty());
    let one = collect_session_summaries(&live, &done, 1);
    assert_eq!(one.len(), 1);
    assert_eq!(one[0].uuid, "a");
}

#[test]
fn session_data_dir_prefers_xdg_then_home() {
    assert_eq!(dirs_or_default(Some("/x"), Some("/h")), "/x/bless/sessions");
    assert_eq!(dirs_or_default(None, Some("/h")), "/h/.local/share/bless/sessions");
    assert_eq!(dirs_or_default(None, None), ".bless_sessions");
}

#[test]
fn session_end_and_index_lines() {
    assert_eq!(session_end_line(-1, "2s", 7), "[session-end] exit_code=-1 duration=2s lines=7");
    assert_eq!(
        session_index_entry("u", "l", "echo \"hi\"", 2, "1s", 3),
        "{\"uuid\":\"u\",\"label\":\"l\",\"command\":\"echo \\\"hi\\\"\",\"exit_code\":2,\"duration\":\"1s\",\"line_count\":3}"
    );
}

#[test]
fn registry_tracks_open_write_close_and_list() {
    let mut reg = SessionRegistry::new();
    let h1 = reg.open("lab", "u1", "echo");
    let h2 = reg.open("lab2", "u2", "make");
    assert_eq!((h1, h2), (0, 1));
    reg.record_lines(h1, 3);
    reg.record_lines(h1, 2);
    let rows = reg.list(10);
    assert_eq!(rows.len(), 2);
    assert_eq!(rows[0].uuid, "u1");
    assert_eq!(rows[0].line_count, 5);
    assert_eq!(rows[0].duration, "");

    let closed = reg.close(h1, 1, "3s");
    assert_eq!(closed, summary("u1", "lab", "echo", "3s", 5, 1));
    let rows = reg.list(10);
    assert_eq!(rows.len(), 2);
    assert_eq!(rows[0].uuid, "u2");
    assert_eq!(rows[1], summary("u1", "lab", "echo", "3s", 5, 1));
    assert_eq!(reg.list(1).len(), 1);
    assert_eq!(reg.session_count(), 2);
}

#[test]
fn reopening_a_uuid_replaces_the_live_session() {
    let mut reg = SessionRegistry::new();
    let h1 = reg.open("a", "same", "x");
    let h2 = reg.open("b", "same", "y");
    let rows = reg.list(10);
    assert_eq!(rows.len(), 1);
    assert_eq!(rows[0].label, "b");
    reg.close(h1, 0, "1s");
    let rows = reg.list(10);
    assert_eq!(rows.len(), 1);
    assert_eq!(rows[0].label, "a");
    reg.close(h2, 0, "1s");
    assert_eq!(reg.list(10).len(), 2);
}

#[test]
fn write_batch_formats_lines_and_counts_them() {
    let mut reg = SessionRegistry::new();
    let h = reg.open("lab", "u1", "echo");
    let lines = reg.write_batch(
        h,
        &[
            WireLine { secs: 0, level: Some(Level::Info), message: "out".into() },
            WireLine { secs: 60, level: None, message: "odd".into() },
        ],
    );
    assert_eq!(lines, vec!["[1970-01-01T00:00:00Z INFO] out".to_string(), "[1970-01-01T00:01:00Z UNKNOWN] odd".to_string()]);
    assert_eq!(reg.list(10)[0].line_count, 2);
    let closed = reg.close(h, 0, "1s");
    assert_eq!(closed.line_count, 2);
    assert_eq!(session_end_line(closed.exit_code, &closed.duration, closed.line_count), "[session-end] exit_code=0 duration=1s lines=2");
}
