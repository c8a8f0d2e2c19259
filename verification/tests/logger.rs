use bless::cli::OutputFormat;
use bless::logger::{
    format_gzip_line, format_jsonl_line, format_log_line, format_stdout_line, is_stderr_split_level,
    is_stdout_split_level, log_sinks, resolve_log_targets, resolve_output_path, split_stream_path, Level,
    LogTargets, LoggerConfig,
};

fn config<'a>(output: Option<&'a str>, split: bool, format: &'a OutputFormat, uuid: &'a str) -> LoggerConfig<'a> {
    LoggerConfig { label: "lab", uuid, use_mongodb: false, no_timestamp: true, format, output, split }
}

#[test]
fn split_stream_path_compound_log_gz() {
    assert_eq!(split_stream_path("foo.log.gz", "stdout"), "foo_stdout.log.gz");
    assert_eq!(split_stream_path("foo.log.gz", "stderr"), "foo_stderr.log.gz");
}

#[test]
fn split_stream_path_bare_gz() {
    assert_eq!(split_stream_path("build_log.gz", "stdout"), "build_log_stdout.log.gz");
    assert_eq!(split_stream_path("build_log.gz", "stderr"), "build_log_stderr.log.gz");
}

#[test]
fn split_stream_path_no_extension() {
    assert_eq!(split_stream_path("out", "stdout"), "out_stdout.log.gz");
    assert_eq!(split_stream_path("out", "stderr"), "out_stderr.log.gz");
}

#[test]
fn split_stream_paths_never_collide() {
    for base in ["foo.log.gz", "build_log.gz", "out", "dir/run.log.gz"] {
        let stdout = split_stream_path(base, "stdout");
        let stderr = split_stream_path(base, "stderr");
        assert_ne!(stdout, stderr, "colliding paths for {base}");
        assert_ne!(stdout, base);
        assert_ne!(stderr, base);
    }
}

#[test]
fn dash_output_is_stdout_only_without_split() {
    let format = OutputFormat::Log;
    let cfg = config(Some("-"), false, &format, "u1");
    assert_eq!(resolve_log_targets(&cfg), LogTargets::StdoutOnly);
}

#[test]
fn dash_output_is_stdout_only_with_split() {
    let format = OutputFormat::Log;
    let cfg = config(Some("-"), true, &format, "u1");
    assert_eq!(resolve_log_targets(&cfg), LogTargets::StdoutOnly);
}

#[test]
fn dash_output_with_split_creates_no_gzip() {
    let format = OutputFormat::Log;
    let cfg = config(Some("-"), true, &format, "nolog-u");
    assert_eq!(resolve_output_path(&cfg), None);
    assert_eq!(resolve_log_targets(&cfg), LogTargets::StdoutOnly);
}

#[test]
fn split_writes_two_distinct_paths() {
    let format = OutputFormat::Log;
    let cfg = config(Some("/tmp/dir/build_log.gz"), true, &format, "u1");
    match resolve_log_targets(&cfg) {
        LogTargets::Split { stdout, stderr } => {
            assert_ne!(stdout, stderr);
            assert!(stdout.ends_with("build_log_stdout.log.gz"));
            assert!(stderr.ends_with("build_log_stderr.log.gz"));
            assert_ne!(stdout, "/tmp/dir/build_log.gz");
        }
        other => panic!("expected split targets, got {other:?}"),
    }
}

#[test]
fn default_split_uses_label_uuid_stream_names() {
    let format = OutputFormat::Log;
    let cfg = config(None, true, &format, "abcd");
    assert_eq!(
        resolve_log_targets(&cfg),
        LogTargets::Split { stdout: "lab_abcd_stdout.log.gz".into(), stderr: "lab_abcd_stderr.log.gz".into() }
    );
}

#[test]
fn stdout_split_level_is_info_and_trace_only() {
    assert!(is_stdout_split_level(Level::Info));
    assert!(is_stdout_split_level(Level::Trace));
    assert!(!is_stdout_split_level(Level::Warn));
    assert!(!is_stdout_split_level(Level::Error));
    assert!(!is_stdout_split_level(Level::Debug));
}

#[test]
fn stderr_split_level_is_warn_and_error_only() {
    assert!(is_stderr_split_level(Level::Warn));
    assert!(is_stderr_split_level(Level::Error));
    assert!(!is_stderr_split_level(Level::Info));
    assert!(!is_stderr_split_level(Level::Trace));
    assert!(!is_stderr_split_level(Level::Debug));
}

#[test]
fn default_output_is_label_uuid_log_gz() {
    let format = OutputFormat::Log;
    let cfg = config(None, false, &format, "abcd");
    assert_eq!(resolve_output_path(&cfg), Some("lab_abcd.log.gz".to_string()));
    assert_eq!(resolve_log_targets(&cfg), LogTargets::SingleFile("lab_abcd.log.gz".into()));
    let cfg = config(Some("x.gz"), false, &format, "abcd");
    assert_eq!(resolve_log_targets(&cfg), LogTargets::SingleFile("x.gz".into()));
}

#[test]
fn split_sinks_route_each_level_to_one_file() {
    let t = LogTargets::Split { stdout: "a".into(), stderr: "b".into() };
    for (level, out, err) in [
        (Level::Trace, true, false),
        (Level::Debug, false, false),
        (Level::Info, true, false),
        (Level::Warn, false, true),
        (Level::Error, false, true),
    ] {
        let s = log_sinks(&t, false, level);
        assert!(s.stdout);
        assert!(!s.combined_gzip);
        assert_eq!(s.stdout_gzip, out);
        assert_eq!(s.stderr_gzip, err);
    }
}

#[test]
fn mongodb_combined_gzip_keeps_command_output_only() {
    let t = LogTargets::SingleFile("a.log.gz".into());
    assert!(log_sinks(&t, true, Level::Info).combined_gzip);
    assert!(log_sinks(&t, true, Level::Warn).combined_gzip);
    assert!(!log_sinks(&t, true, Level::Trace).combined_gzip);
    assert!(!log_sinks(&t, true, Level::Error).combined_gzip);
    assert!(log_sinks(&t, false, Level::Trace).combined_gzip);
    let none = log_sinks(&LogTargets::StdoutOnly, false, Level::Info);
    assert!(none.stdout && !none.combined_gzip && !none.stdout_gzip && !none.stderr_gzip);
}

#[test]
fn level_names_are_upper_case() {
    assert_eq!(Level::Error.as_str(), "ERROR");
    assert_eq!(Level::Warn.as_str(), "WARN");
    assert_eq!(Level::Info.as_str(), "INFO");
    assert_eq!(Level::Debug.as_str(), "DEBUG");
    assert_eq!(Level::Trace.as_str(), "TRACE");
}

#[test]
fn log_line_with_and_without_timestamp() {
    assert_eq!(format_log_line(Some("T"), Level::Info, "hi"), "[T INFO] hi");
    assert_eq!(format_log_line(None, Level::Warn, "hi"), "[WARN] hi");
}

#[test]
fn gzip_line_is_timestamped_text() {
    assert_eq!(format_gzip_line(0, Level::Info, "hello"), "[1970-01-01T00:00:00Z INFO] hello");
    assert_eq!(format_gzip_line(1_000_000_000, Level::Warn, "tick"), "[2001-09-09T01:46:40Z WARN] tick");
}

#[test]
fn stdout_line_follows_format_and_timestamp_flag() {
    assert_eq!(format_stdout_line(OutputFormat::Log, true, 0, Level::Info, "m"), "[INFO] m");
    assert_eq!(format_stdout_line(OutputFormat::Log, false, 0, Level::Info, "m"), "[1970-01-01T00:00:00Z INFO] m");
    assert_eq!(
        format_stdout_line(OutputFormat::Jsonl, true, 0, Level::Warn, "m"),
        "{\"ts\":\"1970-01-01T00:00:00Z\",\"level\":\"WARN\",\"msg\":\"m\"}"
    );
}

#[test]
fn jsonl_line_escapes_its_strings() {
    assert_eq!(
        format_jsonl_line("t", Level::Error, "a\"b\\c\nd\u{1}"),
        "{\"ts\":\"t\",\"level\":\"ERROR\",\"msg\":\"a\\\"b\\\\c\\nd\\u0001\"}"
    );
}

#[test]
fn metadata_trace_line_names_label_and_uuid() {
    assert_eq!(bless::logger::metadata_trace_line("lab", "u-1"), "Label: lab UUID: u-1");
    let t = LogTargets::SingleFile("x.log.gz".into());
    assert!(log_sinks(&t, false, Level::Trace).combined_gzip);
    assert!(!log_sinks(&t, true, Level::Trace).combined_gzip);
}
