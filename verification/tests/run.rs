use bless::cli::{Cli, OutputFormat};
use bless::error::BlessError;
use bless::logger::{log_sinks, resolve_log_targets, Level, LogTargets};
use bless::run::{duration_trace, pipe_level, Pipe};
use bless::query::is_uuid_like;
use bless::run::{
    begin_run, command_and_args, duration_text, exit_code_from_parts, gzip_files, join_args, logger_config,
    persisted_stream, plan_run, remote_open, GzipFile, RunStart,
};

fn cli(args: &[&str]) -> Cli {
    Cli::try_parse_from(args).unwrap()
}

#[test]
fn maps_unix_signal_to_128_plus_n() {
    assert_eq!(exit_code_from_parts(None, Some(libc::SIGTERM)), 128 + libc::SIGTERM as u8);
    assert_eq!(exit_code_from_parts(None, Some(libc::SIGKILL)), 128 + libc::SIGKILL as u8);
    assert_eq!(exit_code_from_parts(None, Some(libc::SIGINT)), 128 + libc::SIGINT as u8);
}

#[test]
fn maps_unix_wait_status_exit_code() {
    assert_eq!(exit_code_from_parts(Some(42), None), 42);
    assert_eq!(exit_code_from_parts(Some(0), None), 0);
}

#[test]
fn exit_code_truncates_and_defaults_to_one() {
    assert_eq!(exit_code_from_parts(Some(256 + 3), None), 3);
    assert_eq!(exit_code_from_parts(Some(-1), None), 255);
    assert_eq!(exit_code_from_parts(None, None), 1);
    assert_eq!(exit_code_from_parts(Some(7), Some(9)), 7);
}

#[test]
fn join_args_uses_single_spaces() {
    assert_eq!(join_args(&[]), "");
    assert_eq!(join_args(&["a".to_string()]), "a");
    assert_eq!(join_args(&["-j8".to_string(), "all".to_string(), "".to_string()]), "-j8 all ");
}

#[test]
fn serve_mode_needs_no_uuid() {
    match begin_run(&cli(&["bless", "--serve", ":9000"])) {
        RunStart::Serve { addr } => assert_eq!(addr, ":9000"),
        other => panic!("{other:?}"),
    }
}

#[test]
fn wrapped_run_gets_a_lowercase_v4_uuid() {
    match begin_run(&cli(&["bless", "--", "true"])) {
        RunStart::Wrap(p) => {
            assert!(is_uuid_like(&p.uuid));
            assert_eq!(p.uuid, p.uuid.to_lowercase());
            assert_eq!(&p.uuid[14..15], "4");
            assert!(p.remote.is_none());
            assert!(!p.persist);
        }
        other => panic!("{other:?}"),
    }
}

#[test]
fn remote_session_gets_command_and_joined_args() {
    let c = cli(&["bless", "--remote", ":9000", "--label", "w", "--", "make", "-j8", "all"]);
    let r = remote_open(&c).unwrap();
    assert_eq!(r.addr, ":9000");
    assert_eq!(r.command, "make");
    assert_eq!(r.args, "-j8 all");
    match plan_run(&c, "u") {
        RunStart::Wrap(p) => {
            assert_eq!(p.uuid, "u");
            assert_eq!(p.remote.unwrap().args, "-j8 all");
        }
        other => panic!("{other:?}"),
    }
    assert!(remote_open(&cli(&["bless", "--", "true"])).is_none());
}

#[test]
fn logger_config_follows_the_command_line() {
    let c = cli(&["bless", "--label", "x", "--split", "--no-timestamp", "--format", "jsonl", "--use-mongodb", "--", "t"]);
    let cfg = logger_config(&c, "uu");
    assert_eq!(cfg.label, "x");
    assert_eq!(cfg.uuid, "uu");
    assert!(cfg.split && cfg.no_timestamp && cfg.use_mongodb);
    assert_eq!(*cfg.format, OutputFormat::Jsonl);
    assert_eq!(cfg.output, None);
    let c = cli(&["bless", "--remote", ":1", "--", "t"]);
    assert_eq!(logger_config(&c, "u").output, Some("-"));
}

#[test]
fn command_and_args_split_the_command() {
    let (c, a) = command_and_args(&cli(&["bless", "--", "make", "-j8"])).unwrap();
    assert_eq!(c, "make");
    assert_eq!(a, vec!["-j8".to_string()]);
    match command_and_args(&cli(&["bless", "--serve", ":1"])) {
        Err(BlessError::Config(m)) => assert_eq!(m, "a command is required unless --serve is set"),
        other => panic!("{other:?}"),
    }
}

#[test]
fn duration_text_uses_humantime() {
    assert_eq!(duration_text(Some((9420, 0))), "2h 37m");
    assert_eq!(duration_text(Some((0, 32_000_000))), "32ms");
    assert_eq!(duration_text(Some((0, 0))), "0s");
    assert_eq!(duration_text(None), "unknown");
}

#[test]
fn mongodb_persists_each_gzip_file() {
    let c = cli(&["bless", "--label", "lab", "--split", "--", "t"]);
    let targets = resolve_log_targets(&logger_config(&c, "u"));
    let files = gzip_files(&targets).unwrap();
    assert_eq!(files.len(), 2);
    assert_eq!(files[0].path, "lab_u_stdout.log.gz");
    assert_eq!(files[0].stream.as_deref(), Some("stdout"));
    assert_eq!(files[1].path, "lab_u_stderr.log.gz");
    assert_eq!(persisted_stream(&files[1]), "stderr");

    let files = gzip_files(&LogTargets::SingleFile("a.log.gz".into())).unwrap();
    assert_eq!(files.len(), 1);
    assert_eq!(persisted_stream(&files[0]), "");
    let one = GzipFile { path: "p".into(), stream: None };
    assert_eq!(persisted_stream(&one), "");

    match gzip_files(&LogTargets::StdoutOnly) {
        Err(BlessError::Config(m)) => assert!(m.contains("-o -"), "{m}"),
        other => panic!("{other:?}"),
    }
}

#[test]
fn run_files_name_their_run() {
    let c = cli(&["bless", "--label", "nightly", "--split", "--", "true"]);
    let plan = match begin_run(&c) {
        RunStart::Wrap(p) => p,
        other => panic!("{other:?}"),
    };
    let single = resolve_log_targets(&logger_config(&cli(&["bless", "--label", "nightly", "--", "true"]), &plan.uuid));
    let name = match single {
        LogTargets::SingleFile(p) => p,
        other => panic!("{other:?}"),
    };
    assert_eq!(
        bless::query::parse_run_filename(&name),
        Some((plan.uuid.clone(), "nightly".to_string(), None))
    );
    match resolve_log_targets(&logger_config(&c, &plan.uuid)) {
        LogTargets::Split { stdout, stderr } => {
            assert_eq!(
                bless::query::parse_run_filename(&stdout),
                Some((plan.uuid.clone(), "nightly".to_string(), Some("stdout".to_string())))
            );
            assert_eq!(
                bless::query::parse_run_filename(&stderr),
                Some((plan.uuid.clone(), "nightly".to_string(), Some("stderr".to_string())))
            );
        }
        other => panic!("{other:?}"),
    }
}

#[test]
fn remote_without_local_writes_no_gzip() {
    let c = cli(&["bless", "--remote", ":9000", "--split", "--", "true"]);
    assert_eq!(resolve_log_targets(&logger_config(&c, "u")), LogTargets::StdoutOnly);
    let c = cli(&["bless", "--remote", ":9000", "--local", "--label", "l", "--", "true"]);
    assert_eq!(resolve_log_targets(&logger_config(&c, "u")), LogTargets::SingleFile("l_u.log.gz".into()));
}

#[test]
fn duration_trace_is_skipped_for_mongodb_runs() {
    assert_eq!(duration_trace("make", "-j8", Some("2s"), false), Some("make -j8 took 2s to complete.".to_string()));
    assert_eq!(duration_trace("true", "", Some("0s"), false), Some("true  took 0s to complete.".to_string()));
    assert_eq!(duration_trace("make", "-j8", Some("2s"), true), None);
    assert_eq!(duration_trace("make", "-j8", None, false), None);
}

#[test]
fn command_pipes_map_to_info_and_warn() {
    assert_eq!(pipe_level(Pipe::Stdout), Level::Info);
    assert_eq!(pipe_level(Pipe::Stderr), Level::Warn);
    let split = LogTargets::Split { stdout: "a".into(), stderr: "b".into() };
    assert!(log_sinks(&split, false, pipe_level(Pipe::Stdout)).stdout_gzip);
    assert!(log_sinks(&split, false, pipe_level(Pipe::Stderr)).stderr_gzip);
}
