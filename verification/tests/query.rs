use bless::error::BlessError;
use bless::query::{
    collect_local_runs, dest_path, format_local_ls, format_local_show, format_mtime, is_uuid_like, parse_run_filename,
    plan_fetch_local, resolve_id, run_filename_cuts_char_exec, sort_runs, split_single_dest_error, stream_display,
    stream_sort_key, uuid_matches_id, FetchCopy, FetchDest, FileEntry, LocalRunFile,
};

const UUID_A: &str = "11111111-1111-1111-1111-111111111111";
const UUID_B: &str = "22222222-2222-2222-2222-222222222222";
const UUID_C: &str = "11112222-2222-2222-2222-222222222222";
const DIR: &str = "/data/runs";

fn entry(name: &str, size: u64) -> FileEntry {
    FileEntry { name: name.to_string(), size, mtime: Some(1_700_000_000) }
}

fn config_msg(e: BlessError) -> String {
    match e {
        BlessError::Config(m) => m,
        other => panic!("expected Config, got {other:?}"),
    }
}

fn copy(source: &str, dest: Option<&str>) -> FetchCopy {
    FetchCopy {
        source: source.to_string(),
        dest: match dest {
            Some(d) => FetchDest::Path(d.to_string()),
            None => FetchDest::Stdout,
        },
    }
}

#[test]
fn uuid_like_accepts_hyphenated_hex() {
    assert!(is_uuid_like(UUID_A));
    assert!(is_uuid_like("AAAAAAAA-BBBB-CCCC-DDDD-EEEEEEEEEEEE"));
    assert!(!is_uuid_like("11111111-1111-1111-1111-11111111111"));
    assert!(!is_uuid_like("not-a-uuid"));
    assert!(!is_uuid_like(""));
}

#[test]
fn parse_combined_and_split_names() {
    assert_eq!(parse_run_filename(&format!("myrun_{UUID_A}.log.gz")), Some((UUID_A.into(), "myrun".into(), None)));
    assert_eq!(
        parse_run_filename(&format!("my_lab_{UUID_A}_stdout.log.gz")),
        Some((UUID_A.into(), "my_lab".into(), Some("stdout".into())))
    );
    assert_eq!(
        parse_run_filename(&format!("my_lab_{UUID_A}_stderr.log.gz")),
        Some((UUID_A.into(), "my_lab".into(), Some("stderr".into())))
    );
    assert_eq!(parse_run_filename("build_log.gz"), None);
    assert_eq!(parse_run_filename("random.log.gz"), None);
    assert_eq!(parse_run_filename(&format!("{UUID_A}.log.gz")), None);
    assert_eq!(parse_run_filename("notes.txt"), None);
}

#[test]
fn parse_lowercases_the_uuid() {
    let upper = "AAAAAAAA-BBBB-CCCC-DDDD-EEEEEEEEEEEE";
    assert_eq!(
        parse_run_filename(&format!("x_{upper}.log.gz")),
        Some(("aaaaaaaa-bbbb-cccc-dddd-eeeeeeeeeeee".into(), "x".into(), None))
    );
}

#[test]
fn multibyte_cut_is_detected() {
    assert!(!run_filename_cuts_char_exec(&format!("myrun_{UUID_A}.log.gz")));
    assert!(!run_filename_cuts_char_exec("notes.txt"));
    let name = format!("{}ab.log.gz", "é".repeat(20));
    assert!(run_filename_cuts_char_exec(&name));
}

#[test]
fn list_local_skips_non_run_names() {
    let runs = collect_local_runs(&[
        entry("build_log.gz", 4),
        entry(&format!("job_{UUID_B}_stderr.log.gz"), 2),
        entry(&format!("myrun_{UUID_A}.log.gz"), 3),
        entry("readme.txt", 4),
        entry(&format!("job_{UUID_B}_stdout.log.gz"), 4),
    ]);
    assert_eq!(runs.len(), 3);
    assert_eq!(runs[0].uuid, UUID_A);
    assert_eq!(runs[0].label, "myrun");
    assert_eq!(runs[0].stream, None);
    assert_eq!(runs[0].size, 3);
    assert_eq!(runs[1].uuid, UUID_B);
    assert_eq!(runs[1].stream.as_deref(), Some("stdout"));
    assert_eq!(runs[2].uuid, UUID_B);
    assert_eq!(runs[2].stream.as_deref(), Some("stderr"));
}

#[test]
fn ls_format_has_expected_columns() {
    let runs = collect_local_runs(&[entry(&format!("lab_{UUID_A}.log.gz"), 2)]);
    let text = format_local_ls(&runs);
    assert!(text.starts_with("uuid\tlabel\tstream\tpath\tsize\n"));
    let row = text.lines().nth(1).unwrap();
    let cols: Vec<_> = row.split('\t').collect();
    assert_eq!(cols, vec![UUID_A, "lab", "-", &format!("lab_{UUID_A}.log.gz"), "2"]);
}

#[test]
fn show_adds_mtime_and_resolves_prefix() {
    let runs = collect_local_runs(&[entry(&format!("lab_{UUID_A}.log.gz"), 2), entry(&format!("other_{UUID_B}.log.gz"), 2)]);
    let matched = resolve_id(&runs, "11111111").unwrap();
    assert_eq!(matched.len(), 1);
    assert_eq!(matched[0].uuid, UUID_A);
    let text = format_local_show(&matched);
    assert!(text.starts_with("uuid\tlabel\tstream\tpath\tsize\tmtime\n"));
    let cols: Vec<_> = text.lines().nth(1).unwrap().split('\t').collect();
    assert_eq!(cols[0], UUID_A);
    assert_eq!(cols.len(), 6);
    assert!(cols[5].contains('T'), "mtime {}", cols[5]);
    assert_eq!(cols[5], "2023-11-14T22:13:20Z");
}

#[test]
fn resolve_id_ambiguous_and_missing() {
    let runs = collect_local_runs(&[entry(&format!("a_{UUID_A}.log.gz"), 1), entry(&format!("c_{UUID_C}.log.gz"), 1)]);
    let msg = config_msg(resolve_id(&runs, "1111").unwrap_err());
    assert!(msg.contains("ambiguous"), "{msg}");
    assert_eq!(msg, "ambiguous id '1111' matches 2 runs");
    let msg = config_msg(resolve_id(&runs, "zzzz").unwrap_err());
    assert!(msg.contains("no run matching"), "{msg}");
    assert_eq!(msg, "no run matching 'zzzz'");
    let msg = config_msg(resolve_id(&runs, "").unwrap_err());
    assert_eq!(msg, "id must be a run uuid or unique prefix");
}

#[test]
fn resolve_id_ignores_case_and_keeps_both_streams() {
    let runs = collect_local_runs(&[
        entry(&format!("job_{UUID_B}_stdout.log.gz"), 1),
        entry(&format!("job_{UUID_B}_stderr.log.gz"), 1),
        entry(&format!("a_{UUID_A}.log.gz"), 1),
    ]);
    let matched = resolve_id(&runs, "2222").unwrap();
    assert_eq!(matched.len(), 2);
    assert!(matched.iter().all(|r| r.uuid == UUID_B));
    let upper = UUID_A.to_uppercase();
    let matched = resolve_id(&runs, &upper).unwrap();
    assert_eq!(matched.len(), 1);
    assert_eq!(matched[0].uuid, UUID_A);
}

#[test]
fn fetch_combined_default_name() {
    let runs = collect_local_runs(&[entry(&format!("lab_{UUID_A}.log.gz"), 7)]);
    let matched = resolve_id(&runs, UUID_A).unwrap();
    let plan = plan_fetch_local(DIR, &matched, None);
    assert!(plan.error.is_none());
    assert_eq!(
        plan.copies,
        vec![copy(&format!("{DIR}/lab_{UUID_A}.log.gz"), Some(&format!("{DIR}/{UUID_A}.log.gz")))]
    );
}

#[test]
fn fetch_split_writes_both_unless_dash_o() {
    let runs = collect_local_runs(&[
        entry(&format!("job_{UUID_B}_stdout.log.gz"), 3),
        entry(&format!("job_{UUID_B}_stderr.log.gz"), 3),
    ]);
    let matched = resolve_id(&runs, "2222").unwrap();
    assert_eq!(matched.len(), 2);
    let plan = plan_fetch_local(DIR, &matched, None);
    assert!(plan.error.is_none());
    assert_eq!(
        plan.copies,
        vec![
            copy(&format!("{DIR}/job_{UUID_B}_stdout.log.gz"), Some(&format!("{DIR}/{UUID_B}_stdout.log.gz"))),
            copy(&format!("{DIR}/job_{UUID_B}_stderr.log.gz"), Some(&format!("{DIR}/{UUID_B}_stderr.log.gz"))),
        ]
    );

    let plan = plan_fetch_local(DIR, &matched, Some("one.log.gz"));
    assert!(plan.copies.is_empty());
    let msg = config_msg(plan.error.unwrap());
    assert!(msg.contains("two streams"), "{msg}");
    let plan = plan_fetch_local(DIR, &matched, Some("-"));
    assert!(plan.copies.is_empty());
    let msg = config_msg(plan.error.unwrap());
    assert!(msg.contains("two streams"), "{msg}");
}

#[test]
fn fetch_dash_o_copies_one_file() {
    let runs = collect_local_runs(&[entry(&format!("lab_{UUID_A}.log.gz"), 4)]);
    let matched = resolve_id(&runs, "11111111-1111").unwrap();
    let plan = plan_fetch_local(DIR, &matched, Some("copy.log.gz"));
    assert!(plan.error.is_none());
    assert_eq!(plan.copies, vec![copy(&format!("{DIR}/lab_{UUID_A}.log.gz"), Some(&format!("{DIR}/copy.log.gz")))]);
    let plan = plan_fetch_local(DIR, &matched, Some("/abs/copy.log.gz"));
    assert_eq!(plan.copies, vec![copy(&format!("{DIR}/lab_{UUID_A}.log.gz"), Some("/abs/copy.log.gz"))]);
    let plan = plan_fetch_local(DIR, &matched, Some("-"));
    assert_eq!(plan.copies, vec![copy(&format!("{DIR}/lab_{UUID_A}.log.gz"), None)]);
}

#[test]
fn fetch_with_nothing_matched_is_refused() {
    let plan = plan_fetch_local(DIR, &[], None);
    assert!(plan.copies.is_empty());
    assert_eq!(config_msg(plan.error.unwrap()), "no run matching id");
}

#[test]
fn fetch_split_run_with_unnamed_stream_stops() {
    let a = LocalRunFile {
        uuid: UUID_A.into(),
        label: "l".into(),
        stream: Some("stdout".into()),
        filename: "f1".into(),
        size: 1,
        mtime: None,
    };
    let b = LocalRunFile { stream: None, filename: "f2".into(), ..a.clone() };
    let plan = plan_fetch_local(DIR, &[&a, &b], None);
    assert_eq!(plan.copies, vec![copy(&format!("{DIR}/f1"), Some(&format!("{DIR}/{UUID_A}_stdout.log.gz")))]);
    assert_eq!(config_msg(plan.error.unwrap()), format!("split run {UUID_A} has a file without a stream name"));
}

#[test]
fn show_split_includes_both_files() {
    let runs = collect_local_runs(&[
        entry(&format!("job_{UUID_B}_stdout.log.gz"), 3),
        entry(&format!("job_{UUID_B}_stderr.log.gz"), 3),
    ]);
    let matched = resolve_id(&runs, UUID_B).unwrap();
    let text = format_local_show(&matched);
    assert!(text.contains("stdout"));
    assert!(text.contains("stderr"));
    assert_eq!(text.lines().count(), 3);
}

#[test]
fn list_mtime_is_file_mtime() {
    let runs = collect_local_runs(&[FileEntry { name: format!("lab_{UUID_A}.log.gz"), size: 2, mtime: Some(42) }]);
    assert_eq!(runs[0].mtime, Some(42));
    assert_eq!(format_mtime(runs[0].mtime), "1970-01-01T00:00:42Z");
    assert_eq!(format_mtime(None), "-");
}

#[test]
fn stream_keys_and_display() {
    assert_eq!(stream_sort_key(&None), 0);
    assert_eq!(stream_sort_key(&Some(String::new())), 0);
    assert_eq!(stream_sort_key(&Some("stdout".into())), 1);
    assert_eq!(stream_sort_key(&Some("stderr".into())), 2);
    assert_eq!(stream_sort_key(&Some("other".into())), 3);
    assert_eq!(stream_display(&None), "-");
    assert_eq!(stream_display(&Some(String::new())), "-");
    assert_eq!(stream_display(&Some("stderr".into())), "stderr");
}

#[test]
fn uuid_prefix_matching_ignores_case() {
    assert!(uuid_matches_id(UUID_A, "1111"));
    assert!(uuid_matches_id("abcdef", "ABC"));
    assert!(uuid_matches_id("abc", "abc"));
    assert!(!uuid_matches_id("abc", "abcd"));
    assert!(!uuid_matches_id("abc", "b"));
}

#[test]
fn sort_orders_by_uuid_stream_and_name() {
    let mk = |uuid: &str, stream: Option<&str>, name: &str| LocalRunFile {
        uuid: uuid.into(),
        label: "l".into(),
        stream: stream.map(|s| s.to_string()),
        filename: name.into(),
        size: 0,
        mtime: None,
    };
    let sorted = sort_runs(vec![
        mk(UUID_B, Some("stderr"), "b2"),
        mk(UUID_B, Some("stdout"), "b1"),
        mk(UUID_A, None, "z"),
        mk(UUID_A, None, "a"),
    ]);
    let names: Vec<_> = sorted.iter().map(|r| r.filename.as_str()).collect();
    assert_eq!(names, vec!["a", "z", "b1", "b2"]);
}

#[test]
fn dest_path_joins_relative_and_keeps_absolute() {
    assert_eq!(dest_path("/d", "x.gz"), "/d/x.gz");
    assert_eq!(dest_path("/d/", "x.gz"), "/d/x.gz");
    assert_eq!(dest_path("/d", "/abs/x.gz"), "/abs/x.gz");
}

#[test]
fn split_single_dest_error_message() {
    assert_eq!(
        config_msg(split_single_dest_error("u")),
        "run u has two streams; omit -o to write both or pass a prefix that matches one file"
    );
}
