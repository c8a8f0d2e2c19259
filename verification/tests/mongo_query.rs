use bless::error::BlessError;
use bless::mongo_query::{
    format_mongo_ls, mongo_row_from_doc, plan_fetch_mongo, regex_escape, run_uuid_filter, unique_mongo_docs,
    MongoRunDoc, MongoWrite, RunUuidFilter,
};
use bless::query::FetchDest;

const UUID_A: &str = "11111111-1111-1111-1111-111111111111";
const UUID_C: &str = "11112222-2222-2222-2222-222222222222";

fn doc(uuid: Option<&str>, stream: Option<&str>) -> MongoRunDoc {
    MongoRunDoc {
        run_uuid: uuid.map(|s| s.to_string()),
        label: None,
        stream: stream.map(|s| s.to_string()),
        storage: None,
        has_gzip_blob_id: false,
        has_gzip_blob: false,
        size_bytes_i64: None,
        size_bytes_i32: None,
        start_time_millis: None,
    }
}

fn config_msg(e: BlessError) -> String {
    match e {
        BlessError::Config(m) => m,
        other => panic!("expected Config, got {other:?}"),
    }
}

#[test]
fn mongo_row_from_document_fields() {
    let d = MongoRunDoc {
        run_uuid: Some(UUID_A.into()),
        label: Some("nightly".into()),
        stream: Some(String::new()),
        storage: Some("bson".into()),
        has_gzip_blob_id: false,
        has_gzip_blob: false,
        size_bytes_i64: Some(12),
        size_bytes_i32: None,
        start_time_millis: Some(0),
    };
    let row = mongo_row_from_doc(&d);
    assert_eq!(row.run_uuid, UUID_A);
    assert_eq!(row.label, "nightly");
    assert_eq!(row.stream, "");
    assert_eq!(row.storage, "bson");
    assert_eq!(row.size_bytes, 12);
    assert!(row.start_time.starts_with("1970-01-01"));
    let text = format_mongo_ls(&[row]);
    assert!(text.starts_with("run_uuid\tlabel\tstream\tstorage\tsize_bytes\tstart_time\n"));
    assert!(text.contains(UUID_A));
    assert!(text.contains("\t-\t"));
}

#[test]
fn mongo_row_fills_in_missing_fields() {
    let row = mongo_row_from_doc(&doc(None, None));
    assert_eq!(row.run_uuid, "-");
    assert_eq!(row.label, "-");
    assert_eq!(row.stream, "");
    assert_eq!(row.storage, "-");
    assert_eq!(row.size_bytes, 0);
    assert_eq!(row.start_time, "-");
    let row = mongo_row_from_doc(&MongoRunDoc { has_gzip_blob_id: true, size_bytes_i32: Some(-3), ..doc(None, None) });
    assert_eq!(row.storage, "gridfs");
    assert_eq!(row.size_bytes, -3);
    let row = mongo_row_from_doc(&MongoRunDoc { has_gzip_blob: true, ..doc(None, None) });
    assert_eq!(row.storage, "bson");
    let text = format_mongo_ls(&[row]);
    assert_eq!(text, "run_uuid\tlabel\tstream\tstorage\tsize_bytes\tstart_time\n-\t-\t-\tbson\t0\t-\n");
}

#[test]
fn mongo_prefix_filter_and_unique_docs() {
    let a = doc(Some(UUID_A), Some("stdout"));
    let a2 = doc(Some(UUID_A), Some("stderr"));
    let c = doc(Some(UUID_C), Some(""));
    let docs = vec![a2.clone(), a.clone()];
    let picked = unique_mongo_docs(&docs, "11111111").unwrap();
    assert_eq!(picked.len(), 2);
    assert_eq!(docs[picked[0]].stream.as_deref(), Some("stdout"));
    assert_eq!(docs[picked[1]].stream.as_deref(), Some("stderr"));
    let msg = config_msg(unique_mongo_docs(&[a, c], "1111").unwrap_err());
    assert!(msg.contains("ambiguous"), "{msg}");
    match run_uuid_filter("1111") {
        RunUuidFilter::CaseInsensitiveRegex(p) => assert_eq!(p, "^1111"),
        other => panic!("{other:?}"),
    }
}

#[test]
fn unique_docs_errors() {
    let a = doc(Some(UUID_A), None);
    assert_eq!(config_msg(unique_mongo_docs(&[a.clone()], "").unwrap_err()), "id must be a run uuid or unique prefix");
    assert_eq!(config_msg(unique_mongo_docs(&[a], "zz").unwrap_err()), "no run matching 'zz'");
}

#[test]
fn full_uuid_filters_exactly() {
    assert_eq!(run_uuid_filter(UUID_A), RunUuidFilter::Exact(UUID_A.into()));
    assert_eq!(run_uuid_filter("a.b"), RunUuidFilter::CaseInsensitiveRegex("^a\\.b".into()));
}

#[test]
fn regex_escape_dots() {
    assert_eq!(regex_escape("a.b"), "a\\.b");
    assert_eq!(regex_escape(UUID_A), UUID_A);
}

#[test]
fn regex_escape_all_metacharacters() {
    assert_eq!(regex_escape("\\.+*?()[]{}|^$x"), "\\\\\\.\\+\\*\\?\\(\\)\\[\\]\\{\\}\\|\\^\\$x");
}

#[test]
fn mongo_fetch_plans() {
    let one = [doc(Some(UUID_A), Some(""))];
    let p = plan_fetch_mongo("/cwd", &one, None);
    assert!(p.error.is_none());
    assert_eq!(p.writes, vec![MongoWrite { doc: 0, dest: FetchDest::Path(format!("{UUID_A}.log.gz")) }]);
    let p = plan_fetch_mongo("/cwd", &one, Some("-"));
    assert_eq!(p.writes, vec![MongoWrite { doc: 0, dest: FetchDest::Stdout }]);
    let p = plan_fetch_mongo("/cwd", &one, Some("x.gz"));
    assert_eq!(p.writes, vec![MongoWrite { doc: 0, dest: FetchDest::Path("/cwd/x.gz".into()) }]);

    let split = [doc(Some(UUID_A), Some("stdout")), doc(Some(UUID_A), Some("stderr"))];
    let p = plan_fetch_mongo("/cwd", &split, None);
    assert!(p.error.is_none());
    assert_eq!(
        p.writes,
        vec![
            MongoWrite { doc: 0, dest: FetchDest::Path(format!("{UUID_A}_stdout.log.gz")) },
            MongoWrite { doc: 1, dest: FetchDest::Path(format!("{UUID_A}_stderr.log.gz")) },
        ]
    );
    let p = plan_fetch_mongo("/cwd", &split, Some("-"));
    assert!(p.writes.is_empty());
    assert!(config_msg(p.error.unwrap()).contains("two streams"));

    let p = plan_fetch_mongo("/cwd", &[], None);
    assert_eq!(config_msg(p.error.unwrap()), "no run matching id");
    let p = plan_fetch_mongo("/cwd", &[doc(None, None)], None);
    assert_eq!(config_msg(p.error.unwrap()), "document missing run_uuid");
    let bad = [doc(Some(UUID_A), Some("stdout")), doc(Some(UUID_A), Some(""))];
    let p = plan_fetch_mongo("/cwd", &bad, None);
    assert_eq!(p.writes.len(), 1);
    assert_eq!(config_msg(p.error.unwrap()), format!("split run {UUID_A} has a document without a stream name"));
}
