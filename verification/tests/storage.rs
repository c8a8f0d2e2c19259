use bless::storage_backends::{
    gridfs_filename, run_document, select_blob_storage, storage_field, BlobStorageKind, SaveGzipBlobParams,
    BSON_BLOB_SOFT_LIMIT,
};

fn params<'a>(file_path: &'a str, stream: Option<&'a str>) -> SaveGzipBlobParams<'a> {
    SaveGzipBlobParams {
        cmd: "make",
        args: "-j8 all",
        label: "build",
        duration: "2s",
        uuid: "u-1",
        file_path,
        stream,
        start_time_millis: 1000,
        end_time_millis: 3000,
    }
}

#[test]
fn small_blob_uses_bson() {
    assert_eq!(select_blob_storage(1024, false), BlobStorageKind::BsonBinary);
}

#[test]
fn large_blob_auto_gridfs() {
    assert_eq!(select_blob_storage(BSON_BLOB_SOFT_LIMIT + 1, false), BlobStorageKind::GridFs);
}

#[test]
fn force_gridfs_overrides_size() {
    assert_eq!(select_blob_storage(1, true), BlobStorageKind::GridFs);
}

#[test]
fn boundary_at_soft_limit_stays_bson() {
    assert_eq!(select_blob_storage(BSON_BLOB_SOFT_LIMIT, false), BlobStorageKind::BsonBinary);
}

#[test]
fn soft_limit_is_fifteen_mebibytes() {
    assert_eq!(BSON_BLOB_SOFT_LIMIT, 15 * 1024 * 1024);
}

#[test]
fn run_document_embeds_small_logs() {
    let d = run_document(&params("/tmp/build_u-1.log.gz", None), 10, false);
    assert_eq!(d.cmd, "make");
    assert_eq!(d.args, "-j8 all");
    assert_eq!(d.label, "build");
    assert_eq!(d.run_uuid, "u-1");
    assert_eq!(d.duration, "2s");
    assert_eq!(d.start_time_millis, 1000);
    assert_eq!(d.end_time_millis, 3000);
    assert_eq!(d.size_bytes, 10);
    assert_eq!(d.stream, "");
    assert_eq!(d.storage, BlobStorageKind::BsonBinary);
    assert_eq!(storage_field(d.storage), "bson");
    assert_eq!(d.gridfs_filename, None);
}

#[test]
fn run_document_uploads_large_or_forced_logs_to_gridfs() {
    let d = run_document(&params("/tmp/dir/run_stdout.log.gz", Some("stdout")), BSON_BLOB_SOFT_LIMIT + 1, false);
    assert_eq!(d.storage, BlobStorageKind::GridFs);
    assert_eq!(storage_field(d.storage), "gridfs");
    assert_eq!(d.stream, "stdout");
    assert_eq!(d.gridfs_filename.as_deref(), Some("run_stdout.log.gz"));
    let d = run_document(&params("x.log.gz", Some("")), 1, true);
    assert_eq!(d.storage, BlobStorageKind::GridFs);
    assert_eq!(d.stream, "");
    assert_eq!(d.gridfs_filename.as_deref(), Some("x.log.gz"));
}

#[test]
fn gridfs_filename_falls_back_without_a_file_name() {
    assert_eq!(gridfs_filename("/a/b/c.log.gz"), "c.log.gz");
    assert_eq!(gridfs_filename("/"), "bless.log.gz");
    assert_eq!(gridfs_filename("a/.."), "bless.log.gz");
}
