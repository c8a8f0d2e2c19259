//! How a finished gzip log is stored in MongoDB: the choice between an
//! embedded blob and GridFS, and the metadata document of a run.
use vstd::prelude::*;
use vstd::string::StringExecFns;

verus! {

/// Soft ceiling for embedding a gzip blob in a BSON document: MongoDB
/// documents cap at 16 MiB; stay under that with headroom for the metadata
/// fields on the same document.
pub const BSON_BLOB_SOFT_LIMIT: u64 = 15728640;

/// How a finished gzip log is persisted in MongoDB.
#[derive(Clone, Copy, Debug, PartialEq, Eq, Structural)]
pub enum BlobStorageKind {
    /// Bytes stored as a `Binary` field on the run metadata document.
    BsonBinary,
    /// Uploaded to GridFS; the metadata document stores only the file id.
    GridFs,
}

/// GridFS when forced or when the file exceeds the soft limit, otherwise
/// an embedded BSON binary.
pub open spec fn spec_blob_storage(file_size: u64, force_gridfs: bool) -> BlobStorageKind {
    if force_gridfs || file_size > BSON_BLOB_SOFT_LIMIT {
        BlobStorageKind::GridFs
    } else {
        BlobStorageKind::BsonBinary
    }
}

/// Chooses the storage for a gzip blob of `file_size` bytes.
pub fn select_blob_storage(file_size: u64, force_gridfs: bool) -> (k: BlobStorageKind)
    ensures
        k == spec_blob_storage(file_size, force_gridfs),
{
    if force_gridfs || file_size > BSON_BLOB_SOFT_LIMIT {
        BlobStorageKind::GridFs
    } else {
        BlobStorageKind::BsonBinary
    }
}

/// The soft limit is fifteen mebibytes, under MongoDB's 16 MiB document cap.
pub proof fn lemma_soft_limit_below_document_cap()
    ensures
        BSON_BLOB_SOFT_LIMIT == 15 * 1024 * 1024,
        BSON_BLOB_SOFT_LIMIT < 16 * 1024 * 1024,
{
}

/// Storage is monotone in size: once a size goes to GridFS, every larger
/// size does too; forcing GridFS always wins; a blob at the limit stays
/// embedded.
pub proof fn lemma_blob_storage_monotone(small: u64, large: u64, force_gridfs: bool)
    requires
        small <= large,
    ensures
        spec_blob_storage(small, force_gridfs) == BlobStorageKind::GridFs
            ==> spec_blob_storage(large, force_gridfs) == BlobStorageKind::GridFs,
        spec_blob_storage(small, true) == BlobStorageKind::GridFs,
        spec_blob_storage(BSON_BLOB_SOFT_LIMIT, false) == BlobStorageKind::BsonBinary,
{
}

/// `mongodb::Collection<T>`, held by the storage handle.
#[verifier::external_type_specification]
#[verifier::external_body]
#[verifier::reject_recursive_types(T)]
pub struct ExCollection<T>(mongodb::Collection<T>);

/// `mongodb::Database`, held by the storage handle.
#[verifier::external_type_specification]
#[verifier::external_body]
pub struct ExDatabase(mongodb::Database);

/// `mongodb::bson::Document`, the element type of the run collection.
#[verifier::external_type_specification]
#[verifier::external_body]
pub struct ExDocument(mongodb::bson::Document);

/// What is known of one finished gzip log when it is persisted. Times are
/// milliseconds since the Unix epoch (what a BSON date holds). Combined
/// logs have no stream, or the empty one; split runs persist one document
/// per stream, `"stdout"` and `"stderr"`, sharing `uuid`.
#[derive(Clone, Debug)]
pub struct SaveGzipBlobParams<'a> {
    pub cmd: &'a str,
    pub args: &'a str,
    pub label: &'a str,
    pub duration: &'a str,
    pub uuid: &'a str,
    pub file_path: &'a str,
    pub stream: Option<&'a str>,
    pub start_time_millis: i64,
    pub end_time_millis: i64,
}

/// The run collection and its database (for the GridFS bucket).
pub struct MongoDBStorage {
    collection: mongodb::Collection<mongodb::bson::Document>,
    db: mongodb::Database,
}

impl MongoDBStorage {
    /// A storage handle over an opened collection of `db`.
    pub fn from_parts(collection: mongodb::Collection<mongodb::bson::Document>, db: mongodb::Database) -> (r: MongoDBStorage)
        ensures
            r.collection() == collection,
            r.database() == db,
    {
        MongoDBStorage { collection, db }
    }

    /// The collection of a storage handle.
    pub closed spec fn collection(&self) -> mongodb::Collection<mongodb::bson::Document> {
        self.collection
    }

    /// The database of a storage handle.
    pub closed spec fn database(&self) -> mongodb::Database {
        self.db
    }

    /// The run collection.
    pub fn run_collection(&self) -> (r: &mongodb::Collection<mongodb::bson::Document>)
        ensures
            *r == self.collection(),
    {
        &self.collection
    }

    /// The database, whose GridFS bucket takes large blobs.
    pub fn run_database(&self) -> (r: &mongodb::Database)
        ensures
            *r == self.database(),
    {
        &self.db
    }
}

/// The final component of a path, as `std::path::Path::file_name` gives it
/// (taken as text).
pub uninterp spec fn path_file_name_text(path: Seq<char>) -> Option<Seq<char>>;

/// Calls `Path::new(path).file_name()` and keeps the name when it is UTF-8
/// (it always is for a path given as text). The contract only names the
/// result: the component rules of `std::path` are not restated here.
#[verifier::external_body]
fn path_file_name(path: &str) -> (r: Option<String>)
    ensures
        match r {
            Some(n) => path_file_name_text(path@) == Some(n@),
            None => path_file_name_text(path@) is None,
        },
{
    std::path::Path::new(path).file_name().and_then(|s| s.to_str()).map(|s| s.to_string())
}

/// The GridFS file name of an upload: the log's file name, else
/// `bless.log.gz`.
pub open spec fn spec_gridfs_filename(file_path: Seq<char>) -> Seq<char> {
    match path_file_name_text(file_path) {
        Some(n) => n,
        None => "bless.log.gz"@,
    }
}

/// The name under which a log is uploaded to GridFS.
pub fn gridfs_filename(file_path: &str) -> (r: String)
    ensures
        r@ == spec_gridfs_filename(file_path@),
{
    match path_file_name(file_path) {
        Some(n) => n,
        None => "bless.log.gz".to_owned(),
    }
}

/// The `storage` field of a run document.
pub open spec fn storage_name(k: BlobStorageKind) -> Seq<char> {
    match k {
        BlobStorageKind::GridFs => "gridfs"@,
        BlobStorageKind::BsonBinary => "bson"@,
    }
}

/// The `storage` field value for a storage kind.
pub fn storage_field(k: BlobStorageKind) -> (r: &'static str)
    ensures
        r@ == storage_name(k),
{
    match k {
        BlobStorageKind::GridFs => "gridfs",
        BlobStorageKind::BsonBinary => "bson",
    }
}

/// The metadata document of one persisted log, without the blob itself
/// (the GridFS id or the embedded bytes are added by whoever uploads).
#[derive(Clone, Debug)]
pub struct RunDocument {
    pub cmd: String,
    pub args: String,
    pub label: String,
    pub run_uuid: String,
    pub duration: String,
    pub start_time_millis: i64,
    pub end_time_millis: i64,
    pub size_bytes: i64,
    pub stream: String,
    pub storage: BlobStorageKind,
    pub gridfs_filename: Option<String>,
}

/// A run document seen through the characters of its strings.
pub struct RunDocumentModel {
    pub cmd: Seq<char>,
    pub args: Seq<char>,
    pub label: Seq<char>,
    pub run_uuid: Seq<char>,
    pub duration: Seq<char>,
    pub start_time_millis: i64,
    pub end_time_millis: i64,
    pub size_bytes: i64,
    pub stream: Seq<char>,
    pub storage: BlobStorageKind,
    pub gridfs_filename: Option<Seq<char>>,
}

impl View for RunDocument {
    type V = RunDocumentModel;

    open spec fn view(&self) -> RunDocumentModel {
        RunDocumentModel {
            cmd: self.cmd@,
            args: self.args@,
            label: self.label@,
            run_uuid: self.run_uuid@,
            duration: self.duration@,
            start_time_millis: self.start_time_millis,
            end_time_millis: self.end_time_millis,
            size_bytes: self.size_bytes,
            stream: self.stream@,
            storage: self.storage,
            gridfs_filename: match self.gridfs_filename {
                Some(n) => Some(n@),
                None => None,
            },
        }
    }
}

/// The stream recorded on a document: the given one, or empty for a
/// combined log.
pub open spec fn spec_stream_field(stream: Option<&str>) -> Seq<char> {
    match stream {
        Some(s) => s@,
        None => Seq::empty(),
    }
}

/// The document persisted for a gzip log of `file_size` bytes.
pub open spec fn spec_run_document(p: SaveGzipBlobParams, file_size: u64, force_gridfs: bool) -> RunDocumentModel {
    let kind = spec_blob_storage(file_size, force_gridfs);
    RunDocumentModel {
        cmd: p.cmd@,
        args: p.args@,
        label: p.label@,
        run_uuid: p.uuid@,
        duration: p.duration@,
        start_time_millis: p.start_time_millis,
        end_time_millis: p.end_time_millis,
        size_bytes: file_size as i64,
        stream: spec_stream_field(p.stream),
        storage: kind,
        gridfs_filename: match kind {
            BlobStorageKind::GridFs => Some(spec_gridfs_filename(p.file_path@)),
            BlobStorageKind::BsonBinary => None,
        },
    }
}

/// Builds the metadata document of a finished log: the run's fields, its
/// size, its stream (empty when combined), and where the blob goes.
pub fn run_document(params: &SaveGzipBlobParams, file_size: u64, force_gridfs: bool) -> (r: RunDocument)
    ensures
        r@ == spec_run_document(*params, file_size, force_gridfs),
{
    let kind = select_blob_storage(file_size, force_gridfs);
    let stream = match params.stream {
        Some(s) => s.to_owned(),
        None => String::new(),
    };
    let gridfs_filename = match kind {
        BlobStorageKind::GridFs => Some(gridfs_filename(params.file_path)),
        BlobStorageKind::BsonBinary => None,
    };
    RunDocument {
        cmd: params.cmd.to_owned(),
        args: params.args.to_owned(),
        label: params.label.to_owned(),
        run_uuid: params.uuid.to_owned(),
        duration: params.duration.to_owned(),
        start_time_millis: params.start_time_millis,
        end_time_millis: params.end_time_millis,
        size_bytes: file_size as i64,
        stream,
        storage: kind,
        gridfs_filename,
    }
}

} // verus!
