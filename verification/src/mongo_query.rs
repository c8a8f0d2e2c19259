//! The MongoDB side of the query surface: the fields of a stored run
//! document that queries read, the id filter, choosing the documents of one
//! run, the `ls` table and the plan of writes that `fetch` performs.
use vstd::prelude::*;
use vstd::string::StringExecFns;
use crate::error::{config_message, BlessError};
use crate::logger::{opt_str, opt_string};
use crate::query::{
    lemma_singleton_elements_equal, spec_stream_sort_key, spec_uuid_like, spec_uuid_matches_id,
    split_single_dest_error, split_single_dest_message, stream_sort_key, is_uuid_like, uuid_matches_id,
    config_error, contains_chars, lemma_to_set_push, vec_chars_views,
};
use crate::query::{FetchDest};
use crate::text::{chars_eq, chars_of, decimal, push_char, push_decimal, push_signed_decimal, signed_decimal, path_join, spec_path_join};

verus! {

/// The fields of a stored run document that queries read (`None` where the
/// field is missing or of another type).
#[derive(Clone, Debug, PartialEq, Eq)]
pub struct MongoRunDoc {
    pub run_uuid: Option<String>,
    pub label: Option<String>,
    pub stream: Option<String>,
    pub storage: Option<String>,
    /// Whether the document has a `gzip_blob_id` field.
    pub has_gzip_blob_id: bool,
    /// Whether the document has a `gzip_blob` field.
    pub has_gzip_blob: bool,
    pub size_bytes_i64: Option<i64>,
    pub size_bytes_i32: Option<i32>,
    /// `start_time` as milliseconds after the Unix epoch.
    pub start_time_millis: Option<i64>,
}

/// A document seen through the characters of its strings.
pub struct MongoDocModel {
    pub run_uuid: Option<Seq<char>>,
    pub label: Option<Seq<char>>,
    pub stream: Option<Seq<char>>,
    pub storage: Option<Seq<char>>,
    pub has_gzip_blob_id: bool,
    pub has_gzip_blob: bool,
    pub size_bytes_i64: Option<i64>,
    pub size_bytes_i32: Option<i32>,
    pub start_time_millis: Option<i64>,
}

impl View for MongoRunDoc {
    type V = MongoDocModel;

    open spec fn view(&self) -> MongoDocModel {
        MongoDocModel {
            run_uuid: opt_string(self.run_uuid),
            label: opt_string(self.label),
            stream: opt_string(self.stream),
            storage: opt_string(self.storage),
            has_gzip_blob_id: self.has_gzip_blob_id,
            has_gzip_blob: self.has_gzip_blob,
            size_bytes_i64: self.size_bytes_i64,
            size_bytes_i32: self.size_bytes_i32,
            start_time_millis: self.start_time_millis,
        }
    }
}

/// The views of a sequence of documents.
pub open spec fn doc_views(s: Seq<MongoRunDoc>) -> Seq<MongoDocModel> {
    s.map_values(|d: MongoRunDoc| d@)
}

/// One row of the MongoDB `ls` table.
#[derive(Clone, Debug, PartialEq, Eq)]
pub struct MongoRunRow {
    pub run_uuid: String,
    pub label: String,
    pub stream: String,
    pub storage: String,
    pub size_bytes: i64,
    pub start_time: String,
}

/// A row seen through the characters of its strings.
pub struct MongoRowModel {
    pub run_uuid: Seq<char>,
    pub label: Seq<char>,
    pub stream: Seq<char>,
    pub storage: Seq<char>,
    pub size_bytes: i64,
    pub start_time: Seq<char>,
}

impl View for MongoRunRow {
    type V = MongoRowModel;

    open spec fn view(&self) -> MongoRowModel {
        MongoRowModel {
            run_uuid: self.run_uuid@,
            label: self.label@,
            stream: self.stream@,
            storage: self.storage@,
            size_bytes: self.size_bytes,
            start_time: self.start_time@,
        }
    }
}

/// `bson::DateTime::from_millis(millis).try_to_rfc3339_string()`, as text,
/// `None` when it fails.
pub uninterp spec fn bson_rfc3339_text(millis: i64) -> Option<Seq<char>>;

/// Calls `bson::DateTime::from_millis(millis).try_to_rfc3339_string()`
/// (through `mongodb`'s re-export of `bson`). Claimed: the result is
/// `bson_rfc3339_text(millis)`, a function of `millis` alone; its text is
/// left to the name.
#[verifier::external_body]
pub fn bson_rfc3339(millis: i64) -> (r: Option<String>)
    ensures
        opt_string(r) == bson_rfc3339_text(millis),
{
    mongodb::bson::DateTime::from_millis(millis).try_to_rfc3339_string().ok()
}

pub open spec fn or_text(o: Option<Seq<char>>, d: Seq<char>) -> Seq<char> {
    match o {
        Some(v) => v,
        None => d,
    }
}

/// The row a document is listed as: missing text fields shown as `-` (the
/// stream as empty), the storage taken from `storage` or guessed from which
/// blob field is present, the size from an `i64` or `i32` field (else 0).
pub open spec fn spec_mongo_row(d: MongoDocModel) -> MongoRowModel {
    MongoRowModel {
        run_uuid: or_text(d.run_uuid, "-"@),
        label: or_text(d.label, "-"@),
        stream: or_text(d.stream, Seq::empty()),
        storage: match d.storage {
            Some(s) => s,
            None => if d.has_gzip_blob_id {
                "gridfs"@
            } else if d.has_gzip_blob {
                "bson"@
            } else {
                "-"@
            },
        },
        size_bytes: match d.size_bytes_i64 {
            Some(v) => v,
            None => match d.size_bytes_i32 {
                Some(v) => v as i64,
                None => 0,
            },
        },
        start_time: match d.start_time_millis {
            Some(ms) => or_text(bson_rfc3339_text(ms), "-"@),
            None => "-"@,
        },
    }
}

fn text_or(o: &Option<String>, d: &str) -> (r: String)
    ensures
        r@ == or_text(opt_string(*o), d@),
{
    match o {
        Some(v) => v.clone(),
        None => d.to_owned(),
    }
}

/// The listing row of a stored run document.
pub fn mongo_row_from_doc(doc: &MongoRunDoc) -> (r: MongoRunRow)
    ensures
        r@ == spec_mongo_row(doc@),
{
    let storage = match &doc.storage {
        Some(s) => s.clone(),
        None => if doc.has_gzip_blob_id {
            "gridfs".to_owned()
        } else if doc.has_gzip_blob {
            "bson".to_owned()
        } else {
            "-".to_owned()
        },
    };
    let size_bytes: i64 = match doc.size_bytes_i64 {
        Some(v) => v,
        None => match doc.size_bytes_i32 {
            Some(v) => v as i64,
            None => 0,
        },
    };
    let start_time = match doc.start_time_millis {
        Some(ms) => text_or(&bson_rfc3339(ms), "-"),
        None => "-".to_owned(),
    };
    let stream = match &doc.stream {
        Some(v) => v.clone(),
        None => String::new(),
    };
    MongoRunRow {
        run_uuid: text_or(&doc.run_uuid, "-"),
        label: text_or(&doc.label, "-"),
        stream,
        storage,
        size_bytes,
        start_time,
    }
}

/// Characters that have a meaning in a regular expression.
pub open spec fn is_regex_meta(c: char) -> bool {
    c == '\\' || c == '.' || c == '+' || c == '*' || c == '?' || c == '(' || c == ')' || c == '['
        || c == ']' || c == '{' || c == '}' || c == '|' || c == '^' || c == '$'
}

/// `s` with a backslash before every regex metacharacter.
pub open spec fn spec_regex_escape(s: Seq<char>) -> Seq<char>
    decreases s.len(),
{
    if s.len() == 0 {
        Seq::empty()
    } else {
        spec_regex_escape(s.drop_last()) + if is_regex_meta(s.last()) {
            seq!['\\', s.last()]
        } else {
            seq![s.last()]
        }
    }
}

/// Escapes regex metacharacters so `s` matches literally.
pub fn regex_escape(s: &str) -> (r: String)
    ensures
        r@ == spec_regex_escape(s@),
{
    let c = chars_of(s);
    let mut out = String::new();
    let mut i: usize = 0;
    while i < c.len()
        invariant
            i <= c@.len(),
            c@ == s@,
            out@ == spec_regex_escape(c@.take(i as int)),
        decreases c@.len() - i,
    {
        let ch = c[i];
        if ch == '\\' || ch == '.' || ch == '+' || ch == '*' || ch == '?' || ch == '(' || ch == ')' || ch == '['
            || ch == ']' || ch == '{' || ch == '}' || ch == '|' || ch == '^' || ch == '$' {
            push_char(&mut out, '\\');
        }
        push_char(&mut out, ch);
        proof {
            assert(c@.take(i + 1).drop_last() =~= c@.take(i as int));
            assert(out@ =~= spec_regex_escape(c@.take(i + 1)));
        }
        i = i + 1;
    }
    proof {
        assert(c@.take(c@.len() as int) =~= c@);
    }
    out
}

/// How documents are selected by run id: a full uuid matches exactly, a
/// prefix through a case-insensitive anchored regular expression.
#[derive(Clone, Debug, PartialEq, Eq)]
pub enum RunUuidFilter {
    /// `{ "run_uuid": id }`
    Exact(String),
    /// `{ "run_uuid": { "$regex": pattern, "$options": "i" } }`
    CaseInsensitiveRegex(String),
}

/// The filter for an id.
pub open spec fn spec_run_uuid_filter(id: Seq<char>) -> (bool, Seq<char>) {
    if spec_uuid_like(id) {
        (true, id)
    } else {
        (false, seq!['^'] + spec_regex_escape(id))
    }
}

/// The MongoDB filter selecting documents whose `run_uuid` an id names.
pub fn run_uuid_filter(id: &str) -> (f: RunUuidFilter)
    ensures
        match f {
            RunUuidFilter::Exact(v) => spec_run_uuid_filter(id@) == (true, v@),
            RunUuidFilter::CaseInsensitiveRegex(p) => spec_run_uuid_filter(id@) == (false, p@),
        },
{
    if is_uuid_like(id) {
        RunUuidFilter::Exact(id.to_owned())
    } else {
        let mut p = String::new();
        push_char(&mut p, '^');
        let e = regex_escape(id);
        p.append(e.as_str());
        RunUuidFilter::CaseInsensitiveRegex(p)
    }
}

/// A document whose `run_uuid` the id selects.
pub open spec fn doc_selected(d: MongoDocModel, id: Seq<char>) -> bool {
    d.run_uuid matches Some(u) && spec_uuid_matches_id(u, id)
}

/// The selected uuids, one per selected document.
pub open spec fn selected_doc_uuids(docs: Seq<MongoDocModel>, id: Seq<char>) -> Seq<Seq<char>> {
    docs.filter(|d: MongoDocModel| doc_selected(d, id)).map_values(|d: MongoDocModel| d.run_uuid->Some_0)
}

/// The sort key of a document's stream (a missing stream counts as empty).
pub open spec fn doc_stream_key(d: MongoDocModel) -> u8 {
    spec_stream_sort_key(Some(or_text(d.stream, Seq::empty())))
}

/// Positions below `n` of the documents of run `u` whose stream key is `k`.
pub open spec fn positions_with_key(docs: Seq<MongoDocModel>, u: Seq<char>, k: u8, n: nat) -> Seq<int>
    decreases n,
{
    if n == 0 {
        Seq::empty()
    } else {
        let prev = positions_with_key(docs, u, k, (n - 1) as nat);
        let i = n - 1;
        if docs[i].run_uuid == Some(u) && doc_stream_key(docs[i]) == k {
            prev.push(i)
        } else {
            prev
        }
    }
}

/// Positions of the documents of run `u`, ordered by stream (combined,
/// stdout, stderr, other) and otherwise kept in their order.
pub open spec fn run_positions(docs: Seq<MongoDocModel>, u: Seq<char>) -> Seq<int> {
    positions_with_key(docs, u, 0, docs.len()) + positions_with_key(docs, u, 1, docs.len())
        + positions_with_key(docs, u, 2, docs.len()) + positions_with_key(docs, u, 3, docs.len())
}

/// Choosing the documents of the one run an id names, like resolving a
/// local id: the positions of that run's documents, or the message.
pub open spec fn spec_unique_docs(docs: Seq<MongoDocModel>, id: Seq<char>) -> Result<Seq<int>, Seq<char>> {
    if id.len() == 0 {
        Err("id must be a run uuid or unique prefix"@)
    } else {
        let us = selected_doc_uuids(docs, id).to_set();
        let n = us.len();
        if n == 0 {
            Err("no run matching '"@ + id + "'"@)
        } else if n == 1 {
            Ok(run_positions(docs, us.choose()))
        } else {
            Err("ambiguous id '"@ + id + "' matches "@ + decimal(n) + " runs"@)
        }
    }
}

/// Positions as integers.
pub open spec fn positions_view(v: Seq<usize>) -> Seq<int> {
    v.map_values(|x: usize| x as int)
}

fn doc_stream_key_exec(d: &MongoRunDoc) -> (k: u8)
    ensures
        k == doc_stream_key(d@),
{
    let s = match &d.stream {
        Some(v) => Some(v.clone()),
        None => Some(String::new()),
    };
    stream_sort_key(&s)
}

fn push_positions(docs: &[MongoRunDoc], u: &[char], k: u8, out: &mut Vec<usize>)
    ensures
        positions_view(final(out)@) == positions_view(old(out)@) + positions_with_key(doc_views(docs@), u@, k, docs@.len()),
{
    let ghost start = positions_view(out@);
    let mut i: usize = 0;
    while i < docs.len()
        invariant
            i <= docs@.len(),
            positions_view(out@) == start + positions_with_key(doc_views(docs@), u@, k, i as nat),
        decreases docs@.len() - i,
    {
        let d = &docs[i];
        let same = match &d.run_uuid {
            Some(v) => chars_eq(&chars_of(v.as_str()), u),
            None => false,
        };
        let ghost before = positions_view(out@);
        if same && doc_stream_key_exec(d) == k {
            out.push(i);
            proof {
                assert(positions_view(out@) =~= before.push(i as int));
            }
        }
        proof {
            assert(doc_views(docs@)[i as int] == d@);
        }
        i = i + 1;
    }
}

/// Selects the documents of the run that `id` names, as positions in
/// `docs`, ordered by stream.
pub fn unique_mongo_docs(docs: &[MongoRunDoc], id: &str) -> (r: Result<Vec<usize>, BlessError>)
    ensures
        match r {
            Ok(v) => spec_unique_docs(doc_views(docs@), id@) == Ok::<Seq<int>, Seq<char>>(positions_view(v@)),
            Err(e) => config_message(e) is Some && spec_unique_docs(doc_views(docs@), id@)
                == Err::<Seq<int>, Seq<char>>(config_message(e)->Some_0),
        },
{
    broadcast use vstd::seq_lib::seq_to_set_is_finite;

    if id.is_empty() {
        return Err(config_error("id must be a run uuid or unique prefix".to_owned()));
    }
    let ghost all = doc_views(docs@);
    let ghost pred = |d: MongoDocModel| doc_selected(d, id@);
    let mut distinct: Vec<Vec<char>> = Vec::new();
    let mut i: usize = 0;
    proof {
        reveal_with_fuel(Seq::<_>::filter, 1);
        assert(all.take(0).filter(pred) =~= Seq::<MongoDocModel>::empty());
        assert(vec_chars_views(distinct@).to_set() =~= selected_doc_uuids(all.take(0), id@).to_set());
    }
    while i < docs.len()
        invariant
            i <= docs@.len(),
            all == doc_views(docs@),
            pred == (|d: MongoDocModel| doc_selected(d, id@)),
            vec_chars_views(distinct@).no_duplicates(),
            vec_chars_views(distinct@).to_set() == selected_doc_uuids(all.take(i as int), id@).to_set(),
        decreases docs@.len() - i,
    {
        let d = &docs[i];
        let ghost prev = all.take(i as int).filter(pred);
        proof {
            reveal_with_fuel(Seq::<_>::filter, 1);
            assert(all.take(i + 1).drop_last() =~= all.take(i as int));
            assert(all.take(i + 1).last() == d@);
        }
        let sel = match &d.run_uuid {
            Some(v) => uuid_matches_id(v.as_str(), id),
            None => false,
        };
        if sel {
            let u = match &d.run_uuid {
                Some(v) => chars_of(v.as_str()),
                None => Vec::new(),
            };
            proof {
                reveal_with_fuel(Seq::<_>::filter, 1);
                assert(all.take(i + 1).filter(pred) == prev.push(d@));
                assert(selected_doc_uuids(all.take(i + 1), id@) =~= prev.map_values(|d: MongoDocModel| d.run_uuid->Some_0).push(u@));
                assert(selected_doc_uuids(all.take(i as int), id@) == prev.map_values(|d: MongoDocModel| d.run_uuid->Some_0));
                lemma_to_set_push(prev.map_values(|d: MongoDocModel| d.run_uuid->Some_0), u@);
            }
            if !contains_chars(&distinct, &u) {
                let ghost before_d = distinct@;
                distinct.push(u);
                proof {
                    assert(vec_chars_views(distinct@) =~= vec_chars_views(before_d).push(d@.run_uuid->Some_0));
                    lemma_to_set_push(vec_chars_views(before_d), d@.run_uuid->Some_0);
                    assert(vec_chars_views(distinct@).no_duplicates()) by {
                        let dv = vec_chars_views(distinct@);
                        assert forall|a: int, b: int| 0 <= a < dv.len() && 0 <= b < dv.len() && a != b implies dv[a] != dv[b] by {
                            if b == dv.len() - 1 {
                                assert(dv[a] == vec_chars_views(before_d)[a]);
                            } else if a == dv.len() - 1 {
                                assert(dv[b] == vec_chars_views(before_d)[b]);
                            }
                        }
                    }
                }
            } else {
                proof {
                    assert(vec_chars_views(distinct@).to_set().insert(u@) =~= vec_chars_views(distinct@).to_set());
                }
            }
        } else {
            proof {
                reveal_with_fuel(Seq::<_>::filter, 1);
                assert(all.take(i + 1).filter(pred) == prev);
            }
        }
        i = i + 1;
    }
    proof {
        assert(all.take(docs@.len() as int) =~= all);
        vec_chars_views(distinct@).unique_seq_to_set();
    }
    let n = distinct.len();
    if n == 0 {
        let mut m = "no run matching '".to_owned();
        m.append(id);
        m.append("'");
        Err(config_error(m))
    } else if n == 1 {
        let ghost us = selected_doc_uuids(all, id@).to_set();
        proof {
            let u0 = vec_chars_views(distinct@)[0];
            assert(us.contains(u0));
            assert(us.contains(us.choose()));
            lemma_singleton_elements_equal(us, us.choose(), u0);
        }
        let mut out: Vec<usize> = Vec::new();
        proof {
            assert(positions_view(out@) =~= Seq::<int>::empty());
        }
        push_positions(docs, &distinct[0], 0, &mut out);
        push_positions(docs, &distinct[0], 1, &mut out);
        push_positions(docs, &distinct[0], 2, &mut out);
        push_positions(docs, &distinct[0], 3, &mut out);
        Ok(out)
    } else {
        let mut m = "ambiguous id '".to_owned();
        m.append(id);
        m.append("' matches ");
        push_decimal(&mut m, n as u64);
        m.append(" runs");
        Err(config_error(m))
    }
}

/// One row of the MongoDB `ls` table (an empty stream shown as `-`).
pub open spec fn mongo_ls_row(r: MongoRowModel) -> Seq<char> {
    r.run_uuid + seq!['\t'] + r.label + seq!['\t'] + (if r.stream.len() == 0 {
        "-"@
    } else {
        r.stream
    }) + seq!['\t'] + r.storage + seq!['\t'] + signed_decimal(r.size_bytes as int) + seq!['\t'] + r.start_time
        + seq!['\n']
}

/// The rows of the MongoDB `ls` table.
pub open spec fn mongo_ls_rows(s: Seq<MongoRowModel>) -> Seq<char>
    decreases s.len(),
{
    if s.len() == 0 {
        Seq::empty()
    } else {
        mongo_ls_rows(s.drop_last()) + mongo_ls_row(s.last())
    }
}

/// The MongoDB `ls` table.
pub open spec fn spec_format_mongo_ls(s: Seq<MongoRowModel>) -> Seq<char> {
    "run_uuid\tlabel\tstream\tstorage\tsize_bytes\tstart_time\n"@ + mongo_ls_rows(s)
}

/// The views of a sequence of rows.
pub open spec fn row_views(s: Seq<MongoRunRow>) -> Seq<MongoRowModel> {
    s.map_values(|r: MongoRunRow| r@)
}

/// Formats the MongoDB `ls` table.
pub fn format_mongo_ls(rows: &[MongoRunRow]) -> (r: String)
    ensures
        r@ == spec_format_mongo_ls(row_views(rows@)),
{
    let mut out = "run_uuid\tlabel\tstream\tstorage\tsize_bytes\tstart_time\n".to_owned();
    let ghost all = row_views(rows@);
    let mut i: usize = 0;
    while i < rows.len()
        invariant
            i <= rows@.len(),
            all == row_views(rows@),
            out@ == "run_uuid\tlabel\tstream\tstorage\tsize_bytes\tstart_time\n"@ + mongo_ls_rows(all.take(i as int)),
        decreases rows@.len() - i,
    {
        let row = &rows[i];
        out.append(row.run_uuid.as_str());
        push_char(&mut out, '\t');
        out.append(row.label.as_str());
        push_char(&mut out, '\t');
        if row.stream.as_str().is_empty() {
            out.append("-");
        } else {
            out.append(row.stream.as_str());
        }
        push_char(&mut out, '\t');
        out.append(row.storage.as_str());
        push_char(&mut out, '\t');
        push_signed_decimal(&mut out, row.size_bytes);
        push_char(&mut out, '\t');
        out.append(row.start_time.as_str());
        push_char(&mut out, '\n');
        proof {
            assert(all.take(i + 1).drop_last() =~= all.take(i as int));
            assert(all.take(i + 1).last() == row@);
            assert(out@ =~= "run_uuid\tlabel\tstream\tstorage\tsize_bytes\tstart_time\n"@ + mongo_ls_rows(all.take(i + 1)));
        }
        i = i + 1;
    }
    proof {
        assert(all.take(rows@.len() as int) =~= all);
    }
    out
}

/// One blob that `fetch` writes: the document (by position) and where to.
#[derive(Clone, Debug, PartialEq, Eq)]
pub struct MongoWrite {
    pub doc: usize,
    pub dest: FetchDest,
}

/// What `fetch` does against MongoDB: the writes, in order, then the error
/// it stops with, if any.
#[derive(Debug)]
pub struct MongoFetchPlan {
    pub writes: Vec<MongoWrite>,
    pub error: Option<BlessError>,
}

/// A write seen as (position, destination path or `None` for stdout).
pub open spec fn write_view(w: MongoWrite) -> (int, Option<Seq<char>>) {
    (w.doc as int, match w.dest {
        FetchDest::Stdout => None,
        FetchDest::Path(p) => Some(p@),
    })
}

pub open spec fn write_views(s: Seq<MongoWrite>) -> Seq<(int, Option<Seq<char>>)> {
    s.map_values(|w: MongoWrite| write_view(w))
}

/// Writes for a split run fetched without `-o`, from position `from` on:
/// each blob to `{uuid}_{stream}.log.gz`, stopping (with the flag set) at
/// the first document with no stream name.
pub open spec fn split_writes(docs: Seq<MongoDocModel>, uuid: Seq<char>, from: int) -> (Seq<(int, Option<Seq<char>>)>, bool)
    decreases docs.len() - from,
{
    if from >= docs.len() || from < 0 {
        (Seq::empty(), false)
    } else {
        let st = or_text(docs[from].stream, Seq::empty());
        if st.len() == 0 {
            (Seq::empty(), true)
        } else {
            let rest = split_writes(docs, uuid, from + 1);
            (seq![(from, Some(uuid + seq!['_'] + st + ".log.gz"@))] + rest.0, rest.1)
        }
    }
}

/// The MongoDB fetch plan and, if it fails, the message it stops with.
/// Relative paths are resolved by the caller's working directory, except
/// that `-o PATH` is joined onto `cwd`.
pub open spec fn spec_fetch_mongo_plan(cwd: Seq<char>, docs: Seq<MongoDocModel>, output: Option<Seq<char>>) -> (Seq<(int, Option<Seq<char>>)>, Option<Seq<char>>) {
    if docs.len() == 0 {
        (Seq::empty(), Some("no run matching id"@))
    } else {
        match docs[0].run_uuid {
            None => (Seq::empty(), Some("document missing run_uuid"@)),
            Some(uuid) => match output {
                Some(o) => if docs.len() > 1 {
                    (Seq::empty(), Some(split_single_dest_message(uuid)))
                } else if o == "-"@ {
                    (seq![(0int, None)], None)
                } else {
                    (seq![(0int, Some(spec_path_join(cwd, o)))], None)
                },
                None => if docs.len() > 1 {
                    let (w, failed) = split_writes(docs, uuid, 0);
                    (w, if failed {
                        Some("split run "@ + uuid + " has a document without a stream name"@)
                    } else {
                        None
                    })
                } else {
                    (seq![(0int, Some(uuid + ".log.gz"@))], None)
                },
            },
        }
    }
}

/// Plans `fetch` for the documents of one run: to stdout with `-o -`, to a
/// path with `-o PATH`, else to `{uuid}.log.gz`, or to
/// `{uuid}_{stream}.log.gz` for each document of a split run.
pub fn plan_fetch_mongo(cwd: &str, docs: &[MongoRunDoc], output: Option<&str>) -> (p: MongoFetchPlan)
    ensures
        (write_views(p.writes@), crate::query::plan_error(p.error)) == spec_fetch_mongo_plan(cwd@, doc_views(docs@), opt_str(output)),
        p.error matches Some(e) ==> config_message(e) is Some,
        forall|i: int| 0 <= i < p.writes@.len() ==> (#[trigger] p.writes@[i]).doc < docs@.len(),
{
    let ghost all = doc_views(docs@);
    let mut writes: Vec<MongoWrite> = Vec::new();
    proof {
        assert(write_views(writes@) =~= Seq::<(int, Option<Seq<char>>)>::empty());
    }
    if docs.len() == 0 {
        return MongoFetchPlan { writes, error: Some(config_error("no run matching id".to_owned())) };
    }
    let uuid: &String = match &docs[0].run_uuid {
        None => {
            return MongoFetchPlan { writes, error: Some(config_error("document missing run_uuid".to_owned())) };
        },
        Some(u) => u,
    };
    match output {
        Some(o) => {
            if docs.len() > 1 {
                return MongoFetchPlan { writes, error: Some(split_single_dest_error(uuid.as_str())) };
            }
            let dest = if chars_eq(&chars_of(o), &chars_of("-")) {
                FetchDest::Stdout
            } else {
                FetchDest::Path(path_join(cwd, o))
            };
            writes.push(MongoWrite { doc: 0, dest });
            proof {
                assert(write_views(writes@) =~= spec_fetch_mongo_plan(cwd@, all, Some(o@)).0);
            }
            MongoFetchPlan { writes, error: None }
        },
        None => {
            if docs.len() > 1 {
                let mut i: usize = 0;
                while i < docs.len()
                    invariant
                        i <= docs@.len(),
                        all == doc_views(docs@),
                        all.len() > 1,
                        output is None,
                        all[0].run_uuid == Some(uuid@),
                        split_writes(all, uuid@, 0) == (
                            write_views(writes@) + split_writes(all, uuid@, i as int).0,
                            split_writes(all, uuid@, i as int).1,
                        ),
                        forall|j: int| 0 <= j < writes@.len() ==> (#[trigger] writes@[j]).doc < docs@.len(),
                    decreases docs@.len() - i,
                {
                    let d = &docs[i];
                    proof {
                        assert(all[i as int] == d@);
                    }
                    let st = match &d.stream {
                        Some(v) => v.clone(),
                        None => String::new(),
                    };
                    if st.as_str().is_empty() {
                        let mut m = "split run ".to_owned();
                        m.append(uuid.as_str());
                        m.append(" has a document without a stream name");
                        proof {
                            assert(split_writes(all, uuid@, i as int).0 =~= Seq::<(int, Option<Seq<char>>)>::empty());
                            assert(write_views(writes@) + Seq::<(int, Option<Seq<char>>)>::empty() =~= write_views(writes@));
                        }
                        return MongoFetchPlan { writes, error: Some(config_error(m)) };
                    }
                    let mut name = uuid.clone();
                    push_char(&mut name, '_');
                    name.append(st.as_str());
                    name.append(".log.gz");
                    let ghost before = write_views(writes@);
                    writes.push(MongoWrite { doc: i, dest: FetchDest::Path(name) });
                    proof {
                        assert(write_views(writes@) =~= before.push(write_view(writes@.last())));
                        let rest = split_writes(all, uuid@, i + 1);
                        assert(write_view(writes@.last()) == (i as int, Some(uuid@ + seq!['_'] + st@ + ".log.gz"@)));
                        assert(split_writes(all, uuid@, i as int).0 =~= seq![write_view(writes@.last())] + rest.0);
                        assert(before + (seq![write_view(writes@.last())] + rest.0) =~= write_views(writes@) + rest.0);
                    }
                    i = i + 1;
                }
                proof {
                    assert(write_views(writes@) + Seq::<(int, Option<Seq<char>>)>::empty() =~= write_views(writes@));
                }
                MongoFetchPlan { writes, error: None }
            } else {
                let mut name = uuid.clone();
                name.append(".log.gz");
                writes.push(MongoWrite { doc: 0, dest: FetchDest::Path(name) });
                proof {
                    assert(write_views(writes@) =~= spec_fetch_mongo_plan(cwd@, all, None).0);
                }
                MongoFetchPlan { writes, error: None }
            }
        },
    }
}

/// Where `-o PATH` puts a fetched log: an absolute path as given, a
/// relative one under the working directory (one `/` between them unless
/// the directory is empty or already ends with one).
pub open spec fn output_destination(cwd: Seq<char>, o: Seq<char>) -> Seq<char> {
    if o.len() > 0 && o[0] == '/' {
        o
    } else if cwd.len() == 0 || cwd[cwd.len() - 1] == '/' {
        cwd + o
    } else {
        cwd + seq!['/'] + o
    }
}

/// Fetching a one-document run from MongoDB writes that document once:
/// to stdout for `-o -`, to the `-o PATH` destination (an absolute path
/// unchanged, a relative one under `cwd`), else to `{uuid}.log.gz`; and it
/// fails with nothing written for no documents or a document without a
/// run uuid.
pub proof fn lemma_fetch_mongo_single_document(cwd: Seq<char>, docs: Seq<MongoDocModel>, output: Option<Seq<char>>)
    ensures
        docs.len() == 0 ==> spec_fetch_mongo_plan(cwd, docs, output).0.len() == 0
            && spec_fetch_mongo_plan(cwd, docs, output).1 is Some,
        docs.len() > 0 && docs[0].run_uuid is None ==> spec_fetch_mongo_plan(cwd, docs, output).0.len() == 0
            && spec_fetch_mongo_plan(cwd, docs, output).1 is Some,
        docs.len() == 1 && docs[0].run_uuid is Some ==> ({
            let u = docs[0].run_uuid->0;
            let plan = spec_fetch_mongo_plan(cwd, docs, output);
            &&& plan.1 is None
            &&& plan.0.len() == 1
            &&& plan.0[0].0 == 0
            &&& plan.0[0].1 == match output {
                None => Some(u + ".log.gz"@),
                Some(o) => if o == "-"@ {
                    None
                } else {
                    Some(output_destination(cwd, o))
                },
            }
        }),
{
    if docs.len() == 1 && docs[0].run_uuid is Some {
        match output {
            Some(o) => {
                if o != "-"@ {
                    let d = spec_path_join(cwd, o);
                    if !(o.len() > 0 && o[0] == '/') && !(cwd.len() == 0 || cwd[cwd.len() - 1] == '/') {
                        assert(cwd.last() == cwd[cwd.len() - 1]);
                    }
                    if !(o.len() > 0 && o[0] == '/') && (cwd.len() == 0 || cwd[cwd.len() - 1] == '/') {
                        assert(cwd.len() == 0 || cwd.last() == cwd[cwd.len() - 1]);
                    }
                }
            },
            None => {},
        }
    }
}

/// The MongoDB `ls` table of no rows is its header alone, and one more row
/// appends exactly one line: uuid, label, stream (`-` when empty), storage,
/// size and start time, separated by tabs.
pub proof fn lemma_mongo_ls_table_has_a_line_per_row(s: Seq<MongoRowModel>, r: MongoRowModel)
    ensures
        spec_format_mongo_ls(Seq::empty()) == "run_uuid\tlabel\tstream\tstorage\tsize_bytes\tstart_time\n"@,
        spec_format_mongo_ls(s.push(r)) == spec_format_mongo_ls(s) + r.run_uuid + seq!['\t'] + r.label + seq!['\t']
            + (if r.stream.len() == 0 { "-"@ } else { r.stream }) + seq!['\t'] + r.storage + seq!['\t']
            + signed_decimal(r.size_bytes as int) + seq!['\t'] + r.start_time + seq!['\n'],
{
    assert(s.push(r).drop_last() =~= s);
    assert(spec_format_mongo_ls(Seq::empty()) =~= "run_uuid\tlabel\tstream\tstorage\tsize_bytes\tstart_time\n"@);
    assert(spec_format_mongo_ls(s.push(r)) =~= spec_format_mongo_ls(s) + r.run_uuid + seq!['\t'] + r.label
        + seq!['\t'] + (if r.stream.len() == 0 { "-"@ } else { r.stream }) + seq!['\t'] + r.storage + seq!['\t']
        + signed_decimal(r.size_bytes as int) + seq!['\t'] + r.start_time + seq!['\n']);
}

proof fn lemma_positions_with_key(docs: Seq<MongoDocModel>, u: Seq<char>, key: u8, n: nat)
    requires
        n <= docs.len(),
    ensures
        ({
            let ps = positions_with_key(docs, u, key, n);
            &&& forall|k: int| 0 <= k < ps.len() ==> 0 <= #[trigger] ps[k] < n && docs[ps[k]].run_uuid == Some(u)
                && doc_stream_key(docs[ps[k]]) == key
            &&& forall|k: int, l: int| 0 <= k < l < ps.len() ==> #[trigger] ps[k] < #[trigger] ps[l]
            &&& forall|i: int| 0 <= i < n && docs[i].run_uuid == Some(u) && doc_stream_key(docs[i]) == key
                ==> #[trigger] ps.contains(i)
        }),
    decreases n,
{
    if n > 0 {
        lemma_positions_with_key(docs, u, key, (n - 1) as nat);
        let prev = positions_with_key(docs, u, key, (n - 1) as nat);
        let ps = positions_with_key(docs, u, key, n);
        let i = n - 1;
        if docs[i].run_uuid == Some(u) && doc_stream_key(docs[i]) == key {
            assert(ps == prev.push(i));
            assert(ps[prev.len() as int] == i);
            assert forall|j: int| 0 <= j < n && docs[j].run_uuid == Some(u) && doc_stream_key(docs[j]) == key
                implies #[trigger] ps.contains(j) by {
                if j < n - 1 {
                    assert(prev.contains(j));
                    let w = choose|w: int| 0 <= w < prev.len() && prev[w] == j;
                    assert(ps[w] == j);
                } else {
                    assert(ps[prev.len() as int] == j);
                }
            }
        } else {
            assert(ps == prev);
        }
    }
}

proof fn lemma_singleton_set_elements<A>(s: Set<A>, a: A, b: A)
    requires
        s.finite(),
        s.len() == 1,
        s.contains(a),
        s.contains(b),
    ensures
        a == b,
{
    if a != b {
        assert(s.remove(a).len() == 0);
        assert(s.remove(a).contains(b));
    }
}

/// Choosing a run's documents in MongoDB by id or prefix: when the id names
/// exactly one run, every document of that run is chosen and no other,
/// each once and whatever its stream (a combined log's empty stream
/// included), ordered combined, stdout, stderr, then other streams.
pub proof fn lemma_unique_docs_choose_the_whole_run(docs: Seq<MongoDocModel>, id: Seq<char>)
    ensures
        spec_unique_docs(docs, id) matches Ok(ps) ==> {
            &&& forall|k: int| 0 <= k < ps.len() ==> 0 <= #[trigger] ps[k] < docs.len()
            &&& forall|i: int| 0 <= i < docs.len() ==> (#[trigger] ps.contains(i) <==> (docs[i].run_uuid matches Some(x)
                && spec_uuid_matches_id(x, id)))
            &&& forall|k: int, l: int| 0 <= k < l < ps.len() ==> #[trigger] ps[k] != #[trigger] ps[l]
            &&& forall|k: int, l: int| 0 <= k < l < ps.len() ==> docs[#[trigger] ps[k]].run_uuid == docs[#[trigger] ps[l]].run_uuid
            &&& forall|k: int, l: int| 0 <= k < l < ps.len() ==> doc_stream_key(docs[#[trigger] ps[k]]) <= doc_stream_key(
                docs[#[trigger] ps[l]],
            )
        },
{
    broadcast use vstd::seq_lib::seq_to_set_is_finite;

    if id.len() > 0 {
        let pred = |d: MongoDocModel| doc_selected(d, id);
        let sel = docs.filter(pred);
        let uuids = selected_doc_uuids(docs, id);
        let us = uuids.to_set();
        if us.len() == 1 {
            let u = us.choose();
            assert(us.contains(u));
            let n = docs.len();
            let p0 = positions_with_key(docs, u, 0, n);
            let p1 = positions_with_key(docs, u, 1, n);
            let p2 = positions_with_key(docs, u, 2, n);
            let p3 = positions_with_key(docs, u, 3, n);
            lemma_positions_with_key(docs, u, 0, n);
            lemma_positions_with_key(docs, u, 1, n);
            lemma_positions_with_key(docs, u, 2, n);
            lemma_positions_with_key(docs, u, 3, n);
            let ps = run_positions(docs, u);
            assert(ps == p0 + p1 + p2 + p3);
            let l0 = p0.len() as int;
            let l1 = l0 + p1.len();
            let l2 = l1 + p2.len();
            let seg = |k: int| if k < l0 { 0int } else if k < l1 { 1int } else if k < l2 { 2int } else { 3int };
            assert forall|k: int| 0 <= k < ps.len() implies 0 <= #[trigger] ps[k] < docs.len() && docs[ps[k]].run_uuid
                == Some(u) && doc_stream_key(docs[ps[k]]) == seg(k) by {
                if k < l0 {
                    assert(ps[k] == p0[k]);
                } else if k < l1 {
                    assert(ps[k] == p1[k - l0]);
                } else if k < l2 {
                    assert(ps[k] == p2[k - l1]);
                } else {
                    assert(ps[k] == p3[k - l2]);
                }
            }
            // u is a selected uuid: some selected document carries it
            let w = choose|w: int| 0 <= w < uuids.len() && uuids[w] == u;
            assert(uuids[w] == sel[w].run_uuid->Some_0);
            docs.lemma_filter_pred(pred, w);
            assert(spec_uuid_matches_id(u, id));
            assert forall|i: int| 0 <= i < docs.len() implies (#[trigger] ps.contains(i) <==> (docs[i].run_uuid matches Some(
                x,
            ) && spec_uuid_matches_id(x, id))) by {
                if ps.contains(i) {
                    let k = choose|k: int| 0 <= k < ps.len() && ps[k] == i;
                    assert(docs[ps[k]].run_uuid == Some(u));
                }
                if docs[i].run_uuid matches Some(x) && spec_uuid_matches_id(x, id) {
                    let x = docs[i].run_uuid->Some_0;
                    assert(pred(docs[i]));
                    docs.lemma_filter_contains(pred, i);
                    let j = choose|j: int| 0 <= j < sel.len() && sel[j] == docs[i];
                    assert(uuids[j] == x);
                    assert(uuids.contains(x));
                    assert(us.contains(x));
                    lemma_singleton_set_elements(us, u, x);
                    let key = doc_stream_key(docs[i]);
                    assert(key <= 3);
                    if key == 0 {
                        assert(p0.contains(i));
                        let k = choose|k: int| 0 <= k < p0.len() && p0[k] == i;
                        assert(ps[k] == i);
                    } else if key == 1 {
                        assert(p1.contains(i));
                        let k = choose|k: int| 0 <= k < p1.len() && p1[k] == i;
                        assert(ps[l0 + k] == i);
                    } else if key == 2 {
                        assert(p2.contains(i));
                        let k = choose|k: int| 0 <= k < p2.len() && p2[k] == i;
                        assert(ps[l1 + k] == i);
                    } else {
                        assert(p3.contains(i));
                        let k = choose|k: int| 0 <= k < p3.len() && p3[k] == i;
                        assert(ps[l2 + k] == i);
                    }
                }
            }
            assert forall|k: int, l: int| 0 <= k < l < ps.len() implies #[trigger] ps[k] != #[trigger] ps[l] by {
                if seg(k) == seg(l) {
                    if k < l0 {
                        assert(p0[k] < p0[l]);
                    } else if k < l1 {
                        assert(p1[k - l0] < p1[l - l0]);
                    } else if k < l2 {
                        assert(p2[k - l1] < p2[l - l1]);
                    } else {
                        assert(p3[k - l2] < p3[l - l2]);
                    }
                }
            }
            assert forall|k: int, l: int| 0 <= k < l < ps.len() implies doc_stream_key(docs[#[trigger] ps[k]])
                <= doc_stream_key(docs[#[trigger] ps[l]]) by {
                assert(seg(k) <= seg(l));
            }
        }
    }
}

} // verus!
