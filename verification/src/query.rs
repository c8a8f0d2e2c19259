//! The local query surface: recognising run files by name, ordering them,
//! resolving a run id or prefix, the `ls`/`show` tables and the plan of
//! copies that `fetch` performs.
use vstd::prelude::*;
use vstd::string::StringExecFns;
use crate::error::{config_message, BlessError};
use crate::logger::{format_rfc3339_seconds, rfc3339_seconds_text};
use crate::text::{
    chars_eq, chars_of, decimal, push_char, push_decimal, ends_with, is_hex, is_hex_char, is_prefix, is_suffix, lower, starts_with,
    path_join, spec_path_join, string_of, strip_suffix, sub_chars, to_lower,
};

verus! {

/// Length of a hyphenated UUID.
pub const UUID_LEN: usize = 36;

/// A hyphenated UUID: 36 characters, `-` at 8, 13, 18 and 23, ASCII hex
/// digits elsewhere (either case).
pub open spec fn spec_uuid_like(s: Seq<char>) -> bool {
    &&& s.len() == 36
    &&& forall|i: int| 0 <= i < 36 ==> if i == 8 || i == 13 || i == 18 || i == 23 {
        s[i] == '-'
    } else {
        is_hex_char(s[i])
    }
}

fn uuid_like_chars(b: &[char]) -> (r: bool)
    ensures
        r == spec_uuid_like(b@),
{
    if b.len() != UUID_LEN {
        return false;
    }
    let mut i: usize = 0;
    while i < 36
        invariant
            b@.len() == 36,
            i <= 36,
            forall|j: int| 0 <= j < i ==> if j == 8 || j == 13 || j == 18 || j == 23 {
                b@[j] == '-'
            } else {
                is_hex_char(b@[j])
            },
        decreases 36 - i,
    {
        let ok = if i == 8 || i == 13 || i == 18 || i == 23 {
            b[i] == '-'
        } else {
            is_hex(b[i])
        };
        if !ok {
            return false;
        }
        i = i + 1;
    }
    true
}

/// Whether `s` is a hyphenated UUID.
pub fn is_uuid_like(s: &str) -> (r: bool)
    ensures
        r == spec_uuid_like(s@),
{
    let b = chars_of(s);
    uuid_like_chars(&b)
}

/// A run id matches a uuid when, ignoring ASCII case, it equals the uuid or
/// is a prefix of it.
pub open spec fn spec_uuid_matches_id(uuid: Seq<char>, id: Seq<char>) -> bool {
    lower(uuid) == lower(id) || is_prefix(lower(uuid), lower(id))
}

/// Whether `id` selects `uuid`.
pub fn uuid_matches_id(uuid: &str, id: &str) -> (r: bool)
    ensures
        r == spec_uuid_matches_id(uuid@, id@),
{
    let u = to_lower(&chars_of(uuid));
    let i = to_lower(&chars_of(id));
    chars_eq(&u, &i) || starts_with(&u, &i)
}

/// Bytes that a character takes in UTF-8.
pub open spec fn char_width(c: char) -> nat {
    if (c as u32) < 0x80 {
        1
    } else if (c as u32) < 0x800 {
        2
    } else if (c as u32) < 0x10000 {
        3
    } else {
        4
    }
}

/// Bytes that a character sequence takes in UTF-8.
pub open spec fn utf8_len(s: Seq<char>) -> nat
    decreases s.len(),
{
    if s.len() == 0 {
        0
    } else {
        char_width(s[0]) + utf8_len(s.drop_first())
    }
}

/// Byte offset `n`, counted from the end of `s`, falls between characters.
pub open spec fn tail_boundary(s: Seq<char>, n: nat) -> bool {
    exists|k: int| 0 <= k <= s.len() && #[trigger] utf8_len(s.subrange(s.len() - k, s.len() as int)) == n
}

/// The name without `.log.gz` and an optional `_stdout`/`_stderr`, with the
/// stream it names.
pub open spec fn run_stem(name: Seq<char>) -> Option<(Seq<char>, Option<Seq<char>>)> {
    match strip_suffix(name, ".log.gz"@) {
        None => None,
        Some(stem) => if is_suffix(stem, "_stdout"@) {
            Some((stem.subrange(0, stem.len() - 7), Some("stdout"@)))
        } else if is_suffix(stem, "_stderr"@) {
            Some((stem.subrange(0, stem.len() - 7), Some("stderr"@)))
        } else {
            Some((stem, None))
        },
    }
}

/// Names on which splitting `{label}_{uuid}` at 37 bytes from the end would
/// cut a character in two (the name is not a run file; the split itself
/// cannot be carried out).
pub open spec fn run_filename_cuts_char(name: Seq<char>) -> bool {
    match run_stem(name) {
        None => false,
        Some((stem, _)) => utf8_len(stem) >= 38 && !tail_boundary(stem, 37),
    }
}

/// A run file is named `{label}_{uuid}.log.gz`, or
/// `{label}_{uuid}_{stdout|stderr}.log.gz` when split, with a non-empty
/// label and a hyphenated uuid; the result is `(lower-case uuid, label,
/// stream)`.
pub open spec fn spec_parse_run_filename(name: Seq<char>) -> Option<(Seq<char>, Seq<char>, Option<Seq<char>>)> {
    match run_stem(name) {
        None => None,
        Some((stem, stream)) => if stem.len() < 38 {
            None
        } else {
            let split = stem.len() - 37;
            let label = stem.subrange(0, split);
            if stem[split] != '_' {
                None
            } else {
                let uuid = stem.subrange(split + 1, stem.len() as int);
                if !spec_uuid_like(uuid) {
                    None
                } else {
                    Some((lower(uuid), label, stream))
                }
            }
        },
    }
}

proof fn lemma_utf8_len_suffix_step(s: Seq<char>, k: int)
    requires
        0 <= k < s.len(),
    ensures
        utf8_len(s.subrange(s.len() - (k + 1), s.len() as int)) == char_width(s[s.len() - (k + 1)])
            + utf8_len(s.subrange(s.len() - k, s.len() as int)),
{
    let t = s.subrange(s.len() - (k + 1), s.len() as int);
    assert(t.drop_first() =~= s.subrange(s.len() - k, s.len() as int));
}

proof fn lemma_utf8_len_suffix_monotone(s: Seq<char>, k1: int, k2: int)
    requires
        0 <= k1 <= k2 <= s.len(),
    ensures
        utf8_len(s.subrange(s.len() - k1, s.len() as int)) + (k2 - k1) <= utf8_len(
            s.subrange(s.len() - k2, s.len() as int),
        ),
    decreases k2 - k1,
{
    if k1 < k2 {
        lemma_utf8_len_suffix_monotone(s, k1, k2 - 1);
        lemma_utf8_len_suffix_step(s, k2 - 1);
    }
}

/// Scans `stem` from the end: whether its UTF-8 length reaches 38 bytes and
/// whether offset 37 from the end falls between characters.
fn stem_split_facts(stem: &[char]) -> (r: (bool, bool))
    ensures
        r.0 == (utf8_len(stem@) >= 38),
        r.0 ==> (r.1 == tail_boundary(stem@, 37)),
{
    let n = stem.len();
    let mut acc: usize = 0;
    let mut k: usize = 0;
    let mut hit = false;
    while k < n && acc < 38
        invariant
            n == stem@.len(),
            k <= n,
            acc as nat == utf8_len(stem@.subrange(n - k, n as int)),
            acc <= 41,
            hit == (exists|j: int| 0 <= j <= k && #[trigger] utf8_len(stem@.subrange(n - j, n as int)) == 37),
        decreases n - k,
    {
        let c = stem[n - 1 - k];
        let w: usize = if (c as u32) < 0x80 {
            1
        } else if (c as u32) < 0x800 {
            2
        } else if (c as u32) < 0x10000 {
            3
        } else {
            4
        };
        proof {
            lemma_utf8_len_suffix_step(stem@, k as int);
        }
        acc = acc + w;
        k = k + 1;
        if acc == 37 {
            hit = true;
        }
        proof {
            if !hit {
                assert forall|j: int| 0 <= j <= k implies #[trigger] utf8_len(stem@.subrange(n - j, n as int)) != 37 by {
                    if j == k {
                    } else {
                    }
                }
            }
        }
    }
    proof {
        assert(stem@.subrange(0, n as int) =~= stem@);
        lemma_utf8_len_suffix_monotone(stem@, k as int, n as int);
        if acc >= 38 {
            // beyond k every suffix is longer still
            assert forall|j: int| k < j <= n implies #[trigger] utf8_len(stem@.subrange(n - j, n as int)) != 37 by {
                lemma_utf8_len_suffix_monotone(stem@, k as int, j);
            }
        } else {
            assert(k == n);
        }
    }
    (acc >= 38, hit)
}

/// Whether splitting the run-file name `name` would cut a character.
pub fn run_filename_cuts_char_exec(name: &str) -> (r: bool)
    ensures
        r == run_filename_cuts_char(name@),
{
    match run_stem_exec(name) {
        None => false,
        Some((stem, _)) => {
            let (long, boundary) = stem_split_facts(&stem);
            long && !boundary
        },
    }
}

fn run_stem_exec(name: &str) -> (r: Option<(Vec<char>, Option<String>)>)
    ensures
        match r {
            None => run_stem(name@) is None,
            Some((stem, stream)) => run_stem(name@) == Some((stem@, crate::logger::opt_string(stream))),
        },
{
    let n = chars_of(name);
    let ext = chars_of(".log.gz");
    if !ends_with(&n, &ext) {
        return None;
    }
    let stem = sub_chars(&n, 0, n.len() - ext.len());
    let out = chars_of("_stdout");
    let err = chars_of("_stderr");
    proof {
        reveal_strlit("_stdout");
        reveal_strlit("_stderr");
    }
    if ends_with(&stem, &out) {
        let s = sub_chars(&stem, 0, stem.len() - 7);
        Some((s, Some("stdout".to_owned())))
    } else if ends_with(&stem, &err) {
        let s = sub_chars(&stem, 0, stem.len() - 7);
        Some((s, Some("stderr".to_owned())))
    } else {
        Some((stem, None))
    }
}

/// Recognises a run file by its name: `Some((uuid, label, stream))`.
pub fn parse_run_filename(name: &str) -> (r: Option<(String, String, Option<String>)>)
    requires
        !run_filename_cuts_char(name@),
    ensures
        match r {
            None => spec_parse_run_filename(name@) is None,
            Some((uuid, label, stream)) => spec_parse_run_filename(name@) == Some(
                (uuid@, label@, crate::logger::opt_string(stream)),
            ),
        },
{
    let (stem, stream) = match run_stem_exec(name) {
        None => {
            return None;
        },
        Some(p) => p,
    };
    if stem.len() < UUID_LEN + 2 {
        return None;
    }
    let split = stem.len() - UUID_LEN - 1;
    if stem[split] != '_' {
        return None;
    }
    let uuid = sub_chars(&stem, split + 1, stem.len());
    if !uuid_like_chars(&uuid) {
        return None;
    }
    let label = sub_chars(&stem, 0, split);
    let lowered = to_lower(&uuid);
    Some((string_of(&lowered), string_of(&label), stream))
}

/// A run file found in a directory.
#[derive(Debug, Clone, PartialEq, Eq)]
pub struct LocalRunFile {
    pub uuid: String,
    pub label: String,
    pub stream: Option<String>,
    pub filename: String,
    pub size: u64,
    /// Modification time in whole seconds after the Unix epoch; `None` for
    /// a time before the epoch.
    pub mtime: Option<u64>,
}

/// A run file seen through the characters of its strings.
pub struct RunFileModel {
    pub uuid: Seq<char>,
    pub label: Seq<char>,
    pub stream: Option<Seq<char>>,
    pub filename: Seq<char>,
    pub size: u64,
    pub mtime: Option<u64>,
}

impl View for LocalRunFile {
    type V = RunFileModel;

    open spec fn view(&self) -> RunFileModel {
        RunFileModel {
            uuid: self.uuid@,
            label: self.label@,
            stream: crate::logger::opt_string(self.stream),
            filename: self.filename@,
            size: self.size,
            mtime: self.mtime,
        }
    }
}

/// The views of a sequence of run files.
pub open spec fn run_views(s: Seq<LocalRunFile>) -> Seq<RunFileModel> {
    s.map_values(|r: LocalRunFile| r@)
}

/// The views of a sequence of borrowed run files.
pub open spec fn run_ref_views(s: Seq<&LocalRunFile>) -> Seq<RunFileModel> {
    s.map_values(|r: &LocalRunFile| r@)
}

/// Order of streams within one run: combined, stdout, stderr, anything else.
pub open spec fn spec_stream_sort_key(stream: Option<Seq<char>>) -> u8 {
    match stream {
        None => 0,
        Some(v) => if v.len() == 0 {
            0
        } else if v == "stdout"@ {
            1
        } else if v == "stderr"@ {
            2
        } else {
            3
        },
    }
}

/// Sort key of a stream name.
pub fn stream_sort_key(stream: &Option<String>) -> (k: u8)
    ensures
        k == spec_stream_sort_key(crate::logger::opt_string(*stream)),
{
    match stream {
        None => 0,
        Some(v) => {
            let c = chars_of(v.as_str());
            if c.len() == 0 {
                0
            } else if chars_eq(&c, &chars_of("stdout")) {
                1
            } else if chars_eq(&c, &chars_of("stderr")) {
                2
            } else {
                3
            }
        },
    }
}

/// How a stream is shown in tables: its name, or `-` when absent or empty.
pub open spec fn spec_stream_display(stream: Option<Seq<char>>) -> Seq<char> {
    match stream {
        Some(v) => if v.len() > 0 {
            v
        } else {
            "-"@
        },
        None => "-"@,
    }
}

/// The stream as shown in tables.
pub fn stream_display(stream: &Option<String>) -> (r: &str)
    ensures
        r@ == spec_stream_display(crate::logger::opt_string(*stream)),
{
    match stream {
        Some(v) => {
            if v.as_str().is_empty() {
                "-"
            } else {
                v.as_str()
            }
        },
        None => "-",
    }
}

/// Lexicographic order of character sequences by code point (the order of
/// `String`'s `Ord`, since UTF-8 preserves code point order).
pub open spec fn lex_lt(a: Seq<char>, b: Seq<char>) -> bool
    decreases a.len(),
{
    if a.len() == 0 {
        b.len() > 0
    } else if b.len() == 0 {
        false
    } else if a[0] != b[0] {
        (a[0] as u32) < (b[0] as u32)
    } else {
        lex_lt(a.drop_first(), b.drop_first())
    }
}

proof fn lemma_lex_lt_irreflexive(a: Seq<char>)
    ensures
        !lex_lt(a, a),
    decreases a.len(),
{
    if a.len() > 0 {
        lemma_lex_lt_irreflexive(a.drop_first());
    }
}

proof fn lemma_lex_lt_transitive(a: Seq<char>, b: Seq<char>, c: Seq<char>)
    requires
        lex_lt(a, b),
        lex_lt(b, c),
    ensures
        lex_lt(a, c),
    decreases a.len(),
{
    if a.len() > 0 && b.len() > 0 && c.len() > 0 {
        if a[0] == b[0] && b[0] == c[0] {
            lemma_lex_lt_transitive(a.drop_first(), b.drop_first(), c.drop_first());
        }
    }
}

proof fn lemma_lex_lt_skip(a: Seq<char>, b: Seq<char>, i: int)
    requires
        0 <= i <= a.len(),
        i <= b.len(),
        forall|j: int| 0 <= j < i ==> a[j] == b[j],
    ensures
        lex_lt(a, b) == lex_lt(a.skip(i), b.skip(i)),
    decreases i,
{
    if i > 0 {
        lemma_lex_lt_skip(a.drop_first(), b.drop_first(), i - 1);
        assert(a.drop_first().skip(i - 1) =~= a.skip(i));
        assert(b.drop_first().skip(i - 1) =~= b.skip(i));
    } else {
        assert(a.skip(0) =~= a);
        assert(b.skip(0) =~= b);
    }
}

/// Whether `a` sorts strictly before `b`.
pub fn lex_lt_exec(a: &[char], b: &[char]) -> (r: bool)
    ensures
        r == lex_lt(a@, b@),
{
    let mut i: usize = 0;
    while i < a.len() && i < b.len()
        invariant
            i <= a@.len(),
            i <= b@.len(),
            forall|j: int| 0 <= j < i ==> a@[j] == b@[j],
        decreases a@.len() - i,
    {
        if a[i] != b[i] {
            proof {
                lemma_lex_lt_skip(a@, b@, i as int);
            }
            return (a[i] as u32) < (b[i] as u32);
        }
        i = i + 1;
    }
    proof {
        lemma_lex_lt_skip(a@, b@, i as int);
    }
    i == a.len() && i < b.len()
}

/// Listing order of run files: by uuid, then stream (combined, stdout,
/// stderr, other), then file name.
pub open spec fn run_lt(a: RunFileModel, b: RunFileModel) -> bool {
    ||| lex_lt(a.uuid, b.uuid)
    ||| a.uuid == b.uuid && spec_stream_sort_key(a.stream) < spec_stream_sort_key(b.stream)
    ||| a.uuid == b.uuid && spec_stream_sort_key(a.stream) == spec_stream_sort_key(b.stream)
        && lex_lt(a.filename, b.filename)
}

/// No run file is listed after one that sorts before it.
pub open spec fn runs_sorted(s: Seq<RunFileModel>) -> bool {
    forall|i: int, j: int| 0 <= i < j < s.len() ==> !run_lt(#[trigger] s[j], #[trigger] s[i])
}

proof fn lemma_run_lt_irreflexive(a: RunFileModel)
    ensures
        !run_lt(a, a),
{
    lemma_lex_lt_irreflexive(a.uuid);
    lemma_lex_lt_irreflexive(a.filename);
}

proof fn lemma_run_lt_transitive(a: RunFileModel, b: RunFileModel, c: RunFileModel)
    requires
        run_lt(a, b),
        run_lt(b, c),
    ensures
        run_lt(a, c),
{
    if lex_lt(a.uuid, b.uuid) && lex_lt(b.uuid, c.uuid) {
        lemma_lex_lt_transitive(a.uuid, b.uuid, c.uuid);
    }
    if a.uuid == b.uuid && b.uuid == c.uuid && lex_lt(a.filename, b.filename) && lex_lt(b.filename, c.filename) {
        lemma_lex_lt_transitive(a.filename, b.filename, c.filename);
    }
}

fn run_lt_exec(a: &LocalRunFile, b: &LocalRunFile) -> (r: bool)
    ensures
        r == run_lt(a@, b@),
{
    let au = chars_of(a.uuid.as_str());
    let bu = chars_of(b.uuid.as_str());
    if lex_lt_exec(&au, &bu) {
        return true;
    }
    if !chars_eq(&au, &bu) {
        return false;
    }
    let ka = stream_sort_key(&a.stream);
    let kb = stream_sort_key(&b.stream);
    if ka != kb {
        return ka < kb;
    }
    let af = chars_of(a.filename.as_str());
    let bf = chars_of(b.filename.as_str());
    lex_lt_exec(&af, &bf)
}

/// Two run files that the listing order cannot tell apart: same uuid,
/// stream rank and file name.
pub open spec fn same_listing_key(a: RunFileModel, b: RunFileModel) -> bool {
    a.uuid == b.uuid && spec_stream_sort_key(a.stream) == spec_stream_sort_key(b.stream) && a.filename == b.filename
}

/// The files of `s` that sort at the same place as `y`, in their order.
pub open spec fn key_class(s: Seq<RunFileModel>, y: RunFileModel) -> Seq<RunFileModel> {
    s.filter(|z: RunFileModel| same_listing_key(z, y))
}

proof fn lemma_key_class_push(s: Seq<RunFileModel>, x: RunFileModel, y: RunFileModel)
    ensures
        key_class(s.push(x), y) == if same_listing_key(x, y) {
            key_class(s, y).push(x)
        } else {
            key_class(s, y)
        },
{
    s.lemma_filter_push(x, |z: RunFileModel| same_listing_key(z, y));
}

/// Inserting `x` before the first file that sorts after it adds `x` at the
/// end of its key class and leaves the other classes alone.
proof fn lemma_key_class_insert(before: Seq<RunFileModel>, p: int, x: RunFileModel, y: RunFileModel)
    requires
        runs_sorted(before),
        0 <= p <= before.len(),
        p < before.len() ==> run_lt(x, before[p]),
    ensures
        key_class(before.insert(p, x), y) == if same_listing_key(x, y) {
            key_class(before, y).push(x)
        } else {
            key_class(before, y)
        },
{
    let pred = |z: RunFileModel| same_listing_key(z, y);
    let head = before.take(p);
    let tail = before.skip(p);
    assert(before.insert(p, x) =~= head + seq![x] + tail);
    assert(before =~= head + tail);
    Seq::filter_distributes_over_add(head + seq![x], tail, pred);
    Seq::filter_distributes_over_add(head, seq![x], pred);
    Seq::filter_distributes_over_add(head, tail, pred);
    assert(seq![x].filter(pred) == if pred(x) { seq![x] } else { Seq::<RunFileModel>::empty() }) by {
        Seq::<RunFileModel>::empty().lemma_filter_push(x, pred);
        assert(Seq::<RunFileModel>::empty().push(x) =~= seq![x]);
        assert(Seq::<RunFileModel>::empty().filter(pred) =~= Seq::<RunFileModel>::empty()) by {
            reveal(Seq::filter);
        }
    }
    if same_listing_key(x, y) {
        assert forall|k: int| 0 <= k < tail.len() implies !pred(#[trigger] tail[k]) by {
            if same_listing_key(tail[k], y) {
                assert(tail[k] == before[p + k]);
                assert(run_lt(before[p + k], before[p]));
                if k == 0 {
                    lemma_run_lt_irreflexive(before[p]);
                } else {
                    assert(!run_lt(before[p + k], before[p]));
                }
            }
        }
        tail.lemma_all_neg_filter_empty(pred);
        assert(key_class(before.insert(p, x), y) =~= key_class(before, y).push(x));
    } else {
        assert(key_class(before.insert(p, x), y) =~= key_class(before, y));
    }
}

/// Orders run files for listing (see [`run_lt`]); the result holds the same
/// files, and files the order cannot tell apart keep their input order.
pub fn sort_runs(runs: Vec<LocalRunFile>) -> (r: Vec<LocalRunFile>)
    ensures
        runs_sorted(run_views(r@)),
        run_views(r@).to_multiset() == run_views(runs@).to_multiset(),
        forall|y: RunFileModel| #[trigger] key_class(run_views(r@), y) == key_class(run_views(runs@), y),
{
    broadcast use vstd::seq_lib::group_to_multiset_ensures;

    let ghost orig = run_views(runs@);
    let mut src = runs;
    let mut out: Vec<LocalRunFile> = Vec::new();
    let ghost mut done: int = 0;
    proof {
        assert(run_views(out@).to_multiset() =~= orig.take(0).to_multiset());
        assert(run_views(src@) =~= orig.skip(0));
        assert(run_views(out@) =~= orig.take(0));
    }
    while src.len() > 0
        invariant
            0 <= done <= orig.len(),
            run_views(src@) == orig.skip(done),
            runs_sorted(run_views(out@)),
            run_views(out@).to_multiset() == orig.take(done).to_multiset(),
            forall|y: RunFileModel| #[trigger] key_class(run_views(out@), y) == key_class(orig.take(done), y),
        decreases src@.len(),
    {
        let ghost src_before = src@;
        let x = src.remove(0);
        proof {
            assert(run_views(src_before)[0] == x@);
            assert(run_views(src_before)[0] == orig.skip(done)[0]);
            assert(run_views(src@) =~= run_views(src_before).drop_first());
            assert(orig.skip(done).drop_first() =~= orig.skip(done + 1));
            assert(run_views(src@) =~= orig.skip(done + 1));
            assert(x@ == orig[done]);
            assert(orig.take(done + 1) =~= orig.take(done).push(orig[done]));
        }
        let mut p: usize = 0;
        while p < out.len() && !run_lt_exec(&x, &out[p])
            invariant
                p <= out@.len(),
                forall|i: int| 0 <= i < p ==> !run_lt(x@, #[trigger] run_views(out@)[i]),
            decreases out@.len() - p,
        {
            p = p + 1;
        }
        let ghost before = run_views(out@);
        out.insert(p, x);
        proof {
            let after = run_views(out@);
            assert(after =~= before.insert(p as int, x@));
            assert forall|i: int, j: int| 0 <= i < j < after.len() implies !run_lt(#[trigger] after[j], #[trigger] after[i]) by {
                if i < p && j == p {
                } else if i == p && j > p {
                    // after[j] == before[j - 1]; before[p] is not below after[j]
                    if run_lt(after[j], x@) {
                        if j - 1 == p {
                            lemma_run_lt_transitive(before[p as int], x@, before[p as int]);
                            lemma_run_lt_irreflexive(before[p as int]);
                        } else {
                            lemma_run_lt_transitive(before[j - 1], x@, before[p as int]);
                        }
                    }
                } else if i < p && j > p {
                    assert(after[j] == before[j - 1]);
                } else if j < p {
                } else {
                    assert(after[j] == before[j - 1]);
                    assert(after[i] == before[i - 1]);
                }
            }
            vstd::seq_lib::to_multiset_insert(before, p as int, x@);
            vstd::seq_lib::to_multiset_build(orig.take(done), orig[done]);
            assert(after.to_multiset() == before.to_multiset().insert(x@));
            assert(orig.take(done + 1).to_multiset() == orig.take(done).to_multiset().insert(orig[done]));
            assert forall|y: RunFileModel| #[trigger] key_class(after, y) == key_class(orig.take(done + 1), y) by {
                lemma_key_class_insert(before, p as int, x@, y);
                lemma_key_class_push(orig.take(done), orig[done], y);
            }
            done = done + 1;
        }
    }
    proof {
        assert(orig.skip(done).len() == 0);
        assert(orig.take(done) =~= orig);
    }
    out
}

/// A regular file found in the run directory: its name, size and
/// modification time (whole seconds after the epoch; `None` before it).
#[derive(Clone, Debug)]
pub struct FileEntry {
    pub name: String,
    pub size: u64,
    pub mtime: Option<u64>,
}

/// A directory entry seen through the characters of its name.
pub struct FileEntryModel {
    pub name: Seq<char>,
    pub size: u64,
    pub mtime: Option<u64>,
}

impl View for FileEntry {
    type V = FileEntryModel;

    open spec fn view(&self) -> FileEntryModel {
        FileEntryModel { name: self.name@, size: self.size, mtime: self.mtime }
    }
}

/// The views of a sequence of directory entries.
pub open spec fn entry_views(s: Seq<FileEntry>) -> Seq<FileEntryModel> {
    s.map_values(|e: FileEntry| e@)
}

/// The run file an entry is, when its name is a run-file name.
pub open spec fn entry_run(e: FileEntryModel) -> Option<RunFileModel> {
    match spec_parse_run_filename(e.name) {
        Some((uuid, label, stream)) => Some(
            RunFileModel { uuid, label, stream, filename: e.name, size: e.size, mtime: e.mtime },
        ),
        None => None,
    }
}

/// The run files among `entries`, in the order of the entries; other names
/// are skipped.
pub open spec fn recognised_runs(entries: Seq<FileEntryModel>) -> Seq<RunFileModel>
    decreases entries.len(),
{
    if entries.len() == 0 {
        Seq::empty()
    } else {
        let rest = recognised_runs(entries.drop_last());
        match entry_run(entries.last()) {
            Some(r) => rest.push(r),
            None => rest,
        }
    }
}

/// The run files of a directory listing: every entry whose name is a
/// run-file name, ordered by uuid, stream and file name.
pub fn collect_local_runs(entries: &[FileEntry]) -> (r: Vec<LocalRunFile>)
    requires
        forall|i: int| 0 <= i < entries@.len() ==> !run_filename_cuts_char(#[trigger] entries@[i].name@),
    ensures
        runs_sorted(run_views(r@)),
        run_views(r@).to_multiset() == recognised_runs(entry_views(entries@)).to_multiset(),
        forall|y: RunFileModel| #[trigger] key_class(run_views(r@), y) == key_class(recognised_runs(entry_views(entries@)), y),
{
    let ghost all = entry_views(entries@);
    let mut found: Vec<LocalRunFile> = Vec::new();
    let mut i: usize = 0;
    proof {
        assert(all.take(0) =~= Seq::<FileEntryModel>::empty());
        assert(run_views(found@) =~= recognised_runs(all.take(0)));
    }
    while i < entries.len()
        invariant
            i <= entries@.len(),
            all == entry_views(entries@),
            forall|k: int| 0 <= k < entries@.len() ==> !run_filename_cuts_char(#[trigger] entries@[k].name@),
            run_views(found@) == recognised_runs(all.take(i as int)),
        decreases entries@.len() - i,
    {
        let e = &entries[i];
        proof {
            assert(all.take(i + 1).drop_last() =~= all.take(i as int));
            assert(all.take(i + 1).last() == e@);
            assert(!run_filename_cuts_char(entries@[i as int].name@));
        }
        match parse_run_filename(e.name.as_str()) {
            Some((uuid, label, stream)) => {
                let ghost before = found@;
                let run = LocalRunFile { uuid, label, stream, filename: e.name.clone(), size: e.size, mtime: e.mtime };
                found.push(run);
                proof {
                    assert(found@ =~= before.push(run));
                    assert(run_views(found@) =~= run_views(before).push(run@));
                }
            },
            None => {},
        }
        i = i + 1;
    }
    proof {
        assert(all.take(entries@.len() as int) =~= all);
    }
    sort_runs(found)
}

/// The runs an id selects, in their order.
pub open spec fn matching_runs(runs: Seq<RunFileModel>, id: Seq<char>) -> Seq<RunFileModel> {
    runs.filter(|r: RunFileModel| spec_uuid_matches_id(r.uuid, id))
}

/// The uuids of a sequence of runs.
pub open spec fn run_uuids(runs: Seq<RunFileModel>) -> Seq<Seq<char>> {
    runs.map_values(|r: RunFileModel| r.uuid)
}

/// How many distinct runs (uuids) an id selects.
pub open spec fn matched_run_count(runs: Seq<RunFileModel>, id: Seq<char>) -> nat {
    run_uuids(matching_runs(runs, id)).to_set().len()
}

/// Resolving an id: an empty id is refused; otherwise the files of the one
/// run it selects, or a message saying it selects none or several.
pub open spec fn spec_resolve_id(runs: Seq<RunFileModel>, id: Seq<char>) -> Result<Seq<RunFileModel>, Seq<char>> {
    if id.len() == 0 {
        Err("id must be a run uuid or unique prefix"@)
    } else {
        let n = matched_run_count(runs, id);
        if n == 0 {
            Err("no run matching '"@ + id + "'"@)
        } else if n == 1 {
            Ok(matching_runs(runs, id))
        } else {
            Err("ambiguous id '"@ + id + "' matches "@ + decimal(n) + " runs"@)
        }
    }
}

pub(crate) proof fn lemma_to_set_push<A>(s: Seq<A>, a: A)
    ensures
        s.push(a).to_set() == s.to_set().insert(a),
{
    assert forall|x: A| s.push(a).to_set().contains(x) <==> s.to_set().insert(a).contains(x) by {
        if s.push(a).contains(x) && x != a {
            let i = choose|i: int| 0 <= i < s.push(a).len() && s.push(a)[i] == x;
            assert(i < s.len());
            assert(s[i] == x);
        }
        if s.contains(x) {
            let i = choose|i: int| 0 <= i < s.len() && s[i] == x;
            assert(s.push(a)[i] == x);
        }
        if x == a {
            assert(s.push(a)[s.len() as int] == a);
        }
    }
    assert(s.push(a).to_set() =~= s.to_set().insert(a));
}

/// Views of a vector of character vectors.
pub open spec fn vec_chars_views(v: Seq<Vec<char>>) -> Seq<Seq<char>> {
    v.map_values(|c: Vec<char>| c@)
}

pub(crate) fn contains_chars(v: &Vec<Vec<char>>, c: &[char]) -> (r: bool)
    ensures
        r == vec_chars_views(v@).contains(c@),
{
    let mut j: usize = 0;
    while j < v.len()
        invariant
            j <= v@.len(),
            forall|k: int| 0 <= k < j ==> vec_chars_views(v@)[k] != c@,
        decreases v@.len() - j,
    {
        if chars_eq(&v[j], c) {
            assert(vec_chars_views(v@)[j as int] == c@);
            return true;
        }
        j = j + 1;
    }
    false
}

pub(crate) fn config_error(msg: String) -> (e: BlessError)
    ensures
        config_message(e) == Some(msg@),
{
    BlessError::Config(msg)
}

/// Selects the files of the run that `id` (a full uuid or a unique prefix,
/// any ASCII case) names.
pub fn resolve_id<'a>(runs: &'a [LocalRunFile], id: &str) -> (r: Result<Vec<&'a LocalRunFile>, BlessError>)
    ensures
        match r {
            Ok(v) => spec_resolve_id(run_views(runs@), id@) == Ok::<Seq<RunFileModel>, Seq<char>>(run_ref_views(v@)),
            Err(e) => config_message(e) is Some && spec_resolve_id(run_views(runs@), id@)
                == Err::<Seq<RunFileModel>, Seq<char>>(config_message(e)->Some_0),
        },
{
    if id.is_empty() {
        return Err(config_error("id must be a run uuid or unique prefix".to_owned()));
    }
    let ghost all = run_views(runs@);
    let mut matched: Vec<&'a LocalRunFile> = Vec::new();
    let mut distinct: Vec<Vec<char>> = Vec::new();
    let mut i: usize = 0;
    proof {
        reveal_with_fuel(Seq::<_>::filter, 1);
        assert(all.take(0).filter(|r: RunFileModel| spec_uuid_matches_id(r.uuid, id@)) =~= Seq::<RunFileModel>::empty());
        assert(run_uuids(Seq::<RunFileModel>::empty()).to_set() =~= vec_chars_views(distinct@).to_set());
    }
    while i < runs.len()
        invariant
            i <= runs@.len(),
            all == run_views(runs@),
            run_ref_views(matched@) == matching_runs(all.take(i as int), id@),
            vec_chars_views(distinct@).no_duplicates(),
            vec_chars_views(distinct@).to_set() == run_uuids(matching_runs(all.take(i as int), id@)).to_set(),
        decreases runs@.len() - i,
    {
        let run = &runs[i];
        let ghost prev = matching_runs(all.take(i as int), id@);
        proof {
            reveal_with_fuel(Seq::<_>::filter, 1);
            assert(all.take(i + 1).drop_last() =~= all.take(i as int));
            assert(all.take(i + 1).last() == run@);
        }
        if uuid_matches_id(run.uuid.as_str(), id) {
            let ghost before_m = matched@;
            matched.push(run);
            let u = chars_of(run.uuid.as_str());
            proof {
                reveal_with_fuel(Seq::<_>::filter, 1);
                assert(matching_runs(all.take(i + 1), id@) == prev.push(run@));
                assert(run_ref_views(matched@) =~= run_ref_views(before_m).push(run@));
                assert(run_uuids(prev.push(run@)) =~= run_uuids(prev).push(run@.uuid));
                lemma_to_set_push(run_uuids(prev), run@.uuid);
            }
            if !contains_chars(&distinct, &u) {
                let ghost before_d = distinct@;
                distinct.push(u);
                proof {
                    assert(vec_chars_views(distinct@) =~= vec_chars_views(before_d).push(run@.uuid));
                    lemma_to_set_push(vec_chars_views(before_d), run@.uuid);
                    assert(vec_chars_views(distinct@).no_duplicates()) by {
                        let d = vec_chars_views(distinct@);
                        assert forall|a: int, b: int| 0 <= a < d.len() && 0 <= b < d.len() && a != b implies d[a] != d[b] by {
                            if b == d.len() - 1 {
                                assert(d[a] == vec_chars_views(before_d)[a]);
                            } else if a == d.len() - 1 {
                                assert(d[b] == vec_chars_views(before_d)[b]);
                            }
                        }
                    }
                }
            } else {
                proof {
                    assert(vec_chars_views(distinct@).to_set().contains(run@.uuid));
                    assert(vec_chars_views(distinct@).to_set().insert(run@.uuid) =~= vec_chars_views(distinct@).to_set());
                }
            }
        } else {
            proof {
                reveal_with_fuel(Seq::<_>::filter, 1);
                assert(matching_runs(all.take(i + 1), id@) == prev);
            }
        }
        i = i + 1;
    }
    proof {
        assert(all.take(runs@.len() as int) =~= all);
        vec_chars_views(distinct@).unique_seq_to_set();
    }
    let n = distinct.len();
    if n == 0 {
        let mut m = "no run matching '".to_owned();
        m.append(id);
        m.append("'");
        Err(config_error(m))
    } else if n == 1 {
        Ok(matched)
    } else {
        let mut m = "ambiguous id '".to_owned();
        m.append(id);
        m.append("' matches ");
        push_decimal(&mut m, n as u64);
        m.append(" runs");
        Err(config_error(m))
    }
}

/// One row of the `ls` table.
pub open spec fn ls_row(r: RunFileModel) -> Seq<char> {
    r.uuid + seq!['\t'] + r.label + seq!['\t'] + spec_stream_display(r.stream) + seq!['\t'] + r.filename
        + seq!['\t'] + decimal(r.size as nat) + seq!['\n']
}

/// The rows of the `ls` table, one per run file, in order.
pub open spec fn ls_rows(s: Seq<RunFileModel>) -> Seq<char>
    decreases s.len(),
{
    if s.len() == 0 {
        Seq::empty()
    } else {
        ls_rows(s.drop_last()) + ls_row(s.last())
    }
}

/// The `ls` table: a header line and one tab-separated line per file.
pub open spec fn spec_format_local_ls(s: Seq<RunFileModel>) -> Seq<char> {
    "uuid\tlabel\tstream\tpath\tsize\n"@ + ls_rows(s)
}

/// A modification time as shown: RFC 3339 in UTC, or `-` before the epoch.
pub open spec fn mtime_text(m: Option<u64>) -> Seq<char> {
    match m {
        Some(t) => rfc3339_seconds_text(t),
        None => "-"@,
    }
}

/// One row of the `show` table.
pub open spec fn show_row(r: RunFileModel) -> Seq<char> {
    r.uuid + seq!['\t'] + r.label + seq!['\t'] + spec_stream_display(r.stream) + seq!['\t'] + r.filename
        + seq!['\t'] + decimal(r.size as nat) + seq!['\t'] + mtime_text(r.mtime) + seq!['\n']
}

/// The rows of the `show` table.
pub open spec fn show_rows(s: Seq<RunFileModel>) -> Seq<char>
    decreases s.len(),
{
    if s.len() == 0 {
        Seq::empty()
    } else {
        show_rows(s.drop_last()) + show_row(s.last())
    }
}

/// The `show` table: the `ls` columns plus the modification time.
pub open spec fn spec_format_local_show(s: Seq<RunFileModel>) -> Seq<char> {
    "uuid\tlabel\tstream\tpath\tsize\tmtime\n"@ + show_rows(s)
}

/// Modification times that can be formatted (before the year 10000).
pub open spec fn mtime_formattable(m: Option<u64>) -> bool {
    m matches Some(t) ==> t < 253_402_300_800
}

/// Formats a modification time.
pub fn format_mtime(mtime: Option<u64>) -> (r: String)
    requires
        mtime_formattable(mtime),
    ensures
        r@ == mtime_text(mtime),
{
    match mtime {
        Some(t) => format_rfc3339_seconds(t),
        None => "-".to_owned(),
    }
}

fn push_common_columns(out: &mut String, run: &LocalRunFile)
    ensures
        final(out)@ == old(out)@ + run@.uuid + seq!['\t'] + run@.label + seq!['\t'] + spec_stream_display(run@.stream)
            + seq!['\t'] + run@.filename + seq!['\t'] + decimal(run@.size as nat),
{
    out.append(run.uuid.as_str());
    push_char(out, '\t');
    out.append(run.label.as_str());
    push_char(out, '\t');
    out.append(stream_display(&run.stream));
    push_char(out, '\t');
    out.append(run.filename.as_str());
    push_char(out, '\t');
    push_decimal(out, run.size);
}

/// The `ls` table for `runs`.
pub fn format_local_ls(runs: &[LocalRunFile]) -> (r: String)
    ensures
        r@ == spec_format_local_ls(run_views(runs@)),
{
    let mut out = "uuid\tlabel\tstream\tpath\tsize\n".to_owned();
    let ghost all = run_views(runs@);
    let mut i: usize = 0;
    while i < runs.len()
        invariant
            i <= runs@.len(),
            all == run_views(runs@),
            out@ == "uuid\tlabel\tstream\tpath\tsize\n"@ + ls_rows(all.take(i as int)),
        decreases runs@.len() - i,
    {
        push_common_columns(&mut out, &runs[i]);
        push_char(&mut out, '\n');
        proof {
            assert(all.take(i + 1).drop_last() =~= all.take(i as int));
            assert(all.take(i + 1).last() == runs@[i as int]@);
            assert(out@ =~= "uuid\tlabel\tstream\tpath\tsize\n"@ + ls_rows(all.take(i + 1)));
        }
        i = i + 1;
    }
    proof {
        assert(all.take(runs@.len() as int) =~= all);
    }
    out
}

/// The `show` table for `runs`.
pub fn format_local_show(runs: &[&LocalRunFile]) -> (r: String)
    requires
        forall|i: int| 0 <= i < runs@.len() ==> mtime_formattable(#[trigger] runs@[i].mtime),
    ensures
        r@ == spec_format_local_show(run_ref_views(runs@)),
{
    let mut out = "uuid\tlabel\tstream\tpath\tsize\tmtime\n".to_owned();
    let ghost all = run_ref_views(runs@);
    let mut i: usize = 0;
    while i < runs.len()
        invariant
            i <= runs@.len(),
            all == run_ref_views(runs@),
            forall|i: int| 0 <= i < runs@.len() ==> mtime_formattable(#[trigger] runs@[i].mtime),
            out@ == "uuid\tlabel\tstream\tpath\tsize\tmtime\n"@ + show_rows(all.take(i as int)),
        decreases runs@.len() - i,
    {
        let run: &LocalRunFile = runs[i];
        push_common_columns(&mut out, run);
        push_char(&mut out, '\t');
        let m = format_mtime(run.mtime);
        out.append(m.as_str());
        push_char(&mut out, '\n');
        proof {
            assert(all.take(i + 1).drop_last() =~= all.take(i as int));
            assert(all.take(i + 1).last() == runs@[i as int]@);
            assert(out@ =~= "uuid\tlabel\tstream\tpath\tsize\tmtime\n"@ + show_rows(all.take(i + 1)));
        }
        i = i + 1;
    }
    proof {
        assert(all.take(runs@.len() as int) =~= all);
    }
    out
}

/// Where `fetch -o PATH` writes: an absolute path as given, a relative one
/// under `dir`.
pub fn dest_path(dir: &str, output: &str) -> (r: String)
    ensures
        r@ == spec_path_join(dir@, output@),
{
    path_join(dir, output)
}

/// The message refusing one destination for a run with two streams.
pub open spec fn split_single_dest_message(uuid: Seq<char>) -> Seq<char> {
    "run "@ + uuid + " has two streams; omit -o to write both or pass a prefix that matches one file"@
}

/// The error refusing one destination for a run with two streams.
pub fn split_single_dest_error(uuid: &str) -> (e: BlessError)
    ensures
        config_message(e) == Some(split_single_dest_message(uuid@)),
{
    let mut m = "run ".to_owned();
    m.append(uuid);
    m.append(" has two streams; omit -o to write both or pass a prefix that matches one file");
    config_error(m)
}

/// Where one fetched file goes.
#[derive(Clone, Debug, PartialEq, Eq)]
pub enum FetchDest {
    /// The gzip bytes are written to stdout.
    Stdout,
    /// The file is copied to this path.
    Path(String),
}

/// One copy that `fetch` performs.
#[derive(Clone, Debug, PartialEq, Eq)]
pub struct FetchCopy {
    /// Path of the run file.
    pub source: String,
    pub dest: FetchDest,
}

/// What `fetch` does: the copies, in order, then the error it stops with,
/// if any.
#[derive(Debug)]
pub struct FetchPlan {
    pub copies: Vec<FetchCopy>,
    pub error: Option<BlessError>,
}

/// A copy seen through its paths; `dest` is `None` for stdout.
pub struct CopyModel {
    pub source: Seq<char>,
    pub dest: Option<Seq<char>>,
}

impl View for FetchCopy {
    type V = CopyModel;

    open spec fn view(&self) -> CopyModel {
        CopyModel {
            source: self.source@,
            dest: match self.dest {
                FetchDest::Stdout => None,
                FetchDest::Path(p) => Some(p@),
            },
        }
    }
}

/// The copies of a plan.
pub open spec fn copy_views(s: Seq<FetchCopy>) -> Seq<CopyModel> {
    s.map_values(|c: FetchCopy| c@)
}

/// Copies for a split run fetched without `-o`: each file to
/// `{uuid}_{stream}.log.gz` under `dir`, stopping (with the flag set) at the
/// first file that has no stream name.
pub open spec fn split_copies(dir: Seq<char>, uuid: Seq<char>, runs: Seq<RunFileModel>) -> (Seq<CopyModel>, bool)
    decreases runs.len(),
{
    if runs.len() == 0 {
        (Seq::empty(), false)
    } else {
        match runs[0].stream {
            None => (Seq::empty(), true),
            Some(st) => {
                let rest = split_copies(dir, uuid, runs.drop_first());
                (
                    seq![CopyModel {
                        source: spec_path_join(dir, runs[0].filename),
                        dest: Some(spec_path_join(dir, uuid + seq!['_'] + st + ".log.gz"@)),
                    }] + rest.0,
                    rest.1,
                )
            },
        }
    }
}

/// The fetch plan: the copies and, if it fails, the message of the
/// (configuration) error it stops with.
pub open spec fn spec_fetch_plan(dir: Seq<char>, matched: Seq<RunFileModel>, output: Option<Seq<char>>) -> (Seq<CopyModel>, Option<Seq<char>>) {
    if matched.len() == 0 {
        (Seq::empty(), Some("no run matching id"@))
    } else {
        let uuid = matched[0].uuid;
        let first = spec_path_join(dir, matched[0].filename);
        match output {
            Some(o) => if matched.len() > 1 {
                (Seq::empty(), Some(split_single_dest_message(uuid)))
            } else if o == "-"@ {
                (seq![CopyModel { source: first, dest: None }], None)
            } else {
                (seq![CopyModel { source: first, dest: Some(spec_path_join(dir, o)) }], None)
            },
            None => if matched.len() > 1 {
                let (c, failed) = split_copies(dir, uuid, matched);
                (c, if failed {
                    Some("split run "@ + uuid + " has a file without a stream name"@)
                } else {
                    None
                })
            } else {
                (seq![CopyModel { source: first, dest: Some(spec_path_join(dir, uuid + ".log.gz"@)) }], None)
            },
        }
    }
}

/// The error part of a plan, seen as a configuration message.
pub open spec fn plan_error(e: Option<BlessError>) -> Option<Seq<char>> {
    match e {
        None => None,
        Some(err) => config_message(err),
    }
}

/// Plans `fetch` for the files of one run found in `dir`: to stdout with
/// `-o -`, to a path with `-o PATH`, else to `{uuid}.log.gz`, or to
/// `{uuid}_{stream}.log.gz` for each file of a split run.
pub fn plan_fetch_local(dir: &str, matched: &[&LocalRunFile], output: Option<&str>) -> (p: FetchPlan)
    ensures
        (copy_views(p.copies@), plan_error(p.error)) == spec_fetch_plan(dir@, run_ref_views(matched@), crate::logger::opt_str(output)),
        p.error matches Some(e) ==> config_message(e) is Some,
{
    let ghost all = run_ref_views(matched@);
    if matched.len() == 0 {
        let copies: Vec<FetchCopy> = Vec::new();
        proof {
            assert(copy_views(copies@) =~= Seq::<CopyModel>::empty());
        }
        return FetchPlan { copies, error: Some(config_error("no run matching id".to_owned())) };
    }
    let uuid: &str = matched[0].uuid.as_str();
    let first = path_join(dir, matched[0].filename.as_str());
    match output {
        Some(o) => {
            if matched.len() > 1 {
                let copies: Vec<FetchCopy> = Vec::new();
                proof {
                    assert(copy_views(copies@) =~= Seq::<CopyModel>::empty());
                }
                return FetchPlan { copies, error: Some(split_single_dest_error(uuid)) };
            }
            let oc = chars_of(o);
            let dest = if chars_eq(&oc, &chars_of("-")) {
                FetchDest::Stdout
            } else {
                FetchDest::Path(dest_path(dir, o))
            };
            let mut copies: Vec<FetchCopy> = Vec::new();
            copies.push(FetchCopy { source: first, dest });
            proof {
                assert(copy_views(copies@) =~= spec_fetch_plan(dir@, all, Some(o@)).0);
            }
            FetchPlan { copies, error: None }
        },
        None => {
            if matched.len() > 1 {
                let mut copies: Vec<FetchCopy> = Vec::new();
                let mut i: usize = 0;
                proof {
                    assert(all.skip(0) =~= all);
                    assert(copy_views(copies@) =~= Seq::<CopyModel>::empty());
                }
                while i < matched.len()
                    invariant
                        i <= matched@.len(),
                        all == run_ref_views(matched@),
                        all.len() > 1,
                        output is None,
                        uuid@ == all[0].uuid,
                        split_copies(dir@, uuid@, all) == (
                            copy_views(copies@) + split_copies(dir@, uuid@, all.skip(i as int)).0,
                            split_copies(dir@, uuid@, all.skip(i as int)).1,
                        ),
                    decreases matched@.len() - i,
                {
                    let run: &LocalRunFile = matched[i];
                    proof {
                        assert(all.skip(i as int)[0] == run@);
                        assert(all.skip(i as int).drop_first() =~= all.skip(i + 1));
                    }
                    match &run.stream {
                        None => {
                            let mut m = "split run ".to_owned();
                            m.append(uuid);
                            m.append(" has a file without a stream name");
                            proof {
                                assert(all.skip(i as int)[0].stream is None);
                                assert(split_copies(dir@, uuid@, all.skip(i as int)).1);
                                assert(split_copies(dir@, uuid@, all.skip(i as int)).0 =~= Seq::<CopyModel>::empty());
                                assert(copy_views(copies@) + Seq::<CopyModel>::empty() =~= copy_views(copies@));
                            }
                            return FetchPlan { copies, error: Some(config_error(m)) };
                        },
                        Some(st) => {
                            let mut name = uuid.to_owned();
                            push_char(&mut name, '_');
                            name.append(st.as_str());
                            name.append(".log.gz");
                            proof {
                                assert(name@ =~= uuid@ + seq!['_'] + st@ + ".log.gz"@);
                                assert(all.skip(i as int)[0].stream == Some(st@));
                            }
                            let dest = path_join(dir, name.as_str());
                            let source = path_join(dir, run.filename.as_str());
                            let ghost before = copy_views(copies@);
                            copies.push(FetchCopy { source, dest: FetchDest::Path(dest) });
                            proof {
                                assert(copy_views(copies@) =~= before.push(copies@.last()@));
                                let rest = split_copies(dir@, uuid@, all.skip(i + 1));
                                assert(split_copies(dir@, uuid@, all.skip(i as int)).0 =~= seq![copies@.last()@] + rest.0);
                                assert(before + (seq![copies@.last()@] + rest.0) =~= copy_views(copies@) + rest.0);
                            }
                        },
                    }
                    i = i + 1;
                }
                proof {
                    assert(all.skip(i as int).len() == 0);
                    assert(copy_views(copies@) + Seq::<CopyModel>::empty() =~= copy_views(copies@));
                }
                FetchPlan { copies, error: None }
            } else {
                let mut name = uuid.to_owned();
                name.append(".log.gz");
                let dest = path_join(dir, name.as_str());
                let mut copies: Vec<FetchCopy> = Vec::new();
                copies.push(FetchCopy { source: first, dest: FetchDest::Path(dest) });
                proof {
                    assert(copy_views(copies@) =~= spec_fetch_plan(dir@, all, None).0);
                }
                FetchPlan { copies, error: None }
            }
        },
    }
}

/// Characters below U+0080.
pub open spec fn all_ascii(s: Seq<char>) -> bool {
    forall|i: int| 0 <= i < s.len() ==> (#[trigger] s[i] as u32) < 0x80
}

proof fn lemma_ascii_utf8_len(s: Seq<char>)
    requires
        all_ascii(s),
    ensures
        utf8_len(s) == s.len(),
    decreases s.len(),
{
    if s.len() > 0 {
        assert(all_ascii(s.drop_first())) by {
            assert forall|i: int| 0 <= i < s.drop_first().len() implies (#[trigger] s.drop_first()[i] as u32) < 0x80 by {
                assert(s.drop_first()[i] == s[i + 1]);
            }
        }
        assert((s[0] as u32) < 0x80);
        lemma_ascii_utf8_len(s.drop_first());
    }
}

/// Facts about `{label}_{uuid}` followed by an ASCII tail.
proof fn lemma_parse_label_uuid_stem(label: Seq<char>, uuid: Seq<char>, stream: Option<Seq<char>>, name: Seq<char>)
    requires
        label.len() > 0,
        spec_uuid_like(uuid),
        run_stem(name) == Some((label + seq!['_'] + uuid, stream)),
    ensures
        !run_filename_cuts_char(name),
        spec_parse_run_filename(name) == Some((lower(uuid), label, stream)),
{
    let stem = label + seq!['_'] + uuid;
    let split = stem.len() - 37;
    assert(split == label.len());
    assert(stem.subrange(0, split) =~= label);
    assert(stem[split] == '_');
    assert(stem.subrange(split + 1, stem.len() as int) =~= uuid);
    let tail = stem.subrange(stem.len() - 37, stem.len() as int);
    assert(tail =~= seq!['_'] + uuid);
    assert(all_ascii(tail)) by {
        assert forall|i: int| 0 <= i < tail.len() implies (#[trigger] tail[i] as u32) < 0x80 by {
            if i > 0 {
                assert(tail[i] == uuid[i - 1]);
                assert(is_hex_char(uuid[i - 1]) || uuid[i - 1] == '-');
            }
        }
    }
    lemma_ascii_utf8_len(tail);
    assert(tail_boundary(stem, 37));
}

/// The gzip files the logger writes for a run (`{label}_{uuid}.log.gz`, or
/// its `_stdout`/`_stderr` split) are recognised by the query side as that
/// run: same label, the uuid in lower case, and the stream.
pub proof fn lemma_logged_run_files_are_recognised(label: Seq<char>, uuid: Seq<char>)
    requires
        label.len() > 0,
        spec_uuid_like(uuid),
    ensures
        ({
            let name = crate::logger::spec_output_path(label, uuid, None)->Some_0;
            let out = crate::logger::spec_split_stream_path(name, "stdout"@);
            let err = crate::logger::spec_split_stream_path(name, "stderr"@);
            &&& !run_filename_cuts_char(name)
            &&& spec_parse_run_filename(name) == Some((lower(uuid), label, None::<Seq<char>>))
            &&& !run_filename_cuts_char(out)
            &&& spec_parse_run_filename(out) == Some((lower(uuid), label, Some("stdout"@)))
            &&& !run_filename_cuts_char(err)
            &&& spec_parse_run_filename(err) == Some((lower(uuid), label, Some("stderr"@)))
        }),
{
    reveal_strlit(".log.gz");
    reveal_strlit("_stdout");
    reveal_strlit("_stderr");
    reveal_strlit("stdout");
    reveal_strlit("stderr");
    let ext = ".log.gz"@;
    let stem = label + seq!['_'] + uuid;
    let name = stem + ext;
    assert(crate::logger::spec_output_path(label, uuid, None)->Some_0 == name);
    // the combined file
    assert(name.subrange(name.len() - ext.len(), name.len() as int) =~= ext);
    assert(name.subrange(0, name.len() - ext.len()) =~= stem);
    assert(is_hex_char(uuid[35]));
    assert(stem[stem.len() - 1] == uuid[35]);
    assert(!is_suffix(stem, "_stdout"@)) by {
        if is_suffix(stem, "_stdout"@) {
            assert(stem.subrange(stem.len() - 7, stem.len() as int)[6] == stem[stem.len() - 1]);
        }
    }
    assert(!is_suffix(stem, "_stderr"@)) by {
        if is_suffix(stem, "_stderr"@) {
            assert(stem.subrange(stem.len() - 7, stem.len() as int)[6] == stem[stem.len() - 1]);
        }
    }
    assert(run_stem(name) == Some((stem, None::<Seq<char>>)));
    lemma_parse_label_uuid_stem(label, uuid, None, name);
    // the split files
    assert(crate::logger::split_stem(name) == stem);
    let out = crate::logger::spec_split_stream_path(name, "stdout"@);
    let err = crate::logger::spec_split_stream_path(name, "stderr"@);
    let so = stem + "_stdout"@;
    let se = stem + "_stderr"@;
    assert(out =~= so + ext);
    assert(err =~= se + ext);
    assert((so + ext).subrange((so + ext).len() - ext.len(), (so + ext).len() as int) =~= ext);
    assert((so + ext).subrange(0, (so + ext).len() - ext.len()) =~= so);
    assert(so.subrange(so.len() - 7, so.len() as int) =~= "_stdout"@);
    assert(so.subrange(0, so.len() - 7) =~= stem);
    assert(run_stem(out) == Some((stem, Some("stdout"@))));
    lemma_parse_label_uuid_stem(label, uuid, Some("stdout"@), out);
    assert((se + ext).subrange((se + ext).len() - ext.len(), (se + ext).len() as int) =~= ext);
    assert((se + ext).subrange(0, (se + ext).len() - ext.len()) =~= se);
    assert(se.subrange(se.len() - 7, se.len() as int) =~= "_stderr"@);
    assert(!is_suffix(se, "_stdout"@)) by {
        if is_suffix(se, "_stdout"@) {
            assert("_stdout"@[4] != "_stderr"@[4]);
        }
    }
    assert(se.subrange(0, se.len() - 7) =~= stem);
    assert(run_stem(err) == Some((stem, Some("stderr"@))));
    lemma_parse_label_uuid_stem(label, uuid, Some("stderr"@), err);
}

pub(crate) proof fn lemma_singleton_elements_equal<A>(s: Set<A>, a: A, b: A)
    requires
        s.finite(),
        s.len() == 1,
        s.contains(a),
        s.contains(b),
    ensures
        a == b,
{
    broadcast use vstd::set::group_set_axioms;

    if a != b {
        let r = s.remove(a);
        assert(r.len() == 0);
        assert(r.contains(b));
        assert(r.len() == r.remove(b).len() + 1);
    }
}

/// A resolved id names one run: every returned file has the same uuid,
/// each is selected by the id, none is missing, and there is at least one.
pub proof fn lemma_resolved_files_are_one_run(runs: Seq<RunFileModel>, id: Seq<char>)
    requires
        spec_resolve_id(runs, id) is Ok,
    ensures
        ({
            let v = spec_resolve_id(runs, id)->Ok_0;
            &&& v.len() > 0
            &&& forall|i: int, j: int| 0 <= i < v.len() && 0 <= j < v.len() ==> (#[trigger] v[i]).uuid == (#[trigger] v[j]).uuid
            &&& forall|i: int| 0 <= i < v.len() ==> spec_uuid_matches_id((#[trigger] v[i]).uuid, id)
            &&& forall|i: int| 0 <= i < runs.len() && spec_uuid_matches_id(runs[i].uuid, id) ==> v.contains(#[trigger] runs[i])
        }),
{
    broadcast use vstd::seq_lib::group_filter_ensures;
    broadcast use vstd::seq_lib::seq_to_set_is_finite;

    let pred = |r: RunFileModel| spec_uuid_matches_id(r.uuid, id);
    let v = matching_runs(runs, id);
    let us = run_uuids(v);
    if v.len() == 0 {
        assert(us.to_set() =~= Set::<Seq<char>>::empty());
        assert(us.to_set().len() == 0);
    }
    assert forall|i: int, j: int| 0 <= i < v.len() && 0 <= j < v.len() implies (#[trigger] v[i]).uuid == (#[trigger] v[j]).uuid by {
        assert(us[i] == v[i].uuid);
        assert(us[j] == v[j].uuid);
        assert(us.to_set().contains(us[i]));
        assert(us.to_set().contains(us[j]));
        lemma_singleton_elements_equal(us.to_set(), us[i], us[j]);
    }
    assert forall|i: int| 0 <= i < v.len() implies spec_uuid_matches_id((#[trigger] v[i]).uuid, id) by {
        runs.lemma_filter_pred(pred, i);
    }
    assert forall|i: int| 0 <= i < runs.len() && spec_uuid_matches_id(runs[i].uuid, id) implies v.contains(#[trigger] runs[i]) by {
        runs.lemma_filter_contains(pred, i);
    }
}

/// Resolving by a run's full uuid, in any ASCII case, gives exactly that
/// run's files, provided the listed uuids are lower-case hyphenated UUIDs
/// (as the run-file parser produces them).
pub proof fn lemma_full_uuid_resolves_to_its_run(runs: Seq<RunFileModel>, k: int, id: Seq<char>)
    requires
        0 <= k < runs.len(),
        forall|i: int| 0 <= i < runs.len() ==> spec_uuid_like(#[trigger] runs[i].uuid) && lower(runs[i].uuid) == runs[i].uuid,
        lower(id) == runs[k].uuid,
    ensures
        spec_resolve_id(runs, id) == Ok::<Seq<RunFileModel>, Seq<char>>(runs.filter(|r: RunFileModel| r.uuid == runs[k].uuid)),
{
    broadcast use vstd::seq_lib::group_filter_ensures;
    broadcast use vstd::seq_lib::seq_to_set_is_finite;
    broadcast use vstd::set::group_set_axioms;

    let u = runs[k].uuid;
    let pred = |r: RunFileModel| spec_uuid_matches_id(r.uuid, id);
    let same = |r: RunFileModel| r.uuid == u;
    assert(lower(id).len() == id.len());
    assert(id.len() == 36);
    assert forall|i: int| 0 <= i < runs.len() implies #[trigger] pred(runs[i]) == same(runs[i]) by {
        let r = runs[i];
        assert(lower(r.uuid) == r.uuid);
        if is_prefix(lower(r.uuid), lower(id)) {
            assert(r.uuid.len() == 36);
            assert(lower(r.uuid).subrange(0, 36) =~= lower(r.uuid));
        }
    }
    assert(runs.filter(pred) =~= runs.filter(same)) by {
        lemma_filter_congruent(runs, pred, same);
    }
    let v = runs.filter(same);
    let us = run_uuids(v);
    runs.lemma_filter_contains(same, k);
    let j = choose|j: int| 0 <= j < v.len() && v[j] == runs[k];
    assert(us[j] == u);
    assert forall|x: Seq<char>| us.to_set().contains(x) <==> x == u by {
        if us.to_set().contains(x) {
            let i = choose|i: int| 0 <= i < us.len() && us[i] == x;
            runs.lemma_filter_pred(same, i);
        }
    }
    assert(us.to_set() =~= Set::<Seq<char>>::empty().insert(u));
}

proof fn lemma_filter_congruent(s: Seq<RunFileModel>, p: spec_fn(RunFileModel) -> bool, q: spec_fn(RunFileModel) -> bool)
    requires
        forall|i: int| 0 <= i < s.len() ==> #[trigger] p(s[i]) == q(s[i]),
    ensures
        s.filter(p) == s.filter(q),
    decreases s.len(),
{
    reveal_with_fuel(Seq::<_>::filter, 1);
    if s.len() > 0 {
        assert forall|i: int| 0 <= i < s.drop_last().len() implies #[trigger] p(s.drop_last()[i]) == q(s.drop_last()[i]) by {
            assert(s.drop_last()[i] == s[i]);
        }
        lemma_filter_congruent(s.drop_last(), p, q);
        assert(p(s[s.len() - 1]) == q(s[s.len() - 1]));
    }
}

/// Fetching a one-file run copies that file (under `dir`) once: to stdout
/// for `-o -`, to the `-o PATH` destination (an absolute path unchanged, a
/// relative one under `dir`), else to `{uuid}.log.gz` under `dir`; and
/// nothing is copied when nothing matched.
pub proof fn lemma_fetch_local_single_file(dir: Seq<char>, matched: Seq<RunFileModel>, output: Option<Seq<char>>)
    ensures
        matched.len() == 0 ==> spec_fetch_plan(dir, matched, output).0.len() == 0
            && spec_fetch_plan(dir, matched, output).1 is Some,
        matched.len() == 1 ==> ({
            let r = matched[0];
            let plan = spec_fetch_plan(dir, matched, output);
            &&& plan.1 is None
            &&& plan.0.len() == 1
            &&& plan.0[0].source == crate::mongo_query::output_destination(dir, r.filename)
            &&& plan.0[0].dest == match output {
                None => Some(crate::mongo_query::output_destination(dir, r.uuid + ".log.gz"@)),
                Some(o) => if o == "-"@ {
                    None
                } else {
                    Some(crate::mongo_query::output_destination(dir, o))
                },
            }
        }),
{
    if dir.len() > 0 {
        assert(dir.last() == dir[dir.len() - 1]);
    }
}

/// How a stream is shown in a table: its name, or `-` for a combined log.
pub open spec fn shown_stream(stream: Option<Seq<char>>) -> Seq<char> {
    if stream matches Some(v) && v.len() > 0 {
        stream->0
    } else {
        "-"@
    }
}

/// The `ls` table of no files is its header alone, and listing one more
/// file appends exactly one line for it: uuid, label, stream (`-` when
/// combined), file name and size, separated by tabs. So a table of `n`
/// files is the header followed by `n` lines, one per file, in order.
pub proof fn lemma_ls_table_has_a_line_per_file(s: Seq<RunFileModel>, r: RunFileModel)
    ensures
        spec_format_local_ls(Seq::empty()) == "uuid\tlabel\tstream\tpath\tsize\n"@,
        spec_format_local_ls(s.push(r)) == spec_format_local_ls(s) + r.uuid + seq!['\t'] + r.label + seq!['\t']
            + shown_stream(r.stream) + seq!['\t'] + r.filename + seq!['\t'] + decimal(r.size as nat) + seq!['\n'],
{
    assert(s.push(r).drop_last() =~= s);
    assert(spec_format_local_ls(Seq::empty()) =~= "uuid\tlabel\tstream\tpath\tsize\n"@);
    assert(spec_format_local_ls(s.push(r)) =~= spec_format_local_ls(s) + r.uuid + seq!['\t'] + r.label + seq!['\t']
        + shown_stream(r.stream) + seq!['\t'] + r.filename + seq!['\t'] + decimal(r.size as nat) + seq!['\n']);
}

/// The `show` table likewise: its header, then one line per file in order,
/// the `ls` columns followed by the modification time (`-` before the
/// epoch).
pub proof fn lemma_show_table_has_a_line_per_file(s: Seq<RunFileModel>, r: RunFileModel)
    ensures
        spec_format_local_show(Seq::empty()) == "uuid\tlabel\tstream\tpath\tsize\tmtime\n"@,
        spec_format_local_show(s.push(r)) == spec_format_local_show(s) + r.uuid + seq!['\t'] + r.label + seq!['\t']
            + shown_stream(r.stream) + seq!['\t'] + r.filename + seq!['\t'] + decimal(r.size as nat) + seq!['\t']
            + (match r.mtime {
            Some(t) => rfc3339_seconds_text(t),
            None => "-"@,
        }) + seq!['\n'],
{
    assert(s.push(r).drop_last() =~= s);
    assert(spec_format_local_show(Seq::empty()) =~= "uuid\tlabel\tstream\tpath\tsize\tmtime\n"@);
    let mt = match r.mtime {
        Some(t) => rfc3339_seconds_text(t),
        None => "-"@,
    };
    assert(mtime_text(r.mtime) == mt);
    assert(spec_stream_display(r.stream) == shown_stream(r.stream));
    assert(show_rows(s.push(r)) == show_rows(s) + show_row(r));
    let row = r.uuid + seq!['\t'] + r.label + seq!['\t'] + shown_stream(r.stream) + seq!['\t'] + r.filename
        + seq!['\t'] + decimal(r.size as nat) + seq!['\t'] + mt + seq!['\n'];
    assert(show_row(r) == row);
    let h = "uuid\tlabel\tstream\tpath\tsize\tmtime\n"@;
    assert(h + (show_rows(s) + row) =~= (h + show_rows(s)) + row);
    assert(spec_format_local_show(s.push(r)) == spec_format_local_show(s) + row);
    assert(spec_format_local_show(s) + row =~= spec_format_local_show(s) + r.uuid + seq!['\t'] + r.label
        + seq!['\t'] + shown_stream(r.stream) + seq!['\t'] + r.filename + seq!['\t'] + decimal(r.size as nat)
        + seq!['\t'] + mt + seq!['\n']);

}

} // verus!
