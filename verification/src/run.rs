//! The decisions of one `bless` invocation: serve or wrap, the run's uuid,
//! what a remote session is opened with, the logger configuration, the
//! command to spawn, the duration text, which gzip files are persisted and
//! the exit code handed back to the shell.
use vstd::prelude::*;
use vstd::string::StringExecFns;
use crate::cli::{spec_gzip_output, strings_chars, Cli, CliModel};
use crate::logger::spec_split_stream_path;
use crate::error::{config_message, BlessError};
use crate::logger::{lemma_split_targets_distinct, spec_log_sinks, Level, opt_str, spec_log_targets, spec_output_path, LogTargets, LogTargetsModel, LoggerConfig};
use crate::query::{lemma_logged_run_files_are_recognised, spec_parse_run_filename, spec_uuid_like};
use crate::text::{lower, lower_char, push_char};

verus! {

/// Words joined by single spaces (`[String]::join(" ")`).
pub open spec fn spec_join_args(args: Seq<Seq<char>>) -> Seq<char>
    decreases args.len(),
{
    if args.len() == 0 {
        Seq::empty()
    } else if args.len() == 1 {
        args[0]
    } else {
        spec_join_args(args.drop_last()) + seq![' '] + args.last()
    }
}

/// The command's arguments as one string, separated by single spaces.
pub fn join_args(args: &[String]) -> (r: String)
    ensures
        r@ == spec_join_args(strings_chars(args@)),
{
    let ghost all = strings_chars(args@);
    let mut r = String::new();
    let mut i: usize = 0;
    proof {
        assert(all.take(0) =~= Seq::<Seq<char>>::empty());
    }
    while i < args.len()
        invariant
            i <= args@.len(),
            all == strings_chars(args@),
            r@ == spec_join_args(all.take(i as int)),
        decreases args@.len() - i,
    {
        proof {
            assert(all.take(i + 1).drop_last() =~= all.take(i as int));
            assert(all.take(i + 1).last() == args@[i as int]@);
        }
        if i > 0 {
            push_char(&mut r, ' ');
        } else {
            proof {
                assert(all.take(1).len() == 1);
            }
        }
        r.append(args[i].as_str());
        i = i + 1;
    }
    proof {
        assert(all.take(args@.len() as int) =~= all);
    }
    r
}

/// The exit status handed back to the shell: the command's own code
/// (truncated to a byte), else `128 + signal` for a command killed by a
/// signal, else 1.
pub open spec fn spec_exit_code(code: Option<i32>, signal: Option<i32>) -> u8 {
    match code {
        Some(c) => c as u8,
        None => match signal {
            Some(s) => (128 + (s as u8)) as u8,
            None => 1,
        },
    }
}

/// Exit code from a finished command's code and terminating signal.
pub fn exit_code_from_parts(code: Option<i32>, signal: Option<i32>) -> (r: u8)
    requires
        code is None && signal is Some ==> (signal->0 as u8) < 128,
    ensures
        r == spec_exit_code(code, signal),
{
    match code {
        Some(c) => c as u8,
        None => match signal {
            Some(s) => 128 + (s as u8),
            None => 1,
        },
    }
}

/// What a remote session is opened with.
#[derive(Clone, Debug)]
pub struct RemoteOpen {
    pub addr: String,
    pub command: String,
    pub args: String,
}

/// What a wrapped run starts from: its uuid, the remote session to open (if
/// any), and whether the logs are persisted in MongoDB afterwards.
#[derive(Clone, Debug)]
pub struct WrapPlan {
    pub uuid: String,
    pub remote: Option<RemoteOpen>,
    pub persist: bool,
}

/// Serve mode, or a wrapped command.
#[derive(Clone, Debug)]
pub enum RunStart {
    Serve { addr: String },
    Wrap(WrapPlan),
}

/// A remote-session request seen through its characters: address, command
/// and joined arguments.
pub open spec fn remote_view(r: Option<RemoteOpen>) -> Option<(Seq<char>, Seq<char>, Seq<char>)> {
    match r {
        Some(o) => Some((o.addr@, o.command@, o.args@)),
        None => None,
    }
}

/// The first word of the command line, or empty.
pub open spec fn spec_first_word(c: Seq<Seq<char>>) -> Seq<char> {
    if c.len() > 0 {
        c[0]
    } else {
        Seq::empty()
    }
}

/// The words after the first, joined by spaces (empty when there are none).
pub open spec fn spec_rest_joined(c: Seq<Seq<char>>) -> Seq<char> {
    if c.len() > 0 {
        spec_join_args(c.skip(1))
    } else {
        Seq::empty()
    }
}

/// The remote session `--remote ADDR` asks for.
pub open spec fn spec_remote_open(c: CliModel) -> Option<(Seq<char>, Seq<char>, Seq<char>)> {
    match c.remote {
        Some(a) => Some((a, spec_first_word(c.command), spec_rest_joined(c.command))),
        None => None,
    }
}

/// Whether a run wraps a command under `uuid` as the command line asks.
pub open spec fn spec_wrap_plan(c: CliModel, uuid: Seq<char>, p: WrapPlan) -> bool {
    &&& p.uuid@ == uuid
    &&& remote_view(p.remote) == spec_remote_open(c)
    &&& p.persist == c.use_mongodb
}

/// Whether `r` is what the command line asks for, with `uuid` for a
/// wrapped run.
pub open spec fn spec_run_start(c: CliModel, uuid: Seq<char>, r: RunStart) -> bool {
    match c.serve {
        Some(a) => r matches RunStart::Serve { addr } && addr@ == a,
        None => r matches RunStart::Wrap(p) && spec_wrap_plan(c, uuid, p),
    }
}

/// Copies of the strings of `v` from position `from` on.
fn strings_from(v: &Vec<String>, from: usize) -> (r: Vec<String>)
    requires
        from <= v@.len(),
    ensures
        strings_chars(r@) == strings_chars(v@).subrange(from as int, v@.len() as int),
{
    let mut r: Vec<String> = Vec::new();
    let mut i: usize = from;
    while i < v.len()
        invariant
            from <= i <= v@.len(),
            r@.len() == i - from,
            strings_chars(r@) == strings_chars(v@).subrange(from as int, i as int),
        decreases v@.len() - i,
    {
        let ghost before = r@;
        r.push(v[i].clone());
        proof {
            assert(r@ =~= before.push(v@[i as int]));
            assert(strings_chars(r@) =~= strings_chars(v@).subrange(from as int, i + 1));
        }
        i = i + 1;
    }
    r
}

/// The remote session the command line asks for.
pub fn remote_open(cli: &Cli) -> (r: Option<RemoteOpen>)
    ensures
        remote_view(r) == spec_remote_open(cli@),
{
    match &cli.remote {
        Some(a) => {
            let n = cli.command.len();
            let command = if n > 0 {
                cli.command[0].clone()
            } else {
                String::new()
            };
            let args = if n > 0 {
                let rest = strings_from(&cli.command, 1);
                proof {
                    assert(strings_chars(cli.command@).subrange(1, n as int) =~= strings_chars(cli.command@).skip(1));
                }
                join_args(&rest)
            } else {
                String::new()
            };
            Some(RemoteOpen { addr: a.clone(), command, args })
        },
        None => None,
    }
}

/// Serve mode when `--serve` is given; otherwise the plan of a wrapped run
/// under `uuid`.
pub fn plan_run(cli: &Cli, uuid: &str) -> (r: RunStart)
    ensures
        spec_run_start(cli@, uuid@, r),
        r matches RunStart::Wrap(p) ==> p.persist == cli.use_mongodb && p.uuid@ == uuid@,
        (r is Serve) == (cli.serve is Some),
{
    match &cli.serve {
        Some(a) => RunStart::Serve { addr: a.clone() },
        None => RunStart::Wrap(WrapPlan { uuid: uuid.to_owned(), remote: remote_open(cli), persist: cli.use_mongodb }),
    }
}

/// Calls `uuid::Uuid::new_v4()` and renders it with `Display`: a random
/// version-4 UUID in the hyphenated lower-case form. The contract states
/// the shape of every outcome (hex digits and hyphens, lower case, version
/// digit `4`); which UUID comes out is left open.
#[verifier::external_body]
fn new_run_uuid() -> (r: String)
    ensures
        spec_uuid_like(r@),
        forall|i: int| 0 <= i < r@.len() ==> lower_char(#[trigger] r@[i]) == r@[i],
        r@[14] == '4',
{
    uuid::Uuid::new_v4().to_string()
}

/// How an invocation starts: serve mode, or a wrapped run under a freshly
/// drawn uuid. Whatever uuid is drawn, it is a lower-case hyphenated
/// version-4 UUID and the plan is the one the command line asks for.
pub fn begin_run(cli: &Cli) -> (r: RunStart)
    ensures
        match r {
            RunStart::Serve { .. } => spec_run_start(cli@, Seq::empty(), r),
            RunStart::Wrap(p) => {
                &&& spec_run_start(cli@, p.uuid@, r)
                &&& p.persist == cli.use_mongodb
                &&& spec_uuid_like(p.uuid@)
                &&& forall|i: int| 0 <= i < p.uuid@.len() ==> lower_char(#[trigger] p.uuid@[i]) == p.uuid@[i]
            },
        },
{
    match &cli.serve {
        Some(a) => RunStart::Serve { addr: a.clone() },
        None => {
            let uuid = new_run_uuid();
            plan_run(cli, uuid.as_str())
        },
    }
}

/// The logger configuration of a wrapped run.
pub fn logger_config<'a>(cli: &'a Cli, uuid: &'a str) -> (r: LoggerConfig<'a>)
    ensures
        r.label@ == cli.label@,
        r.uuid@ == uuid@,
        r.use_mongodb == cli.use_mongodb,
        r.no_timestamp == cli.no_timestamp,
        *r.format == cli.format,
        opt_str(r.output) == spec_gzip_output(cli@),
        r.split == cli.split,
{
    LoggerConfig {
        label: cli.label.as_str(),
        uuid,
        use_mongodb: cli.use_mongodb,
        no_timestamp: cli.no_timestamp,
        format: &cli.format,
        output: cli.gzip_output(),
        split: cli.split,
    }
}

/// The refusal of a run with nothing to execute.
pub open spec fn missing_command_message() -> Seq<char> {
    "a command is required unless --serve is set"@
}

/// The program to spawn and its arguments; a `Config` error when the
/// command line holds no command.
pub fn command_and_args(cli: &Cli) -> (r: Result<(String, Vec<String>), BlessError>)
    ensures
        match r {
            Ok((c, a)) => cli@.command.len() > 0 && c@ == cli@.command[0] && strings_chars(a@)
                == cli@.command.skip(1),
            Err(e) => cli@.command.len() == 0 && config_message(e) == Some(missing_command_message()),
        },
{
    if cli.command.len() == 0 {
        return Err(BlessError::Config("a command is required unless --serve is set".to_owned()));
    }
    let rest = strings_from(&cli.command, 1);
    proof {
        assert(strings_chars(cli.command@).subrange(1, cli.command@.len() as int) =~= cli@.command.skip(1));
    }
    Ok((cli.command[0].clone(), rest))
}

/// What `humantime::format_duration` renders for a duration of `secs`
/// seconds and `nanos` nanoseconds.
pub uninterp spec fn humantime_duration_text(secs: u64, nanos: u32) -> Seq<char>;

/// Calls `humantime::format_duration(Duration::new(secs, nanos))` and
/// renders it with `Display`. The text is named, not restated; the zero
/// duration renders as `0s`.
#[verifier::external_body]
fn format_duration_text(secs: u64, nanos: u32) -> (r: String)
    requires
        nanos < 1_000_000_000,
    ensures
        r@ == humantime_duration_text(secs, nanos),
        secs == 0 && nanos == 0 ==> r@ == "0s"@,
{
    humantime::format_duration(std::time::Duration::new(secs, nanos)).to_string()
}

/// The duration recorded for a run: the elapsed time rendered by humantime,
/// or `unknown` when the clock went backwards.
pub fn duration_text(elapsed: Option<(u64, u32)>) -> (r: String)
    requires
        match elapsed {
            Some((_, n)) => n < 1_000_000_000,
            None => true,
        },
    ensures
        r@ == match elapsed {
            Some((s, n)) => humantime_duration_text(s, n),
            None => "unknown"@,
        },
{
    match elapsed {
        Some((s, n)) => format_duration_text(s, n),
        None => "unknown".to_owned(),
    }
}

/// One gzip file written by a run, with its stream when the run is split.
#[derive(Clone, Debug)]
pub struct GzipFile {
    pub path: String,
    pub stream: Option<String>,
}

/// A gzip file seen through its characters.
pub open spec fn gzip_file_view(f: GzipFile) -> (Seq<char>, Option<Seq<char>>) {
    (f.path@, match f.stream {
        Some(s) => Some(s@),
        None => None,
    })
}

/// The files a MongoDB run uploads, one document each: the combined log
/// with no stream, or stdout then stderr for a split run.
pub open spec fn spec_gzip_files(targets: LogTargetsModel) -> Option<Seq<(Seq<char>, Option<Seq<char>>)>> {
    match targets {
        LogTargetsModel::StdoutOnly => None,
        LogTargetsModel::SingleFile(p) => Some(seq![(p, None)]),
        LogTargetsModel::Split { stdout, stderr } => Some(
            seq![(stdout, Some("stdout"@)), (stderr, Some("stderr"@))],
        ),
    }
}

/// The refusal of `--use-mongodb` together with `-o -`.
pub open spec fn no_gzip_message() -> Seq<char> {
    "--use-mongodb needs a gzip file to upload, but -o - writes none"@
}

/// The gzip files a MongoDB run persists; a `Config` error when the run
/// writes none (`-o -`).
pub fn gzip_files(targets: &LogTargets) -> (r: Result<Vec<GzipFile>, BlessError>)
    ensures
        match r {
            Ok(v) => spec_gzip_files(targets@) == Some(v@.map_values(|f: GzipFile| gzip_file_view(f))),
            Err(e) => spec_gzip_files(targets@) is None && config_message(e) == Some(no_gzip_message()),
        },
{
    match targets {
        LogTargets::StdoutOnly => Err(
            BlessError::Config("--use-mongodb needs a gzip file to upload, but -o - writes none".to_owned()),
        ),
        LogTargets::SingleFile(p) => {
            let v = vec![GzipFile { path: p.clone(), stream: None }];
            proof {
                assert(v@.map_values(|f: GzipFile| gzip_file_view(f)) =~= seq![(p@, None::<Seq<char>>)]);
            }
            Ok(v)
        },
        LogTargets::Split { stdout, stderr } => {
            let v = vec![
                GzipFile { path: stdout.clone(), stream: Some("stdout".to_owned()) },
                GzipFile { path: stderr.clone(), stream: Some("stderr".to_owned()) },
            ];
            proof {
                assert(v@.map_values(|f: GzipFile| gzip_file_view(f)) =~= seq![
                    (stdout@, Some("stdout"@)),
                    (stderr@, Some("stderr"@)),
                ]);
            }
            Ok(v)
        },
    }
}

/// The stream recorded for a persisted file: its own, or the empty one for
/// a combined log.
pub fn persisted_stream(file: &GzipFile) -> (r: &str)
    ensures
        r@ == match file.stream {
            Some(s) => s@,
            None => Seq::<char>::empty(),
        },
{
    match &file.stream {
        Some(s) => s.as_str(),
        None => {
            proof {
                reveal_strlit("");
            }
            ""
        },
    }
}

/// The wrapped command's exit code is passed through unchanged whenever it
/// fits a byte, and a death by signal `s` (below 128) is reported as
/// `128 + s`, never as success.
pub proof fn lemma_exit_code_passthrough(code: i32, sig: i32)
    ensures
        0 <= code < 256 ==> spec_exit_code(Some(code), None) == code,
        0 <= code < 256 ==> spec_exit_code(Some(code), Some(sig)) == code,
        0 < sig < 128 ==> spec_exit_code(None, Some(sig)) == 128 + sig,
        0 < sig < 128 ==> spec_exit_code(None, Some(sig)) != 0,
        spec_exit_code(None, None) == 1,
{
    assert(0 <= code < 256 ==> code as u8 == code) by (bit_vector);
    assert(0 < sig < 128 ==> (sig as u8) == sig) by (bit_vector);
}

/// A split MongoDB run persists exactly two files, stdout then stderr, at
/// two different paths; a combined run persists its one file with no
/// stream; `-o -` persists nothing.
pub proof fn lemma_split_run_persists_both_streams(label: Seq<char>, uuid: Seq<char>, output: Option<Seq<char>>)
    ensures
        spec_output_path(label, uuid, output) is Some ==> ({
            let files = spec_gzip_files(spec_log_targets(label, uuid, output, true));
            &&& files is Some
            &&& files->0.len() == 2
            &&& files->0[0].1 == Some("stdout"@)
            &&& files->0[1].1 == Some("stderr"@)
            &&& files->0[0].0 != files->0[1].0
        }),
        spec_output_path(label, uuid, output) is Some ==> ({
            let files = spec_gzip_files(spec_log_targets(label, uuid, output, false));
            &&& files is Some
            &&& files->0.len() == 1
            &&& files->0[0].0 == spec_output_path(label, uuid, output)->0
            &&& files->0[0].1 is None
        }),
        spec_output_path(label, uuid, output) is None ==> spec_gzip_files(spec_log_targets(label, uuid, output, true))
            is None && spec_gzip_files(spec_log_targets(label, uuid, output, false)) is None,
{
    if spec_output_path(label, uuid, output) is Some {
        lemma_split_targets_distinct(label, uuid, output);
    }
}

/// A wrapped run's own gzip files name it exactly: for the lower-case uuid
/// a run draws, the query side reads the default file name (and its split
/// names) back as that uuid, the label and the stream.
pub proof fn lemma_run_files_name_their_run(label: Seq<char>, uuid: Seq<char>)
    requires
        label.len() > 0,
        spec_uuid_like(uuid),
        forall|i: int| 0 <= i < uuid.len() ==> lower_char(#[trigger] uuid[i]) == uuid[i],
    ensures
        ({
            let name = spec_output_path(label, uuid, None)->0;
            &&& spec_parse_run_filename(name) == Some((uuid, label, None::<Seq<char>>))
            &&& spec_parse_run_filename(spec_split_stream_path(name, "stdout"@)) == Some((uuid, label, Some("stdout"@)))
            &&& spec_parse_run_filename(spec_split_stream_path(name, "stderr"@)) == Some((uuid, label, Some("stderr"@)))
        }),
{
    lemma_logged_run_files_are_recognised(label, uuid);
    assert(lower(uuid) =~= uuid);
}

/// `--remote` without `--local` and without `-o` writes no local gzip, with
/// or without `--split`; with `--local` the default file is written.
pub proof fn lemma_remote_without_local_writes_no_gzip(c: CliModel, uuid: Seq<char>)
    requires
        c.remote is Some,
        c.output is None,
    ensures
        !c.local ==> spec_log_targets(c.label, uuid, spec_gzip_output(c), c.split) == LogTargetsModel::StdoutOnly,
        c.local ==> spec_gzip_output(c) is None && spec_output_path(c.label, uuid, spec_gzip_output(c)) is Some,
{
}

/// The closing TRACE line of a run, `{command} {args} took {duration} to
/// complete.`; none when the duration is unknown or the run is stored in
/// MongoDB (whose archive keeps only the command's output).
pub open spec fn spec_duration_trace(command: Seq<char>, args: Seq<char>, duration: Option<Seq<char>>, persist: bool) -> Option<Seq<char>> {
    match duration {
        Some(d) => if persist {
            None
        } else {
            Some(command + seq![' '] + args + " took "@ + d + " to complete."@)
        },
        None => None,
    }
}

/// The closing TRACE line, if the run logs one (`duration` is `None` when
/// the elapsed time could not be measured).
pub fn duration_trace(command: &str, args: &str, duration: Option<&str>, persist: bool) -> (r: Option<String>)
    ensures
        opt_str_string(r) == spec_duration_trace(command@, args@, opt_str(duration), persist),
{
    match duration {
        Some(d) => if persist {
            None
        } else {
            let mut r = command.to_owned();
            push_char(&mut r, ' ');
            r.append(args);
            r.append(" took ");
            r.append(d);
            r.append(" to complete.");
            Some(r)
        },
        None => None,
    }
}

/// `Option<String>` seen through its characters.
pub open spec fn opt_str_string(o: Option<String>) -> Option<Seq<char>> {
    match o {
        Some(s) => Some(s@),
        None => None,
    }
}

/// The two output pipes of the wrapped command.
#[derive(Clone, Copy, Debug, PartialEq, Eq, Structural)]
pub enum Pipe {
    Stdout,
    Stderr,
}

/// The level a line read from a pipe is logged at: INFO for the command's
/// stdout, WARN for its stderr.
pub open spec fn spec_pipe_level(p: Pipe) -> Level {
    match p {
        Pipe::Stdout => Level::Info,
        Pipe::Stderr => Level::Warn,
    }
}

/// The level of a line of the command's output.
pub fn pipe_level(p: Pipe) -> (l: Level)
    ensures
        l == spec_pipe_level(p),
{
    match p {
        Pipe::Stdout => Level::Info,
        Pipe::Stderr => Level::Warn,
    }
}

/// The command's output always reaches stdout and its archive: with
/// `--split` its stdout lines go to the stdout file only and its stderr
/// lines to the stderr file only; with one file (MongoDB or not) both go to
/// it.
pub proof fn lemma_command_output_is_archived(label: Seq<char>, uuid: Seq<char>, output: Option<Seq<char>>, use_mongodb: bool, p: Pipe)
    requires
        spec_output_path(label, uuid, output) is Some,
    ensures
        ({
            let split = spec_log_sinks(spec_log_targets(label, uuid, output, true), use_mongodb, spec_pipe_level(p));
            &&& split.stdout
            &&& split.stdout_gzip == (p == Pipe::Stdout)
            &&& split.stderr_gzip == (p == Pipe::Stderr)
        }),
        spec_log_sinks(spec_log_targets(label, uuid, output, false), use_mongodb, spec_pipe_level(p)).combined_gzip,
{
}

/// Two command lines that differ only in `--force-gridfs` persist alike.
pub proof fn lemma_force_gridfs_does_not_decide_persistence(c: CliModel, uuid: Seq<char>, r: RunStart, r2: RunStart)
    requires
        spec_run_start(c, uuid, r),
        spec_run_start(CliModel { force_gridfs: !c.force_gridfs, ..c }, uuid, r2),
        c.serve is None,
    ensures
        r matches RunStart::Wrap(p) && r2 matches RunStart::Wrap(p2) && p.persist == p2.persist,
{
}

/// A wrapped run is stored in MongoDB exactly when `--use-mongodb` was
/// given, whatever `--force-gridfs` says (which only picks GridFS over an
/// embedded blob); serve mode is chosen exactly by `--serve`, and a wrapped
/// run keeps the uuid it was given.
pub proof fn lemma_persist_follows_use_mongodb(c: CliModel, uuid: Seq<char>, r: RunStart)
    requires
        spec_run_start(c, uuid, r),
    ensures
        (r is Serve) == (c.serve is Some),
        r matches RunStart::Wrap(p) ==> p.persist == c.use_mongodb && p.uuid@ == uuid,
{
}

} // verus!
