//! Where log lines go and how they look: gzip target naming (combined or
//! split by stream), which levels reach which split file, and the line
//! formats written to stdout and to the gzip archives.
use vstd::prelude::*;
use vstd::string::StringExecFns;
use crate::cli::OutputFormat;
use crate::text::{chars_of, ends_with, strip_suffix, string_of, sub_chars};

verus! {

/// Severity of a log record, most severe first.
#[derive(Clone, Copy, Debug, PartialEq, Eq, Structural)]
pub enum Level {
    Error,
    Warn,
    Info,
    Debug,
    Trace,
}

/// Upper-case display name of a level.
pub open spec fn level_name(l: Level) -> Seq<char> {
    match l {
        Level::Error => "ERROR"@,
        Level::Warn => "WARN"@,
        Level::Info => "INFO"@,
        Level::Debug => "DEBUG"@,
        Level::Trace => "TRACE"@,
    }
}

impl Level {
    /// Upper-case display name (`INFO`, `WARN`, ...).
    pub fn as_str(&self) -> (s: &'static str)
        ensures
            s@ == level_name(*self),
    {
        match self {
            Level::Error => "ERROR",
            Level::Warn => "WARN",
            Level::Info => "INFO",
            Level::Debug => "DEBUG",
            Level::Trace => "TRACE",
        }
    }
}

/// Command stdout and bless metadata belong in the stdout gzip.
pub fn is_stdout_split_level(level: Level) -> (b: bool)
    ensures
        b == (level == Level::Info || level == Level::Trace),
{
    match level {
        Level::Info | Level::Trace => true,
        _ => false,
    }
}

/// Command stderr and command-failure lines belong in the stderr gzip.
pub fn is_stderr_split_level(level: Level) -> (b: bool)
    ensures
        b == (level == Level::Warn || level == Level::Error),
{
    match level {
        Level::Warn | Level::Error => true,
        _ => false,
    }
}

/// `base` with `_{stream}` put before the log extension: `foo.log.gz`
/// becomes `foo_{stream}.log.gz`, `foo.gz` becomes `foo_{stream}.log.gz`,
/// and anything else gets `_{stream}.log.gz` appended.
pub open spec fn spec_split_stream_path(base: Seq<char>, stream: Seq<char>) -> Seq<char> {
    let stem = match strip_suffix(base, ".log.gz"@) {
        Some(s) => s,
        None => match strip_suffix(base, ".gz"@) {
            Some(s) => s,
            None => base,
        },
    };
    stem + seq!['_'] + stream + ".log.gz"@
}

/// Inserts `_stdout` / `_stderr` (or any stream name) before the log
/// extension.
pub fn split_stream_path(base: &str, stream: &str) -> (r: String)
    ensures
        r@ == spec_split_stream_path(base@, stream@),
{
    let b = chars_of(base);
    let log_gz = chars_of(".log.gz");
    let gz = chars_of(".gz");
    let stem = if ends_with(&b, &log_gz) {
        sub_chars(&b, 0, b.len() - log_gz.len())
    } else if ends_with(&b, &gz) {
        sub_chars(&b, 0, b.len() - gz.len())
    } else {
        b
    };
    let mut r = string_of(&stem);
    r.append("_");
    r.append(stream);
    r.append(".log.gz");
    proof {
        reveal_strlit("_");
    }
    r
}

/// What the logger is configured with.
pub struct LoggerConfig<'a> {
    pub label: &'a str,
    pub uuid: &'a str,
    pub use_mongodb: bool,
    pub no_timestamp: bool,
    pub format: &'a OutputFormat,
    pub output: Option<&'a str>,
    pub split: bool,
}

/// The gzip path the configuration asks for: none for `-o -`, the given
/// path for `-o PATH`, else `{label}_{uuid}.log.gz`.
pub open spec fn spec_output_path(label: Seq<char>, uuid: Seq<char>, output: Option<Seq<char>>) -> Option<Seq<char>> {
    match output {
        Some(p) => if p == "-"@ {
            None
        } else {
            Some(p)
        },
        None => Some(label + seq!['_'] + uuid + ".log.gz"@),
    }
}

/// `Option<&str>` seen through the characters.
pub open spec fn opt_str(o: Option<&str>) -> Option<Seq<char>> {
    match o {
        Some(s) => Some(s@),
        None => None,
    }
}

pub fn resolve_output_path(config: &LoggerConfig) -> (r: Option<String>)
    ensures
        opt_string(r) == spec_output_path(config.label@, config.uuid@, opt_str(config.output)),
{
    match config.output {
        Some(p) => {
            let pc = chars_of(p);
            let dash = chars_of("-");
            if crate::text::chars_eq(&pc, &dash) {
                None
            } else {
                Some(p.to_owned())
            }
        },
        None => {
            let mut s = config.label.to_owned();
            s.append("_");
            s.append(config.uuid);
            s.append(".log.gz");
            proof {
                reveal_strlit("_");
            }
            Some(s)
        },
    }
}

/// `Option<String>` seen through the characters.
pub open spec fn opt_string(o: Option<String>) -> Option<Seq<char>> {
    match o {
        Some(s) => Some(s@),
        None => None,
    }
}

/// Gzip paths a configuration creates. `StdoutOnly` for `-o -`, with or
/// without `--split`.
#[derive(Clone, Debug, PartialEq, Eq)]
pub enum LogTargets {
    StdoutOnly,
    SingleFile(String),
    Split { stdout: String, stderr: String },
}

/// Log targets seen through the characters of their paths.
pub enum LogTargetsModel {
    StdoutOnly,
    SingleFile(Seq<char>),
    Split { stdout: Seq<char>, stderr: Seq<char> },
}

impl View for LogTargets {
    type V = LogTargetsModel;

    open spec fn view(&self) -> LogTargetsModel {
        match self {
            LogTargets::StdoutOnly => LogTargetsModel::StdoutOnly,
            LogTargets::SingleFile(p) => LogTargetsModel::SingleFile(p@),
            LogTargets::Split { stdout, stderr } => LogTargetsModel::Split { stdout: stdout@, stderr: stderr@ },
        }
    }
}

/// The targets a configuration resolves to.
pub open spec fn spec_log_targets(label: Seq<char>, uuid: Seq<char>, output: Option<Seq<char>>, split: bool) -> LogTargetsModel {
    match spec_output_path(label, uuid, output) {
        None => LogTargetsModel::StdoutOnly,
        Some(p) => if split {
            LogTargetsModel::Split {
                stdout: spec_split_stream_path(p, "stdout"@),
                stderr: spec_split_stream_path(p, "stderr"@),
            }
        } else {
            LogTargetsModel::SingleFile(p)
        },
    }
}

/// Resolves the gzip targets of a configuration.
pub fn resolve_log_targets(config: &LoggerConfig) -> (r: LogTargets)
    ensures
        r@ == spec_log_targets(config.label@, config.uuid@, opt_str(config.output), config.split),
{
    match resolve_output_path(config) {
        None => LogTargets::StdoutOnly,
        Some(path) => if config.split {
            LogTargets::Split {
                stdout: split_stream_path(path.as_str(), "stdout"),
                stderr: split_stream_path(path.as_str(), "stderr"),
            }
        } else {
            LogTargets::SingleFile(path)
        },
    }
}

/// Which sinks a record of a given level reaches.
#[derive(Clone, Copy, Debug, PartialEq, Eq, Structural)]
pub struct LogSinks {
    pub stdout: bool,
    pub combined_gzip: bool,
    pub stdout_gzip: bool,
    pub stderr_gzip: bool,
}

/// Routing of a record: stdout always; with split targets, the stdout gzip
/// takes Info/Trace and the stderr gzip Warn/Error; with one gzip it takes
/// every record, or only Info/Warn (command output) when the run is stored
/// in MongoDB.
pub open spec fn spec_log_sinks(targets: LogTargetsModel, use_mongodb: bool, level: Level) -> LogSinks {
    match targets {
        LogTargetsModel::Split { .. } => LogSinks {
            stdout: true,
            combined_gzip: false,
            stdout_gzip: level == Level::Info || level == Level::Trace,
            stderr_gzip: level == Level::Warn || level == Level::Error,
        },
        LogTargetsModel::SingleFile(_) => LogSinks {
            stdout: true,
            combined_gzip: !use_mongodb || level == Level::Info || level == Level::Warn,
            stdout_gzip: false,
            stderr_gzip: false,
        },
        LogTargetsModel::StdoutOnly => LogSinks {
            stdout: true,
            combined_gzip: false,
            stdout_gzip: false,
            stderr_gzip: false,
        },
    }
}

/// Where a record of `level` goes for these targets.
pub fn log_sinks(targets: &LogTargets, use_mongodb: bool, level: Level) -> (r: LogSinks)
    ensures
        r == spec_log_sinks(targets@, use_mongodb, level),
{
    match targets {
        LogTargets::Split { .. } => LogSinks {
            stdout: true,
            combined_gzip: false,
            stdout_gzip: is_stdout_split_level(level),
            stderr_gzip: is_stderr_split_level(level),
        },
        LogTargets::SingleFile(_) => LogSinks {
            stdout: true,
            combined_gzip: !use_mongodb || level == Level::Info || level == Level::Warn,
            stdout_gzip: false,
            stderr_gzip: false,
        },
        LogTargets::StdoutOnly => LogSinks {
            stdout: true,
            combined_gzip: false,
            stdout_gzip: false,
            stderr_gzip: false,
        },
    }
}

/// Two decimal digits of `n < 100`.
pub open spec fn two_digits(n: nat) -> Seq<char> {
    seq![crate::text::digit_char(n / 10), crate::text::digit_char(n % 10)]
}

/// `humantime::format_rfc3339_seconds` of the instant `secs` seconds after
/// the Unix epoch, as text (`YYYY-MM-DDTHH:MM:SSZ`, UTC).
pub uninterp spec fn rfc3339_seconds_text(secs: u64) -> Seq<char>;

/// Calls `humantime::format_rfc3339_seconds` on `UNIX_EPOCH + secs` and
/// renders it. Claimed: the text equals `rfc3339_seconds_text(secs)`; it is
/// twenty characters `YYYY-MM-DDTHH:MM:SSZ` whose time-of-day part is the
/// hour, minute and second of `secs` modulo one day. The calendar date is
/// left to the name. `humantime` refuses (its `Display` fails, so
/// `to_string` would panic) from year 10000 on, hence the bound.
#[verifier::external_body]
pub fn format_rfc3339_seconds(secs: u64) -> (r: String)
    requires
        secs < 253_402_300_800,
    ensures
        r@ == rfc3339_seconds_text(secs),
        r@.len() == 20,
        r@[4] == '-',
        r@[7] == '-',
        r@[10] == 'T',
        r@.subrange(11, 19) == two_digits(((secs % 86400) / 3600) as nat) + seq![':']
            + two_digits(((secs % 3600) / 60) as nat) + seq![':'] + two_digits((secs % 60) as nat),
        r@[19] == 'Z',
{
    humantime::format_rfc3339_seconds(std::time::UNIX_EPOCH + std::time::Duration::from_secs(secs)).to_string()
}

/// Hex digit (lower case) of `d < 16`.
pub open spec fn hex_lower(d: nat) -> char {
    if d < 10 {
        crate::text::digit_char(d)
    } else {
        ((87 + d) as u32) as char
    }
}

/// How `serde_json` writes one character inside a JSON string.
pub open spec fn json_escape_char(c: char) -> Seq<char> {
    if c == '"' {
        seq!['\\', '"']
    } else if c == '\\' {
        seq!['\\', '\\']
    } else if c == '\u{8}' {
        seq!['\\', 'b']
    } else if c == '\t' {
        seq!['\\', 't']
    } else if c == '\n' {
        seq!['\\', 'n']
    } else if c == '\u{c}' {
        seq!['\\', 'f']
    } else if c == '\r' {
        seq!['\\', 'r']
    } else if (c as u32) < 0x20 {
        seq!['\\', 'u', '0', '0', hex_lower((c as u32 / 16) as nat), hex_lower((c as u32 % 16) as nat)]
    } else {
        seq![c]
    }
}

/// The escaped body of a JSON string.
pub open spec fn json_escape(s: Seq<char>) -> Seq<char>
    decreases s.len(),
{
    if s.len() == 0 {
        Seq::empty()
    } else {
        json_escape(s.drop_last()) + json_escape_char(s.last())
    }
}

/// A JSON string literal holding `s`.
pub open spec fn json_quote(s: Seq<char>) -> Seq<char> {
    seq!['"'] + json_escape(s) + seq!['"']
}

/// `serde_json::to_string` of a `&str`: the string in double quotes with
/// `"`, `\` and control characters below U+0020 escaped (`\b \t \n \f \r`,
/// others as `\u00xx`), everything else verbatim. Serializing a `str`
/// cannot fail (its documentation names only failing `Serialize` impls and
/// non-string map keys).
#[verifier::external_body]
pub fn json_string(s: &str) -> (r: String)
    ensures
        r@ == json_quote(s@),
{
    match serde_json::to_string(s) {
        Ok(v) => v,
        Err(_) => String::new(),
    }
}

/// `[{ts} {LEVEL}] {message}`, or `[{LEVEL}] {message}` without a timestamp.
pub open spec fn spec_log_line(ts: Option<Seq<char>>, level: Level, message: Seq<char>) -> Seq<char> {
    let head = match ts {
        Some(t) => t + seq![' '],
        None => Seq::empty(),
    };
    seq!['['] + head + level_name(level) + seq![']', ' '] + message
}

/// One log line in the text format.
pub fn format_log_line(ts: Option<&str>, level: Level, message: &str) -> (r: String)
    ensures
        r@ == spec_log_line(opt_str(ts), level, message@),
{
    let mut r = String::new();
    r.append("[");
    match ts {
        Some(t) => {
            r.append(t);
            r.append(" ");
        },
        None => {},
    }
    r.append(level.as_str());
    r.append("] ");
    r.append(message);
    proof {
        reveal_strlit("[");
        reveal_strlit(" ");
        reveal_strlit("] ");
        assert(r@ =~= spec_log_line(opt_str(ts), level, message@));
    }
    r
}

/// One JSON line `{"ts":..,"level":..,"msg":..}` (keys in this order).
pub open spec fn spec_jsonl_line(ts: Seq<char>, level: Level, message: Seq<char>) -> Seq<char> {
    "{\"ts\":"@ + json_quote(ts) + ",\"level\":"@ + json_quote(level_name(level)) + ",\"msg\":"@
        + json_quote(message) + "}"@
}

/// One log line in the JSON-lines format.
pub fn format_jsonl_line(ts: &str, level: Level, message: &str) -> (r: String)
    ensures
        r@ == spec_jsonl_line(ts@, level, message@),
{
    let mut r = String::new();
    r.append("{\"ts\":");
    let q = json_string(ts);
    r.append(q.as_str());
    r.append(",\"level\":");
    let q = json_string(level.as_str());
    r.append(q.as_str());
    r.append(",\"msg\":");
    let q = json_string(message);
    r.append(q.as_str());
    r.append("}");
    assert(r@ =~= spec_jsonl_line(ts@, level, message@));
    r
}

/// The line written to stdout for a record logged at `now_secs`.
pub open spec fn spec_stdout_line(format: OutputFormat, no_timestamp: bool, now_secs: u64, level: Level, message: Seq<char>) -> Seq<char> {
    match format {
        OutputFormat::Jsonl => spec_jsonl_line(rfc3339_seconds_text(now_secs), level, message),
        OutputFormat::Log => if no_timestamp {
            spec_log_line(None, level, message)
        } else {
            spec_log_line(Some(rfc3339_seconds_text(now_secs)), level, message)
        },
    }
}

/// Formats a record for stdout: JSON lines, or the text format with or
/// without the timestamp.
pub fn format_stdout_line(format: OutputFormat, no_timestamp: bool, now_secs: u64, level: Level, message: &str) -> (r: String)
    requires
        now_secs < 253_402_300_800,
    ensures
        r@ == spec_stdout_line(format, no_timestamp, now_secs, level, message@),
{
    match format {
        OutputFormat::Jsonl => {
            let ts = format_rfc3339_seconds(now_secs);
            format_jsonl_line(ts.as_str(), level, message)
        },
        OutputFormat::Log => if no_timestamp {
            format_log_line(None, level, message)
        } else {
            let ts = format_rfc3339_seconds(now_secs);
            format_log_line(Some(ts.as_str()), level, message)
        },
    }
}

/// Formats a record for a gzip archive: always the timestamped text format.
pub fn format_gzip_line(now_secs: u64, level: Level, message: &str) -> (r: String)
    requires
        now_secs < 253_402_300_800,
    ensures
        r@ == spec_log_line(Some(rfc3339_seconds_text(now_secs)), level, message@),
{
    let ts = format_rfc3339_seconds(now_secs);
    format_log_line(Some(ts.as_str()), level, message)
}

/// The part of `base` kept in front of `_{stream}`.
pub open spec fn split_stem(base: Seq<char>) -> Seq<char> {
    match strip_suffix(base, ".log.gz"@) {
        Some(s) => s,
        None => match strip_suffix(base, ".gz"@) {
            Some(s) => s,
            None => base,
        },
    }
}

/// Two different stream names never resolve to one path.
pub proof fn lemma_split_stream_paths_distinct(base: Seq<char>, s1: Seq<char>, s2: Seq<char>)
    requires
        s1 != s2,
    ensures
        spec_split_stream_path(base, s1) != spec_split_stream_path(base, s2),
{
    let stem = split_stem(base);
    let p1 = spec_split_stream_path(base, s1);
    let p2 = spec_split_stream_path(base, s2);
    assert(p1 == stem + seq!['_'] + s1 + ".log.gz"@);
    assert(p2 == stem + seq!['_'] + s2 + ".log.gz"@);
    if p1 == p2 {
        let k: int = stem.len() as int + 1;
        if s1.len() == s2.len() {
            assert(p1.subrange(k, k + s1.len() as int) =~= s1);
            assert(p2.subrange(k, k + s2.len() as int) =~= s2);
        } else {
            assert(p1.len() != p2.len());
        }
    }
}

/// A split path is longer than the path it comes from, so never equal to it.
pub proof fn lemma_split_stream_path_longer_than_base(base: Seq<char>, stream: Seq<char>)
    ensures
        spec_split_stream_path(base, stream).len() > base.len(),
        spec_split_stream_path(base, stream) != base,
{
    reveal_strlit(".log.gz");
    reveal_strlit(".gz");
}

/// `-o -` creates no gzip, with or without `--split`.
pub proof fn lemma_dash_output_is_stdout_only(label: Seq<char>, uuid: Seq<char>, split: bool)
    ensures
        spec_log_targets(label, uuid, Some("-"@), split) == LogTargetsModel::StdoutOnly,
{
}

/// With `--split` the two gzip paths differ from each other and from the
/// combined path they replace.
pub proof fn lemma_split_targets_distinct(label: Seq<char>, uuid: Seq<char>, output: Option<Seq<char>>)
    requires
        spec_output_path(label, uuid, output) is Some,
    ensures
        ({
            let p = spec_output_path(label, uuid, output)->Some_0;
            match spec_log_targets(label, uuid, output, true) {
                LogTargetsModel::Split { stdout, stderr } => stdout != stderr && stdout != p && stderr != p,
                _ => false,
            }
        }),
{
    let p = spec_output_path(label, uuid, output)->Some_0;
    reveal_strlit("stdout");
    reveal_strlit("stderr");
    assert("stdout"@[3] != "stderr"@[3]);
    lemma_split_stream_paths_distinct(p, "stdout"@, "stderr"@);
    lemma_split_stream_path_longer_than_base(p, "stdout"@);
    lemma_split_stream_path_longer_than_base(p, "stderr"@);
}

/// No record reaches both split gzips; with split targets every level but
/// Debug reaches exactly one of them.
pub proof fn lemma_split_sinks_partition(targets: LogTargetsModel, use_mongodb: bool, level: Level)
    ensures
        !(spec_log_sinks(targets, use_mongodb, level).stdout_gzip && spec_log_sinks(targets, use_mongodb, level).stderr_gzip),
        spec_log_sinks(targets, use_mongodb, level).stdout,
        (targets is Split && level != Level::Debug) ==> (spec_log_sinks(targets, use_mongodb, level).stdout_gzip
            || spec_log_sinks(targets, use_mongodb, level).stderr_gzip),
{
}

/// The TRACE line every run starts its log with.
pub open spec fn spec_metadata_trace_line(label: Seq<char>, uuid: Seq<char>) -> Seq<char> {
    "Label: "@ + label + " UUID: "@ + uuid
}

/// `Label: {label} UUID: {uuid}`, logged at TRACE once the logger is
/// installed.
pub fn metadata_trace_line(label: &str, uuid: &str) -> (r: String)
    ensures
        r@ == spec_metadata_trace_line(label@, uuid@),
{
    let mut r = "Label: ".to_owned();
    r.append(label);
    r.append(" UUID: ");
    r.append(uuid);
    r
}

/// With one gzip file (no `--split`, no `-o -`) every record is shown on
/// stdout and archived in that file as `[{timestamp} {LEVEL}] {message}`,
/// whatever the stdout format: all levels when the run is not stored in
/// MongoDB, only INFO and WARN (the command's output) when it is. So the
/// archive of a run not stored in MongoDB holds its opening
/// `Label: .. UUID: ..` TRACE line, and a MongoDB run's archive does not.
pub proof fn lemma_single_file_logging(
    label: Seq<char>,
    uuid: Seq<char>,
    output: Option<Seq<char>>,
    use_mongodb: bool,
    level: Level,
    ts: Seq<char>,
    message: Seq<char>,
)
    requires
        spec_output_path(label, uuid, output) is Some,
    ensures
        spec_log_targets(label, uuid, output, false) == LogTargetsModel::SingleFile(spec_output_path(label, uuid, output)->0),
        spec_log_sinks(spec_log_targets(label, uuid, output, false), use_mongodb, level) == (LogSinks {
            stdout: true,
            combined_gzip: !use_mongodb || level == Level::Info || level == Level::Warn,
            stdout_gzip: false,
            stderr_gzip: false,
        }),
        spec_log_line(Some(ts), level, message) == seq!['['] + ts + seq![' '] + level_name(level) + seq![']', ' '] + message,
        spec_log_sinks(spec_log_targets(label, uuid, output, false), use_mongodb, Level::Trace).combined_gzip == !use_mongodb,
        spec_log_line(Some(ts), Level::Trace, spec_metadata_trace_line(label, uuid)) == seq!['['] + ts + " TRACE] Label: "@
            + label + " UUID: "@ + uuid,
{
    reveal_strlit(" TRACE] Label: ");
    reveal_strlit("Label: ");
    reveal_strlit("TRACE");
    assert(spec_log_line(Some(ts), Level::Trace, spec_metadata_trace_line(label, uuid)) =~= seq!['['] + ts
        + " TRACE] Label: "@ + label + " UUID: "@ + uuid);
}

} // verus!
