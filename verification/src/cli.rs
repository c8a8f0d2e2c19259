//! The command-line grammar of `bless`.
//!
//! `Cli::try_parse_from_with` turns an argument vector into a [`Cli`] or a
//! [`CliError`]. The grammar is stated as a spec-level token machine
//! (`spec_parse_tokens` followed by `spec_finish`), and the executable parser
//! is proved to compute exactly that machine.
use vstd::prelude::*;
use vstd::string::StringExecFns;
use crate::text::{chars_eq, chars_of, string_of, sub_chars};

verus! {

/// Rendering of log lines on stdout.
#[derive(Clone, Copy, Debug, PartialEq, Eq, Structural)]
pub enum OutputFormat {
    Log,
    Jsonl,
}

/// Which optional parts of the grammar are enabled (MongoDB flags, serve mode).
#[derive(Clone, Copy, Debug, PartialEq, Eq, Structural)]
pub struct Features {
    pub mongodb: bool,
    pub serve: bool,
}

impl Features {
    /// Every optional part enabled.
    pub fn all() -> (f: Features)
        ensures
            f.mongodb && f.serve,
    {
        Features { mongodb: true, serve: true }
    }
}

/// Values that the environment supplies for options left off the command
/// line (`MONGODB_DB`, `MONGODB_COLLECTION`).
#[derive(Clone, Debug)]
pub struct EnvDefaults {
    pub db: Option<String>,
    pub collection: Option<String>,
}

/// `Option<String>` seen through the string's characters.
pub open spec fn opt_chars(o: Option<String>) -> Option<Seq<char>> {
    match o {
        Some(s) => Some(s@),
        None => None,
    }
}

/// The environment defaults seen as character sequences.
pub struct EnvModel {
    pub db: Option<Seq<char>>,
    pub collection: Option<Seq<char>>,
}

impl View for EnvDefaults {
    type V = EnvModel;

    open spec fn view(&self) -> EnvModel {
        EnvModel { db: opt_chars(self.db), collection: opt_chars(self.collection) }
    }
}

impl EnvDefaults {
    /// No variable set.
    pub fn none() -> (e: EnvDefaults)
        ensures
            e@.db is None,
            e@.collection is None,
    {
        EnvDefaults { db: None, collection: None }
    }
}

/// The query subcommands (`ls`, `show <ID>`, `fetch <ID> [-o PATH]`).
#[derive(Clone, Debug, PartialEq, Eq)]
pub enum QueryCommand {
    Ls,
    Show { id: String },
    Fetch { id: String, output: Option<String> },
}

/// A query subcommand seen through its strings' characters.
pub enum QueryModel {
    Ls,
    Show { id: Seq<char> },
    Fetch { id: Seq<char>, output: Option<Seq<char>> },
}

impl View for QueryCommand {
    type V = QueryModel;

    open spec fn view(&self) -> QueryModel {
        match self {
            QueryCommand::Ls => QueryModel::Ls,
            QueryCommand::Show { id } => QueryModel::Show { id: id@ },
            QueryCommand::Fetch { id, output } => QueryModel::Fetch {
                id: id@,
                output: opt_chars(*output),
            },
        }
    }
}

/// The parsed command line.
#[derive(Clone, Debug)]
pub struct Cli {
    pub label: String,
    pub use_mongodb: bool,
    pub db: String,
    pub collection: String,
    pub force_gridfs: bool,
    pub no_timestamp: bool,
    pub format: OutputFormat,
    pub output: Option<String>,
    pub split: bool,
    pub serve: Option<String>,
    pub remote: Option<String>,
    pub local: bool,
    pub query: Option<QueryCommand>,
    pub command: Vec<String>,
}

/// A parsed command line seen through its strings' characters.
pub struct CliModel {
    pub label: Seq<char>,
    pub use_mongodb: bool,
    pub db: Seq<char>,
    pub collection: Seq<char>,
    pub force_gridfs: bool,
    pub no_timestamp: bool,
    pub format: OutputFormat,
    pub output: Option<Seq<char>>,
    pub split: bool,
    pub serve: Option<Seq<char>>,
    pub remote: Option<Seq<char>>,
    pub local: bool,
    pub query: Option<QueryModel>,
    pub command: Seq<Seq<char>>,
}

/// The characters of each string.
pub open spec fn strings_chars(v: Seq<String>) -> Seq<Seq<char>> {
    v.map_values(|s: String| s@)
}

impl View for Cli {
    type V = CliModel;

    open spec fn view(&self) -> CliModel {
        CliModel {
            label: self.label@,
            use_mongodb: self.use_mongodb,
            db: self.db@,
            collection: self.collection@,
            force_gridfs: self.force_gridfs,
            no_timestamp: self.no_timestamp,
            format: self.format,
            output: opt_chars(self.output),
            split: self.split,
            serve: opt_chars(self.serve),
            remote: opt_chars(self.remote),
            local: self.local,
            query: match self.query {
                Some(q) => Some(q@),
                None => None,
            },
            command: strings_chars(self.command@),
        }
    }
}

/// Why an argument vector was refused (or asked for help/version text).
#[derive(Clone, Copy, Debug, PartialEq, Eq, Structural)]
pub enum CliErrorKind {
    UnknownArgument,
    UnrecognizedSubcommand,
    UnexpectedArgument,
    MissingValue,
    UnexpectedValue,
    InvalidValue,
    Duplicate,
    Conflict,
    MissingRequired,
    DisplayHelp,
    DisplayVersion,
}

/// A refused argument vector: the kind and the argument it is about.
#[derive(Clone, Debug)]
pub struct CliError {
    pub kind: CliErrorKind,
    pub arg: String,
}

impl View for CliError {
    type V = (CliErrorKind, Seq<char>);

    open spec fn view(&self) -> (CliErrorKind, Seq<char>) {
        (self.kind, self.arg@)
    }
}

/// The sentence reporting a refused command line (nothing for help and
/// version requests, which are answered instead).
pub open spec fn spec_cli_error_message(kind: CliErrorKind, arg: Seq<char>) -> Seq<char> {
    match kind {
        CliErrorKind::UnknownArgument | CliErrorKind::UnexpectedArgument => "unexpected argument '"@ + arg
            + "' found"@,
        CliErrorKind::UnrecognizedSubcommand => "unrecognized subcommand '"@ + arg + "'"@,
        CliErrorKind::MissingValue => "a value is required for '"@ + arg + "' but none was supplied"@,
        CliErrorKind::UnexpectedValue => "unexpected value for '"@ + arg + "'"@,
        CliErrorKind::InvalidValue => "invalid value '"@ + arg + "' for '--format <FORMAT>'"@,
        CliErrorKind::Duplicate => "the argument '"@ + arg + "' cannot be used multiple times"@,
        CliErrorKind::Conflict => "the argument '--serve <ADDR>' cannot be used with '"@ + arg + "'"@,
        CliErrorKind::MissingRequired => "the following required arguments were not provided: "@ + arg,
        CliErrorKind::DisplayHelp | CliErrorKind::DisplayVersion => Seq::empty(),
    }
}

impl CliError {
    /// Whether the command line asked for help or the version rather than
    /// being refused.
    pub fn is_informational(&self) -> (b: bool)
        ensures
            b == (self.kind == CliErrorKind::DisplayHelp || self.kind == CliErrorKind::DisplayVersion),
    {
        match self.kind {
            CliErrorKind::DisplayHelp | CliErrorKind::DisplayVersion => true,
            _ => false,
        }
    }

    /// The sentence reporting the refusal.
    pub fn message(&self) -> (r: String)
        ensures
            r@ == spec_cli_error_message(self.kind, self.arg@),
    {
        let a = self.arg.as_str();
        let (pre, post): (&str, &str) = match self.kind {
            CliErrorKind::UnknownArgument | CliErrorKind::UnexpectedArgument => ("unexpected argument '", "' found"),
            CliErrorKind::UnrecognizedSubcommand => ("unrecognized subcommand '", "'"),
            CliErrorKind::MissingValue => ("a value is required for '", "' but none was supplied"),
            CliErrorKind::UnexpectedValue => ("unexpected value for '", "'"),
            CliErrorKind::InvalidValue => ("invalid value '", "' for '--format <FORMAT>'"),
            CliErrorKind::Duplicate => ("the argument '", "' cannot be used multiple times"),
            CliErrorKind::Conflict => ("the argument '--serve <ADDR>' cannot be used with '", "'"),
            CliErrorKind::MissingRequired => ("the following required arguments were not provided: ", ""),
            CliErrorKind::DisplayHelp | CliErrorKind::DisplayVersion => {
                return String::new();
            },
        };
        let mut r = pre.to_owned();
        r.append(a);
        r.append(post);
        proof {
            reveal_strlit("");
        }
        r
    }
}

/// The options the grammar knows.
#[derive(Clone, Copy, Debug, PartialEq, Eq, Structural)]
pub enum Opt {
    Label,
    UseMongodb,
    Db,
    Collection,
    ForceGridfs,
    NoTimestamp,
    Format,
    Output,
    Split,
    Serve,
    Remote,
    Local,
    Help,
    Version,
    FetchOutput,
}

/// Which subcommand the parser has entered.
#[derive(Clone, Copy, Debug, PartialEq, Eq, Structural)]
pub enum SubKind {
    Ls,
    Show,
    Fetch,
}

/// The state of the token machine.
pub struct ParseModel {
    pub label: Option<Seq<char>>,
    pub use_mongodb: bool,
    pub db: Option<Seq<char>>,
    pub collection: Option<Seq<char>>,
    pub force_gridfs: bool,
    pub no_timestamp: bool,
    pub format: Option<OutputFormat>,
    pub output: Option<Seq<char>>,
    pub split: bool,
    pub serve: Option<Seq<char>>,
    pub remote: Option<Seq<char>>,
    pub local: bool,
    pub sub: Option<SubKind>,
    pub sub_id: Option<Seq<char>>,
    pub sub_output: Option<Seq<char>>,
    pub command: Seq<Seq<char>>,
    pub dashes: bool,
}

/// Nothing given yet.
pub open spec fn initial_model() -> ParseModel {
    ParseModel {
        label: None,
        use_mongodb: false,
        db: None,
        collection: None,
        force_gridfs: false,
        no_timestamp: false,
        format: None,
        output: None,
        split: false,
        serve: None,
        remote: None,
        local: false,
        sub: None,
        sub_id: None,
        sub_output: None,
        command: Seq::empty(),
        dashes: false,
    }
}

pub open spec fn cli_err(kind: CliErrorKind, arg: Seq<char>) -> (CliErrorKind, Seq<char>) {
    (kind, arg)
}

/// How an option is written in messages.
pub open spec fn opt_name(o: Opt) -> Seq<char> {
    match o {
        Opt::Label => "--label"@,
        Opt::UseMongodb => "--use-mongodb"@,
        Opt::Db => "--db"@,
        Opt::Collection => "--collection"@,
        Opt::ForceGridfs => "--force-gridfs"@,
        Opt::NoTimestamp => "--no-timestamp"@,
        Opt::Format => "--format"@,
        Opt::Output => "--output"@,
        Opt::Split => "--split"@,
        Opt::Serve => "--serve"@,
        Opt::Remote => "--remote"@,
        Opt::Local => "--local"@,
        Opt::Help => "--help"@,
        Opt::Version => "--version"@,
        Opt::FetchOutput => "--output"@,
    }
}

/// Options that take a value.
pub open spec fn takes_value(o: Opt) -> bool {
    match o {
        Opt::Label | Opt::Db | Opt::Collection | Opt::Format | Opt::Output | Opt::Serve
        | Opt::Remote | Opt::FetchOutput => true,
        _ => false,
    }
}

/// The option a long name (`--name`) stands for in the current context.
/// At top level every top-level option is known; inside a subcommand only
/// the global MongoDB options, `--help`, and `fetch`'s `--output`.
pub open spec fn lookup_long(f: Features, sub: Option<SubKind>, name: Seq<char>) -> Option<Opt> {
    if name == "help"@ {
        Some(Opt::Help)
    } else if f.mongodb && name == "use-mongodb"@ {
        Some(Opt::UseMongodb)
    } else if f.mongodb && name == "db"@ {
        Some(Opt::Db)
    } else if f.mongodb && name == "collection"@ {
        Some(Opt::Collection)
    } else {
        match sub {
            None => {
                if name == "label"@ {
                    Some(Opt::Label)
                } else if f.mongodb && name == "force-gridfs"@ {
                    Some(Opt::ForceGridfs)
                } else if name == "no-timestamp"@ {
                    Some(Opt::NoTimestamp)
                } else if name == "format"@ {
                    Some(Opt::Format)
                } else if name == "output"@ {
                    Some(Opt::Output)
                } else if name == "split"@ {
                    Some(Opt::Split)
                } else if f.serve && name == "serve"@ {
                    Some(Opt::Serve)
                } else if f.serve && name == "remote"@ {
                    Some(Opt::Remote)
                } else if f.serve && name == "local"@ {
                    Some(Opt::Local)
                } else if name == "version"@ {
                    Some(Opt::Version)
                } else {
                    None
                }
            },
            Some(SubKind::Fetch) => {
                if name == "output"@ {
                    Some(Opt::FetchOutput)
                } else {
                    None
                }
            },
            Some(_) => None,
        }
    }
}

/// The option a short name (`-c`) stands for in the current context.
pub open spec fn lookup_short(sub: Option<SubKind>, c: char) -> Option<Opt> {
    if c == 'h' {
        Some(Opt::Help)
    } else {
        match sub {
            None => if c == 'o' {
                Some(Opt::Output)
            } else if c == 'V' {
                Some(Opt::Version)
            } else {
                None
            },
            Some(SubKind::Fetch) => if c == 'o' {
                Some(Opt::FetchOutput)
            } else {
                None
            },
            Some(_) => None,
        }
    }
}

/// Whether option `o` was already given.
pub open spec fn opt_given(m: ParseModel, o: Opt) -> bool {
    match o {
        Opt::Label => m.label is Some,
        Opt::UseMongodb => m.use_mongodb,
        Opt::Db => m.db is Some,
        Opt::Collection => m.collection is Some,
        Opt::ForceGridfs => m.force_gridfs,
        Opt::NoTimestamp => m.no_timestamp,
        Opt::Format => m.format is Some,
        Opt::Output => m.output is Some,
        Opt::Split => m.split,
        Opt::Serve => m.serve is Some,
        Opt::Remote => m.remote is Some,
        Opt::Local => m.local,
        Opt::FetchOutput => m.sub_output is Some,
        Opt::Help | Opt::Version => false,
    }
}

/// Records value `v` for option `o` (given at most once; `--format`
/// accepts `log` or `jsonl`).
pub open spec fn set_value(m: ParseModel, o: Opt, v: Seq<char>) -> Result<ParseModel, (CliErrorKind, Seq<char>)> {
    if opt_given(m, o) {
        Err(cli_err(CliErrorKind::Duplicate, opt_name(o)))
    } else {
        match o {
            Opt::Label => Ok(ParseModel { label: Some(v), ..m }),
            Opt::Db => Ok(ParseModel { db: Some(v), ..m }),
            Opt::Collection => Ok(ParseModel { collection: Some(v), ..m }),
            Opt::Output => Ok(ParseModel { output: Some(v), ..m }),
            Opt::Serve => Ok(ParseModel { serve: Some(v), ..m }),
            Opt::Remote => Ok(ParseModel { remote: Some(v), ..m }),
            Opt::FetchOutput => Ok(ParseModel { sub_output: Some(v), ..m }),
            Opt::Format => if v == "log"@ {
                Ok(ParseModel { format: Some(OutputFormat::Log), ..m })
            } else if v == "jsonl"@ {
                Ok(ParseModel { format: Some(OutputFormat::Jsonl), ..m })
            } else {
                Err(cli_err(CliErrorKind::InvalidValue, v))
            },
            _ => Ok(m),
        }
    }
}

/// Records flag `o` (given at most once); `--help` and `--version` stop
/// parsing.
pub open spec fn set_flag(m: ParseModel, o: Opt) -> Result<ParseModel, (CliErrorKind, Seq<char>)> {
    match o {
        Opt::Help => Err(cli_err(CliErrorKind::DisplayHelp, opt_name(o))),
        Opt::Version => Err(cli_err(CliErrorKind::DisplayVersion, opt_name(o))),
        _ => if opt_given(m, o) {
            Err(cli_err(CliErrorKind::Duplicate, opt_name(o)))
        } else {
            match o {
                Opt::UseMongodb => Ok(ParseModel { use_mongodb: true, ..m }),
                Opt::ForceGridfs => Ok(ParseModel { force_gridfs: true, ..m }),
                Opt::NoTimestamp => Ok(ParseModel { no_timestamp: true, ..m }),
                Opt::Split => Ok(ParseModel { split: true, ..m }),
                Opt::Local => Ok(ParseModel { local: true, ..m }),
                _ => Ok(m),
            }
        },
    }
}

/// A token that would be read as an option rather than a value.
pub open spec fn looks_like_flag(t: Seq<char>) -> bool {
    t.len() > 1 && t[0] == '-'
}

/// Applies option `o` with its inline value (`--name=v`, `-ov`) or, for a
/// value option without one, the next token. The flag says whether the next
/// token was consumed.
pub open spec fn apply_opt(
    m: ParseModel,
    o: Opt,
    inline: Option<Seq<char>>,
    rest: Seq<Seq<char>>,
) -> (Result<ParseModel, (CliErrorKind, Seq<char>)>, bool) {
    if o == Opt::Help || o == Opt::Version {
        (set_flag(m, o), false)
    } else if takes_value(o) {
        match inline {
            Some(v) => (set_value(m, o, v), false),
            None => if rest.len() > 0 && !looks_like_flag(rest[0]) {
                (set_value(m, o, rest[0]), true)
            } else {
                (Err(cli_err(CliErrorKind::MissingValue, opt_name(o))), false)
            },
        }
    } else {
        match inline {
            Some(_) => (Err(cli_err(CliErrorKind::UnexpectedValue, opt_name(o))), false),
            None => (set_flag(m, o), false),
        }
    }
}

/// A positional token: after `--` at top level it joins the command; before
/// it, it names a subcommand; inside `show`/`fetch` the first one is the id.
pub open spec fn positional(m: ParseModel, t: Seq<char>) -> Result<ParseModel, (CliErrorKind, Seq<char>)> {
    match m.sub {
        None => if m.dashes {
            Ok(ParseModel { command: m.command.push(t), ..m })
        } else if t == "ls"@ {
            Ok(ParseModel { sub: Some(SubKind::Ls), ..m })
        } else if t == "show"@ {
            Ok(ParseModel { sub: Some(SubKind::Show), ..m })
        } else if t == "fetch"@ {
            Ok(ParseModel { sub: Some(SubKind::Fetch), ..m })
        } else if t == "help"@ {
            Err(cli_err(CliErrorKind::DisplayHelp, t))
        } else {
            Err(cli_err(CliErrorKind::UnrecognizedSubcommand, t))
        },
        Some(SubKind::Ls) => Err(cli_err(CliErrorKind::UnexpectedArgument, t)),
        Some(_) => if m.sub_id is None {
            Ok(ParseModel { sub_id: Some(t), ..m })
        } else {
            Err(cli_err(CliErrorKind::UnexpectedArgument, t))
        },
    }
}

/// Index of the first `c` in `s`, or `s.len()` when there is none.
pub open spec fn find_char(s: Seq<char>, c: char) -> int
    decreases s.len(),
{
    if s.len() == 0 {
        0
    } else if s[0] == c {
        0
    } else {
        1 + find_char(s.drop_first(), c)
    }
}

/// `--` alone.
pub open spec fn is_dashes(t: Seq<char>) -> bool {
    t.len() == 2 && t[0] == '-' && t[1] == '-'
}

/// `--name` or `--name=value`.
pub open spec fn is_long(t: Seq<char>) -> bool {
    t.len() > 2 && t[0] == '-' && t[1] == '-'
}

/// The name part of a long option token.
pub open spec fn long_name(t: Seq<char>) -> Seq<char> {
    let body = t.skip(2);
    body.take(find_char(body, '='))
}

/// The inline value of a long option token (after the first `=`).
pub open spec fn long_inline(t: Seq<char>) -> Option<Seq<char>> {
    let body = t.skip(2);
    let k = find_char(body, '=');
    if k < body.len() {
        Some(body.skip(k + 1))
    } else {
        None
    }
}

/// The inline value of a short option token.
pub open spec fn short_inline(t: Seq<char>) -> Option<Seq<char>> {
    if t.len() > 2 {
        if t[2] == '=' {
            Some(t.skip(3))
        } else {
            Some(t.skip(2))
        }
    } else {
        None
    }
}

/// The token machine: consumes `toks` left to right from state `m`.
pub open spec fn spec_parse_tokens(f: Features, m: ParseModel, toks: Seq<Seq<char>>) -> Result<ParseModel, (CliErrorKind, Seq<char>)>
    decreases toks.len(),
{
    if toks.len() == 0 {
        Ok(m)
    } else {
        let t = toks[0];
        let rest = toks.drop_first();
        if m.dashes || !looks_like_flag(t) {
            match positional(m, t) {
                Ok(m2) => spec_parse_tokens(f, m2, rest),
                Err(e) => Err(e),
            }
        } else if is_dashes(t) {
            spec_parse_tokens(f, ParseModel { dashes: true, ..m }, rest)
        } else {
            let found = if is_long(t) {
                lookup_long(f, m.sub, long_name(t))
            } else {
                lookup_short(m.sub, t[1])
            };
            let inline = if is_long(t) {
                long_inline(t)
            } else {
                short_inline(t)
            };
            match found {
                None => Err(cli_err(CliErrorKind::UnknownArgument, t)),
                Some(o) => {
                    let (r, used) = apply_opt(m, o, inline, rest);
                    match r {
                        Ok(m2) => if used {
                            spec_parse_tokens(f, m2, rest.drop_first())
                        } else {
                            spec_parse_tokens(f, m2, rest)
                        },
                        Err(e) => Err(e),
                    }
                },
            }
        }
    }
}

/// Checks the finished state (required values, conflicts) and fills in
/// defaults.
pub open spec fn spec_finish(m: ParseModel, env: EnvModel) -> Result<CliModel, (CliErrorKind, Seq<char>)> {
    if (m.sub == Some(SubKind::Show) || m.sub == Some(SubKind::Fetch)) && m.sub_id is None {
        Err(cli_err(CliErrorKind::MissingRequired, "<ID>"@))
    } else if m.serve is Some && m.remote is Some {
        Err(cli_err(CliErrorKind::Conflict, "--remote"@))
    } else if m.serve is Some && m.use_mongodb {
        Err(cli_err(CliErrorKind::Conflict, "--use-mongodb"@))
    } else if m.local && m.remote is None {
        Err(cli_err(CliErrorKind::MissingRequired, "--remote"@))
    } else if m.sub is None && m.serve is None && m.command.len() == 0 {
        Err(cli_err(CliErrorKind::MissingRequired, "<COMMAND>"@))
    } else {
        Ok(CliModel {
            label: match m.label {
                Some(v) => v,
                None => "default_label"@,
            },
            use_mongodb: m.use_mongodb,
            db: match m.db {
                Some(v) => v,
                None => match env.db {
                    Some(v) => v,
                    None => "bless"@,
                },
            },
            collection: match m.collection {
                Some(v) => v,
                None => match env.collection {
                    Some(v) => v,
                    None => "commands"@,
                },
            },
            force_gridfs: m.force_gridfs,
            no_timestamp: m.no_timestamp,
            format: match m.format {
                Some(v) => v,
                None => OutputFormat::Log,
            },
            output: m.output,
            split: m.split,
            serve: m.serve,
            remote: m.remote,
            local: m.local,
            query: match m.sub {
                None => None,
                Some(SubKind::Ls) => Some(QueryModel::Ls),
                Some(SubKind::Show) => Some(QueryModel::Show { id: m.sub_id.unwrap() }),
                Some(SubKind::Fetch) => Some(
                    QueryModel::Fetch { id: m.sub_id.unwrap(), output: m.sub_output },
                ),
            },
            command: m.command,
        })
    }
}

/// The tokens after the program name.
pub open spec fn arg_tokens(args: Seq<&str>) -> Seq<Seq<char>> {
    if args.len() == 0 {
        Seq::empty()
    } else {
        args.skip(1).map_values(|s: &str| s@)
    }
}

/// The whole grammar: what `try_parse_from_with` returns for `args`.
pub open spec fn spec_parse(f: Features, env: EnvModel, args: Seq<&str>) -> Result<CliModel, (CliErrorKind, Seq<char>)> {
    match spec_parse_tokens(f, initial_model(), arg_tokens(args)) {
        Ok(m) => spec_finish(m, env),
        Err(e) => Err(e),
    }
}


/// The characters of `lit`, which must be a literal the caller compares by view.
fn lit(s: &str) -> (v: Vec<char>)
    ensures
        v@ == s@,
{
    chars_of(s)
}

fn names_eq(name: &[char], s: &str) -> (b: bool)
    ensures
        b == (name@ == s@),
{
    let l = lit(s);
    chars_eq(name, &l)
}

fn lookup_long_exec(f: Features, sub: Option<SubKind>, name: &[char]) -> (r: Option<Opt>)
    ensures
        r == lookup_long(f, sub, name@),
{
    if names_eq(name, "help") {
        Some(Opt::Help)
    } else if f.mongodb && names_eq(name, "use-mongodb") {
        Some(Opt::UseMongodb)
    } else if f.mongodb && names_eq(name, "db") {
        Some(Opt::Db)
    } else if f.mongodb && names_eq(name, "collection") {
        Some(Opt::Collection)
    } else {
        match sub {
            None => {
                if names_eq(name, "label") {
                    Some(Opt::Label)
                } else if f.mongodb && names_eq(name, "force-gridfs") {
                    Some(Opt::ForceGridfs)
                } else if names_eq(name, "no-timestamp") {
                    Some(Opt::NoTimestamp)
                } else if names_eq(name, "format") {
                    Some(Opt::Format)
                } else if names_eq(name, "output") {
                    Some(Opt::Output)
                } else if names_eq(name, "split") {
                    Some(Opt::Split)
                } else if f.serve && names_eq(name, "serve") {
                    Some(Opt::Serve)
                } else if f.serve && names_eq(name, "remote") {
                    Some(Opt::Remote)
                } else if f.serve && names_eq(name, "local") {
                    Some(Opt::Local)
                } else if names_eq(name, "version") {
                    Some(Opt::Version)
                } else {
                    None
                }
            },
            Some(SubKind::Fetch) => {
                if names_eq(name, "output") {
                    Some(Opt::FetchOutput)
                } else {
                    None
                }
            },
            Some(_) => None,
        }
    }
}

fn lookup_short_exec(sub: Option<SubKind>, c: char) -> (r: Option<Opt>)
    ensures
        r == lookup_short(sub, c),
{
    if c == 'h' {
        Some(Opt::Help)
    } else {
        match sub {
            None => if c == 'o' {
                Some(Opt::Output)
            } else if c == 'V' {
                Some(Opt::Version)
            } else {
                None
            },
            Some(SubKind::Fetch) => if c == 'o' {
                Some(Opt::FetchOutput)
            } else {
                None
            },
            Some(_) => None,
        }
    }
}

fn opt_name_exec(o: Opt) -> (s: String)
    ensures
        s@ == opt_name(o),
{
    let n = match o {
        Opt::Label => "--label",
        Opt::UseMongodb => "--use-mongodb",
        Opt::Db => "--db",
        Opt::Collection => "--collection",
        Opt::ForceGridfs => "--force-gridfs",
        Opt::NoTimestamp => "--no-timestamp",
        Opt::Format => "--format",
        Opt::Output => "--output",
        Opt::Split => "--split",
        Opt::Serve => "--serve",
        Opt::Remote => "--remote",
        Opt::Local => "--local",
        Opt::Help => "--help",
        Opt::Version => "--version",
        Opt::FetchOutput => "--output",
    };
    n.to_owned()
}

fn mk_err(kind: CliErrorKind, arg: String) -> (e: CliError)
    ensures
        e@ == cli_err(kind, arg@),
{
    CliError { kind, arg }
}

fn takes_value_exec(o: Opt) -> (b: bool)
    ensures
        b == takes_value(o),
{
    match o {
        Opt::Label | Opt::Db | Opt::Collection | Opt::Format | Opt::Output | Opt::Serve
        | Opt::Remote | Opt::FetchOutput => true,
        _ => false,
    }
}

/// The executable state of the token machine.
struct ParseState {
    label: Option<String>,
    use_mongodb: bool,
    db: Option<String>,
    collection: Option<String>,
    force_gridfs: bool,
    no_timestamp: bool,
    format: Option<OutputFormat>,
    output: Option<String>,
    split: bool,
    serve: Option<String>,
    remote: Option<String>,
    local: bool,
    sub: Option<SubKind>,
    sub_id: Option<String>,
    sub_output: Option<String>,
    command: Vec<String>,
    dashes: bool,
}

impl View for ParseState {
    type V = ParseModel;

    closed spec fn view(&self) -> ParseModel {
        ParseModel {
            label: opt_chars(self.label),
            use_mongodb: self.use_mongodb,
            db: opt_chars(self.db),
            collection: opt_chars(self.collection),
            force_gridfs: self.force_gridfs,
            no_timestamp: self.no_timestamp,
            format: self.format,
            output: opt_chars(self.output),
            split: self.split,
            serve: opt_chars(self.serve),
            remote: opt_chars(self.remote),
            local: self.local,
            sub: self.sub,
            sub_id: opt_chars(self.sub_id),
            sub_output: opt_chars(self.sub_output),
            command: strings_chars(self.command@),
            dashes: self.dashes,
        }
    }
}

impl ParseState {
    fn new() -> (st: ParseState)
        ensures
            st@ == initial_model(),
    {
        let st = ParseState {
            label: None,
            use_mongodb: false,
            db: None,
            collection: None,
            force_gridfs: false,
            no_timestamp: false,
            format: None,
            output: None,
            split: false,
            serve: None,
            remote: None,
            local: false,
            sub: None,
            sub_id: None,
            sub_output: None,
            command: Vec::new(),
            dashes: false,
        };
        assert(strings_chars(st.command@) =~= Seq::<Seq<char>>::empty());
        st
    }

    fn given(&self, o: Opt) -> (b: bool)
        ensures
            b == opt_given(self@, o),
    {
        match o {
            Opt::Label => self.label.is_some(),
            Opt::UseMongodb => self.use_mongodb,
            Opt::Db => self.db.is_some(),
            Opt::Collection => self.collection.is_some(),
            Opt::ForceGridfs => self.force_gridfs,
            Opt::NoTimestamp => self.no_timestamp,
            Opt::Format => self.format.is_some(),
            Opt::Output => self.output.is_some(),
            Opt::Split => self.split,
            Opt::Serve => self.serve.is_some(),
            Opt::Remote => self.remote.is_some(),
            Opt::Local => self.local,
            Opt::FetchOutput => self.sub_output.is_some(),
            Opt::Help | Opt::Version => false,
        }
    }

    fn set_value(&mut self, o: Opt, v: String) -> (r: Result<(), CliError>)
        requires
            takes_value(o),
        ensures
            match r {
                Ok(()) => set_value(old(self)@, o, v@) == Ok::<ParseModel, (CliErrorKind, Seq<char>)>(final(self)@),
                Err(e) => set_value(old(self)@, o, v@) == Err::<ParseModel, (CliErrorKind, Seq<char>)>(e@),
            },
    {
        if self.given(o) {
            return Err(mk_err(CliErrorKind::Duplicate, opt_name_exec(o)));
        }
        match o {
            Opt::Label => { self.label = Some(v); },
            Opt::Db => { self.db = Some(v); },
            Opt::Collection => { self.collection = Some(v); },
            Opt::Output => { self.output = Some(v); },
            Opt::Serve => { self.serve = Some(v); },
            Opt::Remote => { self.remote = Some(v); },
            Opt::FetchOutput => { self.sub_output = Some(v); },
            Opt::Format => {
                let vc = chars_of(v.as_str());
                if names_eq(&vc, "log") {
                    self.format = Some(OutputFormat::Log);
                } else if names_eq(&vc, "jsonl") {
                    self.format = Some(OutputFormat::Jsonl);
                } else {
                    return Err(mk_err(CliErrorKind::InvalidValue, v));
                }
            },
            _ => {},
        }
        Ok(())
    }

    fn set_flag(&mut self, o: Opt) -> (r: Result<(), CliError>)
        ensures
            match r {
                Ok(()) => set_flag(old(self)@, o) == Ok::<ParseModel, (CliErrorKind, Seq<char>)>(final(self)@),
                Err(e) => set_flag(old(self)@, o) == Err::<ParseModel, (CliErrorKind, Seq<char>)>(e@),
            },
    {
        match o {
            Opt::Help => { return Err(mk_err(CliErrorKind::DisplayHelp, opt_name_exec(o))); },
            Opt::Version => { return Err(mk_err(CliErrorKind::DisplayVersion, opt_name_exec(o))); },
            _ => {},
        }
        if self.given(o) {
            return Err(mk_err(CliErrorKind::Duplicate, opt_name_exec(o)));
        }
        match o {
            Opt::UseMongodb => { self.use_mongodb = true; },
            Opt::ForceGridfs => { self.force_gridfs = true; },
            Opt::NoTimestamp => { self.no_timestamp = true; },
            Opt::Split => { self.split = true; },
            Opt::Local => { self.local = true; },
            _ => {},
        }
        Ok(())
    }

    fn positional(&mut self, t: &str) -> (r: Result<(), CliError>)
        ensures
            match r {
                Ok(()) => positional(old(self)@, t@) == Ok::<ParseModel, (CliErrorKind, Seq<char>)>(final(self)@),
                Err(e) => positional(old(self)@, t@) == Err::<ParseModel, (CliErrorKind, Seq<char>)>(e@),
            },
    {
        let tc = chars_of(t);
        match self.sub {
            None => {
                if self.dashes {
                    let ghost before = self.command@;
                    self.command.push(t.to_owned());
                    assert(strings_chars(self.command@) =~= strings_chars(before).push(t@));
                } else if names_eq(&tc, "ls") {
                    self.sub = Some(SubKind::Ls);
                } else if names_eq(&tc, "show") {
                    self.sub = Some(SubKind::Show);
                } else if names_eq(&tc, "fetch") {
                    self.sub = Some(SubKind::Fetch);
                } else if names_eq(&tc, "help") {
                    return Err(mk_err(CliErrorKind::DisplayHelp, t.to_owned()));
                } else {
                    return Err(mk_err(CliErrorKind::UnrecognizedSubcommand, t.to_owned()));
                }
            },
            Some(SubKind::Ls) => {
                return Err(mk_err(CliErrorKind::UnexpectedArgument, t.to_owned()));
            },
            Some(_) => {
                if self.sub_id.is_none() {
                    self.sub_id = Some(t.to_owned());
                } else {
                    return Err(mk_err(CliErrorKind::UnexpectedArgument, t.to_owned()));
                }
            },
        }
        Ok(())
    }

    /// Applies option `o`; `next` is the following token, if any. Returns
    /// whether `next` was consumed.
    fn apply_opt(&mut self, o: Opt, inline: Option<Vec<char>>, next: Option<&str>) -> (r: Result<bool, CliError>)
        ensures
            ({
                let rest: Seq<Seq<char>> = match next {
                    Some(n) => seq![n@],
                    None => Seq::empty(),
                };
                let inl: Option<Seq<char>> = match inline {
                    Some(v) => Some(v@),
                    None => None,
                };
                let (sr, used) = apply_opt(old(self)@, o, inl, rest);
                match r {
                    Ok(u) => sr == Ok::<ParseModel, (CliErrorKind, Seq<char>)>(final(self)@) && u == used,
                    Err(e) => sr == Err::<ParseModel, (CliErrorKind, Seq<char>)>(e@),
                }
            }),
    {
        if o == Opt::Help || o == Opt::Version {
            self.set_flag(o)?;
            return Ok(false);
        }
        if takes_value_exec(o) {
            match inline {
                Some(v) => {
                    let s = string_of(&v);
                    self.set_value(o, s)?;
                    Ok(false)
                },
                None => {
                    match next {
                        Some(n) => {
                            let nc = chars_of(n);
                            if nc.len() > 1 && nc[0] == '-' {
                                Err(mk_err(CliErrorKind::MissingValue, opt_name_exec(o)))
                            } else {
                                self.set_value(o, n.to_owned())?;
                                Ok(true)
                            }
                        },
                        None => Err(mk_err(CliErrorKind::MissingValue, opt_name_exec(o))),
                    }
                },
            }
        } else {
            match inline {
                Some(_) => Err(mk_err(CliErrorKind::UnexpectedValue, opt_name_exec(o))),
                None => {
                    self.set_flag(o)?;
                    Ok(false)
                },
            }
        }
    }
}

/// `find_char` looks past a prefix that holds no `c`.
proof fn lemma_find_char_skip(s: Seq<char>, c: char, i: int)
    requires
        0 <= i <= s.len(),
        forall|j: int| 0 <= j < i ==> s[j] != c,
    ensures
        find_char(s, c) == i + find_char(s.skip(i), c),
    decreases i,
{
    if i == 0 {
        assert(s.skip(0) =~= s);
    } else {
        lemma_find_char_skip(s.drop_first(), c, i - 1);
        assert(s.drop_first().skip(i - 1) =~= s.skip(i));
    }
}

fn find_char_exec(s: &[char], c: char) -> (k: usize)
    ensures
        k == find_char(s@, c),
        k <= s@.len(),
{
    let mut i: usize = 0;
    while i < s.len()
        invariant
            i <= s@.len(),
            forall|j: int| 0 <= j < i ==> s@[j] != c,
        decreases s@.len() - i,
    {
        if s[i] == c {
            proof {
                lemma_find_char_skip(s@, c, i as int);
            }
            return i;
        }
        i = i + 1;
    }
    proof {
        lemma_find_char_skip(s@, c, i as int);
    }
    i
}

/// `Option<Vec<char>>` seen as an optional character sequence.
pub open spec fn opt_vec_chars(o: Option<Vec<char>>) -> Option<Seq<char>> {
    match o {
        Some(v) => Some(v@),
        None => None,
    }
}

/// The tokens from index `i` on.
pub open spec fn toks_from(args: Seq<&str>, i: int) -> Seq<Seq<char>> {
    args.subrange(i, args.len() as int).map_values(|s: &str| s@)
}

impl ParseState {
    fn finish(self, env: &EnvDefaults) -> (r: Result<Cli, CliError>)
        ensures
            match r {
                Ok(c) => spec_finish(self@, env@) == Ok::<CliModel, (CliErrorKind, Seq<char>)>(c@),
                Err(e) => spec_finish(self@, env@) == Err::<CliModel, (CliErrorKind, Seq<char>)>(e@),
            },
    {
        let needs_id = match self.sub {
            Some(SubKind::Show) | Some(SubKind::Fetch) => true,
            _ => false,
        };
        if needs_id && self.sub_id.is_none() {
            return Err(mk_err(CliErrorKind::MissingRequired, "<ID>".to_owned()));
        }
        if self.serve.is_some() && self.remote.is_some() {
            return Err(mk_err(CliErrorKind::Conflict, "--remote".to_owned()));
        }
        if self.serve.is_some() && self.use_mongodb {
            return Err(mk_err(CliErrorKind::Conflict, "--use-mongodb".to_owned()));
        }
        if self.local && self.remote.is_none() {
            return Err(mk_err(CliErrorKind::MissingRequired, "--remote".to_owned()));
        }
        if self.sub.is_none() && self.serve.is_none() && self.command.len() == 0 {
            return Err(mk_err(CliErrorKind::MissingRequired, "<COMMAND>".to_owned()));
        }
        let ghost m = self@;
        let label = match self.label {
            Some(v) => v,
            None => "default_label".to_owned(),
        };
        let db = match self.db {
            Some(v) => v,
            None => match &env.db {
                Some(v) => v.clone(),
                None => "bless".to_owned(),
            },
        };
        let collection = match self.collection {
            Some(v) => v,
            None => match &env.collection {
                Some(v) => v.clone(),
                None => "commands".to_owned(),
            },
        };
        let format = match self.format {
            Some(v) => v,
            None => OutputFormat::Log,
        };
        let query = match self.sub {
            None => None,
            Some(SubKind::Ls) => Some(QueryCommand::Ls),
            Some(SubKind::Show) => {
                let id = match self.sub_id {
                    Some(v) => v,
                    None => String::new(),
                };
                Some(QueryCommand::Show { id })
            },
            Some(SubKind::Fetch) => {
                let id = match self.sub_id {
                    Some(v) => v,
                    None => String::new(),
                };
                Some(QueryCommand::Fetch { id, output: self.sub_output })
            },
        };
        let c = Cli {
            label,
            use_mongodb: self.use_mongodb,
            db,
            collection,
            force_gridfs: self.force_gridfs,
            no_timestamp: self.no_timestamp,
            format,
            output: self.output,
            split: self.split,
            serve: self.serve,
            remote: self.remote,
            local: self.local,
            query,
            command: self.command,
        };
        Ok(c)
    }
}


/// One step of the token machine at token `i`: the index of the next token
/// to read, or the error the machine stops with.
#[verifier::rlimit(30)]
fn parse_step(st: &mut ParseState, features: Features, args: &[&str], i: usize) -> (r: Result<usize, CliError>)
    requires
        i < args@.len(),
    ensures
        match r {
            Ok(j) => i < j <= args@.len() && spec_parse_tokens(features, old(st)@, toks_from(args@, i as int))
                == spec_parse_tokens(features, final(st)@, toks_from(args@, j as int)),
            Err(e) => spec_parse_tokens(features, old(st)@, toks_from(args@, i as int))
                == Err::<ParseModel, (CliErrorKind, Seq<char>)>(e@),
        },
{
    let t = args[i];
    let tc = chars_of(t);
    let ghost toks = toks_from(args@, i as int);
    proof {
        assert(toks[0] == t@);
        assert(toks.drop_first() =~= toks_from(args@, i + 1));
    }
    if st.dashes || !(tc.len() > 1 && tc[0] == '-') {
        match st.positional(t) {
            Ok(()) => {},
            Err(e) => {
                return Err(e);
            },
        }
        return Ok(i + 1);
    } else if tc.len() == 2 && tc[1] == '-' {
        st.dashes = true;
        return Ok(i + 1);
    } else {
        let is_long_tok = tc.len() > 2 && tc[1] == '-';
        let found;
        let inline: Option<Vec<char>>;
        if is_long_tok {
            let body = sub_chars(&tc, 2, tc.len());
            let k = find_char_exec(&body, '=');
            let name = sub_chars(&body, 0, k);
            found = lookup_long_exec(features, st.sub, &name);
            if k < body.len() {
                inline = Some(sub_chars(&body, k + 1, body.len()));
            } else {
                inline = None;
            }
            proof {
                assert(body@ =~= t@.skip(2));
                assert(name@ =~= long_name(t@));
            }
        } else {
            found = lookup_short_exec(st.sub, tc[1]);
            if tc.len() > 2 {
                if tc[2] == '=' {
                    inline = Some(sub_chars(&tc, 3, tc.len()));
                } else {
                    inline = Some(sub_chars(&tc, 2, tc.len()));
                }
            } else {
                inline = None;
            }
        }
        proof {
            let inl = opt_vec_chars(inline);
            if is_long_tok {
                assert(inl == long_inline(t@));
            } else {
                assert(inl == short_inline(t@));
            }
        }
        match found {
            None => {
                return Err(mk_err(CliErrorKind::UnknownArgument, t.to_owned()));
            },
            Some(o) => {
                let next = if i + 1 < args.len() {
                    Some(args[i + 1])
                } else {
                    None
                };
                proof {
                    let rest = toks.drop_first();
                    let small: Seq<Seq<char>> = match next {
                        Some(n) => seq![n@],
                        None => Seq::empty(),
                    };
                    let inl = opt_vec_chars(inline);
                    if i + 1 < args@.len() {
                        assert(rest[0] == args@[i + 1]@);
                    }
                    assert(apply_opt(st@, o, inl, rest) == apply_opt(st@, o, inl, small));
                    if i + 2 <= args@.len() {
                        assert(rest.drop_first() =~= toks_from(args@, i + 2));
                    }
                }
                match st.apply_opt(o, inline, next) {
                    Ok(used) => {
                        if used {
                            return Ok(i + 2);
                        } else {
                            return Ok(i + 1);
                        }
                    },
                    Err(e) => {
                        return Err(e);
                    },
                }
            },
        }
    }
}

impl Cli {
    /// Parses `args` (the first element is the program name) with the
    /// optional parts of the grammar that `features` enables, taking
    /// `--db`/`--collection` from `env` when they are not given.
    pub fn try_parse_from_with(features: Features, env: &EnvDefaults, args: &[&str]) -> (r: Result<Cli, CliError>)
        ensures
            match r {
                Ok(c) => spec_parse(features, env@, args@) == Ok::<CliModel, (CliErrorKind, Seq<char>)>(c@),
                Err(e) => spec_parse(features, env@, args@) == Err::<CliModel, (CliErrorKind, Seq<char>)>(e@),
            },
    {
        let mut st = ParseState::new();
        let mut i: usize = if args.len() == 0 { 0 } else { 1 };
        proof {
            if args@.len() > 0 {
                assert(arg_tokens(args@) =~= toks_from(args@, 1));
            } else {
                assert(arg_tokens(args@) =~= toks_from(args@, 0));
            }
        }
        while i < args.len()
            invariant
                i <= args@.len(),
                spec_parse_tokens(features, initial_model(), arg_tokens(args@))
                    == spec_parse_tokens(features, st@, toks_from(args@, i as int)),
            decreases args@.len() - i,
        {
            match parse_step(&mut st, features, args, i) {
                Ok(j) => {
                    i = j;
                },
                Err(e) => {
                    return Err(e);
                },
            }
        }
        proof {
            assert(toks_from(args@, i as int).len() == 0);
        }
        st.finish(env)
    }
}

/// The gzip path handed to the logger: `--remote` without `--local` and
/// without `-o` writes no local gzip (as `-o -` would); otherwise `-o`.
pub open spec fn spec_gzip_output(c: CliModel) -> Option<Seq<char>> {
    if c.remote is Some && !c.local && c.output is None {
        Some("-"@)
    } else {
        c.output
    }
}

impl Cli {
    /// Parses `args` with every optional part of the grammar enabled and no
    /// environment defaults.
    pub fn try_parse_from(args: &[&str]) -> (r: Result<Cli, CliError>)
        ensures
            match r {
                Ok(c) => spec_parse(Features { mongodb: true, serve: true }, EnvModel { db: None, collection: None }, args@)
                    == Ok::<CliModel, (CliErrorKind, Seq<char>)>(c@),
                Err(e) => spec_parse(Features { mongodb: true, serve: true }, EnvModel { db: None, collection: None }, args@)
                    == Err::<CliModel, (CliErrorKind, Seq<char>)>(e@),
            },
    {
        let env = EnvDefaults::none();
        Cli::try_parse_from_with(Features::all(), &env, args)
    }

    /// Path handed to the gzip logger.
    pub fn gzip_output(&self) -> (r: Option<&str>)
        ensures
            match r {
                Some(s) => spec_gzip_output(self@) == Some(s@),
                None => spec_gzip_output(self@) is None,
            },
    {
        if self.remote.is_some() && !self.local && self.output.is_none() {
            return Some("-");
        }
        match &self.output {
            Some(s) => Some(s.as_str()),
            None => None,
        }
    }
}

/// What every state reachable by the token machine satisfies.
pub open spec fn model_inv(f: Features, m: ParseModel) -> bool {
    &&& !f.mongodb ==> !m.use_mongodb && m.db is None && m.collection is None && !m.force_gridfs
    &&& !f.serve ==> m.serve is None && m.remote is None && !m.local
    &&& m.command.len() > 0 ==> m.dashes && m.sub is None
}

proof fn lemma_parse_tokens_inv(f: Features, m: ParseModel, toks: Seq<Seq<char>>)
    requires
        model_inv(f, m),
    ensures
        spec_parse_tokens(f, m, toks) matches Ok(m2) ==> model_inv(f, m2),
    decreases toks.len(),
{
    if toks.len() > 0 {
        let t = toks[0];
        let rest = toks.drop_first();
        if m.dashes || !looks_like_flag(t) {
            if let Ok(m2) = positional(m, t) {
                lemma_parse_tokens_inv(f, m2, rest);
            }
        } else if is_dashes(t) {
            lemma_parse_tokens_inv(f, ParseModel { dashes: true, ..m }, rest);
        } else {
            let found = if is_long(t) {
                lookup_long(f, m.sub, long_name(t))
            } else {
                lookup_short(m.sub, t[1])
            };
            let inline = if is_long(t) {
                long_inline(t)
            } else {
                short_inline(t)
            };
            if let Some(o) = found {
                let (r, used) = apply_opt(m, o, inline, rest);
                if let Ok(m2) = r {
                    if used {
                        lemma_parse_tokens_inv(f, m2, rest.drop_first());
                    } else {
                        lemma_parse_tokens_inv(f, m2, rest);
                    }
                }
            }
        }
    }
}

/// A command line the grammar accepts is consistent: it names something to
/// do (a query, serve mode, or a command after `--`); a query and a wrapped
/// command never come together; `--serve` excludes `--remote` and
/// `--use-mongodb`; `--local` comes with `--remote`; and options of a
/// disabled part of the grammar are never set.
pub proof fn lemma_accepted_cli_is_consistent(f: Features, env: EnvModel, args: Seq<&str>)
    requires
        spec_parse(f, env, args) is Ok,
    ensures
        ({
            let c = spec_parse(f, env, args)->Ok_0;
            &&& c.query is Some || c.serve is Some || c.command.len() > 0
            &&& !(c.query is Some && c.command.len() > 0)
            &&& !(c.serve is Some && c.remote is Some)
            &&& !(c.serve is Some && c.use_mongodb)
            &&& c.local ==> c.remote is Some
            &&& !f.mongodb ==> !c.use_mongodb && !c.force_gridfs
            &&& !f.serve ==> c.serve is None && c.remote is None && !c.local
        }),
{
    assert(model_inv(f, initial_model()));
    lemma_parse_tokens_inv(f, initial_model(), arg_tokens(args));
}

/// Without the MongoDB part of the grammar, `db` and `collection` always
/// come from the environment or their defaults.
pub proof fn lemma_mongodb_defaults_without_feature(f: Features, env: EnvModel, args: Seq<&str>)
    requires
        !f.mongodb,
        spec_parse(f, env, args) is Ok,
    ensures
        ({
            let c = spec_parse(f, env, args)->Ok_0;
            &&& c.db == (match env.db { Some(v) => v, None => "bless"@ })
            &&& c.collection == (match env.collection { Some(v) => v, None => "commands"@ })
        }),
{
    assert(model_inv(f, initial_model()));
    lemma_parse_tokens_inv(f, initial_model(), arg_tokens(args));
}


/// `--format` accepts each output format under its name, and refuses any
/// other value: `bless --format V -- C` parses to format `Log` for `log`
/// and `Jsonl` for `jsonl` (with the command `C`), and is refused as an
/// invalid value `V` otherwise.
pub proof fn lemma_format_values(f: Features, env: EnvModel, v: &str, c: &str)
    requires
        !looks_like_flag(v@),
    ensures
        ({
            let r = spec_parse(f, env, seq!["bless", "--format", v, "--", c]);
            &&& v@ == "log"@ ==> (r matches Ok(m) && m.format == OutputFormat::Log && m.command == seq![c@])
            &&& v@ == "jsonl"@ ==> (r matches Ok(m) && m.format == OutputFormat::Jsonl && m.command == seq![c@])
            &&& v@ != "log"@ && v@ != "jsonl"@ ==> r == Err::<CliModel, (CliErrorKind, Seq<char>)>((CliErrorKind::InvalidValue, v@))
        }),
{
    reveal_strlit("--format");
    reveal_strlit("--");
    reveal_strlit("format");
    reveal_strlit("help");
    reveal_strlit("label");
    reveal_strlit("no-timestamp");
    reveal_strlit("use-mongodb");
    reveal_strlit("db");
    reveal_strlit("collection");
    reveal_strlit("force-gridfs");
    reveal_strlit("log");
    reveal_strlit("jsonl");
    let args = seq!["bless", "--format", v, "--", c];
    let toks = arg_tokens(args);
    assert(toks =~= seq!["--format"@, v@, "--"@, c@]);
    let t0 = "--format"@;
    let body = t0.skip(2);
    assert(body =~= "format"@);
    reveal_with_fuel(find_char, 8);
    assert(find_char(body, '=') == 6);
    assert(long_name(t0) =~= "format"@);
    assert(long_inline(t0) is None);
    assert(lookup_long(f, None, "format"@) == Some(Opt::Format));
    let m0 = initial_model();
    assert(looks_like_flag(t0));
    assert(!is_dashes(t0));
    assert(is_long(t0));
    assert(toks.drop_first() =~= seq![v@, "--"@, c@]);
    let rest2 = seq!["--"@, c@];
    assert(toks.drop_first().drop_first() =~= rest2);
    assert(is_dashes("--"@));
    assert(rest2.drop_first() =~= seq![c@]);
    assert(seq![c@].drop_first() =~= Seq::<Seq<char>>::empty());
    if v@ == "log"@ || v@ == "jsonl"@ {
        let fm = if v@ == "log"@ { OutputFormat::Log } else { OutputFormat::Jsonl };
        let m1 = ParseModel { format: Some(fm), ..m0 };
        assert(set_value(m0, Opt::Format, v@) == Ok::<ParseModel, (CliErrorKind, Seq<char>)>(m1));
        assert(apply_opt(m0, Opt::Format, None, toks.drop_first()) == (Ok::<ParseModel, (CliErrorKind, Seq<char>)>(m1), true));
        let m2 = ParseModel { dashes: true, ..m1 };
        let m3 = ParseModel { command: m2.command.push(c@), ..m2 };
        assert(positional(m2, c@) == Ok::<ParseModel, (CliErrorKind, Seq<char>)>(m3));
        assert(spec_parse_tokens(f, m3, Seq::empty()) == Ok::<ParseModel, (CliErrorKind, Seq<char>)>(m3));
        assert(spec_parse_tokens(f, m2, seq![c@]) == Ok::<ParseModel, (CliErrorKind, Seq<char>)>(m3));
        assert(spec_parse_tokens(f, m1, rest2) == Ok::<ParseModel, (CliErrorKind, Seq<char>)>(m3));
        assert(spec_parse_tokens(f, m0, toks) == Ok::<ParseModel, (CliErrorKind, Seq<char>)>(m3));
        assert(m3.command =~= seq![c@]);
    } else {
        assert(set_value(m0, Opt::Format, v@) == Err::<ParseModel, (CliErrorKind, Seq<char>)>(
            (CliErrorKind::InvalidValue, v@),
        ));
        assert(spec_parse_tokens(f, m0, toks) == Err::<ParseModel, (CliErrorKind, Seq<char>)>(
            (CliErrorKind::InvalidValue, v@),
        ));
    }
}

} // verus!
