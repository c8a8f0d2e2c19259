use bless::cli::{Cli, CliErrorKind, EnvDefaults, Features, OutputFormat, QueryCommand};

fn parse(args: &[&str]) -> Result<Cli, bless::cli::CliError> {
    Cli::try_parse_from(args)
}

fn parse_env(db: Option<&str>, collection: Option<&str>, args: &[&str]) -> Result<Cli, bless::cli::CliError> {
    let env = EnvDefaults { db: db.map(|s| s.to_string()), collection: collection.map(|s| s.to_string()) };
    Cli::try_parse_from_with(Features::all(), &env, args)
}

#[test]
fn parse_basic() {
    let cli = parse(&["bless", "--label", "test", "--", "echo", "hi"]);
    assert!(cli.is_ok());
    let cli = cli.unwrap();
    assert_eq!(cli.label, "test");
    assert_eq!(cli.command, vec!["echo", "hi"]);
    assert!(cli.query.is_none());
    assert!(!cli.no_timestamp);
    assert!(!cli.split);
    assert!(!cli.force_gridfs);
}

#[test]
fn parse_all_flags() {
    let cli = parse(&[
        "bless",
        "--label",
        "myrun",
        "--no-timestamp",
        "--format",
        "jsonl",
        "--split",
        "-o",
        "/tmp/out.log.gz",
        "--",
        "make",
        "-j8",
    ]);
    assert!(cli.is_ok());
    let cli = cli.unwrap();
    assert_eq!(cli.label, "myrun");
    assert!(cli.no_timestamp);
    assert!(cli.split);
    assert_eq!(cli.format, OutputFormat::Jsonl);
    assert_eq!(cli.output, Some("/tmp/out.log.gz".into()));
    assert_eq!(cli.command, vec!["make", "-j8"]);
}

#[test]
fn parse_force_gridfs() {
    let cli = parse(&["bless", "--use-mongodb", "--force-gridfs", "--", "echo", "hi"]);
    assert!(cli.is_ok());
    let cli = cli.unwrap();
    assert!(cli.use_mongodb);
    assert!(cli.force_gridfs);
    assert_eq!(cli.command, vec!["echo", "hi"]);
}

#[test]
fn rejects_mongodb_flags_without_feature() {
    let f = Features { mongodb: false, serve: true };
    let env = EnvDefaults::none();
    assert!(Cli::try_parse_from_with(f, &env, &["bless", "--use-mongodb", "--", "echo", "hi"]).is_err());
    assert!(Cli::try_parse_from_with(f, &env, &["bless", "--force-gridfs", "--", "echo", "hi"]).is_err());
    assert!(Cli::try_parse_from_with(f, &env, &["bless", "--db", "x", "--", "echo", "hi"]).is_err());
    assert!(Cli::try_parse_from_with(f, &env, &["bless", "--collection", "x", "--", "echo", "hi"]).is_err());
}

#[test]
fn requires_command() {
    let cli = parse(&["bless"]);
    assert!(cli.is_err());
}

#[test]
fn parse_ls_subcommand() {
    let cli = parse(&["bless", "ls"]);
    assert!(cli.is_ok());
    let cli = cli.unwrap();
    assert_eq!(cli.query, Some(QueryCommand::Ls));
    assert!(cli.command.is_empty());
}

#[test]
fn parse_wrap_after_double_dash() {
    let cli = parse(&["bless", "--", "echo"]).unwrap();
    assert!(cli.query.is_none());
    assert_eq!(cli.command, vec!["echo"]);
}

#[test]
fn double_dash_ls_is_wrap_not_subcommand() {
    let cli = parse(&["bless", "--", "ls"]).unwrap();
    assert!(cli.query.is_none());
    assert_eq!(cli.command, vec!["ls"]);
}

#[test]
fn parse_show_id() {
    let cli = parse(&["bless", "show", "abc"]).unwrap();
    assert_eq!(cli.query, Some(QueryCommand::Show { id: "abc".into() }));
    assert!(cli.command.is_empty());
}

#[test]
fn parse_fetch_output() {
    let cli = parse(&["bless", "fetch", "abc", "-o", "-"]).unwrap();
    assert_eq!(cli.query, Some(QueryCommand::Fetch { id: "abc".into(), output: Some("-".into()) }));
    assert!(cli.command.is_empty());
}

#[test]
fn show_requires_id() {
    assert!(parse(&["bless", "show"]).is_err());
}

#[test]
fn parse_ls_use_mongodb_after_subcommand() {
    let cli = parse(&["bless", "ls", "--use-mongodb"]).unwrap();
    assert!(cli.use_mongodb);
    assert_eq!(cli.query, Some(QueryCommand::Ls));
    assert!(cli.command.is_empty());
}

#[test]
fn parse_ls_use_mongodb_before_subcommand() {
    let cli = parse(&["bless", "--use-mongodb", "ls"]).unwrap();
    assert!(cli.use_mongodb);
    assert_eq!(cli.query, Some(QueryCommand::Ls));
}

#[test]
fn parse_ls_db_collection() {
    let cli = parse_env(
        None,
        None,
        &["bless", "ls", "--use-mongodb", "--db", "otherdb", "--collection", "othercol"],
    )
    .unwrap();
    assert_eq!(cli.db, "otherdb");
    assert_eq!(cli.collection, "othercol");
    assert_eq!(cli.query, Some(QueryCommand::Ls));
}

#[test]
fn serve_without_command() {
    let cli = parse(&["bless", "--serve", ":9000"]);
    assert!(cli.is_ok());
    let cli = cli.unwrap();
    assert_eq!(cli.serve.as_deref(), Some(":9000"));
    assert!(cli.command.is_empty());
    assert!(cli.remote.is_none());
}

#[test]
fn serve_conflicts_with_remote() {
    let cli = parse(&["bless", "--serve", ":9000", "--remote", ":9001", "--", "true"]);
    assert!(cli.is_err());
}

#[test]
fn serve_conflicts_with_mongodb() {
    let cli = parse(&["bless", "--serve", ":9000", "--use-mongodb"]);
    assert!(cli.is_err());
}

#[test]
fn local_requires_remote() {
    let cli = parse(&["bless", "--local", "--", "true"]);
    assert!(cli.is_err());
}

#[test]
fn remote_requires_command() {
    let cli = parse(&["bless", "--remote", ":9000"]);
    assert!(cli.is_err());

    let cli = parse(&["bless", "--remote", ":9000", "--", "echo", "hi"]);
    assert!(cli.is_ok());
    let cli = cli.unwrap();
    assert_eq!(cli.remote.as_deref(), Some(":9000"));
    assert_eq!(cli.command, vec!["echo", "hi"]);
    assert!(!cli.local);
}

#[test]
fn remote_without_local_skips_default_gzip() {
    let cli = parse(&["bless", "--remote", ":9", "--", "true"]).unwrap();
    assert_eq!(cli.gzip_output(), Some("-"));
    assert!(cli.output.is_none());
}

#[test]
fn remote_with_local_uses_default_gzip() {
    let cli = parse(&["bless", "--remote", ":9", "--local", "--", "true"]).unwrap();
    assert_eq!(cli.gzip_output(), None);
    assert!(cli.local);
}

#[test]
fn remote_with_dash_o_keeps_path() {
    let cli = parse(&["bless", "--remote", ":9", "-o", "x.gz", "--", "true"]).unwrap();
    assert_eq!(cli.gzip_output(), Some("x.gz"));
    assert!(!cli.local);
}

#[test]
fn parses_mongodb_with_dash_output() {
    let cli = parse(&["bless", "--use-mongodb", "-o", "-", "--", "echo", "hi"]);
    assert!(cli.is_ok());
    let cli = cli.unwrap();
    assert!(cli.use_mongodb);
    assert_eq!(cli.output.as_deref(), Some("-"));
}

#[test]
fn mongo_dest_defaults() {
    let cli = parse_env(None, None, &["bless", "--use-mongodb", "--", "echo", "hi"]).unwrap();
    assert_eq!(cli.db, "bless");
    assert_eq!(cli.collection, "commands");
}

#[test]
fn mongo_dest_flags() {
    let cli = parse_env(
        Some("fromenv"),
        Some("fromenvcol"),
        &["bless", "--db", "mydb", "--collection", "mycoll", "--", "echo", "hi"],
    )
    .unwrap();
    assert_eq!(cli.db, "mydb");
    assert_eq!(cli.collection, "mycoll");
}

#[test]
fn mongo_dest_env() {
    let cli = parse_env(Some("envdb"), Some("envcoll"), &["bless", "--use-mongodb", "--", "echo", "hi"]).unwrap();
    assert_eq!(cli.db, "envdb");
    assert_eq!(cli.collection, "envcoll");
}

#[test]
fn test_cli_parse_basic() {
    let cli = parse(&["bless", "--label", "test", "--", "echo", "hi"]);
    assert!(cli.is_ok());
    let cli = cli.unwrap();
    assert_eq!(cli.label, "test");
    assert_eq!(cli.command, vec!["echo", "hi"]);
    assert!(!cli.no_timestamp);
    assert!(!cli.split);
    assert!(!cli.force_gridfs);
}

#[test]
fn test_cli_parse_all_flags() {
    let cli = parse(&[
        "bless",
        "--label",
        "myrun",
        "--no-timestamp",
        "--format",
        "jsonl",
        "--split",
        "-o",
        "/tmp/out.log.gz",
        "--",
        "make",
        "-j8",
    ]);
    assert!(cli.is_ok());
    let cli = cli.unwrap();
    assert_eq!(cli.label, "myrun");
    assert!(cli.no_timestamp);
    assert!(cli.split);
    assert_eq!(cli.output, Some("/tmp/out.log.gz".into()));
    assert_eq!(cli.command, vec!["make", "-j8"]);
}

#[test]
fn test_cli_parse_force_gridfs() {
    let cli = parse(&["bless", "--use-mongodb", "--force-gridfs", "--", "echo", "hi"]);
    assert!(cli.is_ok());
    let cli = cli.unwrap();
    assert!(cli.use_mongodb);
    assert!(cli.force_gridfs);
    assert_eq!(cli.command, vec!["echo", "hi"]);
}

#[test]
fn test_cli_requires_command() {
    let cli = parse(&["bless"]);
    assert!(cli.is_err());
}

#[test]
fn defaults_without_flags() {
    let cli = parse(&["bless", "--", "true"]).unwrap();
    assert_eq!(cli.label, "default_label");
    assert_eq!(cli.format, OutputFormat::Log);
    assert_eq!(cli.output, None);
    assert!(!cli.use_mongodb);
    assert_eq!(cli.db, "bless");
    assert_eq!(cli.collection, "commands");
    assert_eq!(cli.serve, None);
    assert_eq!(cli.gzip_output(), None);
}

#[test]
fn serve_is_refused_without_the_serve_feature() {
    let f = Features { mongodb: true, serve: false };
    let r = Cli::try_parse_from_with(f, &EnvDefaults::none(), &["bless", "--serve", ":9000"]);
    assert!(r.is_err());
}

#[test]
fn error_kinds_name_the_problem() {
    let e = parse(&["bless", "--bogus", "--", "true"]).unwrap_err();
    assert_eq!(e.kind, CliErrorKind::UnknownArgument);
    let e = parse(&["bless", "--label"]).unwrap_err();
    assert_eq!(e.kind, CliErrorKind::MissingValue);
    let e = parse(&["bless", "--format", "xml", "--", "true"]).unwrap_err();
    assert_eq!(e.kind, CliErrorKind::InvalidValue);
    let e = parse(&["bless", "--serve", ":1", "--remote", ":2", "--", "true"]).unwrap_err();
    assert_eq!(e.kind, CliErrorKind::Conflict);
    let e = parse(&["bless"]).unwrap_err();
    assert_eq!(e.kind, CliErrorKind::MissingRequired);
    let e = parse(&["bless", "--split", "--split", "--", "true"]).unwrap_err();
    assert_eq!(e.kind, CliErrorKind::Duplicate);
}

#[test]
fn inline_values_are_accepted() {
    let cli = parse(&["bless", "--label=abc", "-ox.gz", "--", "true"]).unwrap();
    assert_eq!(cli.label, "abc");
    assert_eq!(cli.output.as_deref(), Some("x.gz"));
}

#[test]
fn mongodb_destination_comes_from_env_without_the_feature() {
    let f = Features { mongodb: false, serve: true };
    let env = EnvDefaults { db: Some("envdb".into()), collection: None };
    let cli = Cli::try_parse_from_with(f, &env, &["bless", "--", "true"]).unwrap();
    assert_eq!(cli.db, "envdb");
    assert_eq!(cli.collection, "commands");
    assert!(!cli.use_mongodb);
}

#[test]
fn refusals_are_reported_in_words() {
    let e = parse(&["bless", "--bogus", "--", "true"]).unwrap_err();
    assert!(!e.is_informational());
    assert_eq!(e.message(), "unexpected argument '--bogus' found");
    let e = parse(&["bless"]).unwrap_err();
    assert_eq!(e.message(), "the following required arguments were not provided: <COMMAND>");
    let e = parse(&["bless", "--format", "xml", "--", "true"]).unwrap_err();
    assert_eq!(e.message(), "invalid value 'xml' for '--format <FORMAT>'");
    let e = parse(&["bless", "--help"]).unwrap_err();
    assert!(e.is_informational());
    assert_eq!(e.message(), "");
}
