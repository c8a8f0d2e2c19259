use std::io::{Read, Write};
use std::time::{SystemTime, UNIX_EPOCH};

use bless::logger::{format_gzip_line, Level};
use flate2::read::GzDecoder;
use flate2::write::GzEncoder;
use flate2::Compression;

#[test]
fn finish_then_gunzip_yields_timestamped_level_line() {
    let now = SystemTime::now().duration_since(UNIX_EPOCH).unwrap().as_secs();
    let mut encoder = GzEncoder::new(Vec::new(), Compression::default());
    let line = format!("{}\n", format_gzip_line(now, Level::Info, "hello-gzip"));
    encoder.write_all(line.as_bytes()).unwrap();
    let bytes = encoder.finish().unwrap();

    let mut text = String::new();
    GzDecoder::new(&bytes[..]).read_to_string(&mut text).unwrap();
    let line = text.lines().next().expect("expected a log line");

    let rest = line.strip_prefix('[').and_then(|s| s.split_once("] ")).expect("expected [timestamp LEVEL] msg");
    let (inside, msg) = rest;
    let mut parts = inside.split_whitespace();
    let ts = parts.next().expect("timestamp");
    let level = parts.next().expect("LEVEL");
    assert!(parts.next().is_none(), "extra fields inside brackets: {inside}");
    assert!(ts.contains('T'), "rfc3339 timestamp: {ts}");
    assert_eq!(ts.len(), 20);
    assert!(ts.ends_with('Z'));
    assert_eq!(level, "INFO");
    assert_eq!(msg, "hello-gzip");
}
