use secrets_manager::checksum::{
    append_checksum, append_entry, generate_checksums, hex_digit, parse_line, parse_manifest,
    render_line, verify_checksums, verify_file_checksum, AppendChecksum, ChecksumError,
    ManifestEntry, VerifyChecksums, VerifyFileChecksum,
};
use secrets_manager::effects::{Progress, Reply, Request};

const HELLO: &str = "2cf24dba5fb0a30e26e83b2ac5b9e29e1b161e5c1fa7425e73043362938b9824";
const WORLD: &str = "486ea46224d1bb4fb680f34f7c9ad96a8f24ec88be73ea8e5a6c65260e9cb8a7";
const EMPTY: &str = "e3b0c44298fc1c149afbf4c8996fb92427ae41e4649b934ca495991b7852b855";

fn line(text: &str) -> Option<ManifestEntry> {
    parse_line(&text.chars().collect())
}

fn entry(digest: &str, path: &str) -> ManifestEntry {
    ManifestEntry { digest: digest.to_owned(), path: path.to_owned() }
}

fn asked<M, E: std::fmt::Debug>(progress: Progress<M, E>) -> (M, Request) {
    match progress {
        Progress::Ask(machine, request) => (machine, request),
        Progress::Finished(result) => panic!("finished early: {:?}", result),
    }
}

fn finished<M, E>(progress: Progress<M, E>) -> Result<(), E> {
    match progress {
        Progress::Finished(result) => result,
        Progress::Ask(_, request) => panic!("still asking: {:?}", request),
    }
}

#[test]
fn hex_digit_accepts_lowercase_digits_only() {
    for c in "0123456789abcdef".chars() {
        assert!(hex_digit(c));
    }
    for c in "ABCDEFg/:`G @".chars() {
        assert!(!hex_digit(c));
    }
}

#[test]
fn parse_line_reads_digest_and_path() {
    assert_eq!(line(&format!("{}  db.key", HELLO)), Some(entry(HELLO, "db.key")));
    assert_eq!(line(&format!("{}  dir/a b.txt", WORLD)), Some(entry(WORLD, "dir/a b.txt")));
    assert_eq!(line(&format!("{}   x", HELLO)), Some(entry(HELLO, " x")));
}

#[test]
fn parse_line_refuses_what_is_outside_the_grammar() {
    assert_eq!(line(""), None);
    assert_eq!(line(HELLO), None);
    assert_eq!(line(&format!("{}  ", HELLO)), None);
    assert_eq!(line(&format!("{} db.key", HELLO)), None);
    assert_eq!(line(&format!("{}\tdb.key", HELLO)), None);
    assert_eq!(line(&format!("{}  db.key", &HELLO[1..])), None);
    assert_eq!(line(&format!("{}0  db.key", HELLO)), None);
    assert_eq!(line(&format!("{}  db\nkey", HELLO)), None);
    assert_eq!(line(&format!("{}  db.key", HELLO.replace('a', "g"))), None);
}

#[test]
fn parse_line_refuses_uppercase_digits() {
    assert_eq!(line(&format!("{}  db.key", HELLO.to_uppercase())), None);
}

#[test]
fn parse_manifest_reads_every_line() {
    let text = format!("{}  a\n{}  dir/b\n", HELLO, WORLD);
    assert_eq!(parse_manifest(&text), Some(vec![entry(HELLO, "a"), entry(WORLD, "dir/b")]));
}

#[test]
fn parse_manifest_of_an_empty_text_has_no_entries() {
    assert_eq!(parse_manifest(""), Some(vec![]));
}

#[test]
fn parse_manifest_takes_a_missing_final_newline_and_crlf() {
    let text = format!("{}  a\r\n{}  b", HELLO, WORLD);
    assert_eq!(parse_manifest(&text), Some(vec![entry(HELLO, "a"), entry(WORLD, "b")]));
}

#[test]
fn parse_manifest_refuses_a_line_without_the_separator() {
    let text = format!("{}  a\n{} b\n", HELLO, WORLD);
    assert_eq!(parse_manifest(&text), None);
    let text = format!("{}  a\n{}b\n", HELLO, WORLD);
    assert_eq!(parse_manifest(&text), None);
}

#[test]
fn parse_manifest_refuses_an_empty_line() {
    let text = format!("{}  a\n\n{}  b\n", HELLO, WORLD);
    assert_eq!(parse_manifest(&text), None);
}

#[test]
fn render_line_writes_digest_two_spaces_path() {
    assert_eq!(
        render_line(HELLO, "dir/db.key"),
        "2cf24dba5fb0a30e26e83b2ac5b9e29e1b161e5c1fa7425e73043362938b9824  dir/db.key"
    );
}

#[test]
fn append_entry_adds_the_line_last() {
    let old = format!("{}  a\n", HELLO);
    let new_line = render_line(WORLD, "b");
    assert_eq!(
        append_entry(&old, &new_line, "b"),
        Some(format!("{}  a\n{}  b\n", HELLO, WORLD))
    );
}

#[test]
fn append_entry_replaces_the_entry_of_the_same_path() {
    let old = format!("{}  a\n{}  b\n{}  c\n", HELLO, HELLO, HELLO);
    let new_line = render_line(WORLD, "b");
    assert_eq!(
        append_entry(&old, &new_line, "b"),
        Some(format!("{}  a\n{}  c\n{}  b\n", HELLO, HELLO, WORLD))
    );
}

#[test]
fn append_entry_compares_paths_by_components() {
    let old = format!("{}  dir//b\n{}  dir/c\n", HELLO, HELLO);
    let new_line = render_line(WORLD, "dir/b");
    assert_eq!(
        append_entry(&old, &new_line, "dir/b"),
        Some(format!("{}  dir/c\n{}  dir/b\n", HELLO, WORLD))
    );
}

#[test]
fn append_entry_to_an_empty_text_writes_one_line() {
    assert_eq!(append_entry("", &render_line(EMPTY, "a"), "a"), Some(format!("{}  a\n", EMPTY)));
}

#[test]
fn append_entry_refuses_a_malformed_manifest() {
    let old = format!("{}  a\nnot a line\n", HELLO);
    assert_eq!(append_entry(&old, &render_line(WORLD, "b"), "b"), None);
}

#[test]
fn append_then_parse_finds_the_new_entry_once() {
    let old = format!("{}  a\n{}  b\n", HELLO, HELLO);
    let text = append_entry(&old, &render_line(WORLD, "a"), "a").unwrap();
    let entries = parse_manifest(&text).unwrap();
    assert_eq!(entries, vec![entry(HELLO, "b"), entry(WORLD, "a")]);
}

fn start_verify_file() -> VerifyFileChecksum {
    let (machine, request) = verify_file_checksum("dir", "db.key");
    assert_eq!(request, Request::Exists { path: "dir/db.key.sha256".to_owned() });
    machine
}

#[test]
fn verify_file_checksum_accepts_a_file_with_the_recorded_digest() {
    let machine = start_verify_file();
    let (machine, request) = asked(machine.resume(Reply::Flag(true)));
    assert_eq!(request, Request::ReadText { path: "dir/db.key.sha256".to_owned() });
    let sidecar = format!("{}  db.key\n", HELLO);
    let (machine, request) = asked(machine.resume(Reply::Text(sidecar)));
    assert_eq!(request, Request::Read { path: "dir/db.key".to_owned() });
    assert_eq!(finished(machine.resume(Reply::Bytes(b"hello".to_vec()))), Ok(()));
}

#[test]
fn verify_file_checksum_trims_the_sidecar() {
    let machine = start_verify_file();
    let (machine, _) = asked(machine.resume(Reply::Flag(true)));
    let sidecar = format!("\n  {}  some other name \r\n\n", HELLO);
    let (machine, _) = asked(machine.resume(Reply::Text(sidecar)));
    assert_eq!(finished(machine.resume(Reply::Bytes(b"hello".to_vec()))), Ok(()));
}

#[test]
fn verify_file_checksum_reports_a_missing_sidecar() {
    let machine = start_verify_file();
    assert_eq!(
        finished(machine.resume(Reply::Flag(false))),
        Err(ChecksumError::MissingChecksum("dir/db.key.sha256".to_owned()))
    );
}

#[test]
fn verify_file_checksum_reports_an_unreadable_sidecar() {
    let machine = start_verify_file();
    let (machine, _) = asked(machine.resume(Reply::Flag(true)));
    assert_eq!(
        finished(machine.resume(Reply::Failed("denied".to_owned()))),
        Err(ChecksumError::ReadChecksum("dir/db.key.sha256".to_owned(), "denied".to_owned()))
    );
}

#[test]
fn verify_file_checksum_reports_a_sidecar_of_two_lines() {
    let machine = start_verify_file();
    let (machine, _) = asked(machine.resume(Reply::Flag(true)));
    let sidecar = format!("{}  db.key\n{}  other\n", HELLO, WORLD);
    assert_eq!(
        finished(machine.resume(Reply::Text(sidecar))),
        Err(ChecksumError::IllFormattedChecksum("dir/db.key.sha256".to_owned()))
    );
}

#[test]
fn verify_file_checksum_reports_an_unreadable_file() {
    let machine = start_verify_file();
    let (machine, _) = asked(machine.resume(Reply::Flag(true)));
    let (machine, _) = asked(machine.resume(Reply::Text(format!("{}  db.key", HELLO))));
    assert_eq!(
        finished(machine.resume(Reply::Failed("gone".to_owned()))),
        Err(ChecksumError::ReadSource("dir/db.key".to_owned(), "gone".to_owned()))
    );
}

#[test]
fn verify_file_checksum_reports_a_mismatch() {
    let machine = start_verify_file();
    let (machine, _) = asked(machine.resume(Reply::Flag(true)));
    let (machine, _) = asked(machine.resume(Reply::Text(format!("{}  db.key", HELLO))));
    assert_eq!(
        finished(machine.resume(Reply::Bytes(b"hellO".to_vec()))),
        Err(ChecksumError::ChecksumMismatch(
            "dir/db.key".to_owned(),
            "dir/db.key.sha256".to_owned()
        ))
    );
}

#[test]
fn a_reply_of_the_wrong_kind_counts_as_a_failure() {
    let machine = start_verify_file();
    let (machine, _) = asked(machine.resume(Reply::Flag(true)));
    assert_eq!(
        finished(machine.resume(Reply::Done)),
        Err(ChecksumError::ReadChecksum(
            "dir/db.key.sha256".to_owned(),
            "unexpected reply".to_owned()
        ))
    );
}

fn start_append() -> AppendChecksum {
    let (machine, request) = append_checksum("out", "hello.txt");
    assert_eq!(request, Request::Read { path: "out/hello.txt".to_owned() });
    machine
}

#[test]
fn append_checksum_writes_a_new_manifest() {
    let machine = start_append();
    let (machine, request) = asked(machine.resume(Reply::Bytes(b"hello".to_vec())));
    assert_eq!(request, Request::Exists { path: "out/sha256sums.txt".to_owned() });
    let (machine, request) = asked(machine.resume(Reply::Flag(false)));
    assert_eq!(
        request,
        Request::WriteText {
            path: "out/sha256sums.txt".to_owned(),
            text: format!("{}  hello.txt\n", HELLO),
        }
    );
    assert_eq!(finished(machine.resume(Reply::Done)), Ok(()));
}

#[test]
fn append_checksum_extends_an_existing_manifest() {
    let machine = start_append();
    let (machine, _) = asked(machine.resume(Reply::Bytes(b"hello".to_vec())));
    let (machine, request) = asked(machine.resume(Reply::Flag(true)));
    assert_eq!(request, Request::ReadText { path: "out/sha256sums.txt".to_owned() });
    let old = format!("{}  other\n{}  hello.txt\n", WORLD, WORLD);
    let (machine, request) = asked(machine.resume(Reply::Text(old)));
    assert_eq!(
        request,
        Request::WriteText {
            path: "out/sha256sums.txt".to_owned(),
            text: format!("{}  other\n{}  hello.txt\n", WORLD, HELLO),
        }
    );
    assert_eq!(finished(machine.resume(Reply::Done)), Ok(()));
}

#[test]
fn append_checksum_reports_each_failure() {
    assert_eq!(
        finished(start_append().resume(Reply::Failed("gone".to_owned()))),
        Err(ChecksumError::ReadSource("out/hello.txt".to_owned(), "gone".to_owned()))
    );
    let (machine, _) = asked(start_append().resume(Reply::Bytes(b"hello".to_vec())));
    let (machine, _) = asked(machine.resume(Reply::Flag(true)));
    assert_eq!(
        finished(machine.clone().resume(Reply::Failed("denied".to_owned()))),
        Err(ChecksumError::ReadChecksum("out/sha256sums.txt".to_owned(), "denied".to_owned()))
    );
    assert_eq!(
        finished(machine.clone().resume(Reply::Text("garbage\n".to_owned()))),
        Err(ChecksumError::IllFormattedChecksum("out/sha256sums.txt".to_owned()))
    );
    let (machine, _) = asked(machine.resume(Reply::Text(String::new())));
    assert_eq!(
        finished(machine.resume(Reply::Failed("full".to_owned()))),
        Err(ChecksumError::WriteChecksum("out/sha256sums.txt".to_owned(), "full".to_owned()))
    );
}

fn start_verify() -> VerifyChecksums {
    let (machine, request) = verify_checksums("out");
    assert_eq!(request, Request::Exists { path: "out/sha256sums.txt".to_owned() });
    let (machine, request) = asked(machine.resume(Reply::Flag(true)));
    assert_eq!(request, Request::ReadText { path: "out/sha256sums.txt".to_owned() });
    machine
}

#[test]
fn verify_checksums_reads_the_files_in_the_order_of_the_manifest() {
    let manifest = format!("{}  a\n{}  dir/b\n", HELLO, WORLD);
    let (machine, request) = asked(start_verify().resume(Reply::Text(manifest)));
    assert_eq!(request, Request::Read { path: "out/a".to_owned() });
    let (machine, request) = asked(machine.resume(Reply::Bytes(b"hello".to_vec())));
    assert_eq!(request, Request::Read { path: "out/dir/b".to_owned() });
    assert_eq!(finished(machine.resume(Reply::Bytes(b"world".to_vec()))), Ok(()));
}

#[test]
fn verify_checksums_accepts_an_empty_manifest() {
    assert_eq!(finished(start_verify().resume(Reply::Text(String::new()))), Ok(()));
}

#[test]
fn verify_checksums_reports_a_missing_manifest() {
    let (machine, _) = verify_checksums("out");
    assert_eq!(
        finished(machine.resume(Reply::Flag(false))),
        Err(ChecksumError::MissingChecksum("out/sha256sums.txt".to_owned()))
    );
}

#[test]
fn verify_checksums_reports_an_unreadable_manifest() {
    assert_eq!(
        finished(start_verify().resume(Reply::Failed("denied".to_owned()))),
        Err(ChecksumError::ReadChecksum("out/sha256sums.txt".to_owned(), "denied".to_owned()))
    );
}

#[test]
fn a_line_without_the_separator_fails_before_any_file_is_read() {
    let manifest = format!("{}  a\n{} b\n", HELLO, WORLD);
    assert_eq!(
        finished(start_verify().resume(Reply::Text(manifest))),
        Err(ChecksumError::IllFormattedChecksum("out/sha256sums.txt".to_owned()))
    );
}

#[test]
fn verify_checksums_stops_at_the_first_mismatch() {
    let manifest = format!("{}  a\n{}  b\n", HELLO, WORLD);
    let (machine, _) = asked(start_verify().resume(Reply::Text(manifest)));
    assert_eq!(
        finished(machine.resume(Reply::Bytes(b"tampered".to_vec()))),
        Err(ChecksumError::ChecksumMismatch(
            "out/a".to_owned(),
            "out/sha256sums.txt".to_owned()
        ))
    );
}

#[test]
fn verify_checksums_reports_an_unreadable_file() {
    let manifest = format!("{}  a\n", HELLO);
    let (machine, _) = asked(start_verify().resume(Reply::Text(manifest)));
    assert_eq!(
        finished(machine.resume(Reply::Failed("gone".to_owned()))),
        Err(ChecksumError::ReadSource("out/a".to_owned(), "gone".to_owned()))
    );
}

#[test]
fn an_appended_entry_verifies_against_the_same_content() {
    let (machine, _) = append_checksum("out", "f");
    let (machine, _) = asked(machine.resume(Reply::Bytes(b"k1".to_vec())));
    let (_, request) = asked(machine.resume(Reply::Flag(false)));
    let manifest = match request {
        Request::WriteText { text, .. } => text,
        other => panic!("unexpected request {:?}", other),
    };
    assert_eq!(
        manifest,
        "6ab9f1eb8f7d3388f4f9d586f66e99fd54080df2c446f0e58668b09c08a16dd0  f\n"
    );
    let (machine, request) = asked(start_verify().resume(Reply::Text(manifest.clone())));
    assert_eq!(request, Request::Read { path: "out/f".to_owned() });
    assert_eq!(finished(machine.resume(Reply::Bytes(b"k1".to_vec()))), Ok(()));

    let (sidecar_check, _) = verify_file_checksum("out", "f");
    let (sidecar_check, _) = asked(sidecar_check.resume(Reply::Flag(true)));
    let (sidecar_check, _) = asked(sidecar_check.resume(Reply::Text(manifest)));
    assert_eq!(finished(sidecar_check.resume(Reply::Bytes(b"k1".to_vec()))), Ok(()));
}

#[test]
fn judge_compares_the_digest_it_is_given() {
    let machine = start_verify_file();
    let (machine, _) = asked(machine.resume(Reply::Flag(true)));
    let (machine, _) = asked(machine.resume(Reply::Text(format!("{}  db.key", HELLO))));
    assert_eq!(finished(machine.clone().judge(HELLO)), Ok(()));
    assert_eq!(
        finished(machine.judge(WORLD)),
        Err(ChecksumError::ChecksumMismatch(
            "dir/db.key".to_owned(),
            "dir/db.key.sha256".to_owned()
        ))
    );

    let manifest = format!("{}  a\n", HELLO);
    let (machine, _) = asked(start_verify().resume(Reply::Text(manifest)));
    assert_eq!(finished(machine.clone().judge(HELLO)), Ok(()));
    assert_eq!(
        finished(machine.judge(EMPTY)),
        Err(ChecksumError::ChecksumMismatch("out/a".to_owned(), "out/sha256sums.txt".to_owned()))
    );
}

#[test]
fn record_makes_the_line_of_the_digest_it_is_given() {
    let (machine, request) = asked(start_append().record(WORLD));
    assert_eq!(request, Request::Exists { path: "out/sha256sums.txt".to_owned() });
    assert_eq!(machine.line, format!("{}  hello.txt", WORLD));
}

#[test]
fn generate_checksums_adds_the_files_one_after_the_other() {
    assert!(generate_checksums("out", vec![]).is_none());
    let (machine, request) =
        generate_checksums("out", vec!["a".to_owned(), "b".to_owned()]).unwrap();
    assert_eq!(request, Request::Read { path: "out/a".to_owned() });
    let (machine, _) = asked(machine.resume(Reply::Bytes(b"hello".to_vec())));
    let (machine, request) = asked(machine.resume(Reply::Flag(false)));
    assert_eq!(
        request,
        Request::WriteText {
            path: "out/sha256sums.txt".to_owned(),
            text: format!("{}  a\n", HELLO)
        }
    );
    let (machine, request) = asked(machine.resume(Reply::Done));
    assert_eq!(request, Request::Read { path: "out/b".to_owned() });
    let (machine, _) = asked(machine.resume(Reply::Bytes(b"world".to_vec())));
    let (machine, _) = asked(machine.resume(Reply::Flag(true)));
    let (machine, request) = asked(machine.resume(Reply::Text(format!("{}  a\n", HELLO))));
    assert_eq!(
        request,
        Request::WriteText {
            path: "out/sha256sums.txt".to_owned(),
            text: format!("{}  a\n{}  b\n", HELLO, WORLD)
        }
    );
    assert_eq!(finished(machine.resume(Reply::Done)), Ok(()));
}

#[test]
fn generate_checksums_stops_at_the_first_failure() {
    let (machine, _) = generate_checksums("out", vec!["a".to_owned(), "b".to_owned()]).unwrap();
    assert_eq!(
        finished(machine.resume(Reply::Failed("gone".to_owned()))),
        Err(ChecksumError::ReadSource("out/a".to_owned(), "gone".to_owned()))
    );
}

#[test]
fn a_check_that_has_lost_its_place_fails() {
    let manifest = format!("{}  a\n", HELLO);
    let (mut machine, _) = asked(start_verify().resume(Reply::Text(manifest)));
    machine.index = 1;
    assert_eq!(
        finished(machine.clone().resume(Reply::Bytes(b"hello".to_vec()))),
        Err(ChecksumError::ChecksumMismatch("out/a".to_owned(), "out/sha256sums.txt".to_owned()))
    );
    assert_eq!(
        finished(machine.judge(HELLO)),
        Err(ChecksumError::ChecksumMismatch("out/a".to_owned(), "out/sha256sums.txt".to_owned()))
    );
}

#[test]
fn verify_file_checksum_takes_a_name_with_whitespace_at_its_end() {
    let machine = start_verify_file();
    let (machine, _) = asked(machine.resume(Reply::Flag(true)));
    let (machine, _) = asked(machine.resume(Reply::Text(format!("{}  db key \t\n", HELLO))));
    assert_eq!(finished(machine.resume(Reply::Bytes(b"hello".to_vec()))), Ok(()));
}
