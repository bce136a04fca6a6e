use secrets_manager::checksum::{verify_file_checksum, ChecksumError};
use secrets_manager::config::{load_config, Config, ProfileTable};
use secrets_manager::crypto::{decrypt, encrypt};
use secrets_manager::crypto::CryptCall;
use secrets_manager::effects::{FileMeta, Progress, Reply, Request};
use secrets_manager::export::{
    copy_program, export, export_additional, export_file, ExportAdditionalError, ExportError,
    ExportFileError, ExportFileStage, ProgramPath,
};
use secrets_manager::import::{
    find_dirs_above, find_parent_dirs, import, import_file, reconcile, Import, ImportError,
    ImportFileError, ImportStage, LinkAction, LinkFault, DIR_MODE, FILE_MODE, OWNER,
};
use secrets_manager::safe_fs::SafeFsError;
use secrets_manager::verify_export::{verify_export, VerifyExportError};
use std::collections::BTreeMap;

const K1: &str = "6ab9f1eb8f7d3388f4f9d586f66e99fd54080df2c446f0e58668b09c08a16dd0";
const K2: &str = "015f7e6bc5aeaf483724089e9252cc13b50951a6b69412522765cff4d780306e";
const PROGRAM: &str = "/usr/bin/secrets-manager";
const SOURCE_TEXT: &str = "[secrets]\nalice = [\"db.key\"]\n";

#[derive(Clone, Debug, PartialEq)]
enum Node {
    File { content: Vec<u8>, uid: u32, gid: u32, mode: u32 },
    Dir { uid: u32, gid: u32, mode: u32 },
    Link(String),
}

/// A file system in memory. What it creates belongs to user 1000 until
/// told otherwise.
struct Disk {
    nodes: BTreeMap<String, Node>,
    writes: Vec<String>,
}

impl Disk {
    fn new() -> Disk {
        let mut disk = Disk { nodes: BTreeMap::new(), writes: Vec::new() };
        disk.put(PROGRAM, b"\x7fELF program");
        disk
    }

    fn dir(&mut self, path: &str) {
        self.nodes.insert(path.to_owned(), Node::Dir { uid: 1000, gid: 1000, mode: 0o755 });
    }

    fn put(&mut self, path: &str, content: &[u8]) {
        self.nodes.insert(
            path.to_owned(),
            Node::File { content: content.to_vec(), uid: 1000, gid: 1000, mode: 0o644 },
        );
    }

    fn secret(&mut self, path: &str, content: &[u8], digest: &str, name: &str) {
        self.nodes.insert(
            path.to_owned(),
            Node::File { content: content.to_vec(), uid: 0, gid: 0, mode: 0o600 },
        );
        self.put(&format!("{}.sha256", path), format!("{}  {}\n", digest, name).as_bytes());
    }

    fn content(&self, path: &str) -> Option<Vec<u8>> {
        match self.nodes.get(path) {
            Some(Node::File { content, .. }) => Some(content.clone()),
            _ => None,
        }
    }

    fn text(&self, path: &str) -> String {
        String::from_utf8(self.content(path).unwrap()).unwrap()
    }

    fn perform(&mut self, request: Request) -> Reply {
        match request {
            Request::Exists { path } => Reply::Flag(self.nodes.contains_key(&path)),
            Request::IsDir { path } => {
                Reply::Flag(matches!(self.nodes.get(&path), Some(Node::Dir { .. })))
            }
            Request::Read { path } => match self.content(&path) {
                Some(content) => Reply::Bytes(content),
                None => Reply::Failed(format!("cannot read {}", path)),
            },
            Request::ReadText { path } => match self.content(&path).map(String::from_utf8) {
                Some(Ok(text)) => Reply::Text(text),
                _ => Reply::Failed(format!("cannot read {}", path)),
            },
            Request::Write { path, content } => {
                self.writes.push(path.clone());
                self.put(&path, &content);
                Reply::Done
            }
            Request::WriteText { path, text } => {
                self.writes.push(path.clone());
                self.put(&path, text.as_bytes());
                Reply::Done
            }
            Request::CreateDir { path } | Request::CreateDirAll { path } => {
                self.writes.push(path.clone());
                self.dir(&path);
                Reply::Done
            }
            Request::Chown { path, uid: new_uid, gid: new_gid } => {
                match self.nodes.get_mut(&path) {
                    Some(Node::File { uid, gid, .. }) | Some(Node::Dir { uid, gid, .. }) => {
                        *uid = new_uid;
                        *gid = new_gid;
                        Reply::Done
                    }
                    _ => Reply::Failed(format!("cannot chown {}", path)),
                }
            }
            Request::Chmod { path, mode: new_mode } => match self.nodes.get_mut(&path) {
                Some(Node::File { mode, .. }) | Some(Node::Dir { mode, .. }) => {
                    *mode = new_mode;
                    Reply::Done
                }
                _ => Reply::Failed(format!("cannot chmod {}", path)),
            },
            Request::Copy { from, to } => match self.content(&from) {
                Some(content) => {
                    self.writes.push(to.clone());
                    self.put(&to, &content);
                    Reply::Done
                }
                None => Reply::Failed(format!("cannot copy {}", from)),
            },
            Request::Stat { path } => match self.nodes.get(&path) {
                Some(Node::File { uid, gid, mode, .. }) | Some(Node::Dir { uid, gid, mode }) => {
                    Reply::Meta(FileMeta { uid: *uid, gid: *gid, mode: *mode })
                }
                _ => Reply::Failed(format!("cannot stat {}", path)),
            },
            Request::ReadLink { path } => match self.nodes.get(&path) {
                None => Reply::Flag(false),
                Some(Node::Link(to)) => Reply::Link(to.clone()),
                Some(_) => Reply::Flag(true),
            },
            Request::Symlink { file, link } => {
                self.writes.push(link.clone());
                self.nodes.insert(link, Node::Link(file));
                Reply::Done
            }
        }
    }
}

fn table(entries: &[(&str, &[&str])]) -> ProfileTable {
    let mut t = ProfileTable::new();
    for (name, items) in entries {
        t.insert(name.to_string(), items.iter().map(|s| s.to_string()).collect());
    }
    t
}

fn config(secrets: &[(&str, &[&str])], imports: &[(&str, &[&str])]) -> Config {
    load_config("cfg.toml", SOURCE_TEXT.to_owned(), table(secrets), table(imports)).unwrap()
}

fn run_export(disk: &mut Disk, profile: &str, config: &Config) -> Result<(), ExportError> {
    run_export_with(disk, profile, config, ProgramPath::Known(PROGRAM.to_owned()))
}

fn run_export_with(
    disk: &mut Disk,
    profile: &str,
    config: &Config,
    program: ProgramPath,
) -> Result<(), ExportError> {
    let (machine, request) = export(
        profile.to_owned(),
        "secrets".to_owned(),
        "out".to_owned(),
        config,
        "pw".to_owned(),
        program,
    );
    let mut progress = Progress::Ask(machine, request);
    loop {
        match progress {
            Progress::Finished(result) => return result,
            Progress::Ask(machine, request) => progress = machine.resume(disk.perform(request)),
        }
    }
}

fn run_import(
    disk: &mut Disk,
    profile: &str,
    config: &Config,
    passphrase: &str,
    links: Option<&str>,
) -> Result<(), ImportError> {
    let (machine, request) = import(
        profile.to_owned(),
        "out".to_owned(),
        "restored".to_owned(),
        config,
        passphrase.to_owned(),
        links.map(str::to_owned),
    );
    let mut progress = Progress::Ask(machine, request);
    loop {
        match progress {
            Progress::Finished(result) => return result,
            Progress::Ask(machine, request) => progress = machine.resume(disk.perform(request)),
        }
    }
}

fn run_verify_one(disk: &mut Disk, dir: &str, rel: &str) -> Result<(), ChecksumError> {
    let (machine, request) = verify_file_checksum(dir, rel);
    let mut progress = Progress::Ask(machine, request);
    loop {
        match progress {
            Progress::Finished(result) => return result,
            Progress::Ask(machine, request) => progress = machine.resume(disk.perform(request)),
        }
    }
}

fn run_verify_export(disk: &mut Disk, source: &str) -> Result<(), VerifyExportError> {
    let (machine, request) = verify_export(source.to_owned());
    let mut progress = Progress::Ask(machine, request);
    loop {
        match progress {
            Progress::Finished(result) => return result,
            Progress::Ask(machine, request) => progress = machine.resume(disk.perform(request)),
        }
    }
}

/// A disk with the secret `db.key` of alice, and empty trees to export to
/// and to import into.
fn alice_disk() -> Disk {
    let mut disk = Disk::new();
    disk.dir("secrets");
    disk.dir("out");
    disk.dir("restored");
    disk.secret("secrets/db.key", b"k1", K1, "db.key");
    disk
}

#[test]
fn export_then_import_restores_the_secret() {
    let mut disk = alice_disk();
    let config = config(&[("alice", &["db.key"])], &[]);
    assert_eq!(run_export(&mut disk, "alice", &config), Ok(()));
    assert_eq!(run_import(&mut disk, "alice", &config, "pw", None), Ok(()));
    assert_eq!(
        disk.nodes.get("restored/db.key"),
        Some(&Node::File { content: b"k1".to_vec(), uid: 0, gid: 0, mode: 0o600 })
    );
    assert_eq!(disk.nodes.get("restored/db.key"), disk.nodes.get("secrets/db.key"));
    assert_eq!(run_verify_one(&mut disk, "restored", "db.key"), Ok(()));
}

#[test]
fn export_then_import_restores_each_secret_of_a_profile() {
    let mut disk = alice_disk();
    disk.dir("secrets/api");
    disk.secret("secrets/api/token", b"k2", K2, "token");
    disk.nodes.insert(
        "secrets/api/token".to_owned(),
        Node::File { content: b"k2".to_vec(), uid: 1000, gid: 100, mode: 0o640 },
    );
    let config = config(&[("alice", &["db.key", "api/token"])], &[]);
    assert_eq!(run_export(&mut disk, "alice", &config), Ok(()));
    assert_eq!(run_import(&mut disk, "alice", &config, "pw", None), Ok(()));
    assert_eq!(
        disk.nodes.get("restored/db.key"),
        Some(&Node::File { content: b"k1".to_vec(), uid: 0, gid: 0, mode: 0o600 })
    );
    assert_eq!(
        disk.nodes.get("restored/api/token"),
        Some(&Node::File { content: b"k2".to_vec(), uid: 1000, gid: 100, mode: 0o640 })
    );
    assert_eq!(disk.content("restored/db.key.sha256"), disk.content("secrets/db.key.sha256"));
    assert_eq!(
        disk.content("restored/api/token.sha256"),
        disk.content("secrets/api/token.sha256")
    );
}

#[test]
fn import_gives_the_file_the_owner_and_mode_of_its_source() {
    let mut disk = alice_disk();
    disk.nodes.insert(
        "secrets/db.key".to_owned(),
        Node::File { content: b"k1".to_vec(), uid: 1000, gid: 100, mode: 0o640 },
    );
    let config = config(&[("alice", &["db.key"])], &[]);
    assert_eq!(run_export(&mut disk, "alice", &config), Ok(()));
    assert_eq!(disk.text("out/db.key.meta"), "1000 100 416\n");
    assert_eq!(run_import(&mut disk, "alice", &config, "pw", None), Ok(()));
    assert_eq!(
        disk.nodes.get("restored/db.key"),
        Some(&Node::File { content: b"k1".to_vec(), uid: 1000, gid: 100, mode: 0o640 })
    );
    assert_eq!(disk.nodes.get("restored/db.key"), disk.nodes.get("secrets/db.key"));
    assert!(matches!(
        disk.nodes.get("restored/db.key.sha256"),
        Some(Node::File { uid: 1000, gid: 100, mode: 0o640, .. })
    ));
    assert_eq!(run_verify_one(&mut disk, "restored", "db.key"), Ok(()));
}

#[test]
fn import_refuses_a_record_of_owner_and_mode_that_is_none() {
    let mut disk = alice_disk();
    let mut manifest = String::new();
    exported(&mut disk, &mut manifest, "db.key", b"k1", K1);
    disk.put("out/db.key.meta", b"root root rw\n");
    manifest.push_str(&format!("{}  db.key.meta\n", sha256::digest("root root rw\n")));
    disk.put("out/sha256sums.txt", manifest.as_bytes());
    let config = config(&[("alice", &["db.key"])], &[]);
    disk.writes.clear();
    assert_eq!(
        run_import(&mut disk, "alice", &config, "pw", None),
        Err(ImportError::ImportFile(
            "db.key".to_owned(),
            ImportFileError::IllFormedMeta("out/db.key.meta".to_owned())
        ))
    );
    assert!(disk.writes.is_empty());
}

#[test]
fn export_reports_a_source_whose_owner_cannot_be_read() {
    let (machine, _) = export_file("db.key", "secrets", "out", "pw");
    let mut disk = alice_disk();
    let mut progress =
        Progress::Ask(machine, Request::Exists { path: "secrets/db.key.sha256".to_owned() });
    let outcome = loop {
        progress = match progress {
            Progress::Finished(result) => break result,
            Progress::Ask(machine, Request::Stat { path }) => {
                assert_eq!(path, "secrets/db.key");
                machine.resume(Reply::Failed("denied".to_owned()))
            }
            Progress::Ask(machine, request) => machine.resume(disk.perform(request)),
        };
    };
    assert_eq!(
        outcome,
        Err(ExportFileError::ReadMeta("secrets/db.key".to_owned(), "denied".to_owned()))
    );
    assert!(!disk.nodes.contains_key("out/sha256sums.txt"));
}

#[test]
fn export_encrypts_under_the_passphrase_it_was_given() {
    let mut disk = alice_disk();
    let config = config(&[("alice", &["db.key"])], &[]);
    assert_eq!(run_export(&mut disk, "alice", &config), Ok(()));
    let sealed = disk.content("out/db.key.age").unwrap();
    assert!(decrypt(&sealed, "").is_err());
}

#[test]
fn a_step_hands_out_the_bytes_that_arrived() {
    let (machine, _) = import_file("db.key", "out", "restored", "pw");
    assert_eq!(
        machine.crypt_call(&Reply::Bytes(vec![1, 2, 3])),
        CryptCall::Decrypt { bytes: vec![1, 2, 3], passphrase: "pw".to_owned() }
    );
    assert_eq!(machine.crypt_call(&Reply::Failed("gone".to_owned())), CryptCall::Nothing);
    let (mut machine, _) = export_file("db.key", "secrets", "out", "secret words");
    assert_eq!(machine.crypt_call(&Reply::Bytes(vec![4])), CryptCall::Nothing);
    machine.stage = ExportFileStage::ReadingSource;
    assert_eq!(
        machine.crypt_call(&Reply::Bytes(vec![4])),
        CryptCall::Encrypt { bytes: vec![4], passphrase: "secret words".to_owned() }
    );
    machine.stage = ExportFileStage::ReadingBack;
    assert_eq!(
        machine.crypt_call(&Reply::Bytes(vec![5, 6])),
        CryptCall::Decrypt { bytes: vec![5, 6], passphrase: "secret words".to_owned() }
    );
    assert_eq!(machine.crypt_call(&Reply::Done), CryptCall::Nothing);
}

#[test]
fn export_writes_ciphertext_sidecar_manifest_program_and_config() {
    let mut disk = alice_disk();
    let config = config(&[("alice", &["db.key"])], &[]);
    assert_eq!(run_export(&mut disk, "alice", &config), Ok(()));
    let sealed = disk.content("out/db.key.age").unwrap();
    assert_ne!(sealed, b"k1".to_vec());
    assert_eq!(decrypt(&sealed, "pw").unwrap(), b"k1".to_vec());
    assert_eq!(disk.text("out/db.key.sha256"), format!("{}  db.key\n", K1));
    assert_eq!(disk.content("out/secrets-manager"), disk.content(PROGRAM));
    assert_eq!(disk.text("out/secrets-manager.toml"), SOURCE_TEXT);
    let manifest = disk.text("out/sha256sums.txt");
    let listed: Vec<&str> = manifest.lines().map(|line| &line[66..]).collect();
    assert_eq!(
        listed,
        vec!["db.key.age", "db.key.sha256", "db.key.meta", "secrets-manager", "secrets-manager.toml"]
    );
    assert_eq!(disk.text("out/db.key.meta"), "0 0 384\n");
    assert_eq!(run_verify_export(&mut disk, "out"), Ok(()));
    assert_eq!(disk.content("secrets/db.key"), Some(b"k1".to_vec()));
}

#[test]
fn export_takes_the_own_secrets_only() {
    let mut disk = alice_disk();
    disk.secret("secrets/api.key", b"k2", K2, "api.key");
    let config = config(&[("alice", &["db.key"]), ("bob", &["api.key"])], &[("alice", &["api.key"])]);
    assert_eq!(run_export(&mut disk, "alice", &config), Ok(()));
    assert!(disk.nodes.contains_key("out/db.key.age"));
    assert!(!disk.nodes.contains_key("out/api.key.age"));
}

#[test]
fn export_of_an_unknown_profile_exports_the_additional_files_only() {
    let mut disk = alice_disk();
    let config = config(&[("alice", &["db.key"])], &[]);
    assert_eq!(run_export(&mut disk, "nobody", &config), Ok(()));
    assert!(!disk.nodes.contains_key("out/db.key.age"));
    assert!(disk.nodes.contains_key("out/secrets-manager.toml"));
}

#[test]
fn export_creates_the_directories_of_a_nested_secret() {
    let mut disk = Disk::new();
    disk.dir("secrets");
    disk.dir("out");
    disk.dir("restored");
    disk.secret("secrets/dir/sub/api.key", b"k2", K2, "api.key");
    let config = config(&[("alice", &["dir/sub/api.key"])], &[]);
    assert_eq!(run_export(&mut disk, "alice", &config), Ok(()));
    assert!(matches!(disk.nodes.get("out/dir/sub"), Some(Node::Dir { .. })));
    assert!(disk.nodes.contains_key("out/dir/sub/api.key.age"));
    assert_eq!(run_import(&mut disk, "alice", &config, "pw", None), Ok(()));
    assert_eq!(
        disk.nodes.get("restored/dir"),
        Some(&Node::Dir { uid: OWNER, gid: OWNER, mode: DIR_MODE })
    );
    assert_eq!(
        disk.nodes.get("restored/dir/sub"),
        Some(&Node::Dir { uid: 0, gid: 0, mode: 0o755 })
    );
    assert_eq!(
        disk.nodes.get("restored/dir/sub/api.key"),
        Some(&Node::File { content: b"k2".to_vec(), uid: OWNER, gid: OWNER, mode: FILE_MODE })
    );
    assert_eq!(
        disk.nodes.get("restored/dir/sub/api.key.sha256"),
        Some(&Node::File {
            content: format!("{}  api.key\n", K2).into_bytes(),
            uid: 0,
            gid: 0,
            mode: 0o600
        })
    );
}

#[test]
fn export_needs_both_roots_to_be_directories() {
    let config = config(&[("alice", &["db.key"])], &[]);
    let mut disk = alice_disk();
    disk.nodes.remove("secrets");
    assert_eq!(
        run_export(&mut disk, "alice", &config),
        Err(ExportError::MissingSourcePath("secrets".to_owned()))
    );
    disk.put("secrets", b"a file");
    assert_eq!(
        run_export(&mut disk, "alice", &config),
        Err(ExportError::SourceNotDir("secrets".to_owned()))
    );
    let mut disk = alice_disk();
    disk.nodes.remove("out");
    assert_eq!(
        run_export(&mut disk, "alice", &config),
        Err(ExportError::MissingTargetPath("out".to_owned()))
    );
    disk.put("out", b"a file");
    assert_eq!(
        run_export(&mut disk, "alice", &config),
        Err(ExportError::TargetNotDir("out".to_owned()))
    );
    assert!(disk.writes.is_empty());
}

#[test]
fn export_refuses_a_source_that_fails_its_sidecar() {
    let mut disk = alice_disk();
    disk.secret("secrets/db.key", b"changed", K1, "db.key");
    let config = config(&[("alice", &["db.key"])], &[]);
    assert_eq!(
        run_export(&mut disk, "alice", &config),
        Err(ExportError::ExportFile(
            "db.key".to_owned(),
            ExportFileError::VerifySource(
                "secrets/db.key".to_owned(),
                ChecksumError::ChecksumMismatch(
                    "secrets/db.key".to_owned(),
                    "secrets/db.key.sha256".to_owned()
                )
            )
        ))
    );
    assert!(disk.writes.is_empty());
}

#[test]
fn export_refuses_a_source_without_sidecar() {
    let mut disk = alice_disk();
    disk.nodes.remove("secrets/db.key.sha256");
    let config = config(&[("alice", &["db.key"])], &[]);
    assert_eq!(
        run_export(&mut disk, "alice", &config),
        Err(ExportError::ExportFile(
            "db.key".to_owned(),
            ExportFileError::VerifySource(
                "secrets/db.key".to_owned(),
                ChecksumError::MissingChecksum("secrets/db.key.sha256".to_owned())
            )
        ))
    );
}

#[test]
fn export_stops_at_the_first_secret_that_fails() {
    let mut disk = alice_disk();
    let config = config(&[("alice", &["missing.key", "db.key"])], &[]);
    assert!(matches!(
        run_export(&mut disk, "alice", &config),
        Err(ExportError::ExportFile(path, ExportFileError::VerifySource(..))) if path == "missing.key"
    ));
    assert!(!disk.nodes.contains_key("out/db.key.age"));
}

#[test]
fn export_reports_a_program_that_cannot_be_exported() {
    let config = config(&[], &[]);
    let mut disk = alice_disk();
    assert_eq!(
        run_export_with(&mut disk, "alice", &config, ProgramPath::Unavailable("why".to_owned())),
        Err(ExportError::ExportAdditional(ExportAdditionalError::GetExePath("why".to_owned())))
    );
    assert_eq!(
        run_export_with(&mut disk, "alice", &config, ProgramPath::NotUtf8),
        Err(ExportError::ExportAdditional(ExportAdditionalError::InvalidExePath))
    );
    assert_eq!(
        run_export_with(&mut disk, "alice", &config, ProgramPath::Known("/".to_owned())),
        Err(ExportError::ExportAdditional(ExportAdditionalError::InvalidExeFilename))
    );
    assert_eq!(
        run_export_with(&mut disk, "alice", &config, ProgramPath::Known("/gone/tool".to_owned())),
        Err(ExportError::ExportAdditional(ExportAdditionalError::CopyExe(
            "cannot copy /gone/tool".to_owned()
        )))
    );
}

#[test]
fn export_additional_copies_the_program_under_its_file_name() {
    let (machine, request) =
        export_additional("out", "text", ProgramPath::Known("/opt/bin/tool".to_owned())).unwrap();
    assert_eq!(
        request,
        Request::Copy { from: "/opt/bin/tool".to_owned(), to: "out/tool".to_owned() }
    );
    assert_eq!(machine.exe_name, "tool");
    assert_eq!(machine.config_target, "out/secrets-manager.toml");
}

#[test]
fn export_file_ends_when_the_written_file_does_not_decrypt_to_the_source() {
    let (machine, _) = export_file("db.key", "secrets", "out", "pw");
    let mut disk = alice_disk();
    let mut progress = Progress::Ask(machine, Request::Exists { path: "secrets/db.key.sha256".to_owned() });
    let mut outcome = None;
    while outcome.is_none() {
        progress = match progress {
            Progress::Finished(result) => {
                outcome = Some(result);
                break;
            }
            Progress::Ask(machine, Request::Read { path }) if path == "out/db.key.age" => {
                let other = encrypt(b"not k1", "pw").unwrap();
                machine.resume(Reply::Bytes(other))
            }
            Progress::Ask(machine, request) => machine.resume(disk.perform(request)),
        };
    }
    assert_eq!(outcome, Some(Err(ExportFileError::VerifyExport)));
    assert!(!disk.nodes.contains_key("out/db.key.sha256"));
    assert!(!disk.nodes.contains_key("out/sha256sums.txt"));
}

#[test]
fn export_file_ends_when_the_written_file_does_not_decrypt() {
    let (machine, _) = export_file("db.key", "secrets", "out", "pw");
    let mut disk = alice_disk();
    let mut progress = Progress::Ask(machine, Request::Exists { path: "secrets/db.key.sha256".to_owned() });
    let outcome = loop {
        progress = match progress {
            Progress::Finished(result) => break result,
            Progress::Ask(machine, Request::Read { path }) if path == "out/db.key.age" => {
                machine.resume(Reply::Bytes(b"truncated".to_vec()))
            }
            Progress::Ask(machine, request) => machine.resume(disk.perform(request)),
        };
    };
    assert!(matches!(outcome, Err(ExportFileError::DecryptEndpoint(_))));
    assert!(!disk.nodes.contains_key("out/sha256sums.txt"));
}

/// Puts into `out` what an export of `name` with `content` leaves there,
/// and enters both files in the manifest text.
fn exported(disk: &mut Disk, manifest: &mut String, name: &str, content: &[u8], digest: &str) {
    let sealed = encrypt(content, "pw").unwrap();
    let sidecar = format!("{}  {}\n", digest, name);
    manifest.push_str(&format!("{}  {}.age\n", sha256::digest(&sealed), name));
    manifest.push_str(&format!("{}  {}.sha256\n", sha256::digest(sidecar.as_bytes()), name));
    disk.put(&format!("out/{}.age", name), &sealed);
    disk.put(&format!("out/{}.sha256", name), sidecar.as_bytes());
}

#[test]
fn import_takes_own_secrets_first_and_then_the_additional_imports() {
    let mut disk = alice_disk();
    let mut manifest = String::new();
    exported(&mut disk, &mut manifest, "db.key", b"k1", K1);
    exported(&mut disk, &mut manifest, "api.key", b"k2", K2);
    disk.put("out/sha256sums.txt", manifest.as_bytes());
    let config = config(&[("alice", &["db.key"]), ("bob", &["api.key"])], &[("bob", &["db.key"])]);
    disk.writes.clear();
    assert_eq!(run_import(&mut disk, "bob", &config, "pw", None), Ok(()));
    assert_eq!(
        disk.writes,
        vec!["restored/api.key", "restored/api.key.sha256", "restored/db.key", "restored/db.key.sha256"]
    );
    assert_eq!(disk.content("restored/api.key"), Some(b"k2".to_vec()));
    assert_eq!(disk.content("restored/db.key"), Some(b"k1".to_vec()));
}

#[test]
fn import_twice_succeeds_and_writes_nothing_the_second_time() {
    let mut disk = alice_disk();
    let config = config(&[("alice", &["db.key"])], &[]);
    assert_eq!(run_export(&mut disk, "alice", &config), Ok(()));
    assert_eq!(run_import(&mut disk, "alice", &config, "pw", None), Ok(()));
    disk.writes.clear();
    assert_eq!(run_import(&mut disk, "alice", &config, "pw", None), Ok(()));
    assert!(disk.writes.is_empty());
}

#[test]
fn import_never_overwrites_other_content() {
    let mut disk = alice_disk();
    let config = config(&[("alice", &["db.key"])], &[]);
    assert_eq!(run_export(&mut disk, "alice", &config), Ok(()));
    disk.put("restored/db.key", b"edited by hand");
    assert_eq!(
        run_import(&mut disk, "alice", &config, "pw", None),
        Err(ImportError::ImportFile(
            "db.key".to_owned(),
            ImportFileError::SafeWrite(
                "restored/db.key".to_owned(),
                SafeFsError::ContentMismatch("restored/db.key".to_owned())
            )
        ))
    );
    assert_eq!(disk.content("restored/db.key"), Some(b"edited by hand".to_vec()));
}

#[test]
fn import_refuses_an_export_with_a_flipped_byte() {
    let mut disk = alice_disk();
    let config = config(&[("alice", &["db.key"])], &[]);
    assert_eq!(run_export(&mut disk, "alice", &config), Ok(()));
    let mut sealed = disk.content("out/db.key.age").unwrap();
    let last = sealed.len() - 1;
    sealed[last] ^= 0x01;
    disk.put("out/db.key.age", &sealed);
    disk.writes.clear();
    assert_eq!(
        run_import(&mut disk, "alice", &config, "pw", None),
        Err(ImportError::VerifySource(ChecksumError::ChecksumMismatch(
            "out/db.key.age".to_owned(),
            "out/sha256sums.txt".to_owned()
        )))
    );
    assert!(disk.writes.is_empty());
}

#[test]
fn import_stops_at_a_later_secret_that_does_not_decrypt() {
    let mut disk = alice_disk();
    let mut manifest = String::new();
    exported(&mut disk, &mut manifest, "db.key", b"k1", K1);
    let mut sealed = encrypt(b"k2", "pw").unwrap();
    let last = sealed.len() - 1;
    sealed[last] ^= 0x01;
    let sidecar = format!("{}  api.key\n", K2);
    manifest.push_str(&format!("{}  api.key.age\n", sha256::digest(&sealed)));
    manifest.push_str(&format!("{}  api.key.sha256\n", sha256::digest(sidecar.as_bytes())));
    disk.put("out/api.key.age", &sealed);
    disk.put("out/api.key.sha256", sidecar.as_bytes());
    disk.put("out/sha256sums.txt", manifest.as_bytes());
    let config = config(&[("alice", &["db.key", "api.key"])], &[]);
    disk.writes.clear();
    assert!(matches!(
        run_import(&mut disk, "alice", &config, "pw", None),
        Err(ImportError::ImportFile(path, ImportFileError::DecryptionFail(..))) if path == "api.key"
    ));
    assert_eq!(disk.writes, vec!["restored/db.key", "restored/db.key.sha256"]);
    assert_eq!(disk.content("restored/db.key"), Some(b"k1".to_vec()));
    assert!(!disk.nodes.contains_key("restored/api.key"));
    assert!(!disk.nodes.contains_key("restored/api.key.sha256"));
}

#[test]
fn import_file_does_not_write_what_does_not_decrypt() {
    let mut disk = alice_disk();
    let mut sealed = encrypt(b"k1", "pw").unwrap();
    let last = sealed.len() - 1;
    sealed[last] ^= 0x01;
    disk.put("out/db.key.age", &sealed);
    disk.put("out/db.key.sha256", format!("{}  db.key\n", K1).as_bytes());
    disk.writes.clear();
    let (machine, request) = import_file("db.key", "out", "restored", "pw");
    assert_eq!(request, Request::Read { path: "out/db.key.age".to_owned() });
    let outcome = match machine.resume(disk.perform(request)) {
        Progress::Finished(result) => result,
        Progress::Ask(_, request) => panic!("still asking: {:?}", request),
    };
    assert!(matches!(
        outcome,
        Err(ImportFileError::DecryptionFail(path, _)) if path == "out/db.key.age"
    ));
    assert!(disk.writes.is_empty());
}

#[test]
fn import_with_the_wrong_passphrase_fails_at_decryption() {
    let mut disk = alice_disk();
    let config = config(&[("alice", &["db.key"])], &[]);
    assert_eq!(run_export(&mut disk, "alice", &config), Ok(()));
    disk.writes.clear();
    assert!(matches!(
        run_import(&mut disk, "alice", &config, "other", None),
        Err(ImportError::ImportFile(path, ImportFileError::DecryptionFail(..))) if path == "db.key"
    ));
    assert!(disk.writes.is_empty());
}

#[test]
fn import_needs_both_roots_and_a_manifest() {
    let config = config(&[("alice", &["db.key"])], &[]);
    let mut disk = alice_disk();
    assert_eq!(
        run_import(&mut disk, "alice", &config, "pw", None),
        Err(ImportError::VerifySource(ChecksumError::MissingChecksum(
            "out/sha256sums.txt".to_owned()
        )))
    );
    disk.nodes.remove("restored");
    assert_eq!(
        run_import(&mut disk, "alice", &config, "pw", None),
        Err(ImportError::MissingTargetPath("restored".to_owned()))
    );
    disk.put("restored", b"a file");
    assert_eq!(
        run_import(&mut disk, "alice", &config, "pw", None),
        Err(ImportError::TargetNotDir("restored".to_owned()))
    );
    disk.put("out", b"a file");
    assert_eq!(
        run_import(&mut disk, "alice", &config, "pw", None),
        Err(ImportError::SourceNotDir("out".to_owned()))
    );
    disk.nodes.remove("out");
    assert_eq!(
        run_import(&mut disk, "alice", &config, "pw", None),
        Err(ImportError::MissingSourcePath("out".to_owned()))
    );
}

#[test]
fn import_creates_the_links_and_keeps_them() {
    let mut disk = alice_disk();
    let config = config(&[("alice", &["db.key"])], &[]);
    assert_eq!(run_export(&mut disk, "alice", &config), Ok(()));
    assert_eq!(run_import(&mut disk, "alice", &config, "pw", Some("links")), Ok(()));
    assert_eq!(disk.nodes.get("links/db.key"), Some(&Node::Link("restored/db.key".to_owned())));
    disk.writes.clear();
    assert_eq!(run_import(&mut disk, "alice", &config, "pw", Some("links")), Ok(()));
    assert!(disk.writes.is_empty());
}

/// The import of alice's secret at the point where the first link is looked at.
fn at_the_first_link() -> Import {
    let config = config(&[("alice", &["db.key"])], &[]);
    let (mut machine, _) = import(
        "alice".to_owned(),
        "out".to_owned(),
        "restored".to_owned(),
        &config,
        "pw".to_owned(),
        Some("links".to_owned()),
    );
    machine.stage = ImportStage::ProbingLink;
    machine
}

fn ended(progress: Progress<Import, ImportError>) -> Result<(), ImportError> {
    match progress {
        Progress::Finished(result) => result,
        Progress::Ask(_, request) => panic!("still asking: {:?}", request),
    }
}

#[test]
fn import_fails_on_a_link_that_points_elsewhere() {
    assert_eq!(
        ended(at_the_first_link().resume(Reply::Link("elsewhere".to_owned()))),
        Err(ImportError::SymlinkConflict("links/db.key".to_owned()))
    );
}

#[test]
fn import_fails_on_a_destination_that_is_no_link() {
    assert_eq!(
        ended(at_the_first_link().resume(Reply::Flag(true))),
        Err(ImportError::SymlinkConflict("links/db.key".to_owned()))
    );
}

#[test]
fn import_asks_for_a_missing_link_and_reports_when_it_cannot_be_made() {
    let machine = match at_the_first_link().resume(Reply::Flag(false)) {
        Progress::Ask(machine, request) => {
            assert_eq!(
                request,
                Request::Symlink {
                    file: "restored/db.key".to_owned(),
                    link: "links/db.key".to_owned()
                }
            );
            machine
        }
        Progress::Finished(result) => panic!("finished early: {:?}", result),
    };
    assert_eq!(
        ended(machine.clone().resume(Reply::Failed("denied".to_owned()))),
        Err(ImportError::CreateSymlink("links/db.key".to_owned(), "denied".to_owned()))
    );
    assert_eq!(ended(machine.resume(Reply::Done)), Ok(()));
}

#[test]
fn import_keeps_a_link_that_points_to_the_imported_file() {
    assert_eq!(
        ended(at_the_first_link().resume(Reply::Link("restored/db.key".to_owned()))),
        Ok(())
    );
}

#[test]
fn reconcile_decides_by_what_stands_at_the_destination() {
    assert_eq!(reconcile(Reply::Flag(false), "restored/db.key"), Ok(LinkAction::Create));
    assert_eq!(
        reconcile(Reply::Link("restored/db.key".to_owned()), "restored/db.key"),
        Ok(LinkAction::Keep)
    );
    assert_eq!(
        reconcile(Reply::Link("restored//db.key".to_owned()), "restored/db.key"),
        Ok(LinkAction::Keep)
    );
    assert_eq!(
        reconcile(Reply::Link("other".to_owned()), "restored/db.key"),
        Err(LinkFault::Conflict)
    );
    assert_eq!(reconcile(Reply::Flag(true), "restored/db.key"), Err(LinkFault::Conflict));
    assert_eq!(
        reconcile(Reply::Failed("denied".to_owned()), "restored/db.key"),
        Err(LinkFault::Unreadable("denied".to_owned()))
    );
    assert_eq!(
        reconcile(Reply::Done, "restored/db.key"),
        Err(LinkFault::Unreadable("unexpected reply".to_owned()))
    );
}

#[test]
fn import_reports_a_destination_that_cannot_be_looked_at() {
    assert_eq!(
        ended(at_the_first_link().resume(Reply::Failed("denied".to_owned()))),
        Err(ImportError::ReadSymlink("links/db.key".to_owned(), "denied".to_owned()))
    );
}

#[test]
fn find_parent_dirs_lists_the_directories_from_the_outermost() {
    assert_eq!(find_parent_dirs("db.key", "tgt"), Some(vec![]));
    assert_eq!(find_parent_dirs("", "tgt"), Some(vec![]));
    assert_eq!(find_parent_dirs("dir/db.key", "tgt"), Some(vec!["tgt/dir".to_owned()]));
    assert_eq!(
        find_parent_dirs("a/b/c/db.key", "tgt"),
        Some(vec!["tgt/a".to_owned(), "tgt/a/b".to_owned(), "tgt/a/b/c".to_owned()])
    );
    assert_eq!(find_parent_dirs("/etc/db.key", "tgt"), None);
}

#[test]
fn verify_export_checks_the_manifest_of_the_source() {
    let mut disk = alice_disk();
    let config = config(&[("alice", &["db.key"])], &[]);
    assert_eq!(
        run_verify_export(&mut disk, "gone"),
        Err(VerifyExportError::MissingSourcePath("gone".to_owned()))
    );
    assert_eq!(
        run_verify_export(&mut disk, PROGRAM),
        Err(VerifyExportError::SourceNotDir(PROGRAM.to_owned()))
    );
    assert_eq!(
        run_verify_export(&mut disk, "out"),
        Err(VerifyExportError::VerifySource(ChecksumError::MissingChecksum(
            "out/sha256sums.txt".to_owned()
        )))
    );
    assert_eq!(run_export(&mut disk, "alice", &config), Ok(()));
    assert_eq!(run_verify_export(&mut disk, "out"), Ok(()));
    disk.put("out/db.key.sha256", b"tampered");
    assert_eq!(
        run_verify_export(&mut disk, "out"),
        Err(VerifyExportError::VerifySource(ChecksumError::ChecksumMismatch(
            "out/db.key.sha256".to_owned(),
            "out/sha256sums.txt".to_owned()
        )))
    );
}

#[test]
fn find_dirs_above_needs_the_empty_path_last() {
    let up = vec!["a/b".to_owned(), "a".to_owned(), "".to_owned()];
    assert_eq!(find_dirs_above(&up, "tgt"), Some(vec!["tgt/a".to_owned(), "tgt/a/b".to_owned()]));
    assert_eq!(find_dirs_above(&vec!["".to_owned()], "tgt"), Some(vec![]));
    assert_eq!(find_dirs_above(&vec!["/a".to_owned(), "/".to_owned()], "tgt"), None);
    assert_eq!(find_dirs_above(&vec![], "tgt"), None);
}

#[test]
fn place_asks_after_the_directory_it_is_given() {
    let (machine, _) = export_file("dir/db.key", "secrets", "out", "pw");
    match machine.clone().place(Some("out/dir".to_owned())) {
        Progress::Ask(machine, request) => {
            assert_eq!(request, Request::Exists { path: "out/dir".to_owned() });
            assert!(matches!(machine.stage, ExportFileStage::ProbingParent));
        }
        Progress::Finished(result) => panic!("finished early: {:?}", result),
    }
    match machine.place(None) {
        Progress::Ask(_, request) => assert_eq!(
            request,
            Request::Write { path: "out/dir/db.key.age".to_owned(), content: vec![] }
        ),
        Progress::Finished(result) => panic!("finished early: {:?}", result),
    }
}

#[test]
fn copy_program_copies_under_the_name_it_is_given() {
    let (machine, request) =
        copy_program("out", "text", "/opt/bin/tool".to_owned(), Some("tool".to_owned())).unwrap();
    assert_eq!(
        request,
        Request::Copy { from: "/opt/bin/tool".to_owned(), to: "out/tool".to_owned() }
    );
    assert_eq!(machine.config_source, "text");
    assert_eq!(
        copy_program("out", "text", "/".to_owned(), None).unwrap_err(),
        ExportAdditionalError::InvalidExeFilename
    );
}
