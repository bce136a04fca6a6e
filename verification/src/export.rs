//! The export pipeline: every secret of a profile is checked against its
//! sidecar, encrypted into the target tree, decrypted again to see that it
//! comes back unchanged, recorded with its owner and its mode, and entered
//! in the manifest of the target.

use crate::checksum::{
    append_checksum, append_start, append_step, verify_checksums, verify_file_checksum,
    verify_file_start, verify_file_step, verify_start, verify_step, AppendChecksum,
    AppendChecksumView, ChecksumError, ChecksumErrorView, VerifyChecksums, VerifyChecksumsView,
    VerifyFileChecksum, VerifyFileChecksumView,
};
use crate::config::{paths_of, save_config, Config, SaveConfigError, SaveConfigErrorView};
use crate::crypto::{call_for, call_on, carry_out, crypt_view, CryptCall, CryptCallView};
use crate::meta::{meta_extension, meta_text, render_meta};
use crate::effects::{Progress, ProgressView, Reply, ReplyView, Request, RequestView};
use crate::safe_fs::same_bytes;
use crate::utf8path_ext::{
    extended, file_name, file_name_of, join, joined, parent, parent_of, text_of, texts,
    ExtraUtf8Path,
};
use vstd::prelude::*;
use vstd::string::*;

verus! {

/// The extension that an encrypted file carries behind the name of the secret.
pub open spec fn encrypted_extension() -> Seq<char> {
    "age"@
}

/// Why the export of one secret failed.
#[derive(Debug, Clone, PartialEq, Eq)]
pub enum ExportFileError {
    /// The source file at the path does not pass the check against its sidecar.
    VerifySource(String, ChecksumError),
    /// The file at the path could not be read, for the reason given.
    Read(String, String),
    /// The source file at the path could not be encrypted, for the reason given.
    Encryption(String, String),
    /// The file at the path in the target could not be written, for the reason given.
    WriteToTarget(String, String),
    /// The directory at the path in the target could not be created, for the reason given.
    CreateTargetParent(String, String),
    /// The file just written at the path could not be read back, for the reason given.
    ReadTarget(String, String),
    /// The file just written could not be decrypted, for the reason given.
    DecryptEndpoint(String),
    /// The file just written does not decrypt to the source.
    VerifyExport,
    /// Owner and mode of the source file at the path could not be read, for
    /// the reason given.
    ReadMeta(String, String),
    /// The file at the path could not be entered in the manifest of the target.
    AppendChecksum(String, ChecksumError),
}

/// What `ExportFileError` holds, as mathematical values.
pub enum ExportFileErrorView {
    VerifySource(Seq<char>, ChecksumErrorView),
    Read(Seq<char>, Seq<char>),
    Encryption(Seq<char>, Seq<char>),
    WriteToTarget(Seq<char>, Seq<char>),
    CreateTargetParent(Seq<char>, Seq<char>),
    ReadTarget(Seq<char>, Seq<char>),
    DecryptEndpoint(Seq<char>),
    VerifyExport,
    ReadMeta(Seq<char>, Seq<char>),
    AppendChecksum(Seq<char>, ChecksumErrorView),
}

impl View for ExportFileError {
    type V = ExportFileErrorView;

    open spec fn view(&self) -> ExportFileErrorView {
        match self {
            ExportFileError::VerifySource(p, e) => ExportFileErrorView::VerifySource(p@, e@),
            ExportFileError::Read(p, r) => ExportFileErrorView::Read(p@, r@),
            ExportFileError::Encryption(p, r) => ExportFileErrorView::Encryption(p@, r@),
            ExportFileError::WriteToTarget(p, r) => ExportFileErrorView::WriteToTarget(p@, r@),
            ExportFileError::CreateTargetParent(p, r) => ExportFileErrorView::CreateTargetParent(
                p@,
                r@,
            ),
            ExportFileError::ReadTarget(p, r) => ExportFileErrorView::ReadTarget(p@, r@),
            ExportFileError::DecryptEndpoint(r) => ExportFileErrorView::DecryptEndpoint(r@),
            ExportFileError::VerifyExport => ExportFileErrorView::VerifyExport,
            ExportFileError::ReadMeta(p, r) => ExportFileErrorView::ReadMeta(p@, r@),
            ExportFileError::AppendChecksum(p, e) => ExportFileErrorView::AppendChecksum(p@, e@),
        }
    }
}

/// Where the export of one secret stands.
#[derive(Debug, Clone)]
pub enum ExportFileStage {
    /// The source file is being checked against its sidecar.
    Verifying(VerifyFileChecksum),
    /// Asked for the content of the source file.
    ReadingSource,
    /// Asked whether the directory of the target file exists.
    ProbingParent,
    /// Asked to create the directory of the target file.
    CreatingParent,
    /// Asked to write the encrypted file.
    WritingTarget,
    /// Asked for the content of the encrypted file just written.
    ReadingBack,
    /// Asked for the content of the sidecar of the source file.
    ReadingSidecar,
    /// Asked to write the sidecar beside the encrypted file.
    WritingSidecar,
    /// Asked for owner and mode of the source file.
    ReadingMeta,
    /// Asked to write the record of owner and mode beside the encrypted file.
    WritingMeta,
    /// The encrypted file is being entered in the manifest of the target.
    AppendingFile(AppendChecksum),
    /// The sidecar is being entered in the manifest of the target.
    AppendingSidecar(AppendChecksum),
    /// The record of owner and mode is being entered in the manifest of the target.
    AppendingMeta(AppendChecksum),
}

/// What `ExportFileStage` holds, as mathematical values.
pub enum ExportFileStageView {
    Verifying(VerifyFileChecksumView),
    ReadingSource,
    ProbingParent,
    CreatingParent,
    WritingTarget,
    ReadingBack,
    ReadingSidecar,
    WritingSidecar,
    ReadingMeta,
    WritingMeta,
    AppendingFile(AppendChecksumView),
    AppendingSidecar(AppendChecksumView),
    AppendingMeta(AppendChecksumView),
}

impl View for ExportFileStage {
    type V = ExportFileStageView;

    open spec fn view(&self) -> ExportFileStageView {
        match self {
            ExportFileStage::Verifying(v) => ExportFileStageView::Verifying(v@),
            ExportFileStage::ReadingSource => ExportFileStageView::ReadingSource,
            ExportFileStage::ProbingParent => ExportFileStageView::ProbingParent,
            ExportFileStage::CreatingParent => ExportFileStageView::CreatingParent,
            ExportFileStage::WritingTarget => ExportFileStageView::WritingTarget,
            ExportFileStage::ReadingBack => ExportFileStageView::ReadingBack,
            ExportFileStage::ReadingSidecar => ExportFileStageView::ReadingSidecar,
            ExportFileStage::WritingSidecar => ExportFileStageView::WritingSidecar,
            ExportFileStage::ReadingMeta => ExportFileStageView::ReadingMeta,
            ExportFileStage::WritingMeta => ExportFileStageView::WritingMeta,
            ExportFileStage::AppendingFile(a) => ExportFileStageView::AppendingFile(a@),
            ExportFileStage::AppendingSidecar(a) => ExportFileStageView::AppendingSidecar(a@),
            ExportFileStage::AppendingMeta(a) => ExportFileStageView::AppendingMeta(a@),
        }
    }
}

/// The export of one secret.
#[derive(Debug, Clone)]
pub struct ExportFile {
    pub stage: ExportFileStage,
    /// The path of the secret, relative to both roots.
    pub rel: String,
    /// The root of the target tree.
    pub target: String,
    pub passphrase: String,
    /// The secret in the source tree, and its sidecar.
    pub file_source: String,
    pub sha_source: String,
    /// The encrypted file in the target tree, and the sidecar beside it.
    pub file_target: String,
    pub sha_target: String,
    /// The same two, relative to the target root.
    pub file_target_rel: String,
    pub sha_target_rel: String,
    /// The record of owner and mode beside the encrypted file, and the same
    /// relative to the target root.
    pub meta_target: String,
    pub meta_target_rel: String,
    /// The directory of the encrypted file; empty where it has none.
    pub parent: String,
    /// The content of the secret; empty before it was read.
    pub plain: Vec<u8>,
    /// The encrypted content; empty before it was made.
    pub sealed: Vec<u8>,
}

/// What `ExportFile` holds, as mathematical values.
pub struct ExportFileView {
    pub stage: ExportFileStageView,
    pub rel: Seq<char>,
    pub target: Seq<char>,
    pub passphrase: Seq<char>,
    pub file_source: Seq<char>,
    pub sha_source: Seq<char>,
    pub file_target: Seq<char>,
    pub sha_target: Seq<char>,
    pub file_target_rel: Seq<char>,
    pub sha_target_rel: Seq<char>,
    pub meta_target: Seq<char>,
    pub meta_target_rel: Seq<char>,
    pub parent: Seq<char>,
    pub plain: Seq<u8>,
    pub sealed: Seq<u8>,
}

impl View for ExportFile {
    type V = ExportFileView;

    open spec fn view(&self) -> ExportFileView {
        ExportFileView {
            stage: self.stage@,
            rel: self.rel@,
            target: self.target@,
            passphrase: self.passphrase@,
            file_source: self.file_source@,
            sha_source: self.sha_source@,
            file_target: self.file_target@,
            sha_target: self.sha_target@,
            file_target_rel: self.file_target_rel@,
            sha_target_rel: self.sha_target_rel@,
            meta_target: self.meta_target@,
            meta_target_rel: self.meta_target_rel@,
            parent: self.parent@,
            plain: self.plain@,
            sealed: self.sealed@,
        }
    }
}

type FileProgress = ProgressView<ExportFileView, ExportFileErrorView>;

/// The first step of exporting the secret `rel` from `source` into
/// `target`: the check of the source file against its sidecar begins.
pub open spec fn export_file_start(
    rel: Seq<char>,
    source: Seq<char>,
    target: Seq<char>,
    passphrase: Seq<char>,
) -> (ExportFileView, RequestView) {
    let (verify, request) = verify_file_start(source, rel);
    (
        ExportFileView {
            stage: ExportFileStageView::Verifying(verify),
            rel,
            target,
            passphrase,
            file_source: joined(source, rel),
            sha_source: extended(joined(source, rel), "sha256"@),
            file_target: extended(joined(target, rel), encrypted_extension()),
            sha_target: extended(joined(target, rel), "sha256"@),
            file_target_rel: extended(rel, encrypted_extension()),
            sha_target_rel: extended(rel, "sha256"@),
            meta_target: extended(joined(target, rel), meta_extension()),
            meta_target_rel: extended(rel, meta_extension()),
            parent: Seq::empty(),
            plain: Seq::empty(),
            sealed: Seq::empty(),
        },
        request,
    )
}

/// The export asks to write the encrypted file.
pub open spec fn export_file_write(m: ExportFileView) -> FileProgress {
    ProgressView::Ask(
        ExportFileView { stage: ExportFileStageView::WritingTarget, ..m },
        RequestView::Write { path: m.file_target, content: m.sealed },
    )
}

/// How the export goes on once the directory `parent` of the encrypted
/// file is known: it asks whether that directory exists, or, where the file
/// has no directory above it, asks at once to write the file.
pub open spec fn export_file_placed(m: ExportFileView, parent: Option<Seq<char>>) -> FileProgress {
    match parent {
        Some(parent) => ProgressView::Ask(
            ExportFileView { stage: ExportFileStageView::ProbingParent, parent, ..m },
            RequestView::Exists { path: parent },
        ),
        None => export_file_write(m),
    }
}

/// The export goes on with an entry in the manifest of the target, begun by
/// `start`, in the stage that `stage` makes of it.
pub open spec fn export_file_append(
    m: ExportFileView,
    start: (AppendChecksumView, RequestView),
    sidecar: bool,
) -> FileProgress {
    ProgressView::Ask(
        ExportFileView {
            stage: if sidecar {
                ExportFileStageView::AppendingSidecar(start.0)
            } else {
                ExportFileStageView::AppendingFile(start.0)
            },
            ..m
        },
        start.1,
    )
}

/// One step of the export of one secret. `crypt` is the outcome of the
/// encryption or decryption that the step makes: of the encryption of the
/// source content when that content arrives, of the decryption of the
/// written file when it is read back. The steps follow one another as the
/// stages are listed, and the first failure ends the export. The sidecar is
/// copied and the manifest extended only after the written file decrypted
/// to the very bytes of the source. Owner and mode of the source file are
/// asked for and recorded beside the encrypted file, as `meta_text` writes
/// them, and the record is entered in the manifest like the other two files.
pub open spec fn export_file_step(
    m: ExportFileView,
    reply: ReplyView,
    crypt: Result<Seq<u8>, Seq<char>>,
) -> FileProgress {
    match m.stage {
        ExportFileStageView::Verifying(v) => match verify_file_step(v, reply) {
            ProgressView::Ask(v2, request) => ProgressView::Ask(
                ExportFileView { stage: ExportFileStageView::Verifying(v2), ..m },
                request,
            ),
            ProgressView::Finished(Err(e)) => ProgressView::Finished(
                Err(ExportFileErrorView::VerifySource(m.file_source, e)),
            ),
            ProgressView::Finished(Ok(_)) => ProgressView::Ask(
                ExportFileView { stage: ExportFileStageView::ReadingSource, ..m },
                RequestView::Read { path: m.file_source },
            ),
        },
        ExportFileStageView::ReadingSource => match reply.bytes() {
            Err(reason) => ProgressView::Finished(
                Err(ExportFileErrorView::Read(m.file_source, reason)),
            ),
            Ok(plain) => match crypt {
                Err(reason) => ProgressView::Finished(
                    Err(ExportFileErrorView::Encryption(m.file_source, reason)),
                ),
                Ok(sealed) => export_file_placed(
                    ExportFileView { plain, sealed, ..m },
                    parent_of(m.file_target),
                ),
            },
        },
        ExportFileStageView::ProbingParent => if reply.flag() {
            export_file_write(m)
        } else {
            ProgressView::Ask(
                ExportFileView { stage: ExportFileStageView::CreatingParent, ..m },
                RequestView::CreateDirAll { path: m.parent },
            )
        },
        ExportFileStageView::CreatingParent => match reply.done() {
            Err(reason) => ProgressView::Finished(
                Err(ExportFileErrorView::CreateTargetParent(m.parent, reason)),
            ),
            Ok(_) => export_file_write(m),
        },
        ExportFileStageView::WritingTarget => match reply.done() {
            Err(reason) => ProgressView::Finished(
                Err(ExportFileErrorView::WriteToTarget(m.file_target, reason)),
            ),
            Ok(_) => ProgressView::Ask(
                ExportFileView { stage: ExportFileStageView::ReadingBack, ..m },
                RequestView::Read { path: m.file_target },
            ),
        },
        ExportFileStageView::ReadingBack => match reply.bytes() {
            Err(reason) => ProgressView::Finished(
                Err(ExportFileErrorView::ReadTarget(m.file_target, reason)),
            ),
            Ok(_) => match crypt {
                Err(reason) => ProgressView::Finished(
                    Err(ExportFileErrorView::DecryptEndpoint(reason)),
                ),
                Ok(opened) => if opened == m.plain {
                    ProgressView::Ask(
                        ExportFileView { stage: ExportFileStageView::ReadingSidecar, ..m },
                        RequestView::Read { path: m.sha_source },
                    )
                } else {
                    ProgressView::Finished(Err(ExportFileErrorView::VerifyExport))
                },
            },
        },
        ExportFileStageView::ReadingSidecar => match reply.bytes() {
            Err(reason) => ProgressView::Finished(
                Err(ExportFileErrorView::Read(m.sha_source, reason)),
            ),
            Ok(content) => ProgressView::Ask(
                ExportFileView { stage: ExportFileStageView::WritingSidecar, ..m },
                RequestView::Write { path: m.sha_target, content },
            ),
        },
        ExportFileStageView::WritingSidecar => match reply.done() {
            Err(reason) => ProgressView::Finished(
                Err(ExportFileErrorView::WriteToTarget(m.sha_target, reason)),
            ),
            Ok(_) => ProgressView::Ask(
                ExportFileView { stage: ExportFileStageView::ReadingMeta, ..m },
                RequestView::Stat { path: m.file_source },
            ),
        },
        ExportFileStageView::ReadingMeta => match reply.meta() {
            Err(reason) => ProgressView::Finished(
                Err(ExportFileErrorView::ReadMeta(m.file_source, reason)),
            ),
            Ok(meta) => ProgressView::Ask(
                ExportFileView { stage: ExportFileStageView::WritingMeta, ..m },
                RequestView::WriteText { path: m.meta_target, text: meta_text(meta) },
            ),
        },
        ExportFileStageView::WritingMeta => match reply.done() {
            Err(reason) => ProgressView::Finished(
                Err(ExportFileErrorView::WriteToTarget(m.meta_target, reason)),
            ),
            Ok(_) => export_file_append(m, append_start(m.target, m.file_target_rel), false),
        },
        ExportFileStageView::AppendingFile(a) => match append_step(a, reply) {
            ProgressView::Ask(a2, request) => export_file_append(m, (a2, request), false),
            ProgressView::Finished(Err(e)) => ProgressView::Finished(
                Err(ExportFileErrorView::AppendChecksum(m.file_target, e)),
            ),
            ProgressView::Finished(Ok(_)) => export_file_append(
                m,
                append_start(m.target, m.sha_target_rel),
                true,
            ),
        },
        ExportFileStageView::AppendingSidecar(a) => match append_step(a, reply) {
            ProgressView::Ask(a2, request) => export_file_append(m, (a2, request), true),
            ProgressView::Finished(Err(e)) => ProgressView::Finished(
                Err(ExportFileErrorView::AppendChecksum(m.sha_target, e)),
            ),
            ProgressView::Finished(Ok(_)) => ProgressView::Ask(
                ExportFileView {
                    stage: ExportFileStageView::AppendingMeta(
                        append_start(m.target, m.meta_target_rel).0,
                    ),
                    ..m
                },
                append_start(m.target, m.meta_target_rel).1,
            ),
        },
        ExportFileStageView::AppendingMeta(a) => match append_step(a, reply) {
            ProgressView::Ask(a2, request) => ProgressView::Ask(
                ExportFileView { stage: ExportFileStageView::AppendingMeta(a2), ..m },
                request,
            ),
            ProgressView::Finished(Err(e)) => ProgressView::Finished(
                Err(ExportFileErrorView::AppendChecksum(m.meta_target, e)),
            ),
            ProgressView::Finished(Ok(_)) => ProgressView::Finished(Ok(())),
        },
    }
}

/// Starts the export of the secret `file_rel_path` from `source` into `target`.
pub fn export_file(file_rel_path: &str, source: &str, target: &str, passphrase: &str) -> (r: (
    ExportFile,
    Request,
))
    ensures
        (r.0@, r.1@) == export_file_start(file_rel_path@, source@, target@, passphrase@),
{
    let (verify, request) = verify_file_checksum(source, file_rel_path);
    let file_source = join(source, file_rel_path);
    let in_target = join(target, file_rel_path);
    (
        ExportFile {
            stage: ExportFileStage::Verifying(verify),
            rel: String::from_str(file_rel_path),
            target: String::from_str(target),
            passphrase: String::from_str(passphrase),
            sha_source: file_source.add_extension("sha256"),
            file_source,
            file_target: in_target.add_extension("age"),
            sha_target: in_target.add_extension("sha256"),
            file_target_rel: file_rel_path.add_extension("age"),
            sha_target_rel: file_rel_path.add_extension("sha256"),
            meta_target: in_target.add_extension("meta"),
            meta_target_rel: file_rel_path.add_extension("meta"),
            parent: String::new(),
            plain: Vec::new(),
            sealed: Vec::new(),
        },
        request,
    )
}

impl ExportFile {
    /// Asks to write the encrypted file.
    fn write(self) -> (p: Progress<ExportFile, ExportFileError>)
        ensures
            p@ == export_file_write(self@),
    {
        let mut m = self;
        m.stage = ExportFileStage::WritingTarget;
        let path = m.file_target.clone();
        let content = m.sealed.clone();
        Progress::Ask(m, Request::Write { path, content })
    }

    /// Goes on, given the directory `dir` of the encrypted file.
    pub fn place(self, dir: Option<String>) -> (p: Progress<ExportFile, ExportFileError>)
        ensures
            p@ == export_file_placed(self@, text_of(dir)),
    {
        let mut m = self;
        match dir {
            Some(dir) => {
                m.stage = ExportFileStage::ProbingParent;
                let path = dir.clone();
                m.parent = dir;
                Progress::Ask(m, Request::Exists { path })
            },
            None => m.write(),
        }
    }

    /// Goes on with an entry in the manifest of the target.
    fn append(self, start: (AppendChecksum, Request), sidecar: bool) -> (p: Progress<
        ExportFile,
        ExportFileError,
    >)
        ensures
            p@ == export_file_append(self@, (start.0@, start.1@), sidecar),
    {
        let mut m = self;
        if sidecar {
            m.stage = ExportFileStage::AppendingSidecar(start.0);
        } else {
            m.stage = ExportFileStage::AppendingFile(start.0);
        }
        Progress::Ask(m, start.1)
    }

    /// Makes the next step, given the reply to the last request and the
    /// outcome `crypt` of the encryption or decryption that the step calls for.
    pub fn advance(self, reply: Reply, crypt: Result<Vec<u8>, String>) -> (p: Progress<
        ExportFile,
        ExportFileError,
    >)
        ensures
            p@ == export_file_step(self@, reply@, crypt_view(crypt)),
    {
        let mut m = self;
        match m.stage {
            ExportFileStage::Verifying(v) => match v.resume(reply) {
                Progress::Ask(v2, request) => {
                    m.stage = ExportFileStage::Verifying(v2);
                    Progress::Ask(m, request)
                },
                Progress::Finished(Err(e)) => Progress::Finished(
                    Err(ExportFileError::VerifySource(m.file_source, e)),
                ),
                Progress::Finished(Ok(_)) => {
                    m.stage = ExportFileStage::ReadingSource;
                    let path = m.file_source.clone();
                    Progress::Ask(m, Request::Read { path })
                },
            },
            ExportFileStage::ReadingSource => match reply.into_bytes() {
                Err(reason) => Progress::Finished(Err(ExportFileError::Read(m.file_source, reason))),
                Ok(plain) => match crypt {
                    Err(reason) => Progress::Finished(
                        Err(ExportFileError::Encryption(m.file_source, reason)),
                    ),
                    Ok(sealed) => {
                        m.plain = plain;
                        m.sealed = sealed;
                        let dir = parent(m.file_target.as_str());
                        m.place(dir)
                    },
                },
            },
            ExportFileStage::ProbingParent => {
                if reply.into_flag() {
                    m.write()
                } else {
                    m.stage = ExportFileStage::CreatingParent;
                    let path = m.parent.clone();
                    Progress::Ask(m, Request::CreateDirAll { path })
                }
            },
            ExportFileStage::CreatingParent => match reply.into_done() {
                Err(reason) => Progress::Finished(
                    Err(ExportFileError::CreateTargetParent(m.parent, reason)),
                ),
                Ok(_) => m.write(),
            },
            ExportFileStage::WritingTarget => match reply.into_done() {
                Err(reason) => Progress::Finished(
                    Err(ExportFileError::WriteToTarget(m.file_target, reason)),
                ),
                Ok(_) => {
                    m.stage = ExportFileStage::ReadingBack;
                    let path = m.file_target.clone();
                    Progress::Ask(m, Request::Read { path })
                },
            },
            ExportFileStage::ReadingBack => match reply.into_bytes() {
                Err(reason) => Progress::Finished(
                    Err(ExportFileError::ReadTarget(m.file_target, reason)),
                ),
                Ok(_) => match crypt {
                    Err(reason) => Progress::Finished(Err(ExportFileError::DecryptEndpoint(reason))),
                    Ok(opened) => {
                        if same_bytes(&opened, &m.plain) {
                            m.stage = ExportFileStage::ReadingSidecar;
                            let path = m.sha_source.clone();
                            Progress::Ask(m, Request::Read { path })
                        } else {
                            Progress::Finished(Err(ExportFileError::VerifyExport))
                        }
                    },
                },
            },
            ExportFileStage::ReadingSidecar => match reply.into_bytes() {
                Err(reason) => Progress::Finished(Err(ExportFileError::Read(m.sha_source, reason))),
                Ok(content) => {
                    m.stage = ExportFileStage::WritingSidecar;
                    let path = m.sha_target.clone();
                    Progress::Ask(m, Request::Write { path, content })
                },
            },
            ExportFileStage::WritingSidecar => match reply.into_done() {
                Err(reason) => Progress::Finished(
                    Err(ExportFileError::WriteToTarget(m.sha_target, reason)),
                ),
                Ok(_) => {
                    m.stage = ExportFileStage::ReadingMeta;
                    let path = m.file_source.clone();
                    Progress::Ask(m, Request::Stat { path })
                },
            },
            ExportFileStage::ReadingMeta => match reply.into_meta() {
                Err(reason) => Progress::Finished(
                    Err(ExportFileError::ReadMeta(m.file_source, reason)),
                ),
                Ok(meta) => {
                    m.stage = ExportFileStage::WritingMeta;
                    let path = m.meta_target.clone();
                    Progress::Ask(m, Request::WriteText { path, text: render_meta(meta) })
                },
            },
            ExportFileStage::WritingMeta => match reply.into_done() {
                Err(reason) => Progress::Finished(
                    Err(ExportFileError::WriteToTarget(m.meta_target, reason)),
                ),
                Ok(_) => {
                    let start = append_checksum(m.target.as_str(), m.file_target_rel.as_str());
                    m.append(start, false)
                },
            },
            ExportFileStage::AppendingFile(a) => match a.resume(reply) {
                Progress::Ask(a2, request) => {
                    m.stage = ExportFileStage::AppendingFile(a2);
                    Progress::Ask(m, request)
                },
                Progress::Finished(Err(e)) => Progress::Finished(
                    Err(ExportFileError::AppendChecksum(m.file_target, e)),
                ),
                Progress::Finished(Ok(_)) => {
                    let start = append_checksum(m.target.as_str(), m.sha_target_rel.as_str());
                    m.stage = ExportFileStage::AppendingSidecar(start.0);
                    Progress::Ask(m, start.1)
                },
            },
            ExportFileStage::AppendingSidecar(a) => match a.resume(reply) {
                Progress::Ask(a2, request) => {
                    m.stage = ExportFileStage::AppendingSidecar(a2);
                    Progress::Ask(m, request)
                },
                Progress::Finished(Err(e)) => Progress::Finished(
                    Err(ExportFileError::AppendChecksum(m.sha_target, e)),
                ),
                Progress::Finished(Ok(_)) => {
                    let start = append_checksum(m.target.as_str(), m.meta_target_rel.as_str());
                    m.stage = ExportFileStage::AppendingMeta(start.0);
                    Progress::Ask(m, start.1)
                },
            },
            ExportFileStage::AppendingMeta(a) => match a.resume(reply) {
                Progress::Ask(a2, request) => {
                    m.stage = ExportFileStage::AppendingMeta(a2);
                    Progress::Ask(m, request)
                },
                Progress::Finished(Err(e)) => Progress::Finished(
                    Err(ExportFileError::AppendChecksum(m.meta_target, e)),
                ),
                Progress::Finished(Ok(_)) => Progress::Finished(Ok(())),
            },
        }
    }

    /// The encryption or decryption that the next step calls for, with the
    /// bytes to hand to it: the source content when it arrives is to be
    /// encrypted, the written file when it is read back is to be decrypted.
    pub fn crypt_call(&self, reply: &Reply) -> (r: CryptCall)
        ensures
            r@ == export_file_crypt_call(self@, reply@),
    {
        let encrypts = matches!(self.stage, ExportFileStage::ReadingSource);
        let decrypts = matches!(self.stage, ExportFileStage::ReadingBack);
        call_for(encrypts, decrypts, reply, self.passphrase.as_str())
    }

    /// Takes the reply to the last request and makes the next step. The
    /// source content is encrypted when it arrives, and the written file is
    /// decrypted when it is read back; what the step does with either
    /// outcome is what `export_file_step` says.
    pub fn resume(self, reply: Reply) -> (p: Progress<ExportFile, ExportFileError>)
        ensures
            exists|crypt: Result<Seq<u8>, Seq<char>>| p@ == export_file_step(self@, reply@, crypt),
            !export_file_calls_crypt(self@, reply@) ==> forall|crypt: Result<Seq<u8>, Seq<char>>|
                p@ == export_file_step(self@, reply@, crypt),
    {
        let call = self.crypt_call(&reply);
        let crypt = carry_out(call);
        self.advance(reply, crypt)
    }
}

/// The write-verify step. Where the written file has been asked back, the
/// export goes on only when that file was read and decrypted to the very
/// bytes of the source, and it goes on by asking for the sidecar of the
/// source. In every other case it ends with an error, so that neither the
/// sidecar nor the manifest of the target records the file.
pub proof fn lemma_export_goes_on_after_round_trip_only(
    m: ExportFileView,
    reply: ReplyView,
    crypt: Result<Seq<u8>, Seq<char>>,
)
    requires
        m.stage is ReadingBack,
    ensures
        export_file_step(m, reply, crypt) is Ask <==> (reply.bytes() is Ok && crypt == Ok::<
            Seq<u8>,
            Seq<char>,
        >(m.plain)),
        export_file_step(m, reply, crypt) matches ProgressView::Ask(_, request) ==> request == (
        RequestView::Read { path: m.sha_source }),
        export_file_step(m, reply, crypt) matches ProgressView::Finished(r) ==> r is Err,
{
}

/// The encryption or decryption that a step of the export of a secret
/// calls for: the content of the source, when it arrives, is encrypted; the
/// written file, when it is read back, is decrypted; both under the
/// passphrase of the export. No other step calls for either.
pub open spec fn export_file_crypt_call(m: ExportFileView, reply: ReplyView) -> CryptCallView {
    call_on(m.stage is ReadingSource, m.stage is ReadingBack, reply, m.passphrase)
}

/// The encryption or decryption that a step of an export calls for.
pub open spec fn export_crypt_call(m: ExportView, reply: ReplyView) -> CryptCallView {
    match m.stage {
        ExportStageView::Files(file) => export_file_crypt_call(file, reply),
        _ => CryptCallView::Nothing,
    }
}

/// Two steps of the export of a secret call for a `crypt`: the one that
/// takes in the content of the source, and the one that takes in the
/// written file read back. Every other step is the same whatever `crypt` is.
pub open spec fn export_file_calls_crypt(m: ExportFileView, reply: ReplyView) -> bool {
    !(export_file_crypt_call(m, reply) is Nothing)
}

/// A step of the export of a secret that calls for no `crypt` is the same
/// whatever `crypt` is.
pub proof fn lemma_export_file_step_without_crypt(
    m: ExportFileView,
    reply: ReplyView,
    c1: Result<Seq<u8>, Seq<char>>,
    c2: Result<Seq<u8>, Seq<char>>,
)
    requires
        !export_file_calls_crypt(m, reply),
    ensures
        export_file_step(m, reply, c1) == export_file_step(m, reply, c2),
{
}

/// What is known of the path of the running program.
#[derive(Debug, Clone, PartialEq, Eq)]
pub enum ProgramPath {
    /// The system could not tell it, for the reason given.
    Unavailable(String),
    /// It is not UTF-8.
    NotUtf8,
    /// The path.
    Known(String),
}

/// What `ProgramPath` holds, as mathematical values.
pub enum ProgramPathView {
    Unavailable(Seq<char>),
    NotUtf8,
    Known(Seq<char>),
}

impl View for ProgramPath {
    type V = ProgramPathView;

    open spec fn view(&self) -> ProgramPathView {
        match self {
            ProgramPath::Unavailable(r) => ProgramPathView::Unavailable(r@),
            ProgramPath::NotUtf8 => ProgramPathView::NotUtf8,
            ProgramPath::Known(p) => ProgramPathView::Known(p@),
        }
    }
}

impl ProgramPath {
    /// A copy of what is known.
    pub fn copy(&self) -> (r: ProgramPath)
        ensures
            r@ == self@,
    {
        match self {
            ProgramPath::Unavailable(reason) => ProgramPath::Unavailable(reason.clone()),
            ProgramPath::NotUtf8 => ProgramPath::NotUtf8,
            ProgramPath::Known(path) => ProgramPath::Known(path.clone()),
        }
    }
}

/// Why the export of the program and of the configuration failed.
#[derive(Debug, Clone, PartialEq, Eq)]
pub enum ExportAdditionalError {
    /// The path of the running program is not known, for the reason given.
    GetExePath(String),
    /// The path of the running program is not UTF-8.
    InvalidExePath,
    /// The path of the running program has no file name.
    InvalidExeFilename,
    /// The program could not be copied into the target, for the reason given.
    CopyExe(String),
    /// The configuration could not be written into the target.
    SaveConfig(SaveConfigError),
    /// The file at the path could not be entered in the manifest of the target.
    GenerateChecksum(String, ChecksumError),
}

/// What `ExportAdditionalError` holds, as mathematical values.
pub enum ExportAdditionalErrorView {
    GetExePath(Seq<char>),
    InvalidExePath,
    InvalidExeFilename,
    CopyExe(Seq<char>),
    SaveConfig(SaveConfigErrorView),
    GenerateChecksum(Seq<char>, ChecksumErrorView),
}

impl View for ExportAdditionalError {
    type V = ExportAdditionalErrorView;

    open spec fn view(&self) -> ExportAdditionalErrorView {
        match self {
            ExportAdditionalError::GetExePath(r) => ExportAdditionalErrorView::GetExePath(r@),
            ExportAdditionalError::InvalidExePath => ExportAdditionalErrorView::InvalidExePath,
            ExportAdditionalError::InvalidExeFilename => {
                ExportAdditionalErrorView::InvalidExeFilename
            },
            ExportAdditionalError::CopyExe(r) => ExportAdditionalErrorView::CopyExe(r@),
            ExportAdditionalError::SaveConfig(e) => ExportAdditionalErrorView::SaveConfig(e@),
            ExportAdditionalError::GenerateChecksum(p, e) => {
                ExportAdditionalErrorView::GenerateChecksum(p@, e@)
            },
        }
    }
}

/// Where the export of the program and of the configuration stands.
#[derive(Debug, Clone)]
pub enum ExportAdditionalStage {
    /// Asked to copy the program into the target.
    Copying,
    /// The copy of the program is being entered in the manifest.
    AppendingExe(AppendChecksum),
    /// Asked to write the configuration into the target.
    SavingConfig,
    /// The configuration is being entered in the manifest.
    AppendingConfig(AppendChecksum),
}

/// What `ExportAdditionalStage` holds, as mathematical values.
pub enum ExportAdditionalStageView {
    Copying,
    AppendingExe(AppendChecksumView),
    SavingConfig,
    AppendingConfig(AppendChecksumView),
}

impl View for ExportAdditionalStage {
    type V = ExportAdditionalStageView;

    open spec fn view(&self) -> ExportAdditionalStageView {
        match self {
            ExportAdditionalStage::Copying => ExportAdditionalStageView::Copying,
            ExportAdditionalStage::AppendingExe(a) => ExportAdditionalStageView::AppendingExe(a@),
            ExportAdditionalStage::SavingConfig => ExportAdditionalStageView::SavingConfig,
            ExportAdditionalStage::AppendingConfig(a) => {
                ExportAdditionalStageView::AppendingConfig(a@)
            },
        }
    }
}

/// The export of the two additional files: the running program and the
/// text of the configuration.
#[derive(Debug, Clone)]
pub struct ExportAdditional {
    pub stage: ExportAdditionalStage,
    /// The root of the target tree.
    pub target: String,
    /// The file name of the program, and its copy in the target.
    pub exe_name: String,
    pub exe_target: String,
    /// The configuration file in the target, and the text to write to it.
    pub config_target: String,
    pub config_source: String,
}

/// What `ExportAdditional` holds, as mathematical values.
pub struct ExportAdditionalView {
    pub stage: ExportAdditionalStageView,
    pub target: Seq<char>,
    pub exe_name: Seq<char>,
    pub exe_target: Seq<char>,
    pub config_target: Seq<char>,
    pub config_source: Seq<char>,
}

impl View for ExportAdditional {
    type V = ExportAdditionalView;

    open spec fn view(&self) -> ExportAdditionalView {
        ExportAdditionalView {
            stage: self.stage@,
            target: self.target@,
            exe_name: self.exe_name@,
            exe_target: self.exe_target@,
            config_target: self.config_target@,
            config_source: self.config_source@,
        }
    }
}

type AdditionalProgress = ProgressView<ExportAdditionalView, ExportAdditionalErrorView>;

/// The name under which the configuration is exported.
pub open spec fn exported_config_name() -> Seq<char> {
    "secrets-manager.toml"@
}

/// The first step of exporting the additional files into `target`: the
/// program is copied under its own file name. A program whose path is not
/// known, is not UTF-8 or has no file name ends the export before anything
/// is asked for.
pub open spec fn export_additional_start(
    target: Seq<char>,
    config_source: Seq<char>,
    program: ProgramPathView,
) -> Result<(ExportAdditionalView, RequestView), ExportAdditionalErrorView> {
    match program {
        ProgramPathView::Unavailable(reason) => Err(ExportAdditionalErrorView::GetExePath(reason)),
        ProgramPathView::NotUtf8 => Err(ExportAdditionalErrorView::InvalidExePath),
        ProgramPathView::Known(path) => program_copied(
            target,
            config_source,
            path,
            file_name_of(path),
        ),
    }
}

/// How the export of the additional files begins once the file name `name`
/// of the program at `path` is known: the program is copied into `target`
/// under that name, and a program without file name ends the export.
pub open spec fn program_copied(
    target: Seq<char>,
    config_source: Seq<char>,
    path: Seq<char>,
    name: Option<Seq<char>>,
) -> Result<(ExportAdditionalView, RequestView), ExportAdditionalErrorView> {
    match name {
        None => Err(ExportAdditionalErrorView::InvalidExeFilename),
        Some(name) => Ok(
            (
                ExportAdditionalView {
                    stage: ExportAdditionalStageView::Copying,
                    target,
                    exe_name: name,
                    exe_target: joined(target, name),
                    config_target: joined(target, exported_config_name()),
                    config_source,
                },
                RequestView::Copy { from: path, to: joined(target, name) },
            ),
        ),
    }
}

/// One step of exporting the additional files: the program is copied and
/// entered in the manifest, then the configuration text is written as it
/// was read and entered in the manifest.
pub open spec fn export_additional_step(
    m: ExportAdditionalView,
    reply: ReplyView,
) -> AdditionalProgress {
    match m.stage {
        ExportAdditionalStageView::Copying => match reply.done() {
            Err(reason) => ProgressView::Finished(Err(ExportAdditionalErrorView::CopyExe(reason))),
            Ok(_) => ProgressView::Ask(
                ExportAdditionalView {
                    stage: ExportAdditionalStageView::AppendingExe(
                        append_start(m.target, m.exe_name).0,
                    ),
                    ..m
                },
                append_start(m.target, m.exe_name).1,
            ),
        },
        ExportAdditionalStageView::AppendingExe(a) => match append_step(a, reply) {
            ProgressView::Ask(a2, request) => ProgressView::Ask(
                ExportAdditionalView { stage: ExportAdditionalStageView::AppendingExe(a2), ..m },
                request,
            ),
            ProgressView::Finished(Err(e)) => ProgressView::Finished(
                Err(ExportAdditionalErrorView::GenerateChecksum(m.exe_target, e)),
            ),
            ProgressView::Finished(Ok(_)) => ProgressView::Ask(
                ExportAdditionalView { stage: ExportAdditionalStageView::SavingConfig, ..m },
                RequestView::WriteText { path: m.config_target, text: m.config_source },
            ),
        },
        ExportAdditionalStageView::SavingConfig => match reply.done() {
            Err(reason) => ProgressView::Finished(
                Err(
                    ExportAdditionalErrorView::SaveConfig(
                        SaveConfigErrorView(m.config_target, reason),
                    ),
                ),
            ),
            Ok(_) => ProgressView::Ask(
                ExportAdditionalView {
                    stage: ExportAdditionalStageView::AppendingConfig(
                        append_start(m.target, exported_config_name()).0,
                    ),
                    ..m
                },
                append_start(m.target, exported_config_name()).1,
            ),
        },
        ExportAdditionalStageView::AppendingConfig(a) => match append_step(a, reply) {
            ProgressView::Ask(a2, request) => ProgressView::Ask(
                ExportAdditionalView { stage: ExportAdditionalStageView::AppendingConfig(a2), ..m },
                request,
            ),
            ProgressView::Finished(Err(e)) => ProgressView::Finished(
                Err(ExportAdditionalErrorView::GenerateChecksum(m.config_target, e)),
            ),
            ProgressView::Finished(Ok(_)) => ProgressView::Finished(Ok(())),
        },
    }
}

/// The view of how the export of the additional files begins.
pub open spec fn additional_start_view(
    r: Result<(ExportAdditional, Request), ExportAdditionalError>,
) -> Result<(ExportAdditionalView, RequestView), ExportAdditionalErrorView> {
    match r {
        Ok((m, request)) => Ok((m@, request@)),
        Err(e) => Err(e@),
    }
}

/// Starts the export of the additional files into `target`.
pub fn export_additional(target: &str, config_source: &str, program: ProgramPath) -> (r: Result<
    (ExportAdditional, Request),
    ExportAdditionalError,
>)
    ensures
        additional_start_view(r) == export_additional_start(target@, config_source@, program@),
{
    match program {
        ProgramPath::Unavailable(reason) => Err(ExportAdditionalError::GetExePath(reason)),
        ProgramPath::NotUtf8 => Err(ExportAdditionalError::InvalidExePath),
        ProgramPath::Known(path) => {
            let name = file_name(path.as_str());
            copy_program(target, config_source, path, name)
        },
    }
}

/// Starts the export of the additional files into `target`, given the file
/// name `name` of the program at `path`.
pub fn copy_program(target: &str, config_source: &str, path: String, name: Option<String>) -> (r:
    Result<(ExportAdditional, Request), ExportAdditionalError>)
    ensures
        additional_start_view(r) == program_copied(
            target@,
            config_source@,
            path@,
            text_of(name),
        ),
{
    match name {
        None => Err(ExportAdditionalError::InvalidExeFilename),
        Some(name) => {
            let exe_target = join(target, name.as_str());
            let to = exe_target.clone();
            Ok(
                (
                    ExportAdditional {
                        stage: ExportAdditionalStage::Copying,
                        target: String::from_str(target),
                        exe_name: name,
                        exe_target,
                        config_target: join(target, "secrets-manager.toml"),
                        config_source: String::from_str(config_source),
                    },
                    Request::Copy { from: path, to },
                ),
            )
        },
    }
}

impl ExportAdditional {
    /// Takes the reply to the last request and makes the next step.
    pub fn resume(self, reply: Reply) -> (p: Progress<ExportAdditional, ExportAdditionalError>)
        ensures
            p@ == export_additional_step(self@, reply@),
    {
        let mut m = self;
        match m.stage {
            ExportAdditionalStage::Copying => match reply.into_done() {
                Err(reason) => Progress::Finished(Err(ExportAdditionalError::CopyExe(reason))),
                Ok(_) => {
                    let start = append_checksum(m.target.as_str(), m.exe_name.as_str());
                    m.stage = ExportAdditionalStage::AppendingExe(start.0);
                    Progress::Ask(m, start.1)
                },
            },
            ExportAdditionalStage::AppendingExe(a) => match a.resume(reply) {
                Progress::Ask(a2, request) => {
                    m.stage = ExportAdditionalStage::AppendingExe(a2);
                    Progress::Ask(m, request)
                },
                Progress::Finished(Err(e)) => Progress::Finished(
                    Err(ExportAdditionalError::GenerateChecksum(m.exe_target, e)),
                ),
                Progress::Finished(Ok(_)) => {
                    m.stage = ExportAdditionalStage::SavingConfig;
                    let path = m.config_target.clone();
                    let text = m.config_source.clone();
                    Progress::Ask(m, Request::WriteText { path, text })
                },
            },
            ExportAdditionalStage::SavingConfig => match reply.into_done() {
                Err(reason) => Progress::Finished(
                    Err(ExportAdditionalError::SaveConfig(SaveConfigError(m.config_target, reason))),
                ),
                Ok(_) => {
                    let start = append_checksum(m.target.as_str(), "secrets-manager.toml");
                    m.stage = ExportAdditionalStage::AppendingConfig(start.0);
                    Progress::Ask(m, start.1)
                },
            },
            ExportAdditionalStage::AppendingConfig(a) => match a.resume(reply) {
                Progress::Ask(a2, request) => {
                    m.stage = ExportAdditionalStage::AppendingConfig(a2);
                    Progress::Ask(m, request)
                },
                Progress::Finished(Err(e)) => Progress::Finished(
                    Err(ExportAdditionalError::GenerateChecksum(m.config_target, e)),
                ),
                Progress::Finished(Ok(_)) => Progress::Finished(Ok(())),
            },
        }
    }
}

/// Why an export failed.
#[derive(Debug, Clone, PartialEq, Eq)]
pub enum ExportError {
    /// Nothing exists at the source path.
    MissingSourcePath(String),
    /// The source path is not a directory.
    SourceNotDir(String),
    /// Nothing exists at the target path.
    MissingTargetPath(String),
    /// The target path is not a directory.
    TargetNotDir(String),
    /// The secret at the path could not be exported.
    ExportFile(String, ExportFileError),
    /// The program or the configuration could not be exported.
    ExportAdditional(ExportAdditionalError),
    /// The finished export does not pass the check against its manifest.
    VerifyExport(ChecksumError),
}

/// What `ExportError` holds, as mathematical values.
pub enum ExportErrorView {
    MissingSourcePath(Seq<char>),
    SourceNotDir(Seq<char>),
    MissingTargetPath(Seq<char>),
    TargetNotDir(Seq<char>),
    ExportFile(Seq<char>, ExportFileErrorView),
    ExportAdditional(ExportAdditionalErrorView),
    VerifyExport(ChecksumErrorView),
}

impl View for ExportError {
    type V = ExportErrorView;

    open spec fn view(&self) -> ExportErrorView {
        match self {
            ExportError::MissingSourcePath(p) => ExportErrorView::MissingSourcePath(p@),
            ExportError::SourceNotDir(p) => ExportErrorView::SourceNotDir(p@),
            ExportError::MissingTargetPath(p) => ExportErrorView::MissingTargetPath(p@),
            ExportError::TargetNotDir(p) => ExportErrorView::TargetNotDir(p@),
            ExportError::ExportFile(p, e) => ExportErrorView::ExportFile(p@, e@),
            ExportError::ExportAdditional(e) => ExportErrorView::ExportAdditional(e@),
            ExportError::VerifyExport(e) => ExportErrorView::VerifyExport(e@),
        }
    }
}

/// Where an export stands.
#[derive(Debug, Clone)]
pub enum ExportStage {
    /// Asked whether the source exists.
    ProbingSource,
    /// Asked whether the source is a directory.
    InspectingSource,
    /// Asked whether the target exists.
    ProbingTarget,
    /// Asked whether the target is a directory.
    InspectingTarget,
    /// The secret at `index` is being exported.
    Files(ExportFile),
    /// The program and the configuration are being exported.
    Additional(ExportAdditional),
    /// The finished export is being checked against its manifest.
    Verifying(VerifyChecksums),
}

/// What `ExportStage` holds, as mathematical values.
pub enum ExportStageView {
    ProbingSource,
    InspectingSource,
    ProbingTarget,
    InspectingTarget,
    Files(ExportFileView),
    Additional(ExportAdditionalView),
    Verifying(VerifyChecksumsView),
}

impl View for ExportStage {
    type V = ExportStageView;

    open spec fn view(&self) -> ExportStageView {
        match self {
            ExportStage::ProbingSource => ExportStageView::ProbingSource,
            ExportStage::InspectingSource => ExportStageView::InspectingSource,
            ExportStage::ProbingTarget => ExportStageView::ProbingTarget,
            ExportStage::InspectingTarget => ExportStageView::InspectingTarget,
            ExportStage::Files(f) => ExportStageView::Files(f@),
            ExportStage::Additional(a) => ExportStageView::Additional(a@),
            ExportStage::Verifying(v) => ExportStageView::Verifying(v@),
        }
    }
}

/// The export of the secrets that a profile owns.
#[derive(Debug, Clone)]
pub struct Export {
    pub stage: ExportStage,
    /// The roots of the source tree and of the target tree.
    pub source: String,
    pub target: String,
    pub passphrase: String,
    /// The secrets to export, in their order, and how many are done.
    pub secrets: Vec<String>,
    pub index: usize,
    /// The text of the configuration, and what is known of the program.
    pub config_source: String,
    pub program: ProgramPath,
}

/// What `Export` holds, as mathematical values.
pub struct ExportView {
    pub stage: ExportStageView,
    pub source: Seq<char>,
    pub target: Seq<char>,
    pub passphrase: Seq<char>,
    pub secrets: Seq<Seq<char>>,
    pub index: nat,
    pub config_source: Seq<char>,
    pub program: ProgramPathView,
}

impl View for Export {
    type V = ExportView;

    open spec fn view(&self) -> ExportView {
        ExportView {
            stage: self.stage@,
            source: self.source@,
            target: self.target@,
            passphrase: self.passphrase@,
            secrets: texts(self.secrets@),
            index: self.index as nat,
            config_source: self.config_source@,
            program: self.program@,
        }
    }
}

type ExportProgress = ProgressView<ExportView, ExportErrorView>;

/// The first step of an export for a profile that owns `secrets`: ask
/// whether the source exists. Only the profile's own secrets are exported,
/// never what it imports from others.
pub open spec fn export_start(
    secrets: Seq<Seq<char>>,
    source: Seq<char>,
    target: Seq<char>,
    config_source: Seq<char>,
    passphrase: Seq<char>,
    program: ProgramPathView,
) -> (ExportView, RequestView) {
    (
        ExportView {
            stage: ExportStageView::ProbingSource,
            source,
            target,
            passphrase,
            secrets,
            index: 0,
            config_source,
            program,
        },
        RequestView::Exists { path: source },
    )
}

/// The export goes on with the secret at `m.index`, or, when all are done,
/// with the additional files.
pub open spec fn export_from(m: ExportView) -> ExportProgress {
    if m.index < m.secrets.len() {
        let (file, request) = export_file_start(
            m.secrets[m.index as int],
            m.source,
            m.target,
            m.passphrase,
        );
        ProgressView::Ask(ExportView { stage: ExportStageView::Files(file), ..m }, request)
    } else {
        match export_additional_start(m.target, m.config_source, m.program) {
            Err(e) => ProgressView::Finished(Err(ExportErrorView::ExportAdditional(e))),
            Ok((additional, request)) => ProgressView::Ask(
                ExportView { stage: ExportStageView::Additional(additional), ..m },
                request,
            ),
        }
    }
}

/// One step of an export. Both roots must exist and be directories before
/// anything is exported. The secrets are exported in their order and the
/// first failure ends the export, leaving what was written in place. The
/// additional files follow, and at the end the whole target is checked
/// against its manifest.
pub open spec fn export_step(
    m: ExportView,
    reply: ReplyView,
    crypt: Result<Seq<u8>, Seq<char>>,
) -> ExportProgress {
    match m.stage {
        ExportStageView::ProbingSource => if reply.flag() {
            ProgressView::Ask(
                ExportView { stage: ExportStageView::InspectingSource, ..m },
                RequestView::IsDir { path: m.source },
            )
        } else {
            ProgressView::Finished(Err(ExportErrorView::MissingSourcePath(m.source)))
        },
        ExportStageView::InspectingSource => if reply.flag() {
            ProgressView::Ask(
                ExportView { stage: ExportStageView::ProbingTarget, ..m },
                RequestView::Exists { path: m.target },
            )
        } else {
            ProgressView::Finished(Err(ExportErrorView::SourceNotDir(m.source)))
        },
        ExportStageView::ProbingTarget => if reply.flag() {
            ProgressView::Ask(
                ExportView { stage: ExportStageView::InspectingTarget, ..m },
                RequestView::IsDir { path: m.target },
            )
        } else {
            ProgressView::Finished(Err(ExportErrorView::MissingTargetPath(m.target)))
        },
        ExportStageView::InspectingTarget => if reply.flag() {
            export_from(ExportView { index: 0, ..m })
        } else {
            ProgressView::Finished(Err(ExportErrorView::TargetNotDir(m.target)))
        },
        ExportStageView::Files(file) => match export_file_step(file, reply, crypt) {
            ProgressView::Ask(file2, request) => ProgressView::Ask(
                ExportView { stage: ExportStageView::Files(file2), ..m },
                request,
            ),
            ProgressView::Finished(Err(e)) => ProgressView::Finished(
                Err(ExportErrorView::ExportFile(file.rel, e)),
            ),
            ProgressView::Finished(Ok(_)) => export_from(
                ExportView {
                    index: if m.index < m.secrets.len() {
                        m.index + 1
                    } else {
                        m.index
                    },
                    ..m
                },
            ),
        },
        ExportStageView::Additional(additional) => match export_additional_step(
            additional,
            reply,
        ) {
            ProgressView::Ask(additional2, request) => ProgressView::Ask(
                ExportView { stage: ExportStageView::Additional(additional2), ..m },
                request,
            ),
            ProgressView::Finished(Err(e)) => ProgressView::Finished(
                Err(ExportErrorView::ExportAdditional(e)),
            ),
            ProgressView::Finished(Ok(_)) => ProgressView::Ask(
                ExportView { stage: ExportStageView::Verifying(verify_start(m.target).0), ..m },
                verify_start(m.target).1,
            ),
        },
        ExportStageView::Verifying(v) => match verify_step(v, reply) {
            ProgressView::Ask(v2, request) => ProgressView::Ask(
                ExportView { stage: ExportStageView::Verifying(v2), ..m },
                request,
            ),
            ProgressView::Finished(Err(e)) => ProgressView::Finished(
                Err(ExportErrorView::VerifyExport(e)),
            ),
            ProgressView::Finished(Ok(_)) => ProgressView::Finished(Ok(())),
        },
    }
}

/// Starts the export of the secrets that `profile` owns in `config`, from
/// `source` into `target`. `program` says what is known of the path of the
/// running program, which is exported too.
pub fn export(
    profile: String,
    source: String,
    target: String,
    config: &Config,
    passphrase: String,
    program: ProgramPath,
) -> (r: (Export, Request))
    ensures
        (r.0@, r.1@) == export_start(
            paths_of(config@.secrets, profile@),
            source@,
            target@,
            config@.source,
            passphrase@,
            program@,
        ),
{
    let secrets = config.secrets().get(profile.as_str());
    let path = source.clone();
    (
        Export {
            stage: ExportStage::ProbingSource,
            source,
            target,
            passphrase,
            secrets,
            index: 0,
            config_source: config.source().clone(),
            program,
        },
        Request::Exists { path },
    )
}

impl Export {
    /// Goes on with the secret at `self.index`, or with the additional files.
    fn proceed(self) -> (p: Progress<Export, ExportError>)
        ensures
            p@ == export_from(self@),
    {
        let mut m = self;
        if m.index < m.secrets.len() {
            proof {
                assert(texts(m.secrets@)[m.index as int] == m.secrets@[m.index as int]@);
            }
            let (file, request) = export_file(
                m.secrets[m.index].as_str(),
                m.source.as_str(),
                m.target.as_str(),
                m.passphrase.as_str(),
            );
            m.stage = ExportStage::Files(file);
            Progress::Ask(m, request)
        } else {
            match export_additional(m.target.as_str(), m.config_source.as_str(), m.program.copy()) {
                Err(e) => Progress::Finished(Err(ExportError::ExportAdditional(e))),
                Ok((additional, request)) => {
                    m.stage = ExportStage::Additional(additional);
                    Progress::Ask(m, request)
                },
            }
        }
    }

    /// Makes the next step, given the reply to the last request and the
    /// outcome `crypt` of the encryption or decryption that the step calls for.
    pub fn advance(self, reply: Reply, crypt: Result<Vec<u8>, String>) -> (p: Progress<
        Export,
        ExportError,
    >)
        ensures
            p@ == export_step(self@, reply@, crypt_view(crypt)),
    {
        let mut m = self;
        match m.stage {
            ExportStage::ProbingSource => {
                if reply.into_flag() {
                    m.stage = ExportStage::InspectingSource;
                    let path = m.source.clone();
                    Progress::Ask(m, Request::IsDir { path })
                } else {
                    Progress::Finished(Err(ExportError::MissingSourcePath(m.source)))
                }
            },
            ExportStage::InspectingSource => {
                if reply.into_flag() {
                    m.stage = ExportStage::ProbingTarget;
                    let path = m.target.clone();
                    Progress::Ask(m, Request::Exists { path })
                } else {
                    Progress::Finished(Err(ExportError::SourceNotDir(m.source)))
                }
            },
            ExportStage::ProbingTarget => {
                if reply.into_flag() {
                    m.stage = ExportStage::InspectingTarget;
                    let path = m.target.clone();
                    Progress::Ask(m, Request::IsDir { path })
                } else {
                    Progress::Finished(Err(ExportError::MissingTargetPath(m.target)))
                }
            },
            ExportStage::InspectingTarget => {
                if reply.into_flag() {
                    m.index = 0;
                    m.proceed()
                } else {
                    Progress::Finished(Err(ExportError::TargetNotDir(m.target)))
                }
            },
            ExportStage::Files(file) => {
                let rel = file.rel.clone();
                match file.advance(reply, crypt) {
                    Progress::Ask(file2, request) => {
                        m.stage = ExportStage::Files(file2);
                        Progress::Ask(m, request)
                    },
                    Progress::Finished(Err(e)) => Progress::Finished(
                        Err(ExportError::ExportFile(rel, e)),
                    ),
                    Progress::Finished(Ok(_)) => {
                        if m.index < m.secrets.len() {
                            m.index = m.index + 1;
                        }
                        m.stage = ExportStage::ProbingSource;
                        m.proceed()
                    },
                }
            },
            ExportStage::Additional(additional) => match additional.resume(reply) {
                Progress::Ask(additional2, request) => {
                    m.stage = ExportStage::Additional(additional2);
                    Progress::Ask(m, request)
                },
                Progress::Finished(Err(e)) => Progress::Finished(
                    Err(ExportError::ExportAdditional(e)),
                ),
                Progress::Finished(Ok(_)) => {
                    let start = verify_checksums(m.target.as_str());
                    m.stage = ExportStage::Verifying(start.0);
                    Progress::Ask(m, start.1)
                },
            },
            ExportStage::Verifying(v) => match v.resume(reply) {
                Progress::Ask(v2, request) => {
                    m.stage = ExportStage::Verifying(v2);
                    Progress::Ask(m, request)
                },
                Progress::Finished(Err(e)) => Progress::Finished(Err(ExportError::VerifyExport(e))),
                Progress::Finished(Ok(_)) => Progress::Finished(Ok(())),
            },
        }
    }

    /// The encryption or decryption that the next step calls for, with the
    /// bytes to hand to it: what the export of the present secret calls for,
    /// and nothing outside the export of a secret.
    pub fn crypt_call(&self, reply: &Reply) -> (r: CryptCall)
        ensures
            r@ == export_crypt_call(self@, reply@),
    {
        match &self.stage {
            ExportStage::Files(file) => file.crypt_call(reply),
            _ => CryptCall::Nothing,
        }
    }

    /// Takes the reply to the last request and makes the next step. A
    /// secret's content is encrypted when it arrives, and the written file
    /// is decrypted when it is read back; what the step does with either
    /// outcome is what `export_step` says.
    pub fn resume(self, reply: Reply) -> (p: Progress<Export, ExportError>)
        ensures
            exists|crypt: Result<Seq<u8>, Seq<char>>| p@ == export_step(self@, reply@, crypt),
            !(self@.stage matches ExportStageView::Files(file) && export_file_calls_crypt(
                file,
                reply@,
            )) ==> forall|crypt: Result<Seq<u8>, Seq<char>>|
                p@ == export_step(self@, reply@, crypt),
    {
        let call = self.crypt_call(&reply);
        let crypt = carry_out(call);
        self.advance(reply, crypt)
    }
}

/// A step of an export calls for a `crypt` only while a secret is exported,
/// and then only where the export of that secret does. Every other step is
/// the same whatever `crypt` is.
pub proof fn lemma_export_step_without_crypt(
    m: ExportView,
    reply: ReplyView,
    c1: Result<Seq<u8>, Seq<char>>,
    c2: Result<Seq<u8>, Seq<char>>,
)
    requires
        !(m.stage matches ExportStageView::Files(file) && export_file_calls_crypt(file, reply)),
    ensures
        export_step(m, reply, c1) == export_step(m, reply, c2),
{
}

} // verus!
