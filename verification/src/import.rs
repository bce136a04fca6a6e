//! The import pipeline: the export is checked against its manifest as a
//! whole, then every secret of the profile is decrypted and written where
//! no other content stands, given the owner and the mode that the export
//! records for it, and checked against its sidecar; at the end the symbolic
//! links are reconciled.

use crate::checksum::{
    verify_checksums, verify_file_checksum, verify_file_start, verify_file_step, verify_start,
    verify_step, ChecksumError, ChecksumErrorView, VerifyChecksums, VerifyChecksumsView,
    VerifyFileChecksum, VerifyFileChecksumView,
};
use crate::config::{paths_of, Config};
use crate::crypto::{call_for, call_on, carry_out, crypt_view, CryptCall, CryptCallView};
use crate::effects::{FileMeta, Progress, ProgressView, Reply, ReplyView, Request, RequestView};
use crate::meta::{meta_extension, parse_meta, parsed_meta};
use crate::safe_fs::{
    safe_write, safe_write_start, safe_write_step, SafeFsError, SafeFsErrorView, SafeWrite,
    SafeWriteView,
};
use crate::utf8path_ext::{
    ancestors, ancestors_of, extended, is_same_path, join, joined, parent, parent_of, same_path,
    text_of, texts, ExtraUtf8Path,
};
use vstd::prelude::*;
use vstd::string::*;

verus! {

/// The user and the group that new directories are given to, and imported
/// files too where the export records no owner for them.
pub const OWNER: u32 = 0;

/// The permission bits of an imported file where the export records none:
/// read and write for the owner.
pub const FILE_MODE: u32 = 0o600;

/// Owner and mode of an imported file where the export records none.
pub open spec fn default_meta() -> FileMeta {
    FileMeta { uid: OWNER, gid: OWNER, mode: FILE_MODE }
}

/// The permission bits of a directory made for an imported file.
pub const DIR_MODE: u32 = 0o755;

/// Why the import of one secret failed.
#[derive(Debug, Clone, PartialEq, Eq)]
pub enum ImportFileError {
    /// The file at the path in the export could not be read, for the reason given.
    ReadFail(String, String),
    /// The file at the path in the export could not be decrypted, for the reason given.
    DecryptionFail(String, String),
    /// The directories above the secret at the path cannot be worked out.
    IllFormedParent(String),
    /// The record of owner and mode at the path in the export is no record.
    IllFormedMeta(String),
    /// The directory at the path could not be created, for the reason given.
    CreateParent(String, String),
    /// The owner of the path could not be set, for the reason given.
    ChownFail(String, String),
    /// The mode of the path could not be set, for the reason given.
    ChmodFail(String, String),
    /// The file at the path could not be written safely.
    SafeWrite(String, SafeFsError),
    /// The imported file at the path does not pass the check against its sidecar.
    VerifyImport(String, ChecksumError),
}

/// What `ImportFileError` holds, as mathematical values.
pub enum ImportFileErrorView {
    ReadFail(Seq<char>, Seq<char>),
    DecryptionFail(Seq<char>, Seq<char>),
    IllFormedParent(Seq<char>),
    IllFormedMeta(Seq<char>),
    CreateParent(Seq<char>, Seq<char>),
    ChownFail(Seq<char>, Seq<char>),
    ChmodFail(Seq<char>, Seq<char>),
    SafeWrite(Seq<char>, SafeFsErrorView),
    VerifyImport(Seq<char>, ChecksumErrorView),
}

impl View for ImportFileError {
    type V = ImportFileErrorView;

    open spec fn view(&self) -> ImportFileErrorView {
        match self {
            ImportFileError::ReadFail(p, r) => ImportFileErrorView::ReadFail(p@, r@),
            ImportFileError::DecryptionFail(p, r) => ImportFileErrorView::DecryptionFail(p@, r@),
            ImportFileError::IllFormedParent(p) => ImportFileErrorView::IllFormedParent(p@),
            ImportFileError::IllFormedMeta(p) => ImportFileErrorView::IllFormedMeta(p@),
            ImportFileError::CreateParent(p, r) => ImportFileErrorView::CreateParent(p@, r@),
            ImportFileError::ChownFail(p, r) => ImportFileErrorView::ChownFail(p@, r@),
            ImportFileError::ChmodFail(p, r) => ImportFileErrorView::ChmodFail(p@, r@),
            ImportFileError::SafeWrite(p, e) => ImportFileErrorView::SafeWrite(p@, e@),
            ImportFileError::VerifyImport(p, e) => ImportFileErrorView::VerifyImport(p@, e@),
        }
    }
}

/// Where the import of one secret stands.
#[derive(Debug, Clone)]
pub enum ImportFileStage {
    /// Asked for the content of the encrypted file.
    ReadingSource,
    /// Asked whether the export records owner and mode of the secret.
    ProbingMeta,
    /// Asked for the record of owner and mode.
    ReadingMeta,
    /// Asked whether the directory at `dir_index` exists.
    ProbingDir,
    /// Asked to create the directory at `dir_index`.
    CreatingDir,
    /// Asked to set the owner of the directory at `dir_index`.
    ChownDir,
    /// Asked to set the mode of the directory at `dir_index`.
    ChmodDir,
    /// The decrypted content is being written safely.
    WritingFile(SafeWrite),
    /// Asked to set the owner of the imported file.
    ChownFile,
    /// Asked to set the mode of the imported file.
    ChmodFile,
    /// Asked for the content of the sidecar in the export.
    ReadingSidecar,
    /// The sidecar is being written safely.
    WritingSidecar(SafeWrite),
    /// Asked to set the owner of the sidecar.
    ChownSidecar,
    /// Asked to set the mode of the sidecar.
    ChmodSidecar,
    /// The imported file is being checked against its sidecar.
    Verifying(VerifyFileChecksum),
}

/// What `ImportFileStage` holds, as mathematical values.
pub enum ImportFileStageView {
    ReadingSource,
    ProbingMeta,
    ReadingMeta,
    ProbingDir,
    CreatingDir,
    ChownDir,
    ChmodDir,
    WritingFile(SafeWriteView),
    ChownFile,
    ChmodFile,
    ReadingSidecar,
    WritingSidecar(SafeWriteView),
    ChownSidecar,
    ChmodSidecar,
    Verifying(VerifyFileChecksumView),
}

impl View for ImportFileStage {
    type V = ImportFileStageView;

    open spec fn view(&self) -> ImportFileStageView {
        match self {
            ImportFileStage::ReadingSource => ImportFileStageView::ReadingSource,
            ImportFileStage::ProbingMeta => ImportFileStageView::ProbingMeta,
            ImportFileStage::ReadingMeta => ImportFileStageView::ReadingMeta,
            ImportFileStage::ProbingDir => ImportFileStageView::ProbingDir,
            ImportFileStage::CreatingDir => ImportFileStageView::CreatingDir,
            ImportFileStage::ChownDir => ImportFileStageView::ChownDir,
            ImportFileStage::ChmodDir => ImportFileStageView::ChmodDir,
            ImportFileStage::WritingFile(w) => ImportFileStageView::WritingFile(w@),
            ImportFileStage::ChownFile => ImportFileStageView::ChownFile,
            ImportFileStage::ChmodFile => ImportFileStageView::ChmodFile,
            ImportFileStage::ReadingSidecar => ImportFileStageView::ReadingSidecar,
            ImportFileStage::WritingSidecar(w) => ImportFileStageView::WritingSidecar(w@),
            ImportFileStage::ChownSidecar => ImportFileStageView::ChownSidecar,
            ImportFileStage::ChmodSidecar => ImportFileStageView::ChmodSidecar,
            ImportFileStage::Verifying(v) => ImportFileStageView::Verifying(v@),
        }
    }
}

/// The import of one secret.
#[derive(Debug, Clone)]
pub struct ImportFile {
    pub stage: ImportFileStage,
    /// The path of the secret, relative to both roots.
    pub rel: String,
    /// The root of the tree that is imported into.
    pub target: String,
    pub passphrase: String,
    /// The encrypted file in the export, and the sidecar beside it.
    pub file_source: String,
    pub sha_source: String,
    /// The imported file, and the sidecar beside it.
    pub file_target: String,
    pub sha_target: String,
    /// The directories above the imported file, the outermost first, and
    /// how many of them have been seen to.
    pub dirs: Vec<String>,
    pub dir_index: usize,
    /// The decrypted content; empty before it was made.
    pub plain: Vec<u8>,
    /// The record of owner and mode in the export.
    pub meta_source: String,
    /// The owner and the mode that the imported file and its sidecar are
    /// given: those that the export records, and `default_meta` where it
    /// records none.
    pub meta: FileMeta,
}

/// What `ImportFile` holds, as mathematical values.
pub struct ImportFileView {
    pub stage: ImportFileStageView,
    pub rel: Seq<char>,
    pub target: Seq<char>,
    pub passphrase: Seq<char>,
    pub file_source: Seq<char>,
    pub sha_source: Seq<char>,
    pub file_target: Seq<char>,
    pub sha_target: Seq<char>,
    pub dirs: Seq<Seq<char>>,
    pub dir_index: nat,
    pub plain: Seq<u8>,
    pub meta_source: Seq<char>,
    pub meta: FileMeta,
}

impl View for ImportFile {
    type V = ImportFileView;

    open spec fn view(&self) -> ImportFileView {
        ImportFileView {
            stage: self.stage@,
            rel: self.rel@,
            target: self.target@,
            passphrase: self.passphrase@,
            file_source: self.file_source@,
            sha_source: self.sha_source@,
            file_target: self.file_target@,
            sha_target: self.sha_target@,
            dirs: texts(self.dirs@),
            dir_index: self.dir_index as nat,
            plain: self.plain@,
            meta_source: self.meta_source@,
            meta: self.meta,
        }
    }
}

type FileProgress = ProgressView<ImportFileView, ImportFileErrorView>;

/// The first step of importing the secret `rel` from the export at `source`
/// into `target`: ask for the content of the encrypted file.
pub open spec fn import_file_start(
    rel: Seq<char>,
    source: Seq<char>,
    target: Seq<char>,
    passphrase: Seq<char>,
) -> (ImportFileView, RequestView) {
    let file_source = extended(joined(source, rel), "age"@);
    (
        ImportFileView {
            stage: ImportFileStageView::ReadingSource,
            rel,
            target,
            passphrase,
            file_source,
            sha_source: extended(joined(source, rel), "sha256"@),
            file_target: joined(target, rel),
            sha_target: extended(joined(target, rel), "sha256"@),
            dirs: Seq::empty(),
            dir_index: 0,
            plain: Seq::empty(),
            meta_source: extended(joined(source, rel), meta_extension()),
            meta: default_meta(),
        },
        RequestView::Read { path: file_source },
    )
}

/// The directories of `target` that `up` calls for, the outermost first:
/// `up` lists a relative directory and its ancestors, the directory first
/// and the empty path last, and each but the empty path is taken inside
/// `target`. `None` where the last is not the empty path.
pub open spec fn dirs_above(up: Seq<Seq<char>>, target: Seq<char>) -> Option<Seq<Seq<char>>> {
    if up.len() > 0 && is_same_path(up.last(), ""@) {
        Some(Seq::new((up.len() - 1) as nat, |i: int| joined(target, up[up.len() - 2 - i])))
    } else {
        None
    }
}

/// The directories of `target` that must exist above the secret `rel`, the
/// outermost first: those that the ancestors of the secret's parent call
/// for, and none where the secret has no parent.
pub open spec fn parent_dirs(rel: Seq<char>, target: Seq<char>) -> Option<Seq<Seq<char>>> {
    match parent_of(rel) {
        None => Some(Seq::empty()),
        Some(parent) => dirs_above(ancestors_of(parent), target),
    }
}

/// The directory that the import is seeing to; the empty path when all are done.
pub open spec fn current_dir(m: ImportFileView) -> Seq<char> {
    if m.dir_index < m.dirs.len() {
        m.dirs[m.dir_index as int]
    } else {
        Seq::empty()
    }
}

/// The import begins the safe write of the decrypted content.
pub open spec fn import_file_write(m: ImportFileView) -> FileProgress {
    ProgressView::Ask(
        ImportFileView {
            stage: ImportFileStageView::WritingFile(safe_write_start(m.file_target, m.plain).0),
            ..m
        },
        safe_write_start(m.file_target, m.plain).1,
    )
}

/// The import goes on with the directory at `m.dir_index`, or, when all
/// are seen to, with the file itself.
pub open spec fn import_file_dirs(m: ImportFileView) -> FileProgress {
    if m.dir_index < m.dirs.len() {
        ProgressView::Ask(
            ImportFileView { stage: ImportFileStageView::ProbingDir, ..m },
            RequestView::Exists { path: m.dirs[m.dir_index as int] },
        )
    } else {
        import_file_write(m)
    }
}

/// The state in which the next directory is seen to.
pub open spec fn next_dir(m: ImportFileView) -> ImportFileView {
    ImportFileView {
        dir_index: if m.dir_index < m.dirs.len() {
            m.dir_index + 1
        } else {
            m.dir_index
        },
        ..m
    }
}

/// One step of the import of one secret. `crypt` is the outcome of the
/// decryption that the step makes when the encrypted content arrives. A
/// file that does not decrypt is never written. The record of owner and
/// mode that the export keeps for the secret is read before anything is
/// written; where the export keeps none, `default_meta` takes its place,
/// and a record that cannot be read or is no record ends the import.
/// Directories that are missing above the file are created one by one and
/// given to `OWNER` with `DIR_MODE`; those that exist are left as they are.
/// The file and its sidecar are written safely and given the owner and the
/// mode of the record, and the file is then checked against the sidecar.
/// The first failure ends the import.
pub open spec fn import_file_step(
    m: ImportFileView,
    reply: ReplyView,
    crypt: Result<Seq<u8>, Seq<char>>,
) -> FileProgress {
    match m.stage {
        ImportFileStageView::ReadingSource => match reply.bytes() {
            Err(reason) => ProgressView::Finished(
                Err(ImportFileErrorView::ReadFail(m.file_source, reason)),
            ),
            Ok(_) => match crypt {
                Err(reason) => ProgressView::Finished(
                    Err(ImportFileErrorView::DecryptionFail(m.file_source, reason)),
                ),
                Ok(plain) => match parent_dirs(m.rel, m.target) {
                    None => ProgressView::Finished(
                        Err(ImportFileErrorView::IllFormedParent(m.rel)),
                    ),
                    Some(dirs) => ProgressView::Ask(
                        ImportFileView {
                            stage: ImportFileStageView::ProbingMeta,
                            plain,
                            dirs,
                            dir_index: 0,
                            ..m
                        },
                        RequestView::Exists { path: m.meta_source },
                    ),
                },
            },
        },
        ImportFileStageView::ProbingMeta => if reply.flag() {
            ProgressView::Ask(
                ImportFileView { stage: ImportFileStageView::ReadingMeta, ..m },
                RequestView::ReadText { path: m.meta_source },
            )
        } else {
            import_file_dirs(ImportFileView { meta: default_meta(), ..m })
        },
        ImportFileStageView::ReadingMeta => match reply.text() {
            Err(reason) => ProgressView::Finished(
                Err(ImportFileErrorView::ReadFail(m.meta_source, reason)),
            ),
            Ok(text) => match parsed_meta(text) {
                None => ProgressView::Finished(
                    Err(ImportFileErrorView::IllFormedMeta(m.meta_source)),
                ),
                Some(meta) => import_file_dirs(ImportFileView { meta, ..m }),
            },
        },
        ImportFileStageView::ProbingDir => if reply.flag() {
            import_file_dirs(next_dir(m))
        } else {
            ProgressView::Ask(
                ImportFileView { stage: ImportFileStageView::CreatingDir, ..m },
                RequestView::CreateDir { path: current_dir(m) },
            )
        },
        ImportFileStageView::CreatingDir => match reply.done() {
            Err(reason) => ProgressView::Finished(
                Err(ImportFileErrorView::CreateParent(current_dir(m), reason)),
            ),
            Ok(_) => ProgressView::Ask(
                ImportFileView { stage: ImportFileStageView::ChownDir, ..m },
                RequestView::Chown { path: current_dir(m), uid: OWNER, gid: OWNER },
            ),
        },
        ImportFileStageView::ChownDir => match reply.done() {
            Err(reason) => ProgressView::Finished(
                Err(ImportFileErrorView::ChownFail(current_dir(m), reason)),
            ),
            Ok(_) => ProgressView::Ask(
                ImportFileView { stage: ImportFileStageView::ChmodDir, ..m },
                RequestView::Chmod { path: current_dir(m), mode: DIR_MODE },
            ),
        },
        ImportFileStageView::ChmodDir => match reply.done() {
            Err(reason) => ProgressView::Finished(
                Err(ImportFileErrorView::ChmodFail(current_dir(m), reason)),
            ),
            Ok(_) => import_file_dirs(next_dir(m)),
        },
        ImportFileStageView::WritingFile(w) => match safe_write_step(w, reply) {
            ProgressView::Ask(w2, request) => ProgressView::Ask(
                ImportFileView { stage: ImportFileStageView::WritingFile(w2), ..m },
                request,
            ),
            ProgressView::Finished(Err(e)) => ProgressView::Finished(
                Err(ImportFileErrorView::SafeWrite(m.file_target, e)),
            ),
            ProgressView::Finished(Ok(_)) => ProgressView::Ask(
                ImportFileView { stage: ImportFileStageView::ChownFile, ..m },
                RequestView::Chown { path: m.file_target, uid: m.meta.uid, gid: m.meta.gid },
            ),
        },
        ImportFileStageView::ChownFile => match reply.done() {
            Err(reason) => ProgressView::Finished(
                Err(ImportFileErrorView::ChownFail(m.file_target, reason)),
            ),
            Ok(_) => ProgressView::Ask(
                ImportFileView { stage: ImportFileStageView::ChmodFile, ..m },
                RequestView::Chmod { path: m.file_target, mode: m.meta.mode },
            ),
        },
        ImportFileStageView::ChmodFile => match reply.done() {
            Err(reason) => ProgressView::Finished(
                Err(ImportFileErrorView::ChmodFail(m.file_target, reason)),
            ),
            Ok(_) => ProgressView::Ask(
                ImportFileView { stage: ImportFileStageView::ReadingSidecar, ..m },
                RequestView::Read { path: m.sha_source },
            ),
        },
        ImportFileStageView::ReadingSidecar => match reply.bytes() {
            Err(reason) => ProgressView::Finished(
                Err(ImportFileErrorView::ReadFail(m.sha_source, reason)),
            ),
            Ok(content) => ProgressView::Ask(
                ImportFileView {
                    stage: ImportFileStageView::WritingSidecar(
                        safe_write_start(m.sha_target, content).0,
                    ),
                    ..m
                },
                safe_write_start(m.sha_target, content).1,
            ),
        },
        ImportFileStageView::WritingSidecar(w) => match safe_write_step(w, reply) {
            ProgressView::Ask(w2, request) => ProgressView::Ask(
                ImportFileView { stage: ImportFileStageView::WritingSidecar(w2), ..m },
                request,
            ),
            ProgressView::Finished(Err(e)) => ProgressView::Finished(
                Err(ImportFileErrorView::SafeWrite(m.sha_target, e)),
            ),
            ProgressView::Finished(Ok(_)) => ProgressView::Ask(
                ImportFileView { stage: ImportFileStageView::ChownSidecar, ..m },
                RequestView::Chown { path: m.sha_target, uid: m.meta.uid, gid: m.meta.gid },
            ),
        },
        ImportFileStageView::ChownSidecar => match reply.done() {
            Err(reason) => ProgressView::Finished(
                Err(ImportFileErrorView::ChownFail(m.sha_target, reason)),
            ),
            Ok(_) => ProgressView::Ask(
                ImportFileView { stage: ImportFileStageView::ChmodSidecar, ..m },
                RequestView::Chmod { path: m.sha_target, mode: m.meta.mode },
            ),
        },
        ImportFileStageView::ChmodSidecar => match reply.done() {
            Err(reason) => ProgressView::Finished(
                Err(ImportFileErrorView::ChmodFail(m.sha_target, reason)),
            ),
            Ok(_) => ProgressView::Ask(
                ImportFileView {
                    stage: ImportFileStageView::Verifying(verify_file_start(m.target, m.rel).0),
                    ..m
                },
                verify_file_start(m.target, m.rel).1,
            ),
        },
        ImportFileStageView::Verifying(v) => match verify_file_step(v, reply) {
            ProgressView::Ask(v2, request) => ProgressView::Ask(
                ImportFileView { stage: ImportFileStageView::Verifying(v2), ..m },
                request,
            ),
            ProgressView::Finished(Err(e)) => ProgressView::Finished(
                Err(ImportFileErrorView::VerifyImport(m.file_target, e)),
            ),
            ProgressView::Finished(Ok(_)) => ProgressView::Finished(Ok(())),
        },
    }
}

/// Works out the directories of `target` that `up` calls for, where `up`
/// lists a relative directory and its ancestors, the directory first.
pub fn find_dirs_above(up: &Vec<String>, target: &str) -> (r: Option<Vec<String>>)
    ensures
        match r {
            Some(dirs) => dirs_above(texts(up@), target@) == Some(texts(dirs@)),
            None => dirs_above(texts(up@), target@) is None,
        },
{
    let n = up.len();
    assert(texts(up@).len() == n);
    if n == 0 {
        return None;
    }
    assert(texts(up@)[n - 1] == up@[n - 1]@);
    if !same_path(up[n - 1].as_str(), "") {
        return None;
    }
    let mut dirs: Vec<String> = Vec::new();
    let mut i: usize = 0;
    while i < n - 1
        invariant
            i <= n - 1,
            n == up.len(),
            dirs.len() == i,
            forall|k: int|
                0 <= k < i ==> (#[trigger] dirs@[k])@ == joined(target@, texts(up@)[n - 2 - k]),
        decreases n - 1 - i,
    {
        assert(texts(up@)[n - 2 - i] == up@[n - 2 - i]@);
        dirs.push(join(target, up[n - 2 - i].as_str()));
        i = i + 1;
    }
    proof {
        let wanted = Seq::new((n - 1) as nat, |i: int| joined(target@, texts(up@)[n - 2 - i]));
        assert(texts(dirs@) =~= wanted);
    }
    Some(dirs)
}

/// Works out the directories of `target` that must exist above the secret `rel`.
pub fn find_parent_dirs(rel: &str, target: &str) -> (r: Option<Vec<String>>)
    ensures
        match r {
            Some(dirs) => parent_dirs(rel@, target@) == Some(texts(dirs@)),
            None => parent_dirs(rel@, target@) is None,
        },
{
    match parent(rel) {
        None => {
            let dirs: Vec<String> = Vec::new();
            assert(texts(dirs@) =~= Seq::<Seq<char>>::empty());
            Some(dirs)
        },
        Some(above) => {
            let up = ancestors(above.as_str());
            find_dirs_above(&up, target)
        },
    }
}

/// Starts the import of the secret `file_rel_path` from the export at
/// `source` into `target`.
pub fn import_file(file_rel_path: &str, source: &str, target: &str, passphrase: &str) -> (r: (
    ImportFile,
    Request,
))
    ensures
        (r.0@, r.1@) == import_file_start(file_rel_path@, source@, target@, passphrase@),
{
    let in_source = join(source, file_rel_path);
    let file_target = join(target, file_rel_path);
    let file_source = in_source.add_extension("age");
    let path = file_source.clone();
    let dirs: Vec<String> = Vec::new();
    assert(texts(dirs@) =~= Seq::<Seq<char>>::empty());
    (
        ImportFile {
            stage: ImportFileStage::ReadingSource,
            rel: String::from_str(file_rel_path),
            target: String::from_str(target),
            passphrase: String::from_str(passphrase),
            file_source,
            sha_source: in_source.add_extension("sha256"),
            sha_target: file_target.add_extension("sha256"),
            file_target,
            dirs,
            dir_index: 0,
            plain: Vec::new(),
            meta_source: in_source.add_extension("meta"),
            meta: FileMeta { uid: OWNER, gid: OWNER, mode: FILE_MODE },
        },
        Request::Read { path },
    )
}

impl ImportFile {
    /// The directory that the import is seeing to.
    fn dir(&self) -> (r: String)
        ensures
            r@ == current_dir(self@),
    {
        if self.dir_index < self.dirs.len() {
            assert(texts(self.dirs@)[self.dir_index as int] == self.dirs@[self.dir_index as int]@);
            self.dirs[self.dir_index].clone()
        } else {
            String::new()
        }
    }

    /// Begins the safe write of the decrypted content.
    fn write(self) -> (p: Progress<ImportFile, ImportFileError>)
        ensures
            p@ == import_file_write(self@),
    {
        let mut m = self;
        let start = safe_write(m.file_target.as_str(), m.plain.clone());
        m.stage = ImportFileStage::WritingFile(start.0);
        Progress::Ask(m, start.1)
    }

    /// Goes on with the directory at `self.dir_index`, or with the file.
    fn see_to_dirs(self) -> (p: Progress<ImportFile, ImportFileError>)
        ensures
            p@ == import_file_dirs(self@),
    {
        let mut m = self;
        if m.dir_index < m.dirs.len() {
            let path = m.dir();
            m.stage = ImportFileStage::ProbingDir;
            Progress::Ask(m, Request::Exists { path })
        } else {
            m.write()
        }
    }

    /// Moves to the next directory.
    fn skip_dir(self) -> (r: ImportFile)
        ensures
            r@ == next_dir(self@),
    {
        let mut m = self;
        if m.dir_index < m.dirs.len() {
            m.dir_index = m.dir_index + 1;
        }
        m
    }

    /// Makes the next step, given the reply to the last request and the
    /// outcome `crypt` of the decryption that the step calls for.
    pub fn advance(self, reply: Reply, crypt: Result<Vec<u8>, String>) -> (p: Progress<
        ImportFile,
        ImportFileError,
    >)
        ensures
            p@ == import_file_step(self@, reply@, crypt_view(crypt)),
    {
        let mut m = self;
        match m.stage {
            ImportFileStage::ReadingSource => match reply.into_bytes() {
                Err(reason) => Progress::Finished(
                    Err(ImportFileError::ReadFail(m.file_source, reason)),
                ),
                Ok(_) => match crypt {
                    Err(reason) => Progress::Finished(
                        Err(ImportFileError::DecryptionFail(m.file_source, reason)),
                    ),
                    Ok(plain) => match find_parent_dirs(m.rel.as_str(), m.target.as_str()) {
                        None => Progress::Finished(Err(ImportFileError::IllFormedParent(m.rel))),
                        Some(dirs) => {
                            m.plain = plain;
                            m.dirs = dirs;
                            m.dir_index = 0;
                            m.stage = ImportFileStage::ProbingMeta;
                            let path = m.meta_source.clone();
                            Progress::Ask(m, Request::Exists { path })
                        },
                    },
                },
            },
            ImportFileStage::ProbingMeta => {
                if reply.into_flag() {
                    m.stage = ImportFileStage::ReadingMeta;
                    let path = m.meta_source.clone();
                    Progress::Ask(m, Request::ReadText { path })
                } else {
                    m.meta = FileMeta { uid: OWNER, gid: OWNER, mode: FILE_MODE };
                    m.see_to_dirs()
                }
            },
            ImportFileStage::ReadingMeta => match reply.into_text() {
                Err(reason) => Progress::Finished(
                    Err(ImportFileError::ReadFail(m.meta_source, reason)),
                ),
                Ok(text) => match parse_meta(text.as_str()) {
                    None => Progress::Finished(Err(ImportFileError::IllFormedMeta(m.meta_source))),
                    Some(meta) => {
                        m.meta = meta;
                        m.see_to_dirs()
                    },
                },
            },
            ImportFileStage::ProbingDir => {
                if reply.into_flag() {
                    m.skip_dir().see_to_dirs()
                } else {
                    let path = m.dir();
                    m.stage = ImportFileStage::CreatingDir;
                    Progress::Ask(m, Request::CreateDir { path })
                }
            },
            ImportFileStage::CreatingDir => {
                let path = m.dir();
                match reply.into_done() {
                    Err(reason) => Progress::Finished(
                        Err(ImportFileError::CreateParent(path, reason)),
                    ),
                    Ok(_) => {
                        m.stage = ImportFileStage::ChownDir;
                        Progress::Ask(m, Request::Chown { path, uid: OWNER, gid: OWNER })
                    },
                }
            },
            ImportFileStage::ChownDir => {
                let path = m.dir();
                match reply.into_done() {
                    Err(reason) => Progress::Finished(Err(ImportFileError::ChownFail(path, reason))),
                    Ok(_) => {
                        m.stage = ImportFileStage::ChmodDir;
                        Progress::Ask(m, Request::Chmod { path, mode: DIR_MODE })
                    },
                }
            },
            ImportFileStage::ChmodDir => {
                let path = m.dir();
                match reply.into_done() {
                    Err(reason) => Progress::Finished(Err(ImportFileError::ChmodFail(path, reason))),
                    Ok(_) => m.skip_dir().see_to_dirs(),
                }
            },
            ImportFileStage::WritingFile(w) => match w.resume(reply) {
                Progress::Ask(w2, request) => {
                    m.stage = ImportFileStage::WritingFile(w2);
                    Progress::Ask(m, request)
                },
                Progress::Finished(Err(e)) => Progress::Finished(
                    Err(ImportFileError::SafeWrite(m.file_target, e)),
                ),
                Progress::Finished(Ok(_)) => {
                    m.stage = ImportFileStage::ChownFile;
                    let path = m.file_target.clone();
                    let (uid, gid) = (m.meta.uid, m.meta.gid);
                    Progress::Ask(m, Request::Chown { path, uid, gid })
                },
            },
            ImportFileStage::ChownFile => match reply.into_done() {
                Err(reason) => Progress::Finished(
                    Err(ImportFileError::ChownFail(m.file_target, reason)),
                ),
                Ok(_) => {
                    m.stage = ImportFileStage::ChmodFile;
                    let path = m.file_target.clone();
                    let mode = m.meta.mode;
                    Progress::Ask(m, Request::Chmod { path, mode })
                },
            },
            ImportFileStage::ChmodFile => match reply.into_done() {
                Err(reason) => Progress::Finished(
                    Err(ImportFileError::ChmodFail(m.file_target, reason)),
                ),
                Ok(_) => {
                    m.stage = ImportFileStage::ReadingSidecar;
                    let path = m.sha_source.clone();
                    Progress::Ask(m, Request::Read { path })
                },
            },
            ImportFileStage::ReadingSidecar => match reply.into_bytes() {
                Err(reason) => Progress::Finished(
                    Err(ImportFileError::ReadFail(m.sha_source, reason)),
                ),
                Ok(content) => {
                    let start = safe_write(m.sha_target.as_str(), content);
                    m.stage = ImportFileStage::WritingSidecar(start.0);
                    Progress::Ask(m, start.1)
                },
            },
            ImportFileStage::WritingSidecar(w) => match w.resume(reply) {
                Progress::Ask(w2, request) => {
                    m.stage = ImportFileStage::WritingSidecar(w2);
                    Progress::Ask(m, request)
                },
                Progress::Finished(Err(e)) => Progress::Finished(
                    Err(ImportFileError::SafeWrite(m.sha_target, e)),
                ),
                Progress::Finished(Ok(_)) => {
                    m.stage = ImportFileStage::ChownSidecar;
                    let path = m.sha_target.clone();
                    let (uid, gid) = (m.meta.uid, m.meta.gid);
                    Progress::Ask(m, Request::Chown { path, uid, gid })
                },
            },
            ImportFileStage::ChownSidecar => match reply.into_done() {
                Err(reason) => Progress::Finished(
                    Err(ImportFileError::ChownFail(m.sha_target, reason)),
                ),
                Ok(_) => {
                    m.stage = ImportFileStage::ChmodSidecar;
                    let path = m.sha_target.clone();
                    let mode = m.meta.mode;
                    Progress::Ask(m, Request::Chmod { path, mode })
                },
            },
            ImportFileStage::ChmodSidecar => match reply.into_done() {
                Err(reason) => Progress::Finished(
                    Err(ImportFileError::ChmodFail(m.sha_target, reason)),
                ),
                Ok(_) => {
                    let start = verify_file_checksum(m.target.as_str(), m.rel.as_str());
                    m.stage = ImportFileStage::Verifying(start.0);
                    Progress::Ask(m, start.1)
                },
            },
            ImportFileStage::Verifying(v) => match v.resume(reply) {
                Progress::Ask(v2, request) => {
                    m.stage = ImportFileStage::Verifying(v2);
                    Progress::Ask(m, request)
                },
                Progress::Finished(Err(e)) => Progress::Finished(
                    Err(ImportFileError::VerifyImport(m.file_target, e)),
                ),
                Progress::Finished(Ok(_)) => Progress::Finished(Ok(())),
            },
        }
    }

    /// The decryption that the next step calls for, with the bytes to hand
    /// to it: the encrypted content when it arrives.
    pub fn crypt_call(&self, reply: &Reply) -> (r: CryptCall)
        ensures
            r@ == import_file_crypt_call(self@, reply@),
    {
        let decrypts = matches!(self.stage, ImportFileStage::ReadingSource);
        call_for(false, decrypts, reply, self.passphrase.as_str())
    }

    /// Takes the reply to the last request and makes the next step. The
    /// encrypted content is decrypted when it arrives; what the step does
    /// with the outcome is what `import_file_step` says.
    pub fn resume(self, reply: Reply) -> (p: Progress<ImportFile, ImportFileError>)
        ensures
            exists|crypt: Result<Seq<u8>, Seq<char>>| p@ == import_file_step(self@, reply@, crypt),
            !import_file_calls_crypt(self@, reply@) ==> forall|crypt: Result<Seq<u8>, Seq<char>>|
                p@ == import_file_step(self@, reply@, crypt),
    {
        let call = self.crypt_call(&reply);
        let crypt = carry_out(call);
        self.advance(reply, crypt)
    }
}

/// A secret that does not decrypt is not imported: when the decryption of
/// the encrypted content fails, the import of the secret ends at once with
/// an error, having asked for nothing to be written.
pub proof fn lemma_failed_decryption_ends_import(
    m: ImportFileView,
    reply: ReplyView,
    reason: Seq<char>,
)
    requires
        m.stage is ReadingSource,
    ensures
        import_file_step(m, reply, Err(reason)) matches ProgressView::Finished(r) && r is Err,
{
}

/// An import reads what an export wrote: for the same secret, the
/// encrypted file, the sidecar and the record of owner and mode that an
/// import from `out` asks for are those that an export into `out` writes.
pub proof fn lemma_import_reads_what_export_wrote(
    rel: Seq<char>,
    source: Seq<char>,
    out: Seq<char>,
    target: Seq<char>,
    passphrase: Seq<char>,
)
    ensures
        import_file_start(rel, out, target, passphrase).0.file_source == crate::export::export_file_start(
            rel,
            source,
            out,
            passphrase,
        ).0.file_target,
        import_file_start(rel, out, target, passphrase).0.sha_source == crate::export::export_file_start(
            rel,
            source,
            out,
            passphrase,
        ).0.sha_target,
        import_file_start(rel, out, target, passphrase).0.meta_source == crate::export::export_file_start(
            rel,
            source,
            out,
            passphrase,
        ).0.meta_target,
{
    reveal_strlit("age");
}

/// The decryption that a step of the import of a secret calls for: the
/// encrypted content, when it arrives, is decrypted under the passphrase of
/// the import; no other step calls for anything.
pub open spec fn import_file_crypt_call(m: ImportFileView, reply: ReplyView) -> CryptCallView {
    call_on(false, m.stage is ReadingSource, reply, m.passphrase)
}

/// The decryption that a step of an import calls for.
pub open spec fn import_crypt_call(m: ImportView, reply: ReplyView) -> CryptCallView {
    match m.stage {
        ImportStageView::Files(file) => import_file_crypt_call(file, reply),
        _ => CryptCallView::Nothing,
    }
}

/// One step of the import of a secret calls for a `crypt`: the one that
/// takes in the encrypted content. Every other step is the same whatever
/// `crypt` is.
pub open spec fn import_file_calls_crypt(m: ImportFileView, reply: ReplyView) -> bool {
    !(import_file_crypt_call(m, reply) is Nothing)
}

/// A step of the import of a secret that calls for no `crypt` is the same
/// whatever `crypt` is.
pub proof fn lemma_import_file_step_without_crypt(
    m: ImportFileView,
    reply: ReplyView,
    c1: Result<Seq<u8>, Seq<char>>,
    c2: Result<Seq<u8>, Seq<char>>,
)
    requires
        !import_file_calls_crypt(m, reply),
    ensures
        import_file_step(m, reply, c1) == import_file_step(m, reply, c2),
{
}

/// One request of a run with the reply that it got.
pub struct Exchange {
    pub request: RequestView,
    pub reply: ReplyView,
}

/// Where the import of a secret stands after the replies `replies` have
/// come in, one for each request, whatever file system gave them; with the
/// record of the requests that were answered. `crypts` says how the
/// decryption called for at each step of the run ends.
pub open spec fn import_file_run(
    p: FileProgress,
    replies: Seq<ReplyView>,
    crypts: spec_fn(nat) -> Result<Seq<u8>, Seq<char>>,
    log: Seq<Exchange>,
) -> (FileProgress, Seq<Exchange>)
    decreases replies.len(),
{
    if replies.len() == 0 {
        (p, log)
    } else {
        match p {
            ProgressView::Finished(_) => (p, log),
            ProgressView::Ask(m, request) => import_file_run(
                import_file_step(m, replies[0], crypts(log.len())),
                replies.drop_first(),
                crypts,
                log.push(Exchange { request, reply: replies[0] }),
            ),
        }
    }
}

/// The record of a run shows that `content` stands at `path`: a request to
/// write exactly `content` there was carried out, or a request to read the
/// file there brought exactly `content`.
pub open spec fn stands(log: Seq<Exchange>, path: Seq<char>, content: Seq<u8>) -> bool {
    exists|i: int|
        0 <= i < log.len() && (((#[trigger] log[i]).request == (RequestView::Write {
            path,
            content,
        }) && log[i].reply.done() is Ok) || (log[i].request == (RequestView::Read { path })
            && log[i].reply.bytes() == Ok::<Seq<u8>, Seq<char>>(content)))
}

/// What holds at every point of the import of the secret that is to stand
/// at `file`: once the first reply is in, the content kept is what the
/// first decryption gave; the safe write of it is a safe write of exactly
/// that content to `file`; and from the end of that safe write on, the
/// record shows that the content stands at `file`.
pub open spec fn import_file_holds(
    p: FileProgress,
    log: Seq<Exchange>,
    crypts: spec_fn(nat) -> Result<Seq<u8>, Seq<char>>,
    file: Seq<char>,
) -> bool {
    match p {
        ProgressView::Finished(Ok(_)) => exists|plain: Seq<u8>|
            crypts(0) == Ok::<Seq<u8>, Seq<char>>(plain) && #[trigger] stands(log, file, plain),
        ProgressView::Finished(Err(_)) => true,
        ProgressView::Ask(m, request) => m.file_target == file && match m.stage {
            ImportFileStageView::ReadingSource => log.len() == 0,
            ImportFileStageView::ProbingMeta
            | ImportFileStageView::ReadingMeta
            | ImportFileStageView::ProbingDir
            | ImportFileStageView::CreatingDir
            | ImportFileStageView::ChownDir
            | ImportFileStageView::ChmodDir => crypts(0) == Ok::<Seq<u8>, Seq<char>>(m.plain),
            ImportFileStageView::WritingFile(w) => {
                &&& crypts(0) == Ok::<Seq<u8>, Seq<char>>(m.plain)
                &&& w.path == file
                &&& w.content == m.plain
                &&& request == (match w.stage {
                    crate::safe_fs::SafeWriteStage::Probing => RequestView::Exists { path: file },
                    crate::safe_fs::SafeWriteStage::ReadingExisting => RequestView::Read {
                        path: file,
                    },
                    crate::safe_fs::SafeWriteStage::Writing => RequestView::Write {
                        path: file,
                        content: m.plain,
                    },
                })
            },
            _ => crypts(0) == Ok::<Seq<u8>, Seq<char>>(m.plain) && stands(log, file, m.plain),
        },
    }
}

/// What a record shows, it still shows when the record grows.
pub proof fn lemma_stands_on(log: Seq<Exchange>, next: Exchange, path: Seq<char>, content: Seq<u8>)
    requires
        stands(log, path, content),
    ensures
        stands(log.push(next), path, content),
{
    let i = choose|i: int|
        0 <= i < log.len() && (((#[trigger] log[i]).request == (RequestView::Write {
            path,
            content,
        }) && log[i].reply.done() is Ok) || (log[i].request == (RequestView::Read { path })
            && log[i].reply.bytes() == Ok::<Seq<u8>, Seq<char>>(content)));
    assert(log.push(next)[i] == log[i]);
}

/// One answered request keeps what `import_file_holds` says.
pub proof fn lemma_import_file_step_holds(
    m: ImportFileView,
    request: RequestView,
    reply: ReplyView,
    log: Seq<Exchange>,
    crypts: spec_fn(nat) -> Result<Seq<u8>, Seq<char>>,
    file: Seq<char>,
)
    requires
        import_file_holds(ProgressView::Ask(m, request), log, crypts, file),
    ensures
        import_file_holds(
            import_file_step(m, reply, crypts(log.len())),
            log.push(Exchange { request, reply }),
            crypts,
            file,
        ),
{
    let next = Exchange { request, reply };
    let after = log.push(next);
    let p = import_file_step(m, reply, crypts(log.len()));
    assert(after[log.len() as int] == next);
    match m.stage {
        ImportFileStageView::ReadingSource
        | ImportFileStageView::ProbingMeta
        | ImportFileStageView::ReadingMeta
        | ImportFileStageView::ProbingDir
        | ImportFileStageView::CreatingDir
        | ImportFileStageView::ChownDir
        | ImportFileStageView::ChmodDir => {},
        ImportFileStageView::WritingFile(w) => {
            if p matches ProgressView::Ask(m2, _) && !(m2.stage is WritingFile) {
                assert(stands(after, file, m.plain));
            }
        },
        _ => {
            lemma_stands_on(log, next, file, m.plain);
        },
    }
}

/// A run keeps what `import_file_holds` says.
pub proof fn lemma_import_file_run_holds(
    p: FileProgress,
    replies: Seq<ReplyView>,
    crypts: spec_fn(nat) -> Result<Seq<u8>, Seq<char>>,
    log: Seq<Exchange>,
    file: Seq<char>,
)
    requires
        import_file_holds(p, log, crypts, file),
    ensures
        import_file_holds(
            import_file_run(p, replies, crypts, log).0,
            import_file_run(p, replies, crypts, log).1,
            crypts,
            file,
        ),
    decreases replies.len(),
{
    if replies.len() > 0 {
        match p {
            ProgressView::Finished(_) => {},
            ProgressView::Ask(m, request) => {
                lemma_import_file_step_holds(m, request, replies[0], log, crypts, file);
                lemma_import_file_run_holds(
                    import_file_step(m, replies[0], crypts(log.len())),
                    replies.drop_first(),
                    crypts,
                    log.push(Exchange { request, reply: replies[0] }),
                    file,
                );
            },
        }
    }
}

/// No other content than the decrypted one. Whatever the file system
/// answers, an import of a secret that ends well has decrypted the
/// encrypted file, and the record of the run shows that exactly the bytes
/// that the decryption gave stand at the place of the secret: the import
/// wrote them there, or found them there and wrote nothing. An import whose
/// decryption fails does not end well.
pub proof fn lemma_import_file_yields_what_was_decrypted(
    rel: Seq<char>,
    source: Seq<char>,
    target: Seq<char>,
    passphrase: Seq<char>,
    replies: Seq<ReplyView>,
    crypts: spec_fn(nat) -> Result<Seq<u8>, Seq<char>>,
)
    ensures
        ({
            let start = import_file_start(rel, source, target, passphrase);
            let end = import_file_run(
                ProgressView::Ask(start.0, start.1),
                replies,
                crypts,
                Seq::empty(),
            );
            end.0 matches ProgressView::Finished(Ok(_)) ==> crypts(0) matches Ok(plain) && stands(
                end.1,
                joined(target, rel),
                plain,
            )
        }),
{
    let start = import_file_start(rel, source, target, passphrase);
    lemma_import_file_run_holds(
        ProgressView::Ask(start.0, start.1),
        replies,
        crypts,
        Seq::empty(),
        joined(target, rel),
    );
}

/// Why an import failed.
#[derive(Debug, Clone, PartialEq, Eq)]
pub enum ImportError {
    /// The export does not pass the check against its manifest.
    VerifySource(ChecksumError),
    /// Nothing exists at the source path.
    MissingSourcePath(String),
    /// The source path is not a directory.
    SourceNotDir(String),
    /// Nothing exists at the target path.
    MissingTargetPath(String),
    /// The target path is not a directory.
    TargetNotDir(String),
    /// The secret at the path could not be imported.
    ImportFile(String, ImportFileError),
    /// Something else than the wanted symbolic link stands at the path.
    SymlinkConflict(String),
    /// What stands at the path could not be looked at, for the reason given.
    ReadSymlink(String, String),
    /// The symbolic link at the path could not be created, for the reason given.
    CreateSymlink(String, String),
}

/// What `ImportError` holds, as mathematical values.
pub enum ImportErrorView {
    VerifySource(ChecksumErrorView),
    MissingSourcePath(Seq<char>),
    SourceNotDir(Seq<char>),
    MissingTargetPath(Seq<char>),
    TargetNotDir(Seq<char>),
    ImportFile(Seq<char>, ImportFileErrorView),
    SymlinkConflict(Seq<char>),
    ReadSymlink(Seq<char>, Seq<char>),
    CreateSymlink(Seq<char>, Seq<char>),
}

impl View for ImportError {
    type V = ImportErrorView;

    open spec fn view(&self) -> ImportErrorView {
        match self {
            ImportError::VerifySource(e) => ImportErrorView::VerifySource(e@),
            ImportError::MissingSourcePath(p) => ImportErrorView::MissingSourcePath(p@),
            ImportError::SourceNotDir(p) => ImportErrorView::SourceNotDir(p@),
            ImportError::MissingTargetPath(p) => ImportErrorView::MissingTargetPath(p@),
            ImportError::TargetNotDir(p) => ImportErrorView::TargetNotDir(p@),
            ImportError::ImportFile(p, e) => ImportErrorView::ImportFile(p@, e@),
            ImportError::SymlinkConflict(p) => ImportErrorView::SymlinkConflict(p@),
            ImportError::ReadSymlink(p, r) => ImportErrorView::ReadSymlink(p@, r@),
            ImportError::CreateSymlink(p, r) => ImportErrorView::CreateSymlink(p@, r@),
        }
    }
}

/// What to do about one symbolic link.
#[derive(Debug, Clone, Copy, PartialEq, Eq)]
pub enum LinkAction {
    /// Nothing stands at the destination: create the link.
    Create,
    /// The link stands already and points where it should: leave it.
    Keep,
}

/// Why nothing can be done about one symbolic link.
#[derive(Debug, Clone, PartialEq, Eq)]
pub enum LinkFault {
    /// Something else than the wanted link stands at the destination.
    Conflict,
    /// The destination could not be looked at, for the reason given.
    Unreadable(String),
}

/// What `LinkFault` holds, as mathematical values.
pub enum LinkFaultView {
    Conflict,
    Unreadable(Seq<char>),
}

impl View for LinkFault {
    type V = LinkFaultView;

    open spec fn view(&self) -> LinkFaultView {
        match self {
            LinkFault::Conflict => LinkFaultView::Conflict,
            LinkFault::Unreadable(reason) => LinkFaultView::Unreadable(reason@),
        }
    }
}

/// What the state of a destination calls for, when the link there is to
/// point to `file`. Nothing at the destination calls for the link to be
/// created, and a link to the same path for nothing. A link to another
/// path, and anything that is no link, is a conflict. A look that failed is
/// no conflict but a fault of its own, with the reason of the failure.
pub open spec fn reconciled(found: ReplyView, file: Seq<char>) -> Result<
    LinkAction,
    LinkFaultView,
> {
    match found {
        ReplyView::Flag(exists) => if exists {
            Err(LinkFaultView::Conflict)
        } else {
            Ok(LinkAction::Create)
        },
        ReplyView::Link(to) => if is_same_path(to, file) {
            Ok(LinkAction::Keep)
        } else {
            Err(LinkFaultView::Conflict)
        },
        ReplyView::Failed(reason) => Err(LinkFaultView::Unreadable(reason)),
        _ => Err(LinkFaultView::Unreadable(crate::effects::unexpected())),
    }
}

/// The view of a decision about one symbolic link.
pub open spec fn link_result_view(r: Result<LinkAction, LinkFault>) -> Result<
    LinkAction,
    LinkFaultView,
> {
    match r {
        Ok(action) => Ok(action),
        Err(fault) => Err(fault@),
    }
}

/// Decides what to do about one symbolic link that is to point to `file`.
pub fn reconcile(found: Reply, file: &str) -> (r: Result<LinkAction, LinkFault>)
    ensures
        link_result_view(r) == reconciled(found@, file@),
{
    match found {
        Reply::Flag(exists) => {
            if exists {
                Err(LinkFault::Conflict)
            } else {
                Ok(LinkAction::Create)
            }
        },
        Reply::Link(to) => {
            if same_path(to.as_str(), file) {
                Ok(LinkAction::Keep)
            } else {
                Err(LinkFault::Conflict)
            }
        },
        Reply::Failed(reason) => Err(LinkFault::Unreadable(reason)),
        _ => Err(LinkFault::Unreadable(String::from_str("unexpected reply"))),
    }
}

/// Where an import stands.
#[derive(Debug, Clone)]
pub enum ImportStage {
    /// Asked whether the source exists.
    ProbingSource,
    /// Asked whether the source is a directory.
    InspectingSource,
    /// Asked whether the target exists.
    ProbingTarget,
    /// Asked whether the target is a directory.
    InspectingTarget,
    /// The export is being checked against its manifest.
    VerifyingSource(VerifyChecksums),
    /// The secret at `index` is being imported.
    Files(ImportFile),
    /// Asked what stands at the destination of the link for the secret at `index`.
    ProbingLink,
    /// Asked to create the link for the secret at `index`.
    CreatingLink,
}

/// What `ImportStage` holds, as mathematical values.
pub enum ImportStageView {
    ProbingSource,
    InspectingSource,
    ProbingTarget,
    InspectingTarget,
    VerifyingSource(VerifyChecksumsView),
    Files(ImportFileView),
    ProbingLink,
    CreatingLink,
}

impl View for ImportStage {
    type V = ImportStageView;

    open spec fn view(&self) -> ImportStageView {
        match self {
            ImportStage::ProbingSource => ImportStageView::ProbingSource,
            ImportStage::InspectingSource => ImportStageView::InspectingSource,
            ImportStage::ProbingTarget => ImportStageView::ProbingTarget,
            ImportStage::InspectingTarget => ImportStageView::InspectingTarget,
            ImportStage::VerifyingSource(v) => ImportStageView::VerifyingSource(v@),
            ImportStage::Files(f) => ImportStageView::Files(f@),
            ImportStage::ProbingLink => ImportStageView::ProbingLink,
            ImportStage::CreatingLink => ImportStageView::CreatingLink,
        }
    }
}

/// The import of the secrets that a profile owns or imports.
#[derive(Debug, Clone)]
pub struct Import {
    pub stage: ImportStage,
    /// The root of the export and the root of the tree imported into.
    pub source: String,
    pub target: String,
    pub passphrase: String,
    /// The secrets to import, in their order, and how many are done in the
    /// present round: first the files, then the links.
    pub files: Vec<String>,
    pub index: usize,
    /// The directory under which each imported secret gets a symbolic link
    /// at its relative path; `None` where no links are wanted.
    pub links: Option<String>,
}

/// What `Import` holds, as mathematical values.
pub struct ImportView {
    pub stage: ImportStageView,
    pub source: Seq<char>,
    pub target: Seq<char>,
    pub passphrase: Seq<char>,
    pub files: Seq<Seq<char>>,
    pub index: nat,
    pub links: Option<Seq<char>>,
}

impl View for Import {
    type V = ImportView;

    open spec fn view(&self) -> ImportView {
        ImportView {
            stage: self.stage@,
            source: self.source@,
            target: self.target@,
            passphrase: self.passphrase@,
            files: texts(self.files@),
            index: self.index as nat,
            links: text_of(self.links),
        }
    }
}

type ImportProgress = ProgressView<ImportView, ImportErrorView>;

/// The first step of an import of `files`: ask whether the source exists.
pub open spec fn import_start(
    files: Seq<Seq<char>>,
    source: Seq<char>,
    target: Seq<char>,
    passphrase: Seq<char>,
    links: Option<Seq<char>>,
) -> (ImportView, RequestView) {
    (
        ImportView {
            stage: ImportStageView::ProbingSource,
            source,
            target,
            passphrase,
            files,
            index: 0,
            links,
        },
        RequestView::Exists { path: source },
    )
}

/// The secret that the import is busy with; the empty path when all are done.
pub open spec fn current_file(m: ImportView) -> Seq<char> {
    if m.index < m.files.len() {
        m.files[m.index as int]
    } else {
        Seq::empty()
    }
}

/// Where the link for the present secret stands.
pub open spec fn link_path(m: ImportView) -> Seq<char> {
    match m.links {
        Some(dir) => joined(dir, current_file(m)),
        None => Seq::empty(),
    }
}

/// The imported file that the link for the present secret points to.
pub open spec fn linked_file(m: ImportView) -> Seq<char> {
    joined(m.target, current_file(m))
}

/// The import goes on with the link for the secret at `m.index`, or ends
/// well when no link is wanted or all are seen to.
pub open spec fn import_links(m: ImportView) -> ImportProgress {
    if m.links is Some && m.index < m.files.len() {
        ProgressView::Ask(
            ImportView { stage: ImportStageView::ProbingLink, ..m },
            RequestView::ReadLink { path: link_path(m) },
        )
    } else {
        ProgressView::Finished(Ok(()))
    }
}

/// The import goes on with the secret at `m.index`, or, when all are
/// imported, with the links.
pub open spec fn import_from(m: ImportView) -> ImportProgress {
    if m.index < m.files.len() {
        let (file, request) = import_file_start(
            m.files[m.index as int],
            m.source,
            m.target,
            m.passphrase,
        );
        ProgressView::Ask(ImportView { stage: ImportStageView::Files(file), ..m }, request)
    } else {
        import_links(ImportView { index: 0, ..m })
    }
}

/// The state in which the next secret, or the next link, is seen to.
pub open spec fn next_file(m: ImportView) -> ImportView {
    ImportView {
        index: if m.index < m.files.len() {
            m.index + 1
        } else {
            m.index
        },
        ..m
    }
}

/// One step of an import. Both roots must exist and be directories. The
/// whole export is checked against its manifest before anything is
/// imported. The secrets are imported in their order, and the first failure
/// ends the import. Where links are wanted they are reconciled after all
/// secrets are imported, in the same order: a missing link is created, a
/// link that points to the imported file is kept, anything else at the
/// destination ends the import with `SymlinkConflict`, and a destination
/// that cannot be looked at ends it with `ReadSymlink`.
pub open spec fn import_step(
    m: ImportView,
    reply: ReplyView,
    crypt: Result<Seq<u8>, Seq<char>>,
) -> ImportProgress {
    match m.stage {
        ImportStageView::ProbingSource => if reply.flag() {
            ProgressView::Ask(
                ImportView { stage: ImportStageView::InspectingSource, ..m },
                RequestView::IsDir { path: m.source },
            )
        } else {
            ProgressView::Finished(Err(ImportErrorView::MissingSourcePath(m.source)))
        },
        ImportStageView::InspectingSource => if reply.flag() {
            ProgressView::Ask(
                ImportView { stage: ImportStageView::ProbingTarget, ..m },
                RequestView::Exists { path: m.target },
            )
        } else {
            ProgressView::Finished(Err(ImportErrorView::SourceNotDir(m.source)))
        },
        ImportStageView::ProbingTarget => if reply.flag() {
            ProgressView::Ask(
                ImportView { stage: ImportStageView::InspectingTarget, ..m },
                RequestView::IsDir { path: m.target },
            )
        } else {
            ProgressView::Finished(Err(ImportErrorView::MissingTargetPath(m.target)))
        },
        ImportStageView::InspectingTarget => if reply.flag() {
            ProgressView::Ask(
                ImportView {
                    stage: ImportStageView::VerifyingSource(verify_start(m.source).0),
                    ..m
                },
                verify_start(m.source).1,
            )
        } else {
            ProgressView::Finished(Err(ImportErrorView::TargetNotDir(m.target)))
        },
        ImportStageView::VerifyingSource(v) => match verify_step(v, reply) {
            ProgressView::Ask(v2, request) => ProgressView::Ask(
                ImportView { stage: ImportStageView::VerifyingSource(v2), ..m },
                request,
            ),
            ProgressView::Finished(Err(e)) => ProgressView::Finished(
                Err(ImportErrorView::VerifySource(e)),
            ),
            ProgressView::Finished(Ok(_)) => import_from(ImportView { index: 0, ..m }),
        },
        ImportStageView::Files(file) => match import_file_step(file, reply, crypt) {
            ProgressView::Ask(file2, request) => ProgressView::Ask(
                ImportView { stage: ImportStageView::Files(file2), ..m },
                request,
            ),
            ProgressView::Finished(Err(e)) => ProgressView::Finished(
                Err(ImportErrorView::ImportFile(file.rel, e)),
            ),
            ProgressView::Finished(Ok(_)) => import_from(next_file(m)),
        },
        ImportStageView::ProbingLink => match reconciled(reply, linked_file(m)) {
            Err(LinkFaultView::Conflict) => ProgressView::Finished(
                Err(ImportErrorView::SymlinkConflict(link_path(m))),
            ),
            Err(LinkFaultView::Unreadable(reason)) => ProgressView::Finished(
                Err(ImportErrorView::ReadSymlink(link_path(m), reason)),
            ),
            Ok(LinkAction::Keep) => import_links(next_file(m)),
            Ok(LinkAction::Create) => ProgressView::Ask(
                ImportView { stage: ImportStageView::CreatingLink, ..m },
                RequestView::Symlink { file: linked_file(m), link: link_path(m) },
            ),
        },
        ImportStageView::CreatingLink => match reply.done() {
            Err(reason) => ProgressView::Finished(
                Err(ImportErrorView::CreateSymlink(link_path(m), reason)),
            ),
            Ok(_) => import_links(next_file(m)),
        },
    }
}

/// The paths of `first` followed by those of `second`.
pub fn concat_paths(first: Vec<String>, second: Vec<String>) -> (r: Vec<String>)
    ensures
        texts(r@) == texts(first@) + texts(second@),
{
    let mut r = first;
    let mut i: usize = 0;
    while i < second.len()
        invariant
            i <= second.len(),
            texts(r@) == texts(first@) + texts(second@).take(i as int),
        decreases second.len() - i,
    {
        let ghost before = texts(r@);
        r.push(second[i].clone());
        i = i + 1;
        proof {
            assert(texts(second@)[i - 1] == second@[i - 1]@);
            assert(texts(r@) =~= before.push(second@[i - 1]@));
            assert(texts(second@).take(i as int) =~= texts(second@).take(i - 1).push(
                second@[i - 1]@,
            ));
            assert(texts(r@) =~= texts(first@) + texts(second@).take(i as int));
        }
    }
    proof {
        assert(texts(second@).take(second.len() as int) =~= texts(second@));
    }
    r
}

/// Starts the import, from the export at `source` into `target`, of the
/// secrets that `profile` owns in `config`, followed by those it imports
/// from others. Where `links` names a directory, each imported secret gets
/// a symbolic link under it at its relative path.
pub fn import(
    profile: String,
    source: String,
    target: String,
    config: &Config,
    passphrase: String,
    links: Option<String>,
) -> (r: (Import, Request))
    ensures
        (r.0@, r.1@) == import_start(
            paths_of(config@.secrets, profile@) + paths_of(config@.additional_imports, profile@),
            source@,
            target@,
            passphrase@,
            text_of(links),
        ),
{
    let secrets = config.secrets().get(profile.as_str());
    let additional_imports = config.additional_imports().get(profile.as_str());
    let files = concat_paths(secrets, additional_imports);
    let path = source.clone();
    (
        Import {
            stage: ImportStage::ProbingSource,
            source,
            target,
            passphrase,
            files,
            index: 0,
            links,
        },
        Request::Exists { path },
    )
}

impl Import {
    /// The secret that the import is busy with.
    fn file(&self) -> (r: String)
        ensures
            r@ == current_file(self@),
    {
        if self.index < self.files.len() {
            assert(texts(self.files@)[self.index as int] == self.files@[self.index as int]@);
            self.files[self.index].clone()
        } else {
            String::new()
        }
    }

    /// Where the link for the present secret stands.
    fn link(&self) -> (r: String)
        ensures
            r@ == link_path(self@),
    {
        match &self.links {
            Some(dir) => join(dir.as_str(), self.file().as_str()),
            None => String::new(),
        }
    }

    /// Where the link for the present secret points.
    fn linked(&self) -> (r: String)
        ensures
            r@ == linked_file(self@),
    {
        join(self.target.as_str(), self.file().as_str())
    }

    /// Moves to the next secret or link.
    fn skip(self) -> (r: Import)
        ensures
            r@ == next_file(self@),
    {
        let mut m = self;
        if m.index < m.files.len() {
            m.index = m.index + 1;
        }
        m
    }

    /// Goes on with the link for the secret at `self.index`.
    fn see_to_links(self) -> (p: Progress<Import, ImportError>)
        ensures
            p@ == import_links(self@),
    {
        let mut m = self;
        if m.links.is_some() && m.index < m.files.len() {
            let path = m.link();
            m.stage = ImportStage::ProbingLink;
            Progress::Ask(m, Request::ReadLink { path })
        } else {
            Progress::Finished(Ok(()))
        }
    }

    /// Goes on with the secret at `self.index`, or with the links.
    fn proceed(self) -> (p: Progress<Import, ImportError>)
        ensures
            p@ == import_from(self@),
    {
        let mut m = self;
        if m.index < m.files.len() {
            proof {
                assert(texts(m.files@)[m.index as int] == m.files@[m.index as int]@);
            }
            let (file, request) = import_file(
                m.files[m.index].as_str(),
                m.source.as_str(),
                m.target.as_str(),
                m.passphrase.as_str(),
            );
            m.stage = ImportStage::Files(file);
            Progress::Ask(m, request)
        } else {
            m.index = 0;
            m.see_to_links()
        }
    }

    /// Makes the next step, given the reply to the last request and the
    /// outcome `crypt` of the decryption that the step calls for.
    pub fn advance(self, reply: Reply, crypt: Result<Vec<u8>, String>) -> (p: Progress<
        Import,
        ImportError,
    >)
        ensures
            p@ == import_step(self@, reply@, crypt_view(crypt)),
    {
        let mut m = self;
        match m.stage {
            ImportStage::ProbingSource => {
                if reply.into_flag() {
                    m.stage = ImportStage::InspectingSource;
                    let path = m.source.clone();
                    Progress::Ask(m, Request::IsDir { path })
                } else {
                    Progress::Finished(Err(ImportError::MissingSourcePath(m.source)))
                }
            },
            ImportStage::InspectingSource => {
                if reply.into_flag() {
                    m.stage = ImportStage::ProbingTarget;
                    let path = m.target.clone();
                    Progress::Ask(m, Request::Exists { path })
                } else {
                    Progress::Finished(Err(ImportError::SourceNotDir(m.source)))
                }
            },
            ImportStage::ProbingTarget => {
                if reply.into_flag() {
                    m.stage = ImportStage::InspectingTarget;
                    let path = m.target.clone();
                    Progress::Ask(m, Request::IsDir { path })
                } else {
                    Progress::Finished(Err(ImportError::MissingTargetPath(m.target)))
                }
            },
            ImportStage::InspectingTarget => {
                if reply.into_flag() {
                    let start = verify_checksums(m.source.as_str());
                    m.stage = ImportStage::VerifyingSource(start.0);
                    Progress::Ask(m, start.1)
                } else {
                    Progress::Finished(Err(ImportError::TargetNotDir(m.target)))
                }
            },
            ImportStage::VerifyingSource(v) => match v.resume(reply) {
                Progress::Ask(v2, request) => {
                    m.stage = ImportStage::VerifyingSource(v2);
                    Progress::Ask(m, request)
                },
                Progress::Finished(Err(e)) => Progress::Finished(Err(ImportError::VerifySource(e))),
                Progress::Finished(Ok(_)) => {
                    m.stage = ImportStage::ProbingSource;
                    m.index = 0;
                    m.proceed()
                },
            },
            ImportStage::Files(file) => {
                let rel = file.rel.clone();
                match file.advance(reply, crypt) {
                    Progress::Ask(file2, request) => {
                        m.stage = ImportStage::Files(file2);
                        Progress::Ask(m, request)
                    },
                    Progress::Finished(Err(e)) => Progress::Finished(
                        Err(ImportError::ImportFile(rel, e)),
                    ),
                    Progress::Finished(Ok(_)) => {
                        m.stage = ImportStage::ProbingSource;
                        m.skip().proceed()
                    },
                }
            },
            ImportStage::ProbingLink => {
                let file = m.linked();
                match reconcile(reply, file.as_str()) {
                    Err(LinkFault::Conflict) => Progress::Finished(
                        Err(ImportError::SymlinkConflict(m.link())),
                    ),
                    Err(LinkFault::Unreadable(reason)) => Progress::Finished(
                        Err(ImportError::ReadSymlink(m.link(), reason)),
                    ),
                    Ok(LinkAction::Keep) => m.skip().see_to_links(),
                    Ok(LinkAction::Create) => {
                        let link = m.link();
                        m.stage = ImportStage::CreatingLink;
                        Progress::Ask(m, Request::Symlink { file, link })
                    },
                }
            },
            ImportStage::CreatingLink => match reply.into_done() {
                Err(reason) => Progress::Finished(
                    Err(ImportError::CreateSymlink(m.link(), reason)),
                ),
                Ok(_) => m.skip().see_to_links(),
            },
        }
    }

    /// The decryption that the next step calls for, with the bytes to hand
    /// to it: what the import of the present secret calls for, and nothing
    /// outside the import of a secret.
    pub fn crypt_call(&self, reply: &Reply) -> (r: CryptCall)
        ensures
            r@ == import_crypt_call(self@, reply@),
    {
        match &self.stage {
            ImportStage::Files(file) => file.crypt_call(reply),
            _ => CryptCall::Nothing,
        }
    }

    /// Takes the reply to the last request and makes the next step. The
    /// encrypted content of a secret is decrypted when it arrives; what the
    /// step does with the outcome is what `import_step` says.
    pub fn resume(self, reply: Reply) -> (p: Progress<Import, ImportError>)
        ensures
            exists|crypt: Result<Seq<u8>, Seq<char>>| p@ == import_step(self@, reply@, crypt),
            !(self@.stage matches ImportStageView::Files(file) && import_file_calls_crypt(
                file,
                reply@,
            )) ==> forall|crypt: Result<Seq<u8>, Seq<char>>|
                p@ == import_step(self@, reply@, crypt),
    {
        let call = self.crypt_call(&reply);
        let crypt = carry_out(call);
        self.advance(reply, crypt)
    }
}

/// A step of an import calls for a `crypt` only while a secret is imported,
/// and then only where the import of that secret does. Every other step is
/// the same whatever `crypt` is.
pub proof fn lemma_import_step_without_crypt(
    m: ImportView,
    reply: ReplyView,
    c1: Result<Seq<u8>, Seq<char>>,
    c2: Result<Seq<u8>, Seq<char>>,
)
    requires
        !(m.stage matches ImportStageView::Files(file) && import_file_calls_crypt(file, reply)),
    ensures
        import_step(m, reply, c1) == import_step(m, reply, c2),
{
}

} // verus!
