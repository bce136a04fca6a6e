//! A file system as a map from path texts to what stands there, and what
//! the export and the import of a secret come to when they run on it. The
//! pipelines themselves never see this map: it is what the laws about whole
//! runs are stated over.

use crate::checksum::{
    entry_of, is_entry_line, manifest_name, sha256_hex, AppendStage, VerifyFileStage,
};
use crate::crypto::CryptCallView;
use crate::effects::{FileMeta, ProgressView, ReplyView, RequestView};
use crate::export::{
    encrypted_extension, export_file_crypt_call, export_file_start, export_file_step,
    ExportFileErrorView, ExportFileStageView, ExportFileView,
};
use crate::import::{
    import_file_crypt_call, import_file_start, import_file_step, parent_dirs,
    ImportFileErrorView, ImportFileStageView, ImportFileView,
};
use crate::meta::{lemma_meta_round_trip, meta_extension, meta_text};
use crate::safe_fs::SafeWriteStage;
use crate::text::trimmed;
use crate::utf8path_ext::{extended, joined, parent_of};
use vstd::prelude::*;
use vstd::utf8::{decode_utf8, encode_utf8, valid_utf8};

verus! {

/// What stands at a path: a file with its bytes, or a directory; both with
/// owner and permission bits.
pub enum Node {
    File { bytes: Seq<u8>, meta: FileMeta },
    Dir { meta: FileMeta },
}

/// Owner and permission bits of what stands at a path.
pub open spec fn node_meta(node: Node) -> FileMeta {
    match node {
        Node::File { meta, .. } => meta,
        Node::Dir { meta } => meta,
    }
}

/// The same node with other owner and permission bits.
pub open spec fn with_meta(node: Node, meta: FileMeta) -> Node {
    match node {
        Node::File { bytes, .. } => Node::File { bytes, meta },
        Node::Dir { .. } => Node::Dir { meta },
    }
}

/// The file that a write of `bytes` leaves at `path`: an existing node
/// keeps its owner and permission bits, a new file gets `fresh`.
pub open spec fn written(
    disk: Map<Seq<char>, Node>,
    fresh: FileMeta,
    path: Seq<char>,
    bytes: Seq<u8>,
) -> Map<Seq<char>, Node> {
    disk.insert(
        path,
        Node::File {
            bytes,
            meta: if disk.dom().contains(path) {
                node_meta(disk[path])
            } else {
                fresh
            },
        },
    )
}

/// A file system that never fails where the operation can be done: the
/// reply that `disk` gives to a request, and the file system after it. New
/// files and directories get the owner and permission bits `fresh`. Text is
/// kept as its UTF-8 bytes. Symbolic links are not kept.
pub open spec fn served(disk: Map<Seq<char>, Node>, fresh: FileMeta, request: RequestView) -> (
    ReplyView,
    Map<Seq<char>, Node>,
) {
    match request {
        RequestView::Exists { path } => (ReplyView::Flag(disk.dom().contains(path)), disk),
        RequestView::IsDir { path } => (
            ReplyView::Flag(disk.dom().contains(path) && disk[path] is Dir),
            disk,
        ),
        RequestView::Read { path } => if disk.dom().contains(path) && disk[path] is File {
            (ReplyView::Bytes(disk[path]->bytes), disk)
        } else {
            (ReplyView::Failed(Seq::empty()), disk)
        },
        RequestView::ReadText { path } => if disk.dom().contains(path) && disk[path] is File
            && valid_utf8(disk[path]->bytes) {
            (ReplyView::Text(decode_utf8(disk[path]->bytes)), disk)
        } else {
            (ReplyView::Failed(Seq::empty()), disk)
        },
        RequestView::Write { path, content } => (
            ReplyView::Done,
            written(disk, fresh, path, content),
        ),
        RequestView::WriteText { path, text } => (
            ReplyView::Done,
            written(disk, fresh, path, encode_utf8(text)),
        ),
        RequestView::CreateDir { path } => (
            ReplyView::Done,
            if disk.dom().contains(path) {
                disk
            } else {
                disk.insert(path, Node::Dir { meta: fresh })
            },
        ),
        RequestView::CreateDirAll { path } => (
            ReplyView::Done,
            if disk.dom().contains(path) {
                disk
            } else {
                disk.insert(path, Node::Dir { meta: fresh })
            },
        ),
        RequestView::Chown { path, uid, gid } => if disk.dom().contains(path) {
            (
                ReplyView::Done,
                disk.insert(
                    path,
                    with_meta(disk[path], FileMeta { uid, gid, mode: node_meta(disk[path]).mode }),
                ),
            )
        } else {
            (ReplyView::Failed(Seq::empty()), disk)
        },
        RequestView::Chmod { path, mode } => if disk.dom().contains(path) {
            (
                ReplyView::Done,
                disk.insert(
                    path,
                    with_meta(
                        disk[path],
                        FileMeta {
                            uid: node_meta(disk[path]).uid,
                            gid: node_meta(disk[path]).gid,
                            mode,
                        },
                    ),
                ),
            )
        } else {
            (ReplyView::Failed(Seq::empty()), disk)
        },
        RequestView::Copy { from, to } => if disk.dom().contains(from) && disk[from] is File {
            (ReplyView::Done, written(disk, fresh, to, disk[from]->bytes))
        } else {
            (ReplyView::Failed(Seq::empty()), disk)
        },
        RequestView::Stat { path } => if disk.dom().contains(path) {
            (ReplyView::Meta(node_meta(disk[path])), disk)
        } else {
            (ReplyView::Failed(Seq::empty()), disk)
        },
        _ => (ReplyView::Failed(Seq::empty()), disk),
    }
}

/// How the call that a step makes ends, where `enc` says how encryption
/// ends on given bytes under a given passphrase and `dec` how decryption
/// does.
pub open spec fn crypt_of(
    call: CryptCallView,
    enc: spec_fn(Seq<u8>, Seq<char>) -> Result<Seq<u8>, Seq<char>>,
    dec: spec_fn(Seq<u8>, Seq<char>) -> Result<Seq<u8>, Seq<char>>,
) -> Result<Seq<u8>, Seq<char>> {
    match call {
        CryptCallView::Encrypt { bytes, passphrase } => enc(bytes, passphrase),
        CryptCallView::Decrypt { bytes, passphrase } => dec(bytes, passphrase),
        CryptCallView::Nothing => Err(Seq::empty()),
    }
}

/// Where the export of a secret stands, and what the file system holds,
/// after at most `steps` requests were served.
pub open spec fn export_file_on(
    p: ProgressView<ExportFileView, ExportFileErrorView>,
    disk: Map<Seq<char>, Node>,
    fresh: FileMeta,
    enc: spec_fn(Seq<u8>, Seq<char>) -> Result<Seq<u8>, Seq<char>>,
    dec: spec_fn(Seq<u8>, Seq<char>) -> Result<Seq<u8>, Seq<char>>,
    steps: nat,
) -> (ProgressView<ExportFileView, ExportFileErrorView>, Map<Seq<char>, Node>)
    decreases steps,
{
    if steps == 0 {
        (p, disk)
    } else {
        match p {
            ProgressView::Finished(_) => (p, disk),
            ProgressView::Ask(m, request) => {
                let (reply, after) = served(disk, fresh, request);
                export_file_on(
                    export_file_step(
                        m,
                        reply,
                        crypt_of(export_file_crypt_call(m, reply), enc, dec),
                    ),
                    after,
                    fresh,
                    enc,
                    dec,
                    (steps - 1) as nat,
                )
            },
        }
    }
}

/// Where the import of a secret stands, and what the file system holds,
/// after at most `steps` requests were served.
pub open spec fn import_file_on(
    p: ProgressView<ImportFileView, ImportFileErrorView>,
    disk: Map<Seq<char>, Node>,
    fresh: FileMeta,
    dec: spec_fn(Seq<u8>, Seq<char>) -> Result<Seq<u8>, Seq<char>>,
    steps: nat,
) -> (ProgressView<ImportFileView, ImportFileErrorView>, Map<Seq<char>, Node>)
    decreases steps,
{
    if steps == 0 {
        (p, disk)
    } else {
        match p {
            ProgressView::Finished(_) => (p, disk),
            ProgressView::Ask(m, request) => {
                let (reply, after) = served(disk, fresh, request);
                import_file_on(
                    import_file_step(
                        m,
                        reply,
                        crypt_of(import_file_crypt_call(m, reply), dec, dec),
                    ),
                    after,
                    fresh,
                    dec,
                    (steps - 1) as nat,
                )
            },
        }
    }
}

/// The places of one secret: where it and its sidecar stand in the source
/// tree, and where the encrypted file, the sidecar, the record of owner
/// and mode and the manifest stand in the export.
pub struct Places {
    pub src_file: Seq<char>,
    pub src_sha: Seq<char>,
    pub out_file: Seq<char>,
    pub out_sha: Seq<char>,
    pub out_meta: Seq<char>,
    pub sums: Seq<char>,
}

/// The places of the secret `rel` exported from `source` into `out`.
pub open spec fn places(rel: Seq<char>, source: Seq<char>, out: Seq<char>) -> Places {
    Places {
        src_file: joined(source, rel),
        src_sha: extended(joined(source, rel), "sha256"@),
        out_file: extended(joined(out, rel), encrypted_extension()),
        out_sha: extended(joined(out, rel), "sha256"@),
        out_meta: extended(joined(out, rel), meta_extension()),
        sums: joined(out, manifest_name()),
    }
}

/// The places are told apart: the four files of the export are four
/// different paths, none of them is a file of the source, and the directory
/// of the encrypted file is none of the files.
pub open spec fn apart(at: Places) -> bool {
    &&& at.out_file != at.out_sha
    &&& at.out_file != at.out_meta
    &&& at.out_file != at.sums
    &&& at.out_sha != at.out_meta
    &&& at.out_sha != at.sums
    &&& at.out_meta != at.sums
    &&& at.src_file != at.out_file
    &&& at.src_file != at.out_sha
    &&& at.src_file != at.out_meta
    &&& at.src_file != at.sums
    &&& at.src_sha != at.out_file
    &&& at.src_sha != at.out_sha
    &&& at.src_sha != at.out_meta
    &&& at.src_sha != at.sums
    &&& (parent_of(at.out_file) matches Some(dir) ==> dir != at.src_file && dir != at.src_sha
        && dir != at.out_file && dir != at.out_sha && dir != at.out_meta)
}

/// A file with the bytes `bytes` stands at `path`.
pub open spec fn holds(disk: Map<Seq<char>, Node>, path: Seq<char>, bytes: Seq<u8>) -> bool {
    disk.dom().contains(path) && disk[path] is File && disk[path]->bytes == bytes
}

/// The source of the secret: its content, the bytes of its sidecar, and its
/// owner and permission bits.
pub struct Source {
    pub plain: Seq<u8>,
    pub sidecar: Seq<u8>,
    pub meta: FileMeta,
}

/// The secret stands in the source tree as `src` says, and its sidecar
/// vouches for it: the sidecar is text whose trimmed form is a line of the
/// grammar with the digest of the content.
pub open spec fn vouched(disk: Map<Seq<char>, Node>, at: Places, src: Source) -> bool {
    &&& holds(disk, at.src_file, src.plain)
    &&& node_meta(disk[at.src_file]) == src.meta
    &&& holds(disk, at.src_sha, src.sidecar)
    &&& valid_utf8(src.sidecar)
    &&& is_entry_line(trimmed(decode_utf8(src.sidecar)))
    &&& entry_of(trimmed(decode_utf8(src.sidecar))).digest == sha256_hex(src.plain)
}

/// What stands at `path` has not changed since `before`.
pub open spec fn same_at(
    disk: Map<Seq<char>, Node>,
    before: Map<Seq<char>, Node>,
    path: Seq<char>,
) -> bool {
    disk.dom().contains(path) == before.dom().contains(path) && (disk.dom().contains(path)
        ==> disk[path] == before[path])
}

/// The export holds the secret: the encrypted file decrypts to the content
/// of the source, the sidecar is that of the source, and the record is that
/// of the owner and the permission bits of the source.
pub open spec fn exported(
    disk: Map<Seq<char>, Node>,
    at: Places,
    src: Source,
    dec: spec_fn(Seq<u8>, Seq<char>) -> Result<Seq<u8>, Seq<char>>,
    passphrase: Seq<char>,
) -> bool {
    &&& disk.dom().contains(at.out_file)
    &&& disk[at.out_file] is File
    &&& dec(disk[at.out_file]->bytes, passphrase) == Ok::<Seq<u8>, Seq<char>>(src.plain)
    &&& holds(disk, at.out_sha, src.sidecar)
    &&& holds(disk, at.out_meta, encode_utf8(meta_text(src.meta)))
}

/// What the source tree `before` holds of the secret.
pub open spec fn source_of(before: Map<Seq<char>, Node>, at: Places) -> Source {
    Source {
        plain: before[at.src_file]->bytes,
        sidecar: before[at.src_sha]->bytes,
        meta: node_meta(before[at.src_file]),
    }
}

/// The encrypted file of the export decrypts to the content of the source.
pub open spec fn sealed_well(
    disk: Map<Seq<char>, Node>,
    at: Places,
    src: Source,
    dec: spec_fn(Seq<u8>, Seq<char>) -> Result<Seq<u8>, Seq<char>>,
    passphrase: Seq<char>,
) -> bool {
    &&& disk.dom().contains(at.out_file)
    &&& disk[at.out_file] is File
    &&& dec(disk[at.out_file]->bytes, passphrase) == Ok::<Seq<u8>, Seq<char>>(src.plain)
}

/// The request that an addition to the manifest `sums` has pending.
pub open spec fn append_pending(
    a: crate::checksum::AppendChecksumView,
    request: RequestView,
    sums: Seq<char>,
) -> bool {
    &&& a.sums == sums
    &&& match a.stage {
        AppendStage::ReadingFile => request == (RequestView::Read { path: a.file }),
        AppendStage::Probing => request == (RequestView::Exists { path: sums }),
        AppendStage::ReadingManifest => request == (RequestView::ReadText { path: sums }),
        AppendStage::Writing => request matches RequestView::WriteText { path, .. } && path == sums,
    }
}

/// What holds at every point of the export of a secret, run on a file
/// system that held `before` at its start: the source stays as it was; the
/// request that is pending is the one of the stage; and what has been
/// written so far stands in the export.
pub open spec fn export_file_holds(
    p: ProgressView<ExportFileView, ExportFileErrorView>,
    disk: Map<Seq<char>, Node>,
    before: Map<Seq<char>, Node>,
    at: Places,
    out: Seq<char>,
    dec: spec_fn(Seq<u8>, Seq<char>) -> Result<Seq<u8>, Seq<char>>,
    passphrase: Seq<char>,
) -> bool {
    let src = source_of(before, at);
    match p {
        ProgressView::Finished(Err(_)) => true,
        ProgressView::Finished(Ok(_)) => vouched(before, at, src) && exported(disk, at, src, dec, passphrase),
        ProgressView::Ask(m, request) => {
            &&& m.passphrase == passphrase
            &&& m.file_source == at.src_file
            &&& m.sha_source == at.src_sha
            &&& m.file_target == at.out_file
            &&& m.sha_target == at.out_sha
            &&& m.meta_target == at.out_meta
            &&& m.target == out
            &&& same_at(disk, before, at.src_file)
            &&& same_at(disk, before, at.src_sha)
            &&& match m.stage {
                ExportFileStageView::Verifying(v) => {
                    &&& v.file == at.src_file
                    &&& v.sidecar == at.src_sha
                    &&& match v.stage {
                        VerifyFileStage::Probing => request == (RequestView::Exists {
                            path: at.src_sha,
                        }),
                        VerifyFileStage::ReadingSidecar => request == (RequestView::ReadText {
                            path: at.src_sha,
                        }),
                        VerifyFileStage::ReadingFile => {
                            &&& request == (RequestView::Read { path: at.src_file })
                            &&& holds(before, at.src_sha, src.sidecar)
                            &&& valid_utf8(src.sidecar)
                            &&& is_entry_line(trimmed(decode_utf8(src.sidecar)))
                            &&& entry_of(trimmed(decode_utf8(src.sidecar))).digest == v.expected
                        },
                    }
                },
                ExportFileStageView::ReadingSource => {
                    &&& vouched(before, at, src)
                    &&& request == (RequestView::Read { path: at.src_file })
                },
                ExportFileStageView::ProbingParent => {
                    &&& vouched(before, at, src)
                    &&& m.plain == src.plain
                    &&& parent_of(at.out_file) == Some(m.parent)
                    &&& request == (RequestView::Exists { path: m.parent })
                },
                ExportFileStageView::CreatingParent => {
                    &&& vouched(before, at, src)
                    &&& m.plain == src.plain
                    &&& parent_of(at.out_file) == Some(m.parent)
                    &&& request == (RequestView::CreateDirAll { path: m.parent })
                },
                ExportFileStageView::WritingTarget => {
                    &&& vouched(before, at, src)
                    &&& m.plain == src.plain
                    &&& request == (RequestView::Write { path: at.out_file, content: m.sealed })
                },
                ExportFileStageView::ReadingBack => {
                    &&& vouched(before, at, src)
                    &&& m.plain == src.plain
                    &&& holds(disk, at.out_file, m.sealed)
                    &&& request == (RequestView::Read { path: at.out_file })
                },
                ExportFileStageView::ReadingSidecar => {
                    &&& vouched(before, at, src)
                    &&& sealed_well(disk, at, src, dec, passphrase)
                    &&& request == (RequestView::Read { path: at.src_sha })
                },
                ExportFileStageView::WritingSidecar => {
                    &&& vouched(before, at, src)
                    &&& sealed_well(disk, at, src, dec, passphrase)
                    &&& request == (RequestView::Write {
                        path: at.out_sha,
                        content: src.sidecar,
                    })
                },
                ExportFileStageView::ReadingMeta => {
                    &&& vouched(before, at, src)
                    &&& sealed_well(disk, at, src, dec, passphrase)
                    &&& holds(disk, at.out_sha, src.sidecar)
                    &&& request == (RequestView::Stat { path: at.src_file })
                },
                ExportFileStageView::WritingMeta => {
                    &&& vouched(before, at, src)
                    &&& sealed_well(disk, at, src, dec, passphrase)
                    &&& holds(disk, at.out_sha, src.sidecar)
                    &&& request == (RequestView::WriteText {
                        path: at.out_meta,
                        text: meta_text(src.meta),
                    })
                },
                ExportFileStageView::AppendingFile(a) => {
                    &&& vouched(before, at, src)
                    &&& exported(disk, at, src, dec, passphrase)
                    &&& append_pending(a, request, at.sums)
                },
                ExportFileStageView::AppendingSidecar(a) => {
                    &&& vouched(before, at, src)
                    &&& exported(disk, at, src, dec, passphrase)
                    &&& append_pending(a, request, at.sums)
                },
                ExportFileStageView::AppendingMeta(a) => {
                    &&& vouched(before, at, src)
                    &&& exported(disk, at, src, dec, passphrase)
                    &&& append_pending(a, request, at.sums)
                },
            }
        },
    }
}

/// One served request keeps what `export_file_holds` says.
pub proof fn lemma_export_file_step_holds(
    m: ExportFileView,
    request: RequestView,
    disk: Map<Seq<char>, Node>,
    fresh: FileMeta,
    before: Map<Seq<char>, Node>,
    at: Places,
    out: Seq<char>,
    enc: spec_fn(Seq<u8>, Seq<char>) -> Result<Seq<u8>, Seq<char>>,
    dec: spec_fn(Seq<u8>, Seq<char>) -> Result<Seq<u8>, Seq<char>>,
    passphrase: Seq<char>,
)
    requires
        apart(at),
        at.sums == joined(out, manifest_name()),
        export_file_holds(ProgressView::Ask(m, request), disk, before, at, out, dec, passphrase),
    ensures
        ({
            let (reply, after) = served(disk, fresh, request);
            export_file_holds(
                export_file_step(m, reply, crypt_of(export_file_crypt_call(m, reply), enc, dec)),
                after,
                before,
                at,
                out,
                dec,
                passphrase,
            )
        }),
{
}

/// A run keeps what `export_file_holds` says.
pub proof fn lemma_export_file_run_holds(
    p: ProgressView<ExportFileView, ExportFileErrorView>,
    disk: Map<Seq<char>, Node>,
    fresh: FileMeta,
    before: Map<Seq<char>, Node>,
    at: Places,
    out: Seq<char>,
    enc: spec_fn(Seq<u8>, Seq<char>) -> Result<Seq<u8>, Seq<char>>,
    dec: spec_fn(Seq<u8>, Seq<char>) -> Result<Seq<u8>, Seq<char>>,
    passphrase: Seq<char>,
    steps: nat,
)
    requires
        apart(at),
        at.sums == joined(out, manifest_name()),
        export_file_holds(p, disk, before, at, out, dec, passphrase),
    ensures
        export_file_holds(
            export_file_on(p, disk, fresh, enc, dec, steps).0,
            export_file_on(p, disk, fresh, enc, dec, steps).1,
            before,
            at,
            out,
            dec,
            passphrase,
        ),
    decreases steps,
{
    if steps > 0 {
        match p {
            ProgressView::Finished(_) => {},
            ProgressView::Ask(m, request) => {
                lemma_export_file_step_holds(m, request, disk, fresh, before, at, out, enc, dec, passphrase);
                let (reply, after) = served(disk, fresh, request);
                lemma_export_file_run_holds(
                    export_file_step(
                        m,
                        reply,
                        crypt_of(export_file_crypt_call(m, reply), enc, dec),
                    ),
                    after,
                    fresh,
                    before,
                    at,
                    out,
                    enc,
                    dec,
                    passphrase,
                    (steps - 1) as nat,
                );
            },
        }
    }
}

/// What an export that ended well has left. Whatever stood in the file
/// system before, and however encryption and decryption end, an export of
/// a secret that has ended well leaves the source as it was, vouched for by
/// its sidecar, and leaves in the export an encrypted file that decrypts to
/// the content of the source, the sidecar of the source, and the record of
/// the owner and the permission bits of the source.
pub proof fn lemma_export_file_leaves_the_secret(
    rel: Seq<char>,
    source: Seq<char>,
    out: Seq<char>,
    passphrase: Seq<char>,
    before: Map<Seq<char>, Node>,
    fresh: FileMeta,
    enc: spec_fn(Seq<u8>, Seq<char>) -> Result<Seq<u8>, Seq<char>>,
    dec: spec_fn(Seq<u8>, Seq<char>) -> Result<Seq<u8>, Seq<char>>,
    steps: nat,
)
    requires
        apart(places(rel, source, out)),
    ensures
        ({
            let at = places(rel, source, out);
            let start = export_file_start(rel, source, out, passphrase);
            let end = export_file_on(
                ProgressView::Ask(start.0, start.1),
                before,
                fresh,
                enc,
                dec,
                steps,
            );
            end.0 matches ProgressView::Finished(Ok(_)) ==> vouched(
                before,
                at,
                source_of(before, at),
            ) && exported(end.1, at, source_of(before, at), dec, passphrase)
        }),
{
    let at = places(rel, source, out);
    let start = export_file_start(rel, source, out, passphrase);
    lemma_export_file_run_holds(
        ProgressView::Ask(start.0, start.1),
        before,
        fresh,
        before,
        at,
        out,
        enc,
        dec,
        passphrase,
        steps,
    );
}

/// Where the secret `rel` stands after an import into `target`.
pub open spec fn restored_file(rel: Seq<char>, target: Seq<char>) -> Seq<char> {
    joined(target, rel)
}

/// Where the sidecar of the secret `rel` stands after an import into `target`.
pub open spec fn restored_sidecar(rel: Seq<char>, target: Seq<char>) -> Seq<char> {
    extended(joined(target, rel), "sha256"@)
}

/// The path is none of the places that an import reads or writes as files.
pub open spec fn off_the_files(path: Seq<char>, at: Places, rel: Seq<char>, target: Seq<char>) -> bool {
    &&& path != restored_file(rel, target)
    &&& path != restored_sidecar(rel, target)
    &&& path != at.out_file
    &&& path != at.out_sha
    &&& path != at.out_meta
}

/// The tree imported into keeps the places of the secret and of its
/// sidecar apart from each other and from the files of the export, and the
/// directories above the secret can be worked out and are none of these
/// places.
pub open spec fn places_ready(at: Places, rel: Seq<char>, target: Seq<char>) -> bool {
    let file = restored_file(rel, target);
    let sidecar = restored_sidecar(rel, target);
    &&& file != sidecar
    &&& file != at.out_file
    &&& file != at.out_sha
    &&& file != at.out_meta
    &&& sidecar != at.out_file
    &&& sidecar != at.out_sha
    &&& sidecar != at.out_meta
    &&& parent_dirs(rel, target) is Some
    &&& forall|i: int|
        0 <= i < parent_dirs(rel, target)->0.len() ==> off_the_files(
            #[trigger] parent_dirs(rel, target)->0[i],
            at,
            rel,
            target,
        )
}

/// The tree imported into is ready for the secret: neither the secret nor
/// its sidecar stands there yet, and the places are as `places_ready` says.
pub open spec fn ready(
    disk: Map<Seq<char>, Node>,
    at: Places,
    rel: Seq<char>,
    target: Seq<char>,
) -> bool {
    &&& !disk.dom().contains(restored_file(rel, target))
    &&& !disk.dom().contains(restored_sidecar(rel, target))
    &&& places_ready(at, rel, target)
}

/// How many requests the import of a secret with `dirs` directories above
/// it makes at most.
pub open spec fn import_file_budget(dirs: nat) -> nat {
    15 + 4 * dirs
}

/// The secret stands in the tree imported into as the source had it:
/// content, owner and permission bits.
pub open spec fn restored_secret(
    disk: Map<Seq<char>, Node>,
    rel: Seq<char>,
    target: Seq<char>,
    src: Source,
) -> bool {
    holds(disk, restored_file(rel, target), src.plain) && node_meta(
        disk[restored_file(rel, target)],
    ) == src.meta
}

/// The secret and its sidecar stand in the tree imported into as the
/// source had them.
pub open spec fn restored(
    disk: Map<Seq<char>, Node>,
    rel: Seq<char>,
    target: Seq<char>,
    src: Source,
) -> bool {
    &&& restored_secret(disk, rel, target, src)
    &&& holds(disk, restored_sidecar(rel, target), src.sidecar)
    &&& node_meta(disk[restored_sidecar(rel, target)]) == src.meta
}

/// How many requests the import of a secret with `dirs` directories above
/// it has to make at most from where it stands.
pub open spec fn import_file_rank(
    p: ProgressView<ImportFileView, ImportFileErrorView>,
    dirs: nat,
) -> nat {
    match p {
        ProgressView::Finished(_) => 0,
        ProgressView::Ask(m, _) => match m.stage {
            ImportFileStageView::ReadingSource => 15 + 4 * dirs,
            ImportFileStageView::ProbingMeta => 14 + 4 * dirs,
            ImportFileStageView::ReadingMeta => 13 + 4 * dirs,
            ImportFileStageView::ProbingDir => (12 + 4 * (dirs - m.dir_index)) as nat,
            ImportFileStageView::CreatingDir => (11 + 4 * (dirs - m.dir_index)) as nat,
            ImportFileStageView::ChownDir => (10 + 4 * (dirs - m.dir_index)) as nat,
            ImportFileStageView::ChmodDir => (9 + 4 * (dirs - m.dir_index)) as nat,
            ImportFileStageView::WritingFile(w) => if w.stage is Probing {
                12
            } else {
                11
            },
            ImportFileStageView::ChownFile => 10,
            ImportFileStageView::ChmodFile => 9,
            ImportFileStageView::ReadingSidecar => 8,
            ImportFileStageView::WritingSidecar(w) => if w.stage is Probing {
                7
            } else {
                6
            },
            ImportFileStageView::ChownSidecar => 5,
            ImportFileStageView::ChmodSidecar => 4,
            ImportFileStageView::Verifying(v) => match v.stage {
                VerifyFileStage::Probing => 3,
                VerifyFileStage::ReadingSidecar => 2,
                VerifyFileStage::ReadingFile => 1,
            },
        },
    }
}

/// What holds while the import sees to the directory at `m.dir_index`:
/// nothing of the secret stands in the tree yet, and the import holds the
/// content and the owner and mode to give it.
pub open spec fn import_file_at_dir(
    m: ImportFileView,
    disk: Map<Seq<char>, Node>,
    file: Seq<char>,
    sidecar: Seq<char>,
    dirs: Seq<Seq<char>>,
    src: Source,
) -> bool {
    &&& !disk.dom().contains(file)
    &&& !disk.dom().contains(sidecar)
    &&& m.plain == src.plain
    &&& m.meta == src.meta
    &&& m.dirs == dirs
    &&& m.dir_index < dirs.len()
}

/// What holds at every point of the import of a secret from an export that
/// holds it, into a tree that was ready: the export stays as it was, the
/// request that is pending is the one of the stage, what has been written
/// so far stands in the tree, and the import has not failed.
pub open spec fn import_file_restoring(
    p: ProgressView<ImportFileView, ImportFileErrorView>,
    disk: Map<Seq<char>, Node>,
    rel: Seq<char>,
    target: Seq<char>,
    at: Places,
    src: Source,
    dec: spec_fn(Seq<u8>, Seq<char>) -> Result<Seq<u8>, Seq<char>>,
    passphrase: Seq<char>,
) -> bool {
    let file = restored_file(rel, target);
    let sidecar = restored_sidecar(rel, target);
    let dirs = parent_dirs(rel, target)->0;
    match p {
        ProgressView::Finished(Err(_)) => false,
        ProgressView::Finished(Ok(_)) => restored(disk, rel, target, src),
        ProgressView::Ask(m, request) => {
            &&& m.rel == rel
            &&& m.target == target
            &&& m.passphrase == passphrase
            &&& m.file_source == at.out_file
            &&& m.sha_source == at.out_sha
            &&& m.meta_source == at.out_meta
            &&& m.file_target == file
            &&& m.sha_target == sidecar
            &&& exported(disk, at, src, dec, passphrase)
            &&& match m.stage {
                ImportFileStageView::ReadingSource => {
                    &&& !disk.dom().contains(file)
                    &&& !disk.dom().contains(sidecar)
                    &&& request == (RequestView::Read { path: at.out_file })
                },
                ImportFileStageView::ProbingMeta => {
                    &&& !disk.dom().contains(file)
                    &&& !disk.dom().contains(sidecar)
                    &&& m.plain == src.plain
                    &&& m.dirs == dirs
                    &&& m.dir_index == 0
                    &&& request == (RequestView::Exists { path: at.out_meta })
                },
                ImportFileStageView::ReadingMeta => {
                    &&& !disk.dom().contains(file)
                    &&& !disk.dom().contains(sidecar)
                    &&& m.plain == src.plain
                    &&& m.dirs == dirs
                    &&& m.dir_index == 0
                    &&& request == (RequestView::ReadText { path: at.out_meta })
                },
                ImportFileStageView::ProbingDir => {
                    &&& import_file_at_dir(m, disk, file, sidecar, dirs, src)
                    &&& request == (RequestView::Exists { path: dirs[m.dir_index as int] })
                },
                ImportFileStageView::CreatingDir => {
                    &&& import_file_at_dir(m, disk, file, sidecar, dirs, src)
                    &&& request == (RequestView::CreateDir { path: dirs[m.dir_index as int] })
                },
                ImportFileStageView::ChownDir => {
                    &&& import_file_at_dir(m, disk, file, sidecar, dirs, src)
                    &&& disk.dom().contains(dirs[m.dir_index as int])
                    &&& request == (RequestView::Chown {
                        path: dirs[m.dir_index as int],
                        uid: crate::import::OWNER,
                        gid: crate::import::OWNER,
                    })
                },
                ImportFileStageView::ChmodDir => {
                    &&& import_file_at_dir(m, disk, file, sidecar, dirs, src)
                    &&& disk.dom().contains(dirs[m.dir_index as int])
                    &&& request == (RequestView::Chmod {
                        path: dirs[m.dir_index as int],
                        mode: crate::import::DIR_MODE,
                    })
                },
                ImportFileStageView::WritingFile(w) => {
                    &&& !disk.dom().contains(file)
                    &&& !disk.dom().contains(sidecar)
                    &&& m.plain == src.plain
                    &&& m.meta == src.meta
                    &&& w.path == file
                    &&& w.content == src.plain
                    &&& match w.stage {
                        SafeWriteStage::Probing => request == (RequestView::Exists { path: file }),
                        SafeWriteStage::ReadingExisting => false,
                        SafeWriteStage::Writing => request == (RequestView::Write {
                            path: file,
                            content: src.plain,
                        }),
                    }
                },
                ImportFileStageView::ChownFile => {
                    &&& holds(disk, file, src.plain)
                    &&& !disk.dom().contains(sidecar)
                    &&& m.meta == src.meta
                    &&& request == (RequestView::Chown {
                        path: file,
                        uid: src.meta.uid,
                        gid: src.meta.gid,
                    })
                },
                ImportFileStageView::ChmodFile => {
                    &&& holds(disk, file, src.plain)
                    &&& node_meta(disk[file]).uid == src.meta.uid
                    &&& node_meta(disk[file]).gid == src.meta.gid
                    &&& !disk.dom().contains(sidecar)
                    &&& m.meta == src.meta
                    &&& request == (RequestView::Chmod { path: file, mode: src.meta.mode })
                },
                ImportFileStageView::ReadingSidecar => {
                    &&& restored_secret(disk, rel, target, src)
                    &&& !disk.dom().contains(sidecar)
                    &&& m.meta == src.meta
                    &&& request == (RequestView::Read { path: at.out_sha })
                },
                ImportFileStageView::WritingSidecar(w) => {
                    &&& restored_secret(disk, rel, target, src)
                    &&& !disk.dom().contains(sidecar)
                    &&& m.meta == src.meta
                    &&& w.path == sidecar
                    &&& w.content == src.sidecar
                    &&& match w.stage {
                        SafeWriteStage::Probing => request == (RequestView::Exists {
                            path: sidecar,
                        }),
                        SafeWriteStage::ReadingExisting => false,
                        SafeWriteStage::Writing => request == (RequestView::Write {
                            path: sidecar,
                            content: src.sidecar,
                        }),
                    }
                },
                ImportFileStageView::ChownSidecar => {
                    &&& restored_secret(disk, rel, target, src)
                    &&& holds(disk, sidecar, src.sidecar)
                    &&& m.meta == src.meta
                    &&& request == (RequestView::Chown {
                        path: sidecar,
                        uid: src.meta.uid,
                        gid: src.meta.gid,
                    })
                },
                ImportFileStageView::ChmodSidecar => {
                    &&& restored_secret(disk, rel, target, src)
                    &&& holds(disk, sidecar, src.sidecar)
                    &&& node_meta(disk[sidecar]).uid == src.meta.uid
                    &&& node_meta(disk[sidecar]).gid == src.meta.gid
                    &&& m.meta == src.meta
                    &&& request == (RequestView::Chmod { path: sidecar, mode: src.meta.mode })
                },
                ImportFileStageView::Verifying(v) => {
                    &&& restored(disk, rel, target, src)
                    &&& v.file == file
                    &&& v.sidecar == sidecar
                    &&& match v.stage {
                        VerifyFileStage::Probing => request == (RequestView::Exists {
                            path: sidecar,
                        }),
                        VerifyFileStage::ReadingSidecar => request == (RequestView::ReadText {
                            path: sidecar,
                        }),
                        VerifyFileStage::ReadingFile => {
                            &&& request == (RequestView::Read { path: file })
                            &&& v.expected == sha256_hex(src.plain)
                        },
                    }
                },
            }
        },
    }
}

/// One served request keeps what `import_file_restoring` says, and brings
/// the import one request nearer to its end.
pub proof fn lemma_import_file_step_restores(
    m: ImportFileView,
    request: RequestView,
    disk: Map<Seq<char>, Node>,
    fresh: FileMeta,
    rel: Seq<char>,
    target: Seq<char>,
    at: Places,
    src: Source,
    dec: spec_fn(Seq<u8>, Seq<char>) -> Result<Seq<u8>, Seq<char>>,
    passphrase: Seq<char>,
)
    requires
        places_ready(at, rel, target),
        valid_utf8(src.sidecar),
        is_entry_line(trimmed(decode_utf8(src.sidecar))),
        entry_of(trimmed(decode_utf8(src.sidecar))).digest == sha256_hex(src.plain),
        import_file_restoring(ProgressView::Ask(m, request), disk, rel, target, at, src, dec, passphrase),
    ensures
        ({
            let (reply, after) = served(disk, fresh, request);
            let next = import_file_step(
                m,
                reply,
                crypt_of(import_file_crypt_call(m, reply), dec, dec),
            );
            &&& import_file_restoring(next, after, rel, target, at, src, dec, passphrase)
            &&& import_file_rank(next, parent_dirs(rel, target)->0.len()) + 1 <= import_file_rank(
                ProgressView::Ask(m, request),
                parent_dirs(rel, target)->0.len(),
            )
        }),
{
    vstd::utf8::encode_utf8_decode_utf8(meta_text(src.meta));
    vstd::utf8::encode_utf8_valid_utf8(meta_text(src.meta));
    lemma_meta_round_trip(src.meta);
}

/// A run that has requests enough ends well and has restored the secret.
pub proof fn lemma_import_file_run_restores(
    p: ProgressView<ImportFileView, ImportFileErrorView>,
    disk: Map<Seq<char>, Node>,
    fresh: FileMeta,
    rel: Seq<char>,
    target: Seq<char>,
    at: Places,
    src: Source,
    dec: spec_fn(Seq<u8>, Seq<char>) -> Result<Seq<u8>, Seq<char>>,
    passphrase: Seq<char>,
    steps: nat,
)
    requires
        places_ready(at, rel, target),
        valid_utf8(src.sidecar),
        is_entry_line(trimmed(decode_utf8(src.sidecar))),
        entry_of(trimmed(decode_utf8(src.sidecar))).digest == sha256_hex(src.plain),
        import_file_restoring(p, disk, rel, target, at, src, dec, passphrase),
        steps >= import_file_rank(p, parent_dirs(rel, target)->0.len()),
    ensures
        import_file_on(p, disk, fresh, dec, steps).0 matches ProgressView::Finished(Ok(_)),
        restored(import_file_on(p, disk, fresh, dec, steps).1, rel, target, src),
    decreases steps,
{
    match p {
        ProgressView::Finished(_) => {
            assert(import_file_on(p, disk, fresh, dec, steps) == (p, disk));
        },
        ProgressView::Ask(m, request) => {
            lemma_import_file_step_restores(m, request, disk, fresh, rel, target, at, src, dec, passphrase);
            let (reply, after) = served(disk, fresh, request);
            lemma_import_file_run_restores(
                import_file_step(m, reply, crypt_of(import_file_crypt_call(m, reply), dec, dec)),
                after,
                fresh,
                rel,
                target,
                at,
                src,
                dec,
                passphrase,
                (steps - 1) as nat,
            );
        },
    }
}

/// What an import makes of an export. Where the export holds the secret,
/// as `exported` says, and the sidecar of the source vouches for its
/// content, an import into a tree that is ready ends well within
/// `import_file_budget` requests: the directories above the secret are
/// made where they are missing. The secret then stands in the tree with
/// the content of the source and with the owner and the permission bits of
/// the source, and its sidecar beside it with the bytes of the sidecar of
/// the source.
pub proof fn lemma_import_file_restores(
    rel: Seq<char>,
    out: Seq<char>,
    target: Seq<char>,
    at: Places,
    src: Source,
    disk: Map<Seq<char>, Node>,
    fresh: FileMeta,
    dec: spec_fn(Seq<u8>, Seq<char>) -> Result<Seq<u8>, Seq<char>>,
    passphrase: Seq<char>,
    steps: nat,
)
    requires
        at.out_file == extended(joined(out, rel), encrypted_extension()),
        at.out_sha == extended(joined(out, rel), "sha256"@),
        at.out_meta == extended(joined(out, rel), meta_extension()),
        exported(disk, at, src, dec, passphrase),
        valid_utf8(src.sidecar),
        is_entry_line(trimmed(decode_utf8(src.sidecar))),
        entry_of(trimmed(decode_utf8(src.sidecar))).digest == sha256_hex(src.plain),
        ready(disk, at, rel, target),
        steps >= import_file_budget(parent_dirs(rel, target)->0.len()),
    ensures
        ({
            let start = import_file_start(rel, out, target, passphrase);
            let end = import_file_on(ProgressView::Ask(start.0, start.1), disk, fresh, dec, steps);
            &&& end.0 matches ProgressView::Finished(Ok(_))
            &&& restored(end.1, rel, target, src)
        }),
{
    reveal_strlit("age");
    let start = import_file_start(rel, out, target, passphrase);
    lemma_import_file_run_restores(
        ProgressView::Ask(start.0, start.1),
        disk,
        fresh,
        rel,
        target,
        at,
        src,
        dec,
        passphrase,
        steps,
    );
}

/// Export, then import. On a file system that never fails where an
/// operation can be done, and with a decryption that ends the same way
/// each time it is given the same bytes: where the export of a secret has
/// ended well, and the tree imported into is ready, the import of the
/// secret ends well, and the secret then stands in that tree with the
/// content, the owner and the permission bits that it had in the source,
/// its sidecar beside it with the bytes of the sidecar of the source.
/// Nothing is asked of the encryption but what the export has checked.
pub proof fn lemma_export_then_import_restores(
    rel: Seq<char>,
    source: Seq<char>,
    out: Seq<char>,
    target: Seq<char>,
    passphrase: Seq<char>,
    before: Map<Seq<char>, Node>,
    fresh: FileMeta,
    enc: spec_fn(Seq<u8>, Seq<char>) -> Result<Seq<u8>, Seq<char>>,
    dec: spec_fn(Seq<u8>, Seq<char>) -> Result<Seq<u8>, Seq<char>>,
    export_steps: nat,
    import_steps: nat,
)
    requires
        apart(places(rel, source, out)),
        export_file_on(
            ProgressView::Ask(
                export_file_start(rel, source, out, passphrase).0,
                export_file_start(rel, source, out, passphrase).1,
            ),
            before,
            fresh,
            enc,
            dec,
            export_steps,
        ).0 matches ProgressView::Finished(Ok(_)),
        ready(
            export_file_on(
                ProgressView::Ask(
                    export_file_start(rel, source, out, passphrase).0,
                    export_file_start(rel, source, out, passphrase).1,
                ),
                before,
                fresh,
                enc,
                dec,
                export_steps,
            ).1,
            places(rel, source, out),
            rel,
            target,
        ),
        import_steps >= import_file_budget(parent_dirs(rel, target)->0.len()),
    ensures
        ({
            let at = places(rel, source, out);
            let exported_disk = export_file_on(
                ProgressView::Ask(
                    export_file_start(rel, source, out, passphrase).0,
                    export_file_start(rel, source, out, passphrase).1,
                ),
                before,
                fresh,
                enc,
                dec,
                export_steps,
            ).1;
            let end = import_file_on(
                ProgressView::Ask(
                    import_file_start(rel, out, target, passphrase).0,
                    import_file_start(rel, out, target, passphrase).1,
                ),
                exported_disk,
                fresh,
                dec,
                import_steps,
            );
            &&& holds(before, at.src_file, source_of(before, at).plain)
            &&& end.0 matches ProgressView::Finished(Ok(_))
            &&& restored(end.1, rel, target, source_of(before, at))
        }),
{
    let at = places(rel, source, out);
    let src = source_of(before, at);
    lemma_export_file_leaves_the_secret(
        rel,
        source,
        out,
        passphrase,
        before,
        fresh,
        enc,
        dec,
        export_steps,
    );
    let start = export_file_start(rel, source, out, passphrase);
    let exported_disk = export_file_on(
        ProgressView::Ask(start.0, start.1),
        before,
        fresh,
        enc,
        dec,
        export_steps,
    ).1;
    lemma_import_file_restores(rel, out, target, at, src, exported_disk, fresh, dec, passphrase, import_steps);
}

/// A secret that does not decrypt is not imported. Where the encrypted
/// file of the export holds bytes that do not decrypt, as after a change
/// of a byte, the import of the secret ends with `DecryptionFail` on its
/// first reply, and the file system is as it was: nothing stands in the
/// tree imported into that did not stand there before.
pub proof fn lemma_tampered_secret_is_not_imported(
    rel: Seq<char>,
    out: Seq<char>,
    target: Seq<char>,
    disk: Map<Seq<char>, Node>,
    fresh: FileMeta,
    dec: spec_fn(Seq<u8>, Seq<char>) -> Result<Seq<u8>, Seq<char>>,
    passphrase: Seq<char>,
    bytes: Seq<u8>,
    steps: nat,
)
    requires
        holds(disk, extended(joined(out, rel), encrypted_extension()), bytes),
        dec(bytes, passphrase) is Err,
        steps >= 1,
    ensures
        ({
            let start = import_file_start(rel, out, target, passphrase);
            let end = import_file_on(ProgressView::Ask(start.0, start.1), disk, fresh, dec, steps);
            &&& end.0 == ProgressView::<ImportFileView, ImportFileErrorView>::Finished(
                Err(
                    ImportFileErrorView::DecryptionFail(
                        extended(joined(out, rel), encrypted_extension()),
                        dec(bytes, passphrase)->Err_0,
                    ),
                ),
            )
            &&& end.1 == disk
        }),
{
    reveal_strlit("age");
    reveal_with_fuel(import_file_on, 3);
}

/// The place that a request may change; none where it only looks.
pub open spec fn changed_place(request: RequestView) -> Option<Seq<char>> {
    match request {
        RequestView::Write { path, .. } => Some(path),
        RequestView::WriteText { path, .. } => Some(path),
        RequestView::CreateDir { path } => Some(path),
        RequestView::CreateDirAll { path } => Some(path),
        RequestView::Chown { path, .. } => Some(path),
        RequestView::Chmod { path, .. } => Some(path),
        RequestView::Copy { to, .. } => Some(to),
        _ => None,
    }
}

/// A request leaves every place but the one that it may change as it was.
pub proof fn lemma_served_elsewhere(
    disk: Map<Seq<char>, Node>,
    fresh: FileMeta,
    request: RequestView,
    path: Seq<char>,
)
    requires
        changed_place(request) != Some(path),
    ensures
        same_at(served(disk, fresh, request).1, disk, path),
{
}

/// The path is one that the export of the secret may change: one of its
/// three files in the export, the manifest, or the directory of the
/// encrypted file.
pub open spec fn export_file_place(at: Places, path: Seq<char>) -> bool {
    ||| path == at.out_file
    ||| path == at.out_sha
    ||| path == at.out_meta
    ||| path == at.sums
    ||| parent_of(at.out_file) == Some(path)
}

/// The export of a secret changes none but its own places.
pub proof fn lemma_export_file_changes_its_places(
    m: ExportFileView,
    request: RequestView,
    disk: Map<Seq<char>, Node>,
    before: Map<Seq<char>, Node>,
    at: Places,
    out: Seq<char>,
    dec: spec_fn(Seq<u8>, Seq<char>) -> Result<Seq<u8>, Seq<char>>,
    passphrase: Seq<char>,
)
    requires
        export_file_holds(ProgressView::Ask(m, request), disk, before, at, out, dec, passphrase),
    ensures
        changed_place(request) matches Some(path) ==> export_file_place(at, path),
{
}

/// The path is one that the import of the secret may change: the secret,
/// its sidecar, or one of the directories above it.
pub open spec fn import_file_place(rel: Seq<char>, target: Seq<char>, path: Seq<char>) -> bool {
    ||| path == restored_file(rel, target)
    ||| path == restored_sidecar(rel, target)
    ||| exists|i: int|
        0 <= i < parent_dirs(rel, target)->0.len() && #[trigger] parent_dirs(rel, target)->0[i]
            == path
}

/// The import of a secret changes none but its own places.
pub proof fn lemma_import_file_changes_its_places(
    m: ImportFileView,
    request: RequestView,
    disk: Map<Seq<char>, Node>,
    rel: Seq<char>,
    target: Seq<char>,
    at: Places,
    src: Source,
    dec: spec_fn(Seq<u8>, Seq<char>) -> Result<Seq<u8>, Seq<char>>,
    passphrase: Seq<char>,
)
    requires
        import_file_restoring(
            ProgressView::Ask(m, request),
            disk,
            rel,
            target,
            at,
            src,
            dec,
            passphrase,
        ),
    ensures
        changed_place(request) matches Some(path) ==> import_file_place(rel, target, path),
{
}

} // verus!
