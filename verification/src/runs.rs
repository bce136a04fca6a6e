//! What whole runs of an export and of an import come to on the file
//! system of `model`.

use crate::checksum::{
    entries_verdict, lemma_verify_checksums_outcome, manifest_name, verify_budget, verify_run,
    verify_start, verify_step, verify_verdict, ChecksumErrorView, VerifyChecksumsView,
    VerifyStage,
};
use crate::effects::{FileMeta, ProgressView, ReplyView, RequestView};
use crate::export::{
    encrypted_extension, export_crypt_call, export_file_crypt_call, export_file_step,
    export_start, export_step, exported_config_name, ExportAdditionalStageView,
    ExportAdditionalView, ExportErrorView, ExportFileView, ExportStageView, ExportView,
    ProgramPathView,
};
use crate::import::{
    import_crypt_call, import_file_crypt_call, import_file_start, import_file_step, import_start,
    import_step, parent_dirs, ImportErrorView, ImportFileView, ImportStageView, ImportView,
};
use crate::model::{
    apart, append_pending, changed_place, crypt_of, export_file_holds, exported, holds,
    import_file_budget, import_file_rank, import_file_restoring,
    lemma_export_file_changes_its_places, lemma_export_file_step_holds,
    lemma_import_file_changes_its_places, lemma_import_file_step_restores,
    lemma_served_elsewhere, off_the_files, places, places_ready, restored, restored_file,
    restored_sidecar, same_at, served, source_of, vouched, Node, Places,
};
use crate::utf8path_ext::{file_name_of, joined, parent_of};
use vstd::prelude::*;

verus! {

/// What a file system answers to each request, where it is only looked at.
pub open spec fn world_of(disk: Map<Seq<char>, Node>, fresh: FileMeta) -> spec_fn(
    RequestView,
) -> ReplyView {
    |request: RequestView| served(disk, fresh, request).0
}

/// The request only looks: it asks whether something exists or is a
/// directory, or for what a file holds.
pub open spec fn is_look(request: RequestView) -> bool {
    request is Exists || request is IsDir || request is Read || request is ReadText
}

/// One request more at the end of a check of a directory is one step more.
pub proof fn lemma_verify_run_more(
    p: ProgressView<VerifyChecksumsView, ChecksumErrorView>,
    world: spec_fn(RequestView) -> ReplyView,
    steps: nat,
)
    ensures
        verify_run(p, world, steps + 1) == (match verify_run(p, world, steps) {
            ProgressView::Finished(r) => ProgressView::Finished(r),
            ProgressView::Ask(m, request) => verify_step(m, world(request)),
        }),
    decreases steps,
{
    reveal_with_fuel(verify_run, 2);
    if steps > 0 {
        match p {
            ProgressView::Finished(_) => {},
            ProgressView::Ask(m, request) => {
                lemma_verify_run_more(verify_step(m, world(request)), world, (steps - 1) as nat);
            },
        }
    }
}

/// A check of a directory that has ended stays as it ended.
pub proof fn lemma_verify_run_stays(
    p: ProgressView<VerifyChecksumsView, ChecksumErrorView>,
    world: spec_fn(RequestView) -> ReplyView,
    a: nat,
    b: nat,
)
    requires
        a <= b,
        verify_run(p, world, a) is Finished,
    ensures
        verify_run(p, world, b) == verify_run(p, world, a),
    decreases b - a,
{
    if a < b {
        lemma_verify_run_stays(p, world, a, (b - 1) as nat);
        lemma_verify_run_more(p, world, (b - 1) as nat);
    }
}

/// Where an export stands, and what the file system holds, after at most
/// `steps` requests were served.
pub open spec fn export_on(
    p: ProgressView<ExportView, ExportErrorView>,
    disk: Map<Seq<char>, Node>,
    fresh: FileMeta,
    enc: spec_fn(Seq<u8>, Seq<char>) -> Result<Seq<u8>, Seq<char>>,
    dec: spec_fn(Seq<u8>, Seq<char>) -> Result<Seq<u8>, Seq<char>>,
    steps: nat,
) -> (ProgressView<ExportView, ExportErrorView>, Map<Seq<char>, Node>)
    decreases steps,
{
    if steps == 0 {
        (p, disk)
    } else {
        match p {
            ProgressView::Finished(_) => (p, disk),
            ProgressView::Ask(m, request) => {
                let (reply, after) = served(disk, fresh, request);
                export_on(
                    export_step(m, reply, crypt_of(export_crypt_call(m, reply), enc, dec)),
                    after,
                    fresh,
                    enc,
                    dec,
                    (steps - 1) as nat,
                )
            },
        }
    }
}

/// A directory stands at `path`.
pub open spec fn dir_at(disk: Map<Seq<char>, Node>, path: Seq<char>) -> bool {
    disk.dom().contains(path) && disk[path] is Dir
}

/// Where the copy of the program stands in the export; the empty path where
/// the program is not known or has no file name.
pub open spec fn program_place(out: Seq<char>, program: ProgramPathView) -> Seq<char> {
    match program {
        ProgramPathView::Known(path) => match file_name_of(path) {
            Some(name) => joined(out, name),
            None => Seq::empty(),
        },
        _ => Seq::empty(),
    }
}

/// Where the copy of the configuration stands in the export.
pub open spec fn config_place(out: Seq<char>) -> Seq<char> {
    joined(out, exported_config_name())
}

/// The path is none of the places of the secret in the source and in the
/// export.
pub open spec fn off_the_places(path: Seq<char>, at: Places) -> bool {
    &&& path != at.src_file
    &&& path != at.src_sha
    &&& path != at.out_file
    &&& path != at.out_sha
    &&& path != at.out_meta
}

/// The places of one secret of an export are told apart: those of the
/// secret as `apart` says, and the program, the configuration and the
/// manifest stand at none of them; no file of the export stands at its root.
pub open spec fn secret_apart(
    rel: Seq<char>,
    source: Seq<char>,
    out: Seq<char>,
    program: ProgramPathView,
) -> bool {
    let at = places(rel, source, out);
    &&& apart(at)
    &&& off_the_places(program_place(out, program), at)
    &&& off_the_places(config_place(out), at)
    &&& at.sums != out
    &&& at.out_file != out
    &&& at.out_sha != out
    &&& at.out_meta != out
}

/// What the export of the secret at `a` writes, and the directory that it
/// may create, is none of the places of the secret at `b`.
pub open spec fn keeps_off(a: Places, b: Places) -> bool {
    &&& off_the_places(a.out_file, b)
    &&& off_the_places(a.out_sha, b)
    &&& off_the_places(a.out_meta, b)
    &&& parent_of(a.out_file) matches Some(dir) ==> off_the_places(dir, b)
}

/// The places of an export are told apart: the program, the configuration
/// and the manifest do not stand at its root, the places of each secret are
/// as `secret_apart` says, and any two secrets keep off each other.
pub open spec fn export_apart(
    secrets: Seq<Seq<char>>,
    source: Seq<char>,
    out: Seq<char>,
    program: ProgramPathView,
) -> bool {
    &&& program_place(out, program) != out
    &&& config_place(out) != out
    &&& joined(out, manifest_name()) != out
    &&& forall|i: int|
        0 <= i < secrets.len() ==> secret_apart(#[trigger] secrets[i], source, out, program)
    &&& forall|i: int, j: int|
        #![trigger secrets[i], secrets[j]]
        0 <= i < secrets.len() && 0 <= j < secrets.len() && i != j ==> keeps_off(
            places(secrets[i], source, out),
            places(secrets[j], source, out),
        )
}

/// The export holds the secret of the source tree `before`, vouched for by
/// its sidecar.
pub open spec fn exported_one(
    disk: Map<Seq<char>, Node>,
    before: Map<Seq<char>, Node>,
    at: Places,
    dec: spec_fn(Seq<u8>, Seq<char>) -> Result<Seq<u8>, Seq<char>>,
    passphrase: Seq<char>,
) -> bool {
    vouched(before, at, source_of(before, at)) && exported(
        disk,
        at,
        source_of(before, at),
        dec,
        passphrase,
    )
}

/// The export holds each of the first `upto` secrets as `exported_one` says.
pub open spec fn exported_all(
    disk: Map<Seq<char>, Node>,
    before: Map<Seq<char>, Node>,
    secrets: Seq<Seq<char>>,
    source: Seq<char>,
    out: Seq<char>,
    dec: spec_fn(Seq<u8>, Seq<char>) -> Result<Seq<u8>, Seq<char>>,
    passphrase: Seq<char>,
    upto: int,
) -> bool {
    forall|j: int|
        0 <= j < upto && j < secrets.len() ==> exported_one(
            disk,
            before,
            places(#[trigger] secrets[j], source, out),
            dec,
            passphrase,
        )
}

/// The sources of the secrets from `from` on are as they were in `before`.
pub open spec fn sources_kept(
    disk: Map<Seq<char>, Node>,
    before: Map<Seq<char>, Node>,
    secrets: Seq<Seq<char>>,
    source: Seq<char>,
    out: Seq<char>,
    from: int,
) -> bool {
    forall|j: int|
        0 <= from <= j < secrets.len() ==> {
            &&& same_at(disk, before, places(#[trigger] secrets[j], source, out).src_file)
            &&& same_at(disk, before, places(secrets[j], source, out).src_sha)
        }
}

/// The request that the export of the program and the configuration has pending.
pub open spec fn additional_pending(
    a: ExportAdditionalView,
    request: RequestView,
    out: Seq<char>,
    program: ProgramPathView,
) -> bool {
    &&& a.target == out
    &&& a.exe_target == program_place(out, program)
    &&& a.config_target == config_place(out)
    &&& match a.stage {
        ExportAdditionalStageView::Copying => request matches RequestView::Copy { to, .. } && to
            == program_place(out, program),
        ExportAdditionalStageView::AppendingExe(ap) => append_pending(
            ap,
            request,
            joined(out, manifest_name()),
        ),
        ExportAdditionalStageView::SavingConfig => request matches RequestView::WriteText {
            path,
            ..
        } && path == config_place(out),
        ExportAdditionalStageView::AppendingConfig(ap) => append_pending(
            ap,
            request,
            joined(out, manifest_name()),
        ),
    }
}

/// The path is one that the export of the program and the configuration
/// may change.
pub open spec fn additional_place(out: Seq<char>, program: ProgramPathView, path: Seq<char>) -> bool {
    ||| path == program_place(out, program)
    ||| path == config_place(out)
    ||| path == joined(out, manifest_name())
}

/// What holds at every point of an export, run on a file system that held
/// `before` at its start: the sources of the secrets that are not yet
/// exported stay as they were; while a secret is exported, what
/// `export_file_holds` says; the export holds the secrets before it; and
/// while the export is checked against its manifest, the file system is
/// only looked at.
pub open spec fn export_holds(
    p: ProgressView<ExportView, ExportErrorView>,
    disk: Map<Seq<char>, Node>,
    fresh: FileMeta,
    before: Map<Seq<char>, Node>,
    secrets: Seq<Seq<char>>,
    source: Seq<char>,
    out: Seq<char>,
    program: ProgramPathView,
    dec: spec_fn(Seq<u8>, Seq<char>) -> Result<Seq<u8>, Seq<char>>,
    passphrase: Seq<char>,
) -> bool {
    let all = secrets.len() as int;
    match p {
        ProgressView::Finished(Err(_)) => true,
        ProgressView::Finished(Ok(_)) => {
            &&& exported_all(disk, before, secrets, source, out, dec, passphrase, all)
            &&& dir_at(disk, out)
            &&& verify_verdict(world_of(disk, fresh), out) is Ok
        },
        ProgressView::Ask(m, request) => {
            &&& m.source == source
            &&& m.target == out
            &&& m.passphrase == passphrase
            &&& m.program == program
            &&& m.secrets == secrets
            &&& match m.stage {
                ExportStageView::ProbingSource => disk == before && request == (
                RequestView::Exists { path: source }),
                ExportStageView::InspectingSource => disk == before && request == (
                RequestView::IsDir { path: source }),
                ExportStageView::ProbingTarget => disk == before && request == (
                RequestView::Exists { path: out }),
                ExportStageView::InspectingTarget => disk == before && request == (
                RequestView::IsDir { path: out }),
                ExportStageView::Files(file) => {
                    &&& m.index < secrets.len()
                    &&& dir_at(disk, out)
                    &&& export_file_holds(
                        ProgressView::Ask(file, request),
                        disk,
                        before,
                        places(secrets[m.index as int], source, out),
                        out,
                        dec,
                        passphrase,
                    )
                    &&& exported_all(
                        disk,
                        before,
                        secrets,
                        source,
                        out,
                        dec,
                        passphrase,
                        m.index as int,
                    )
                    &&& sources_kept(disk, before, secrets, source, out, m.index as int + 1)
                },
                ExportStageView::Additional(a) => {
                    &&& dir_at(disk, out)
                    &&& exported_all(disk, before, secrets, source, out, dec, passphrase, all)
                    &&& additional_pending(a, request, out, program)
                },
                ExportStageView::Verifying(v) => {
                    &&& dir_at(disk, out)
                    &&& exported_all(disk, before, secrets, source, out, dec, passphrase, all)
                    &&& is_look(request)
                    &&& exists|k: nat|
                        #[trigger] verify_run(
                            ProgressView::Ask(verify_start(out).0, verify_start(out).1),
                            world_of(disk, fresh),
                            k,
                        ) == ProgressView::<VerifyChecksumsView, ChecksumErrorView>::Ask(v, request)
                },
            }
        },
    }
}

/// A request that changes none of the three files that the export holds of
/// a secret leaves the secret exported.
pub proof fn lemma_exported_one_stays(
    disk: Map<Seq<char>, Node>,
    fresh: FileMeta,
    request: RequestView,
    before: Map<Seq<char>, Node>,
    at: Places,
    dec: spec_fn(Seq<u8>, Seq<char>) -> Result<Seq<u8>, Seq<char>>,
    passphrase: Seq<char>,
)
    requires
        exported_one(disk, before, at, dec, passphrase),
        changed_place(request) != Some(at.out_file),
        changed_place(request) != Some(at.out_sha),
        changed_place(request) != Some(at.out_meta),
    ensures
        exported_one(served(disk, fresh, request).1, before, at, dec, passphrase),
{
    lemma_served_elsewhere(disk, fresh, request, at.out_file);
    lemma_served_elsewhere(disk, fresh, request, at.out_sha);
    lemma_served_elsewhere(disk, fresh, request, at.out_meta);
}

/// A step of the export of the secret at `index` leaves the secrets before
/// it exported and the sources of those after it as they were.
pub proof fn lemma_export_file_step_keeps_others(
    file: ExportFileView,
    request: RequestView,
    disk: Map<Seq<char>, Node>,
    fresh: FileMeta,
    before: Map<Seq<char>, Node>,
    secrets: Seq<Seq<char>>,
    index: int,
    source: Seq<char>,
    out: Seq<char>,
    program: ProgramPathView,
    dec: spec_fn(Seq<u8>, Seq<char>) -> Result<Seq<u8>, Seq<char>>,
    passphrase: Seq<char>,
)
    requires
        export_apart(secrets, source, out, program),
        0 <= index < secrets.len(),
        export_file_holds(
            ProgressView::Ask(file, request),
            disk,
            before,
            places(secrets[index], source, out),
            out,
            dec,
            passphrase,
        ),
        exported_all(disk, before, secrets, source, out, dec, passphrase, index),
        sources_kept(disk, before, secrets, source, out, index + 1),
    ensures
        exported_all(
            served(disk, fresh, request).1,
            before,
            secrets,
            source,
            out,
            dec,
            passphrase,
            index,
        ),
        sources_kept(served(disk, fresh, request).1, before, secrets, source, out, index + 1),
{
    let own = places(secrets[index], source, out);
    let after = served(disk, fresh, request).1;
    lemma_export_file_changes_its_places(file, request, disk, before, own, out, dec, passphrase);
    assert forall|j: int| 0 <= j < index && j < secrets.len() implies exported_one(
        after,
        before,
        places(#[trigger] secrets[j], source, out),
        dec,
        passphrase,
    ) by {
        let other = places(secrets[j], source, out);
        assert(secret_apart(secrets[j], source, out, program));
        assert(keeps_off(own, other));
        lemma_exported_one_stays(disk, fresh, request, before, other, dec, passphrase);
    }
    assert forall|j: int| 0 <= index + 1 <= j < secrets.len() implies same_at(
        after,
        before,
        places(#[trigger] secrets[j], source, out).src_file,
    ) && same_at(after, before, places(secrets[j], source, out).src_sha) by {
        let other = places(secrets[j], source, out);
        assert(secret_apart(secrets[j], source, out, program));
        assert(keeps_off(own, other));
        lemma_served_elsewhere(disk, fresh, request, other.src_file);
        lemma_served_elsewhere(disk, fresh, request, other.src_sha);
    }
}

/// A step of the export of the program and the configuration leaves the
/// secrets exported and the root of the export a directory.
pub proof fn lemma_additional_step_keeps_secrets(
    a: ExportAdditionalView,
    request: RequestView,
    disk: Map<Seq<char>, Node>,
    fresh: FileMeta,
    before: Map<Seq<char>, Node>,
    secrets: Seq<Seq<char>>,
    source: Seq<char>,
    out: Seq<char>,
    program: ProgramPathView,
    dec: spec_fn(Seq<u8>, Seq<char>) -> Result<Seq<u8>, Seq<char>>,
    passphrase: Seq<char>,
)
    requires
        export_apart(secrets, source, out, program),
        additional_pending(a, request, out, program),
        dir_at(disk, out),
        exported_all(disk, before, secrets, source, out, dec, passphrase, secrets.len() as int),
    ensures
        exported_all(
            served(disk, fresh, request).1,
            before,
            secrets,
            source,
            out,
            dec,
            passphrase,
            secrets.len() as int,
        ),
        dir_at(served(disk, fresh, request).1, out),
{
    let after = served(disk, fresh, request).1;
    assert(changed_place(request) matches Some(path) ==> additional_place(out, program, path));
    assert forall|j: int| 0 <= j < secrets.len() implies exported_one(
        after,
        before,
        places(#[trigger] secrets[j], source, out),
        dec,
        passphrase,
    ) by {
        let other = places(secrets[j], source, out);
        assert(secret_apart(secrets[j], source, out, program));
        lemma_exported_one_stays(disk, fresh, request, before, other, dec, passphrase);
    }
    lemma_served_elsewhere(disk, fresh, request, out);
}

/// One served request keeps what `export_holds` says.
#[verifier::rlimit(40)]
pub proof fn lemma_export_step_holds(
    m: ExportView,
    request: RequestView,
    disk: Map<Seq<char>, Node>,
    fresh: FileMeta,
    before: Map<Seq<char>, Node>,
    secrets: Seq<Seq<char>>,
    source: Seq<char>,
    out: Seq<char>,
    program: ProgramPathView,
    enc: spec_fn(Seq<u8>, Seq<char>) -> Result<Seq<u8>, Seq<char>>,
    dec: spec_fn(Seq<u8>, Seq<char>) -> Result<Seq<u8>, Seq<char>>,
    passphrase: Seq<char>,
)
    requires
        export_apart(secrets, source, out, program),
        export_holds(
            ProgressView::Ask(m, request),
            disk,
            fresh,
            before,
            secrets,
            source,
            out,
            program,
            dec,
            passphrase,
        ),
    ensures
        ({
            let (reply, after) = served(disk, fresh, request);
            export_holds(
                export_step(m, reply, crypt_of(export_crypt_call(m, reply), enc, dec)),
                after,
                fresh,
                before,
                secrets,
                source,
                out,
                program,
                dec,
                passphrase,
            )
        }),
{
    let (reply, after) = served(disk, fresh, request);
    let next = export_step(m, reply, crypt_of(export_crypt_call(m, reply), enc, dec));
    match m.stage {
        ExportStageView::Files(file) => {
            let index = m.index as int;
            let at = places(secrets[index], source, out);
            assert(secret_apart(secrets[index], source, out, program));
            lemma_export_file_step_holds(
                file,
                request,
                disk,
                fresh,
                before,
                at,
                out,
                enc,
                dec,
                passphrase,
            );
            lemma_export_file_keeps_root(file, request, disk, fresh, before, at, out, dec, passphrase);
            lemma_export_file_step_keeps_others(
                file,
                request,
                disk,
                fresh,
                before,
                secrets,
                index,
                source,
                out,
                program,
                dec,
                passphrase,
            );
            let stepped = export_file_step(
                file,
                reply,
                crypt_of(export_file_crypt_call(file, reply), enc, dec),
            );
            assert(export_crypt_call(m, reply) == export_file_crypt_call(file, reply));
            if stepped matches ProgressView::Finished(Ok(_)) {
                assert(exported_one(after, before, at, dec, passphrase));
                assert(exported_all(
                    after,
                    before,
                    secrets,
                    source,
                    out,
                    dec,
                    passphrase,
                    index + 1,
                ));
                if index + 1 < secrets.len() {
                    let then = places(secrets[index + 1], source, out);
                    assert(same_at(after, before, then.src_file));
                    assert(same_at(after, before, then.src_sha));
                    assert(sources_kept(after, before, secrets, source, out, index + 2));
                }
            }
        },
        ExportStageView::Additional(a) => {
            lemma_additional_step_keeps_secrets(
                a,
                request,
                disk,
                fresh,
                before,
                secrets,
                source,
                out,
                program,
                dec,
                passphrase,
            );
            if next matches ProgressView::Ask(m2, r2) && m2.stage is Verifying {
                assert(verify_run(
                    ProgressView::Ask(verify_start(out).0, verify_start(out).1),
                    world_of(after, fresh),
                    0,
                ) == ProgressView::<VerifyChecksumsView, ChecksumErrorView>::Ask(
                    verify_start(out).0,
                    verify_start(out).1,
                ));
            }
        },
        ExportStageView::Verifying(v) => {
            let start = ProgressView::<VerifyChecksumsView, ChecksumErrorView>::Ask(
                verify_start(out).0,
                verify_start(out).1,
            );
            let world = world_of(disk, fresh);
            let k = choose|k: nat|
                #[trigger] verify_run(start, world, k) == ProgressView::<
                    VerifyChecksumsView,
                    ChecksumErrorView,
                >::Ask(v, request);
            lemma_verify_run_more(start, world, k);
            assert(after == disk);
            assert(world(request) == reply);
            let stepped = verify_step(v, reply);
            assert(verify_run(start, world, k + 1) == stepped);
            if stepped is Finished {
                let budget = verify_budget(world, out);
                let far = if k + 1 >= budget {
                    k + 1
                } else {
                    budget
                };
                lemma_verify_run_stays(start, world, k + 1, far);
                lemma_verify_checksums_outcome(world, out, far);
            }
        },
        _ => {
            assert(sources_kept(after, before, secrets, source, out, 1));
            assert(exported_all(after, before, secrets, source, out, dec, passphrase, 0));
        },
    }
}

/// A step of the export of a secret leaves the root of the export a directory.
pub proof fn lemma_export_file_keeps_root(
    file: ExportFileView,
    request: RequestView,
    disk: Map<Seq<char>, Node>,
    fresh: FileMeta,
    before: Map<Seq<char>, Node>,
    at: Places,
    out: Seq<char>,
    dec: spec_fn(Seq<u8>, Seq<char>) -> Result<Seq<u8>, Seq<char>>,
    passphrase: Seq<char>,
)
    requires
        at.sums != out,
        at.out_file != out,
        at.out_sha != out,
        at.out_meta != out,
        dir_at(disk, out),
        export_file_holds(ProgressView::Ask(file, request), disk, before, at, out, dec, passphrase),
    ensures
        dir_at(served(disk, fresh, request).1, out),
{
}

/// A run keeps what `export_holds` says.
pub proof fn lemma_export_run_holds(
    p: ProgressView<ExportView, ExportErrorView>,
    disk: Map<Seq<char>, Node>,
    fresh: FileMeta,
    before: Map<Seq<char>, Node>,
    secrets: Seq<Seq<char>>,
    source: Seq<char>,
    out: Seq<char>,
    program: ProgramPathView,
    enc: spec_fn(Seq<u8>, Seq<char>) -> Result<Seq<u8>, Seq<char>>,
    dec: spec_fn(Seq<u8>, Seq<char>) -> Result<Seq<u8>, Seq<char>>,
    passphrase: Seq<char>,
    steps: nat,
)
    requires
        export_apart(secrets, source, out, program),
        export_holds(p, disk, fresh, before, secrets, source, out, program, dec, passphrase),
    ensures
        export_holds(
            export_on(p, disk, fresh, enc, dec, steps).0,
            export_on(p, disk, fresh, enc, dec, steps).1,
            fresh,
            before,
            secrets,
            source,
            out,
            program,
            dec,
            passphrase,
        ),
    decreases steps,
{
    if steps > 0 {
        match p {
            ProgressView::Finished(_) => {},
            ProgressView::Ask(m, request) => {
                lemma_export_step_holds(
                    m,
                    request,
                    disk,
                    fresh,
                    before,
                    secrets,
                    source,
                    out,
                    program,
                    enc,
                    dec,
                    passphrase,
                );
                let (reply, after) = served(disk, fresh, request);
                lemma_export_run_holds(
                    export_step(m, reply, crypt_of(export_crypt_call(m, reply), enc, dec)),
                    after,
                    fresh,
                    before,
                    secrets,
                    source,
                    out,
                    program,
                    enc,
                    dec,
                    passphrase,
                    (steps - 1) as nat,
                );
            },
        }
    }
}

/// The export of a profile that owns `secrets`, as it starts.
pub open spec fn export_of(
    secrets: Seq<Seq<char>>,
    source: Seq<char>,
    out: Seq<char>,
    config_source: Seq<char>,
    passphrase: Seq<char>,
    program: ProgramPathView,
) -> ProgressView<ExportView, ExportErrorView> {
    ProgressView::Ask(
        export_start(secrets, source, out, config_source, passphrase, program).0,
        export_start(secrets, source, out, config_source, passphrase, program).1,
    )
}

/// What an export that ended well has left. Whatever stood in the file
/// system before, and however encryption and decryption end: an export
/// that has ended well leaves each secret of the profile in the source
/// vouched for by its sidecar; leaves in the export, which is a directory,
/// for each secret an encrypted file that decrypts under the passphrase to
/// the content of the source, the sidecar of the source and the record of
/// its owner and permission bits; and leaves an export that passes the
/// check against its manifest.
pub proof fn lemma_export_leaves_the_secrets(
    secrets: Seq<Seq<char>>,
    source: Seq<char>,
    out: Seq<char>,
    config_source: Seq<char>,
    passphrase: Seq<char>,
    program: ProgramPathView,
    before: Map<Seq<char>, Node>,
    fresh: FileMeta,
    enc: spec_fn(Seq<u8>, Seq<char>) -> Result<Seq<u8>, Seq<char>>,
    dec: spec_fn(Seq<u8>, Seq<char>) -> Result<Seq<u8>, Seq<char>>,
    steps: nat,
)
    requires
        export_apart(secrets, source, out, program),
    ensures
        ({
            let end = export_on(
                export_of(secrets, source, out, config_source, passphrase, program),
                before,
                fresh,
                enc,
                dec,
                steps,
            );
            end.0 matches ProgressView::Finished(Ok(_)) ==> {
                &&& exported_all(
                    end.1,
                    before,
                    secrets,
                    source,
                    out,
                    dec,
                    passphrase,
                    secrets.len() as int,
                )
                &&& dir_at(end.1, out)
                &&& verify_verdict(world_of(end.1, fresh), out) is Ok
            }
        }),
{
    lemma_export_run_holds(
        export_of(secrets, source, out, config_source, passphrase, program),
        before,
        fresh,
        before,
        secrets,
        source,
        out,
        program,
        enc,
        dec,
        passphrase,
        steps,
    );
}

/// Where an import stands, and what the file system holds, after at most
/// `steps` requests were served.
pub open spec fn import_on(
    p: ProgressView<ImportView, ImportErrorView>,
    disk: Map<Seq<char>, Node>,
    fresh: FileMeta,
    dec: spec_fn(Seq<u8>, Seq<char>) -> Result<Seq<u8>, Seq<char>>,
    steps: nat,
) -> (ProgressView<ImportView, ImportErrorView>, Map<Seq<char>, Node>)
    decreases steps,
{
    if steps == 0 {
        (p, disk)
    } else {
        match p {
            ProgressView::Finished(_) => (p, disk),
            ProgressView::Ask(m, request) => {
                let (reply, after) = served(disk, fresh, request);
                import_on(
                    import_step(m, reply, crypt_of(import_crypt_call(m, reply), dec, dec)),
                    after,
                    fresh,
                    dec,
                    (steps - 1) as nat,
                )
            },
        }
    }
}

/// The request that the check of `dir` against its manifest has pending in
/// `world`, with what the check has read so far.
pub open spec fn verify_pending(
    v: VerifyChecksumsView,
    request: RequestView,
    world: spec_fn(RequestView) -> ReplyView,
    dir: Seq<char>,
) -> bool {
    let sums = joined(dir, manifest_name());
    &&& v.dir == dir
    &&& v.sums == sums
    &&& match v.stage {
        VerifyStage::Probing => request == (RequestView::Exists { path: sums }),
        VerifyStage::ReadingManifest => request == (RequestView::ReadText { path: sums }),
        VerifyStage::ReadingFile => {
            &&& v.index < v.entries.len()
            &&& v.entries.len() + 2 == verify_budget(world, dir)
            &&& v.file == joined(dir, v.entries[v.index as int].path)
            &&& request == (RequestView::Read { path: v.file })
        },
    }
}

/// The check has found no fault so far and will find none.
pub open spec fn verify_passing(
    v: VerifyChecksumsView,
    world: spec_fn(RequestView) -> ReplyView,
    dir: Seq<char>,
) -> bool {
    &&& verify_verdict(world, dir) is Ok
    &&& v.stage is ReadingFile ==> entries_verdict(
        world,
        dir,
        joined(dir, manifest_name()),
        v.entries,
        v.index as int,
    ) is Ok
}

/// How many requests the check still makes at most.
pub open spec fn verify_rank(
    v: VerifyChecksumsView,
    world: spec_fn(RequestView) -> ReplyView,
    dir: Seq<char>,
) -> nat {
    match v.stage {
        VerifyStage::Probing => verify_budget(world, dir),
        VerifyStage::ReadingManifest => (verify_budget(world, dir) - 1) as nat,
        VerifyStage::ReadingFile => (v.entries.len() - v.index) as nat,
    }
}


/// How many requests the imports of the secrets from `from` on make at
/// most, one after the other.
pub open spec fn files_budget(files: Seq<Seq<char>>, target: Seq<char>, from: nat) -> nat
    decreases files.len() - from,
{
    if from >= files.len() {
        0
    } else {
        import_file_budget(parent_dirs(files[from as int], target)->0.len()) + files_budget(
            files,
            target,
            from + 1,
        )
    }
}

/// How many requests an import of `files` makes at most, from an export at
/// `out` that `world` shows.
pub open spec fn import_budget(
    world: spec_fn(RequestView) -> ReplyView,
    out: Seq<char>,
    files: Seq<Seq<char>>,
    target: Seq<char>,
) -> nat {
    4 + verify_budget(world, out) + files_budget(files, target, 0)
}

/// How many requests an import still makes at most from where it stands.
pub open spec fn import_rank(
    p: ProgressView<ImportView, ImportErrorView>,
    world: spec_fn(RequestView) -> ReplyView,
    out: Seq<char>,
    files: Seq<Seq<char>>,
    target: Seq<char>,
) -> nat {
    match p {
        ProgressView::Finished(_) => 0,
        ProgressView::Ask(m, request) => match m.stage {
            ImportStageView::ProbingSource => import_budget(world, out, files, target),
            ImportStageView::InspectingSource => (import_budget(world, out, files, target)
                - 1) as nat,
            ImportStageView::ProbingTarget => (import_budget(world, out, files, target) - 2) as nat,
            ImportStageView::InspectingTarget => (import_budget(world, out, files, target)
                - 3) as nat,
            ImportStageView::VerifyingSource(v) => verify_rank(v, world, out) + files_budget(
                files,
                target,
                0,
            ),
            ImportStageView::Files(file) => import_file_rank(
                ProgressView::Ask(file, request),
                parent_dirs(files[m.index as int], target)->0.len(),
            ) + files_budget(files, target, m.index + 1),
            _ => 0,
        },
    }
}

/// What the import of the secret `rel` writes, and the directories that
/// it may create, are none of the places that the import of the secret
/// `other`, exported to `at`, reads or writes as files.
pub open spec fn import_keeps_off(
    rel: Seq<char>,
    at: Places,
    other: Seq<char>,
    target: Seq<char>,
) -> bool {
    &&& off_the_files(restored_file(rel, target), at, other, target)
    &&& off_the_files(restored_sidecar(rel, target), at, other, target)
    &&& forall|i: int|
        0 <= i < parent_dirs(rel, target)->0.len() ==> off_the_files(
            #[trigger] parent_dirs(rel, target)->0[i],
            at,
            other,
            target,
        )
}

/// The secret does not stand in the tree imported into, nor its sidecar.
pub open spec fn absent(disk: Map<Seq<char>, Node>, rel: Seq<char>, target: Seq<char>) -> bool {
    !disk.dom().contains(restored_file(rel, target)) && !disk.dom().contains(
        restored_sidecar(rel, target),
    )
}

/// The tree imported into keeps the places of the secrets apart: those of
/// each secret as `places_ready` says, and any two secrets keep off each
/// other.
pub open spec fn import_apart(
    files: Seq<Seq<char>>,
    source: Seq<char>,
    out: Seq<char>,
    target: Seq<char>,
) -> bool {
    &&& forall|i: int|
        0 <= i < files.len() ==> places_ready(
            places(#[trigger] files[i], source, out),
            files[i],
            target,
        )
    &&& forall|i: int, j: int|
        #![trigger files[i], files[j]]
        0 <= i < files.len() && 0 <= j < files.len() && i != j ==> import_keeps_off(
            files[i],
            places(files[j], source, out),
            files[j],
            target,
        )
}

/// The secrets from `from` on stand in the export as the source tree
/// `before` had them, and not yet in the tree imported into.
pub open spec fn awaiting(
    disk: Map<Seq<char>, Node>,
    before: Map<Seq<char>, Node>,
    files: Seq<Seq<char>>,
    source: Seq<char>,
    out: Seq<char>,
    target: Seq<char>,
    dec: spec_fn(Seq<u8>, Seq<char>) -> Result<Seq<u8>, Seq<char>>,
    passphrase: Seq<char>,
    from: int,
) -> bool {
    forall|j: int|
        0 <= from <= j < files.len() ==> {
            &&& exported_one(
                disk,
                before,
                places(#[trigger] files[j], source, out),
                dec,
                passphrase,
            )
            &&& absent(disk, files[j], target)
        }
}

/// The first `upto` secrets stand in the tree imported into as the source
/// tree `before` had them: each with its content, owner and permission
/// bits, its sidecar beside it.
pub open spec fn restored_all(
    disk: Map<Seq<char>, Node>,
    before: Map<Seq<char>, Node>,
    files: Seq<Seq<char>>,
    source: Seq<char>,
    out: Seq<char>,
    target: Seq<char>,
    upto: int,
) -> bool {
    forall|j: int|
        0 <= j < upto && j < files.len() ==> restored(
            disk,
            #[trigger] files[j],
            target,
            source_of(before, places(files[j], source, out)),
        )
}

/// What holds of the export and of the tree imported into when an import
/// of `files` can restore them: the export is a directory that holds each
/// of them as the source tree `before` had it and passes the check against
/// its manifest, and the tree imported into is a directory in which none
/// of them stands yet and whose places are told apart.
pub open spec fn importable(
    base: Map<Seq<char>, Node>,
    fresh: FileMeta,
    before: Map<Seq<char>, Node>,
    files: Seq<Seq<char>>,
    source: Seq<char>,
    out: Seq<char>,
    target: Seq<char>,
    dec: spec_fn(Seq<u8>, Seq<char>) -> Result<Seq<u8>, Seq<char>>,
    passphrase: Seq<char>,
) -> bool {
    &&& awaiting(base, before, files, source, out, target, dec, passphrase, 0)
    &&& import_apart(files, source, out, target)
    &&& dir_at(base, out)
    &&& dir_at(base, target)
    &&& verify_verdict(world_of(base, fresh), out) is Ok
}

/// What holds at every point of an import from an export that is
/// `importable`: until the first secret is imported the file system is
/// only looked at; the check of the export finds no fault; while a secret
/// is imported, what `import_file_restoring` says, the secrets before it
/// are restored and those after it await their turn; and the import has not
/// failed.
pub open spec fn import_restoring(
    p: ProgressView<ImportView, ImportErrorView>,
    disk: Map<Seq<char>, Node>,
    fresh: FileMeta,
    base: Map<Seq<char>, Node>,
    before: Map<Seq<char>, Node>,
    files: Seq<Seq<char>>,
    source: Seq<char>,
    out: Seq<char>,
    target: Seq<char>,
    dec: spec_fn(Seq<u8>, Seq<char>) -> Result<Seq<u8>, Seq<char>>,
    passphrase: Seq<char>,
) -> bool {
    let world = world_of(base, fresh);
    match p {
        ProgressView::Finished(Err(_)) => false,
        ProgressView::Finished(Ok(_)) => restored_all(
            disk,
            before,
            files,
            source,
            out,
            target,
            files.len() as int,
        ),
        ProgressView::Ask(m, request) => {
            &&& m.source == out
            &&& m.target == target
            &&& m.passphrase == passphrase
            &&& m.files == files
            &&& m.links is None
            &&& match m.stage {
                ImportStageView::ProbingSource => disk == base && request == (
                RequestView::Exists { path: out }),
                ImportStageView::InspectingSource => disk == base && request == (
                RequestView::IsDir { path: out }),
                ImportStageView::ProbingTarget => disk == base && request == (
                RequestView::Exists { path: target }),
                ImportStageView::InspectingTarget => disk == base && request == (
                RequestView::IsDir { path: target }),
                ImportStageView::VerifyingSource(v) => {
                    &&& disk == base
                    &&& verify_pending(v, request, world, out)
                    &&& verify_passing(v, world, out)
                },
                ImportStageView::Files(file) => {
                    &&& m.index < files.len()
                    &&& import_file_restoring(
                        ProgressView::Ask(file, request),
                        disk,
                        files[m.index as int],
                        target,
                        places(files[m.index as int], source, out),
                        source_of(before, places(files[m.index as int], source, out)),
                        dec,
                        passphrase,
                    )
                    &&& restored_all(disk, before, files, source, out, target, m.index as int)
                    &&& awaiting(
                        disk,
                        before,
                        files,
                        source,
                        out,
                        target,
                        dec,
                        passphrase,
                        m.index as int + 1,
                    )
                },
                _ => false,
            }
        },
    }
}

/// A step of the import of the secret at `index` leaves the secrets before
/// it restored and those after it awaiting their turn.
pub proof fn lemma_import_file_step_keeps_others(
    file: ImportFileView,
    request: RequestView,
    disk: Map<Seq<char>, Node>,
    fresh: FileMeta,
    before: Map<Seq<char>, Node>,
    files: Seq<Seq<char>>,
    index: int,
    source: Seq<char>,
    out: Seq<char>,
    target: Seq<char>,
    dec: spec_fn(Seq<u8>, Seq<char>) -> Result<Seq<u8>, Seq<char>>,
    passphrase: Seq<char>,
)
    requires
        import_apart(files, source, out, target),
        0 <= index < files.len(),
        import_file_restoring(
            ProgressView::Ask(file, request),
            disk,
            files[index],
            target,
            places(files[index], source, out),
            source_of(before, places(files[index], source, out)),
            dec,
            passphrase,
        ),
        restored_all(disk, before, files, source, out, target, index),
        awaiting(disk, before, files, source, out, target, dec, passphrase, index + 1),
    ensures
        restored_all(served(disk, fresh, request).1, before, files, source, out, target, index),
        awaiting(
            served(disk, fresh, request).1,
            before,
            files,
            source,
            out,
            target,
            dec,
            passphrase,
            index + 1,
        ),
{
    let rel = files[index];
    let own = places(rel, source, out);
    let after = served(disk, fresh, request).1;
    lemma_import_file_changes_its_places(
        file,
        request,
        disk,
        rel,
        target,
        own,
        source_of(before, own),
        dec,
        passphrase,
    );
    assert forall|j: int| 0 <= j < index && j < files.len() implies restored(
        after,
        #[trigger] files[j],
        target,
        source_of(before, places(files[j], source, out)),
    ) by {
        assert(import_keeps_off(rel, places(files[j], source, out), files[j], target));
        lemma_served_elsewhere(disk, fresh, request, restored_file(files[j], target));
        lemma_served_elsewhere(disk, fresh, request, restored_sidecar(files[j], target));
    }
    assert forall|j: int| 0 <= index + 1 <= j < files.len() implies exported_one(
        after,
        before,
        places(#[trigger] files[j], source, out),
        dec,
        passphrase,
    ) && absent(after, files[j], target) by {
        let other = places(files[j], source, out);
        assert(import_keeps_off(rel, other, files[j], target));
        lemma_exported_one_stays(disk, fresh, request, before, other, dec, passphrase);
        lemma_served_elsewhere(disk, fresh, request, restored_file(files[j], target));
        lemma_served_elsewhere(disk, fresh, request, restored_sidecar(files[j], target));
    }
}

/// One served request keeps what `import_restoring` says, and brings the
/// import one request nearer to its end.
#[verifier::rlimit(40)]
pub proof fn lemma_import_step_restores(
    m: ImportView,
    request: RequestView,
    disk: Map<Seq<char>, Node>,
    fresh: FileMeta,
    base: Map<Seq<char>, Node>,
    before: Map<Seq<char>, Node>,
    files: Seq<Seq<char>>,
    source: Seq<char>,
    out: Seq<char>,
    target: Seq<char>,
    dec: spec_fn(Seq<u8>, Seq<char>) -> Result<Seq<u8>, Seq<char>>,
    passphrase: Seq<char>,
)
    requires
        importable(base, fresh, before, files, source, out, target, dec, passphrase),
        import_restoring(
            ProgressView::Ask(m, request),
            disk,
            fresh,
            base,
            before,
            files,
            source,
            out,
            target,
            dec,
            passphrase,
        ),
    ensures
        ({
            let (reply, after) = served(disk, fresh, request);
            let next = import_step(m, reply, crypt_of(import_crypt_call(m, reply), dec, dec));
            &&& import_restoring(
                next,
                after,
                fresh,
                base,
                before,
                files,
                source,
                out,
                target,
                dec,
                passphrase,
            )
            &&& import_rank(next, world_of(base, fresh), out, files, target) + 1 <= import_rank(
                ProgressView::Ask(m, request),
                world_of(base, fresh),
                out,
                files,
                target,
            )
        }),
{
    reveal_strlit("age");
    let world = world_of(base, fresh);
    let (reply, after) = served(disk, fresh, request);
    match m.stage {
        ImportStageView::Files(file) => {
            let index = m.index as int;
            let rel = files[index];
            let at = places(rel, source, out);
            let src = source_of(before, at);
            assert(places_ready(at, rel, target));
            lemma_import_file_step_restores(
                file,
                request,
                disk,
                fresh,
                rel,
                target,
                at,
                src,
                dec,
                passphrase,
            );
            lemma_import_file_step_keeps_others(
                file,
                request,
                disk,
                fresh,
                before,
                files,
                index,
                source,
                out,
                target,
                dec,
                passphrase,
            );
            let stepped = import_file_step(
                file,
                reply,
                crypt_of(import_file_crypt_call(file, reply), dec, dec),
            );
            assert(import_crypt_call(m, reply) == import_file_crypt_call(file, reply));
            if stepped matches ProgressView::Finished(Ok(_)) {
                assert(restored(after, rel, target, src));
                assert(restored_all(after, before, files, source, out, target, index + 1));
                if index + 1 < files.len() {
                    let then = places(files[index + 1], source, out);
                    assert(exported_one(after, before, then, dec, passphrase));
                    assert(absent(after, files[index + 1], target));
                    assert(awaiting(
                        after,
                        before,
                        files,
                        source,
                        out,
                        target,
                        dec,
                        passphrase,
                        index + 2,
                    ));
                }
            }
        },
        ImportStageView::VerifyingSource(v) => {
            assert(world(request) == served(disk, fresh, request).0);
            assert(restored_all(after, before, files, source, out, target, 0));
            if files.len() > 0 {
                let first = places(files[0], source, out);
                assert(exported_one(after, before, first, dec, passphrase));
                assert(absent(after, files[0], target));
                assert(awaiting(after, before, files, source, out, target, dec, passphrase, 1));
            }
        },
        _ => {},
    }
}

/// A run that has requests enough ends well and has restored the secrets.
pub proof fn lemma_import_run_restores(
    p: ProgressView<ImportView, ImportErrorView>,
    disk: Map<Seq<char>, Node>,
    fresh: FileMeta,
    base: Map<Seq<char>, Node>,
    before: Map<Seq<char>, Node>,
    files: Seq<Seq<char>>,
    source: Seq<char>,
    out: Seq<char>,
    target: Seq<char>,
    dec: spec_fn(Seq<u8>, Seq<char>) -> Result<Seq<u8>, Seq<char>>,
    passphrase: Seq<char>,
    steps: nat,
)
    requires
        importable(base, fresh, before, files, source, out, target, dec, passphrase),
        import_restoring(p, disk, fresh, base, before, files, source, out, target, dec, passphrase),
        steps >= import_rank(p, world_of(base, fresh), out, files, target),
    ensures
        import_on(p, disk, fresh, dec, steps).0 matches ProgressView::Finished(Ok(_)),
        restored_all(
            import_on(p, disk, fresh, dec, steps).1,
            before,
            files,
            source,
            out,
            target,
            files.len() as int,
        ),
    decreases steps,
{
    match p {
        ProgressView::Finished(_) => {
            assert(import_on(p, disk, fresh, dec, steps) == (p, disk));
        },
        ProgressView::Ask(m, request) => {
            lemma_import_step_restores(
                m,
                request,
                disk,
                fresh,
                base,
                before,
                files,
                source,
                out,
                target,
                dec,
                passphrase,
            );
            let (reply, after) = served(disk, fresh, request);
            lemma_import_run_restores(
                import_step(m, reply, crypt_of(import_crypt_call(m, reply), dec, dec)),
                after,
                fresh,
                base,
                before,
                files,
                source,
                out,
                target,
                dec,
                passphrase,
                (steps - 1) as nat,
            );
        },
    }
}

/// The import of `files` with no links, as it starts.
pub open spec fn import_of(
    files: Seq<Seq<char>>,
    out: Seq<char>,
    target: Seq<char>,
    passphrase: Seq<char>,
) -> ProgressView<ImportView, ImportErrorView> {
    ProgressView::Ask(
        import_start(files, out, target, passphrase, None).0,
        import_start(files, out, target, passphrase, None).1,
    )
}

/// Export, then import, as whole runs. On a file system that never fails
/// where an operation can be done, and with a decryption that ends the
/// same way each time it is given the same bytes and the same passphrase:
/// where the export of the secrets of a profile has ended well, and the
/// tree imported into is a directory in which none of them stands yet and
/// whose places are told apart, the import of the same secrets under the
/// same passphrase ends well within `import_budget` requests, and each
/// secret then stands in that tree with the content, the owner and the
/// permission bits that it had in the source, its sidecar beside it with
/// the bytes of the sidecar of the source. Nothing is asked of the
/// encryption but what the export has checked.
pub proof fn lemma_export_then_import(
    secrets: Seq<Seq<char>>,
    source: Seq<char>,
    out: Seq<char>,
    target: Seq<char>,
    config_source: Seq<char>,
    passphrase: Seq<char>,
    program: ProgramPathView,
    before: Map<Seq<char>, Node>,
    fresh: FileMeta,
    enc: spec_fn(Seq<u8>, Seq<char>) -> Result<Seq<u8>, Seq<char>>,
    dec: spec_fn(Seq<u8>, Seq<char>) -> Result<Seq<u8>, Seq<char>>,
    export_steps: nat,
    import_steps: nat,
)
    requires
        export_apart(secrets, source, out, program),
        import_apart(secrets, source, out, target),
        export_on(
            export_of(secrets, source, out, config_source, passphrase, program),
            before,
            fresh,
            enc,
            dec,
            export_steps,
        ).0 matches ProgressView::Finished(Ok(_)),
        dir_at(
            export_on(
                export_of(secrets, source, out, config_source, passphrase, program),
                before,
                fresh,
                enc,
                dec,
                export_steps,
            ).1,
            target,
        ),
        forall|j: int|
            0 <= j < secrets.len() ==> absent(
                export_on(
                    export_of(secrets, source, out, config_source, passphrase, program),
                    before,
                    fresh,
                    enc,
                    dec,
                    export_steps,
                ).1,
                #[trigger] secrets[j],
                target,
            ),
        import_steps >= import_budget(
            world_of(
                export_on(
                    export_of(secrets, source, out, config_source, passphrase, program),
                    before,
                    fresh,
                    enc,
                    dec,
                    export_steps,
                ).1,
                fresh,
            ),
            out,
            secrets,
            target,
        ),
    ensures
        ({
            let base = export_on(
                export_of(secrets, source, out, config_source, passphrase, program),
                before,
                fresh,
                enc,
                dec,
                export_steps,
            ).1;
            let end = import_on(
                import_of(secrets, out, target, passphrase),
                base,
                fresh,
                dec,
                import_steps,
            );
            &&& end.0 matches ProgressView::Finished(Ok(_))
            &&& restored_all(end.1, before, secrets, source, out, target, secrets.len() as int)
        }),
{
    lemma_export_leaves_the_secrets(
        secrets,
        source,
        out,
        config_source,
        passphrase,
        program,
        before,
        fresh,
        enc,
        dec,
        export_steps,
    );
    let base = export_on(
        export_of(secrets, source, out, config_source, passphrase, program),
        before,
        fresh,
        enc,
        dec,
        export_steps,
    ).1;
    assert(awaiting(base, before, secrets, source, out, target, dec, passphrase, 0));
    lemma_import_run_restores(
        import_of(secrets, out, target, passphrase),
        base,
        fresh,
        base,
        before,
        secrets,
        source,
        out,
        target,
        dec,
        passphrase,
        import_steps,
    );
}

/// What holds at every point of an import, up to the first reply for the
/// secret itself, on any file system: the file system is only looked at and
/// is as it was.
pub open spec fn import_looking(
    p: ProgressView<ImportView, ImportErrorView>,
    disk: Map<Seq<char>, Node>,
    fresh: FileMeta,
    base: Map<Seq<char>, Node>,
    rel: Seq<char>,
    out: Seq<char>,
    target: Seq<char>,
    passphrase: Seq<char>,
) -> bool {
    &&& disk == base
    &&& match p {
        ProgressView::Finished(r) => r is Err,
        ProgressView::Ask(m, request) => {
            &&& m.source == out
            &&& m.target == target
            &&& m.passphrase == passphrase
            &&& m.files.len() > 0
            &&& m.files[0] == rel
            &&& m.index == 0
            &&& match m.stage {
                ImportStageView::ProbingSource => request == (RequestView::Exists { path: out }),
                ImportStageView::InspectingSource => request == (RequestView::IsDir { path: out }),
                ImportStageView::ProbingTarget => request == (RequestView::Exists {
                    path: target,
                }),
                ImportStageView::InspectingTarget => request == (RequestView::IsDir {
                    path: target,
                }),
                ImportStageView::VerifyingSource(v) => verify_pending(
                    v,
                    request,
                    world_of(base, fresh),
                    out,
                ),
                ImportStageView::Files(file) => (file, request) == import_file_start(
                    rel,
                    out,
                    target,
                    passphrase,
                ),
                _ => false,
            }
        },
    }
}

/// How many requests an import makes at most up to the first reply for the
/// secret itself.
pub open spec fn import_look_rank(
    p: ProgressView<ImportView, ImportErrorView>,
    world: spec_fn(RequestView) -> ReplyView,
    out: Seq<char>,
) -> nat {
    match p {
        ProgressView::Finished(_) => 0,
        ProgressView::Ask(m, _) => match m.stage {
            ImportStageView::ProbingSource => 5 + verify_budget(world, out),
            ImportStageView::InspectingSource => 4 + verify_budget(world, out),
            ImportStageView::ProbingTarget => 3 + verify_budget(world, out),
            ImportStageView::InspectingTarget => 2 + verify_budget(world, out),
            ImportStageView::VerifyingSource(v) => 1 + verify_rank(v, world, out),
            _ => 1,
        },
    }
}

/// From any point at which `import_looking` holds, an import whose secret
/// does not decrypt ends with an error, and the file system is as it was.
pub proof fn lemma_import_look_run(
    p: ProgressView<ImportView, ImportErrorView>,
    disk: Map<Seq<char>, Node>,
    fresh: FileMeta,
    base: Map<Seq<char>, Node>,
    rel: Seq<char>,
    out: Seq<char>,
    target: Seq<char>,
    passphrase: Seq<char>,
    dec: spec_fn(Seq<u8>, Seq<char>) -> Result<Seq<u8>, Seq<char>>,
    bytes: Seq<u8>,
    steps: nat,
)
    requires
        holds(
            base,
            crate::utf8path_ext::extended(joined(out, rel), encrypted_extension()),
            bytes,
        ),
        dec(bytes, passphrase) is Err,
        import_looking(p, disk, fresh, base, rel, out, target, passphrase),
        steps >= import_look_rank(p, world_of(base, fresh), out),
    ensures
        import_on(p, disk, fresh, dec, steps).0 matches ProgressView::Finished(Err(_)),
        import_on(p, disk, fresh, dec, steps).1 == base,
    decreases steps,
{
    reveal_strlit("age");
    match p {
        ProgressView::Finished(_) => {
            assert(import_on(p, disk, fresh, dec, steps) == (p, disk));
        },
        ProgressView::Ask(m, request) => {
            let world = world_of(base, fresh);
            let (reply, after) = served(disk, fresh, request);
            assert(world(request) == reply);
            let next = import_step(m, reply, crypt_of(import_crypt_call(m, reply), dec, dec));
            assert(import_looking(next, after, fresh, base, rel, out, target, passphrase));
            assert(import_look_rank(next, world, out) + 1 <= import_look_rank(p, world, out));
            lemma_import_look_run(
                next,
                after,
                fresh,
                base,
                rel,
                out,
                target,
                passphrase,
                dec,
                bytes,
                (steps - 1) as nat,
            );
        },
    }
}

/// A secret that does not decrypt leaves the tree imported into as it was.
/// On any file system on which the encrypted file of the first secret of a
/// profile holds bytes that do not decrypt under the passphrase, as after a
/// change of a byte, the import of that profile ends with an error, at the
/// check of the export against its manifest or else at the decryption, and
/// the file system is then as it was: nothing was written or created.
pub proof fn lemma_tampered_export_is_not_imported(
    files: Seq<Seq<char>>,
    out: Seq<char>,
    target: Seq<char>,
    passphrase: Seq<char>,
    links: Option<Seq<char>>,
    disk: Map<Seq<char>, Node>,
    fresh: FileMeta,
    dec: spec_fn(Seq<u8>, Seq<char>) -> Result<Seq<u8>, Seq<char>>,
    bytes: Seq<u8>,
    steps: nat,
)
    requires
        files.len() > 0,
        holds(
            disk,
            crate::utf8path_ext::extended(joined(out, files[0]), encrypted_extension()),
            bytes,
        ),
        dec(bytes, passphrase) is Err,
        steps >= 5 + verify_budget(world_of(disk, fresh), out),
    ensures
        import_on(
            ProgressView::Ask(
                import_start(files, out, target, passphrase, links).0,
                import_start(files, out, target, passphrase, links).1,
            ),
            disk,
            fresh,
            dec,
            steps,
        ).0 matches ProgressView::Finished(Err(_)),
        import_on(
            ProgressView::Ask(
                import_start(files, out, target, passphrase, links).0,
                import_start(files, out, target, passphrase, links).1,
            ),
            disk,
            fresh,
            dec,
            steps,
        ).1 == disk,
{
    lemma_import_look_run(
        ProgressView::Ask(
            import_start(files, out, target, passphrase, links).0,
            import_start(files, out, target, passphrase, links).1,
        ),
        disk,
        fresh,
        disk,
        files[0],
        out,
        target,
        passphrase,
        dec,
        bytes,
        steps,
    );
}

/// The check finds a fault, and has not passed it yet.
pub open spec fn verify_failing(
    v: VerifyChecksumsView,
    world: spec_fn(RequestView) -> ReplyView,
    dir: Seq<char>,
) -> bool {
    &&& verify_verdict(world, dir) is Err
    &&& v.stage is ReadingFile ==> entries_verdict(
        world,
        dir,
        joined(dir, manifest_name()),
        v.entries,
        v.index as int,
    ) is Err
}

/// What holds at every point of an import from an export that does not
/// pass the check against its manifest: the import has not gone past that
/// check, and the file system is as it was.
pub open spec fn import_checking(
    p: ProgressView<ImportView, ImportErrorView>,
    disk: Map<Seq<char>, Node>,
    fresh: FileMeta,
    base: Map<Seq<char>, Node>,
    out: Seq<char>,
    target: Seq<char>,
) -> bool {
    &&& disk == base
    &&& verify_verdict(world_of(base, fresh), out) is Err
    &&& match p {
        ProgressView::Finished(r) => r is Err,
        ProgressView::Ask(m, request) => {
            &&& m.source == out
            &&& m.target == target
            &&& match m.stage {
                ImportStageView::ProbingSource => request == (RequestView::Exists { path: out }),
                ImportStageView::InspectingSource => request == (RequestView::IsDir { path: out }),
                ImportStageView::ProbingTarget => request == (RequestView::Exists {
                    path: target,
                }),
                ImportStageView::InspectingTarget => request == (RequestView::IsDir {
                    path: target,
                }),
                ImportStageView::VerifyingSource(v) => {
                    &&& verify_pending(v, request, world_of(base, fresh), out)
                    &&& verify_failing(v, world_of(base, fresh), out)
                },
                _ => false,
            }
        },
    }
}

/// From any point at which `import_checking` holds, an import ends with an
/// error, and the file system is as it was.
pub proof fn lemma_import_check_run(
    p: ProgressView<ImportView, ImportErrorView>,
    disk: Map<Seq<char>, Node>,
    fresh: FileMeta,
    base: Map<Seq<char>, Node>,
    out: Seq<char>,
    target: Seq<char>,
    dec: spec_fn(Seq<u8>, Seq<char>) -> Result<Seq<u8>, Seq<char>>,
    steps: nat,
)
    requires
        import_checking(p, disk, fresh, base, out, target),
        steps >= import_look_rank(p, world_of(base, fresh), out),
    ensures
        import_on(p, disk, fresh, dec, steps).0 matches ProgressView::Finished(Err(_)),
        import_on(p, disk, fresh, dec, steps).1 == base,
    decreases steps,
{
    match p {
        ProgressView::Finished(_) => {
            assert(import_on(p, disk, fresh, dec, steps) == (p, disk));
        },
        ProgressView::Ask(m, request) => {
            let world = world_of(base, fresh);
            let (reply, after) = served(disk, fresh, request);
            assert(world(request) == reply);
            let next = import_step(m, reply, crypt_of(import_crypt_call(m, reply), dec, dec));
            reveal_with_fuel(entries_verdict, 2);
            assert(import_checking(next, after, fresh, base, out, target));
            assert(import_look_rank(next, world, out) + 1 <= import_look_rank(p, world, out));
            lemma_import_check_run(next, after, fresh, base, out, target, dec, (steps - 1) as nat);
        },
    }
}

/// Nothing is imported from an export that does not pass the check
/// against its manifest. On any file system on which that check finds a
/// fault, as where the digest of a file of the export is not the one that
/// the manifest records, an import ends with an error, whatever the
/// secrets, the passphrase and the links, and the file system is then as it
/// was: nothing was written or created.
pub proof fn lemma_unverified_export_is_not_imported(
    files: Seq<Seq<char>>,
    out: Seq<char>,
    target: Seq<char>,
    passphrase: Seq<char>,
    links: Option<Seq<char>>,
    disk: Map<Seq<char>, Node>,
    fresh: FileMeta,
    dec: spec_fn(Seq<u8>, Seq<char>) -> Result<Seq<u8>, Seq<char>>,
    steps: nat,
)
    requires
        verify_verdict(world_of(disk, fresh), out) is Err,
        steps >= 5 + verify_budget(world_of(disk, fresh), out),
    ensures
        import_on(
            ProgressView::Ask(
                import_start(files, out, target, passphrase, links).0,
                import_start(files, out, target, passphrase, links).1,
            ),
            disk,
            fresh,
            dec,
            steps,
        ).0 matches ProgressView::Finished(Err(_)),
        import_on(
            ProgressView::Ask(
                import_start(files, out, target, passphrase, links).0,
                import_start(files, out, target, passphrase, links).1,
            ),
            disk,
            fresh,
            dec,
            steps,
        ).1 == disk,
{
    lemma_import_check_run(
        ProgressView::Ask(
            import_start(files, out, target, passphrase, links).0,
            import_start(files, out, target, passphrase, links).1,
        ),
        disk,
        fresh,
        disk,
        out,
        target,
        dec,
        steps,
    );
}

/// How many requests the imports of the secrets from `from` up to, and
/// without, `to` make at most, one after the other.
pub open spec fn files_budget_to(
    files: Seq<Seq<char>>,
    target: Seq<char>,
    from: nat,
    to: nat,
) -> nat
    decreases to - from,
{
    if from >= to || from >= files.len() {
        0
    } else {
        import_file_budget(parent_dirs(files[from as int], target)->0.len()) + files_budget_to(
            files,
            target,
            from + 1,
            to,
        )
    }
}

/// The secrets from `from` up to, and without, `bad` stand in the export as
/// the source tree `before` had them, and not yet in the tree imported
/// into; the encrypted file of the secret at `bad` holds `bytes`, and that
/// secret does not stand in the tree imported into, nor its sidecar.
pub open spec fn awaiting_until(
    disk: Map<Seq<char>, Node>,
    before: Map<Seq<char>, Node>,
    files: Seq<Seq<char>>,
    source: Seq<char>,
    out: Seq<char>,
    target: Seq<char>,
    dec: spec_fn(Seq<u8>, Seq<char>) -> Result<Seq<u8>, Seq<char>>,
    passphrase: Seq<char>,
    from: int,
    bad: int,
    bytes: Seq<u8>,
) -> bool {
    &&& forall|j: int|
        0 <= from <= j < bad && j < files.len() ==> {
            &&& exported_one(
                disk,
                before,
                places(#[trigger] files[j], source, out),
                dec,
                passphrase,
            )
            &&& absent(disk, files[j], target)
        }
    &&& holds(disk, places(files[bad], source, out).out_file, bytes)
    &&& absent(disk, files[bad], target)
}

/// What holds at every point of an import in which the secret at `bad`
/// does not decrypt, while those before it can be restored: the import has
/// not gone past that secret, the encrypted file still holds `bytes`, and
/// neither the secret nor its sidecar stands in the tree imported into.
pub open spec fn import_stopping(
    p: ProgressView<ImportView, ImportErrorView>,
    disk: Map<Seq<char>, Node>,
    fresh: FileMeta,
    base: Map<Seq<char>, Node>,
    before: Map<Seq<char>, Node>,
    files: Seq<Seq<char>>,
    source: Seq<char>,
    out: Seq<char>,
    target: Seq<char>,
    dec: spec_fn(Seq<u8>, Seq<char>) -> Result<Seq<u8>, Seq<char>>,
    passphrase: Seq<char>,
    bad: int,
    bytes: Seq<u8>,
) -> bool {
    let world = world_of(base, fresh);
    match p {
        ProgressView::Finished(Ok(_)) => false,
        ProgressView::Finished(Err(_)) => absent(disk, files[bad], target),
        ProgressView::Ask(m, request) => {
            &&& m.source == out
            &&& m.target == target
            &&& m.passphrase == passphrase
            &&& m.files == files
            &&& match m.stage {
                ImportStageView::ProbingSource => disk == base && request == (
                RequestView::Exists { path: out }),
                ImportStageView::InspectingSource => disk == base && request == (
                RequestView::IsDir { path: out }),
                ImportStageView::ProbingTarget => disk == base && request == (
                RequestView::Exists { path: target }),
                ImportStageView::InspectingTarget => disk == base && request == (
                RequestView::IsDir { path: target }),
                ImportStageView::VerifyingSource(v) => {
                    &&& disk == base
                    &&& verify_pending(v, request, world, out)
                },
                ImportStageView::Files(file) => {
                    &&& m.index <= bad
                    &&& awaiting_until(
                        disk,
                        before,
                        files,
                        source,
                        out,
                        target,
                        dec,
                        passphrase,
                        m.index as int + 1,
                        bad,
                        bytes,
                    )
                    &&& if m.index < bad {
                        import_file_restoring(
                            ProgressView::Ask(file, request),
                            disk,
                            files[m.index as int],
                            target,
                            places(files[m.index as int], source, out),
                            source_of(before, places(files[m.index as int], source, out)),
                            dec,
                            passphrase,
                        )
                    } else {
                        (file, request) == import_file_start(files[bad], out, target, passphrase)
                    }
                },
                _ => false,
            }
        },
    }
}

/// How many requests an import in which the secret at `bad` does not
/// decrypt still makes at most from where it stands.
pub open spec fn import_stop_rank(
    p: ProgressView<ImportView, ImportErrorView>,
    world: spec_fn(RequestView) -> ReplyView,
    out: Seq<char>,
    files: Seq<Seq<char>>,
    target: Seq<char>,
    bad: nat,
) -> nat {
    match p {
        ProgressView::Finished(_) => 0,
        ProgressView::Ask(m, request) => match m.stage {
            ImportStageView::ProbingSource => 5 + verify_budget(world, out) + files_budget_to(
                files,
                target,
                0,
                bad,
            ),
            ImportStageView::InspectingSource => 4 + verify_budget(world, out) + files_budget_to(
                files,
                target,
                0,
                bad,
            ),
            ImportStageView::ProbingTarget => 3 + verify_budget(world, out) + files_budget_to(
                files,
                target,
                0,
                bad,
            ),
            ImportStageView::InspectingTarget => 2 + verify_budget(world, out) + files_budget_to(
                files,
                target,
                0,
                bad,
            ),
            ImportStageView::VerifyingSource(v) => 1 + verify_rank(v, world, out)
                + files_budget_to(files, target, 0, bad),
            ImportStageView::Files(file) => if m.index < bad {
                1 + import_file_rank(
                    ProgressView::Ask(file, request),
                    parent_dirs(files[m.index as int], target)->0.len(),
                ) + files_budget_to(files, target, m.index + 1, bad)
            } else {
                1
            },
            _ => 0,
        },
    }
}

/// A step of the import of the secret at `index` leaves those after it, up
/// to the one at `bad`, as `awaiting_until` says.
pub proof fn lemma_import_file_step_keeps_until(
    file: ImportFileView,
    request: RequestView,
    disk: Map<Seq<char>, Node>,
    fresh: FileMeta,
    before: Map<Seq<char>, Node>,
    files: Seq<Seq<char>>,
    index: int,
    source: Seq<char>,
    out: Seq<char>,
    target: Seq<char>,
    dec: spec_fn(Seq<u8>, Seq<char>) -> Result<Seq<u8>, Seq<char>>,
    passphrase: Seq<char>,
    bad: int,
    bytes: Seq<u8>,
)
    requires
        import_apart(files, source, out, target),
        0 <= index < bad < files.len(),
        import_file_restoring(
            ProgressView::Ask(file, request),
            disk,
            files[index],
            target,
            places(files[index], source, out),
            source_of(before, places(files[index], source, out)),
            dec,
            passphrase,
        ),
        awaiting_until(
            disk,
            before,
            files,
            source,
            out,
            target,
            dec,
            passphrase,
            index + 1,
            bad,
            bytes,
        ),
    ensures
        awaiting_until(
            served(disk, fresh, request).1,
            before,
            files,
            source,
            out,
            target,
            dec,
            passphrase,
            index + 1,
            bad,
            bytes,
        ),
{
    let rel = files[index];
    let own = places(rel, source, out);
    let after = served(disk, fresh, request).1;
    lemma_import_file_changes_its_places(
        file,
        request,
        disk,
        rel,
        target,
        own,
        source_of(before, own),
        dec,
        passphrase,
    );
    assert forall|j: int| 0 <= index + 1 <= j < bad && j < files.len() implies exported_one(
        after,
        before,
        places(#[trigger] files[j], source, out),
        dec,
        passphrase,
    ) && absent(after, files[j], target) by {
        let other = places(files[j], source, out);
        assert(import_keeps_off(rel, other, files[j], target));
        lemma_exported_one_stays(disk, fresh, request, before, other, dec, passphrase);
        lemma_served_elsewhere(disk, fresh, request, restored_file(files[j], target));
        lemma_served_elsewhere(disk, fresh, request, restored_sidecar(files[j], target));
    }
    let stuck = places(files[bad], source, out);
    assert(import_keeps_off(rel, stuck, files[bad], target));
    lemma_served_elsewhere(disk, fresh, request, stuck.out_file);
    lemma_served_elsewhere(disk, fresh, request, restored_file(files[bad], target));
    lemma_served_elsewhere(disk, fresh, request, restored_sidecar(files[bad], target));
}

/// One served request keeps what `import_stopping` says, and brings the
/// import one request nearer to its end.
#[verifier::rlimit(40)]
pub proof fn lemma_import_step_stops(
    m: ImportView,
    request: RequestView,
    disk: Map<Seq<char>, Node>,
    fresh: FileMeta,
    base: Map<Seq<char>, Node>,
    before: Map<Seq<char>, Node>,
    files: Seq<Seq<char>>,
    source: Seq<char>,
    out: Seq<char>,
    target: Seq<char>,
    dec: spec_fn(Seq<u8>, Seq<char>) -> Result<Seq<u8>, Seq<char>>,
    passphrase: Seq<char>,
    bad: int,
    bytes: Seq<u8>,
)
    requires
        0 <= bad < files.len(),
        import_apart(files, source, out, target),
        awaiting_until(base, before, files, source, out, target, dec, passphrase, 0, bad, bytes),
        dec(bytes, passphrase) is Err,
        import_stopping(
            ProgressView::Ask(m, request),
            disk,
            fresh,
            base,
            before,
            files,
            source,
            out,
            target,
            dec,
            passphrase,
            bad,
            bytes,
        ),
    ensures
        ({
            let (reply, after) = served(disk, fresh, request);
            let next = import_step(m, reply, crypt_of(import_crypt_call(m, reply), dec, dec));
            &&& import_stopping(
                next,
                after,
                fresh,
                base,
                before,
                files,
                source,
                out,
                target,
                dec,
                passphrase,
                bad,
                bytes,
            )
            &&& import_stop_rank(next, world_of(base, fresh), out, files, target, bad as nat) + 1
                <= import_stop_rank(
                ProgressView::Ask(m, request),
                world_of(base, fresh),
                out,
                files,
                target,
                bad as nat,
            )
        }),
{
    reveal_strlit("age");
    let world = world_of(base, fresh);
    let (reply, after) = served(disk, fresh, request);
    match m.stage {
        ImportStageView::Files(file) => {
            let index = m.index as int;
            if index < bad {
                let rel = files[index];
                let at = places(rel, source, out);
                let src = source_of(before, at);
                assert(places_ready(at, rel, target));
                assert(exported_one(disk, before, at, dec, passphrase)) by {
                    assert(exported(disk, at, src, dec, passphrase));
                }
                lemma_import_file_step_restores(
                    file,
                    request,
                    disk,
                    fresh,
                    rel,
                    target,
                    at,
                    src,
                    dec,
                    passphrase,
                );
                lemma_import_file_step_keeps_until(
                    file,
                    request,
                    disk,
                    fresh,
                    before,
                    files,
                    index,
                    source,
                    out,
                    target,
                    dec,
                    passphrase,
                    bad,
                    bytes,
                );
                assert(import_crypt_call(m, reply) == import_file_crypt_call(file, reply));
            }
        },
        ImportStageView::VerifyingSource(v) => {
            assert(world(request) == served(disk, fresh, request).0);
        },
        _ => {},
    }
}

/// From any point at which `import_stopping` holds, an import ends with an
/// error, and the secret that does not decrypt is not in the tree imported into.
pub proof fn lemma_import_stop_run(
    p: ProgressView<ImportView, ImportErrorView>,
    disk: Map<Seq<char>, Node>,
    fresh: FileMeta,
    base: Map<Seq<char>, Node>,
    before: Map<Seq<char>, Node>,
    files: Seq<Seq<char>>,
    source: Seq<char>,
    out: Seq<char>,
    target: Seq<char>,
    dec: spec_fn(Seq<u8>, Seq<char>) -> Result<Seq<u8>, Seq<char>>,
    passphrase: Seq<char>,
    bad: int,
    bytes: Seq<u8>,
    steps: nat,
)
    requires
        0 <= bad < files.len(),
        import_apart(files, source, out, target),
        awaiting_until(base, before, files, source, out, target, dec, passphrase, 0, bad, bytes),
        dec(bytes, passphrase) is Err,
        import_stopping(
            p,
            disk,
            fresh,
            base,
            before,
            files,
            source,
            out,
            target,
            dec,
            passphrase,
            bad,
            bytes,
        ),
        steps >= import_stop_rank(p, world_of(base, fresh), out, files, target, bad as nat),
    ensures
        import_on(p, disk, fresh, dec, steps).0 matches ProgressView::Finished(Err(_)),
        absent(import_on(p, disk, fresh, dec, steps).1, files[bad], target),
    decreases steps,
{
    match p {
        ProgressView::Finished(_) => {
            assert(import_on(p, disk, fresh, dec, steps) == (p, disk));
        },
        ProgressView::Ask(m, request) => {
            lemma_import_step_stops(
                m,
                request,
                disk,
                fresh,
                base,
                before,
                files,
                source,
                out,
                target,
                dec,
                passphrase,
                bad,
                bytes,
            );
            let (reply, after) = served(disk, fresh, request);
            lemma_import_stop_run(
                import_step(m, reply, crypt_of(import_crypt_call(m, reply), dec, dec)),
                after,
                fresh,
                base,
                before,
                files,
                source,
                out,
                target,
                dec,
                passphrase,
                bad,
                bytes,
                (steps - 1) as nat,
            );
        },
    }
}

/// No plaintext for a secret that does not decrypt, wherever it stands in
/// the profile. On a file system that never fails where an operation can
/// be done: where the encrypted file of one secret holds bytes that do not
/// decrypt under the passphrase, as after a change of a byte, while the
/// secrets before it stand in the export as the source had them, and the
/// places of the tree imported into are told apart, the import ends with an
/// error, whatever the check of the export against its manifest finds and
/// whatever links are wanted, and neither that secret nor its sidecar
/// stands in the tree imported into.
pub proof fn lemma_undecryptable_secret_is_not_imported(
    files: Seq<Seq<char>>,
    source: Seq<char>,
    out: Seq<char>,
    target: Seq<char>,
    passphrase: Seq<char>,
    links: Option<Seq<char>>,
    before: Map<Seq<char>, Node>,
    disk: Map<Seq<char>, Node>,
    fresh: FileMeta,
    dec: spec_fn(Seq<u8>, Seq<char>) -> Result<Seq<u8>, Seq<char>>,
    bad: int,
    bytes: Seq<u8>,
    steps: nat,
)
    requires
        0 <= bad < files.len(),
        import_apart(files, source, out, target),
        awaiting_until(disk, before, files, source, out, target, dec, passphrase, 0, bad, bytes),
        dec(bytes, passphrase) is Err,
        steps >= 5 + verify_budget(world_of(disk, fresh), out) + files_budget_to(
            files,
            target,
            0,
            bad as nat,
        ),
    ensures
        ({
            let end = import_on(
                ProgressView::Ask(
                    import_start(files, out, target, passphrase, links).0,
                    import_start(files, out, target, passphrase, links).1,
                ),
                disk,
                fresh,
                dec,
                steps,
            );
            &&& end.0 matches ProgressView::Finished(Err(_))
            &&& absent(end.1, files[bad], target)
        }),
{
    lemma_import_stop_run(
        ProgressView::Ask(
            import_start(files, out, target, passphrase, links).0,
            import_start(files, out, target, passphrase, links).1,
        ),
        disk,
        fresh,
        disk,
        before,
        files,
        source,
        out,
        target,
        dec,
        passphrase,
        bad,
        bytes,
        steps,
    );
}

} // verus!
