//! The check of an existing export against its manifest.

use crate::checksum::{
    verify_checksums, verify_start, verify_step, ChecksumError, ChecksumErrorView, VerifyChecksums,
    VerifyChecksumsView,
};
use crate::effects::{Progress, ProgressView, Reply, ReplyView, Request, RequestView};
use vstd::prelude::*;
use vstd::string::*;

verus! {

/// Why an export did not pass the check.
#[derive(Debug, Clone, PartialEq, Eq)]
pub enum VerifyExportError {
    /// Nothing exists at the source path.
    MissingSourcePath(String),
    /// The source path is not a directory.
    SourceNotDir(String),
    /// The export does not pass the check against its manifest.
    VerifySource(ChecksumError),
}

/// What `VerifyExportError` holds, as mathematical values.
pub enum VerifyExportErrorView {
    MissingSourcePath(Seq<char>),
    SourceNotDir(Seq<char>),
    VerifySource(ChecksumErrorView),
}

impl View for VerifyExportError {
    type V = VerifyExportErrorView;

    open spec fn view(&self) -> VerifyExportErrorView {
        match self {
            VerifyExportError::MissingSourcePath(p) => VerifyExportErrorView::MissingSourcePath(p@),
            VerifyExportError::SourceNotDir(p) => VerifyExportErrorView::SourceNotDir(p@),
            VerifyExportError::VerifySource(e) => VerifyExportErrorView::VerifySource(e@),
        }
    }
}

/// Where the check of an export stands.
#[derive(Debug, Clone)]
pub enum VerifyExportStage {
    /// Asked whether the source exists.
    ProbingSource,
    /// Asked whether the source is a directory.
    InspectingSource,
    /// The export is being checked against its manifest.
    Verifying(VerifyChecksums),
}

/// What `VerifyExportStage` holds, as mathematical values.
pub enum VerifyExportStageView {
    ProbingSource,
    InspectingSource,
    Verifying(VerifyChecksumsView),
}

impl View for VerifyExportStage {
    type V = VerifyExportStageView;

    open spec fn view(&self) -> VerifyExportStageView {
        match self {
            VerifyExportStage::ProbingSource => VerifyExportStageView::ProbingSource,
            VerifyExportStage::InspectingSource => VerifyExportStageView::InspectingSource,
            VerifyExportStage::Verifying(v) => VerifyExportStageView::Verifying(v@),
        }
    }
}

/// The check of the export at `source`.
#[derive(Debug, Clone)]
pub struct VerifyExport {
    pub stage: VerifyExportStage,
    pub source: String,
}

/// What `VerifyExport` holds, as mathematical values.
pub struct VerifyExportView {
    pub stage: VerifyExportStageView,
    pub source: Seq<char>,
}

impl View for VerifyExport {
    type V = VerifyExportView;

    open spec fn view(&self) -> VerifyExportView {
        VerifyExportView { stage: self.stage@, source: self.source@ }
    }
}

/// The first step of checking the export at `source`: ask whether it exists.
pub open spec fn verify_export_start(source: Seq<char>) -> (VerifyExportView, RequestView) {
    (
        VerifyExportView { stage: VerifyExportStageView::ProbingSource, source },
        RequestView::Exists { path: source },
    )
}

/// One step of checking an export: the source must exist and be a
/// directory, and is then checked against its manifest.
pub open spec fn verify_export_step(m: VerifyExportView, reply: ReplyView) -> ProgressView<
    VerifyExportView,
    VerifyExportErrorView,
> {
    match m.stage {
        VerifyExportStageView::ProbingSource => if reply.flag() {
            ProgressView::Ask(
                VerifyExportView { stage: VerifyExportStageView::InspectingSource, ..m },
                RequestView::IsDir { path: m.source },
            )
        } else {
            ProgressView::Finished(Err(VerifyExportErrorView::MissingSourcePath(m.source)))
        },
        VerifyExportStageView::InspectingSource => if reply.flag() {
            ProgressView::Ask(
                VerifyExportView {
                    stage: VerifyExportStageView::Verifying(verify_start(m.source).0),
                    ..m
                },
                verify_start(m.source).1,
            )
        } else {
            ProgressView::Finished(Err(VerifyExportErrorView::SourceNotDir(m.source)))
        },
        VerifyExportStageView::Verifying(v) => match verify_step(v, reply) {
            ProgressView::Ask(v2, request) => ProgressView::Ask(
                VerifyExportView { stage: VerifyExportStageView::Verifying(v2), ..m },
                request,
            ),
            ProgressView::Finished(Err(e)) => ProgressView::Finished(
                Err(VerifyExportErrorView::VerifySource(e)),
            ),
            ProgressView::Finished(Ok(_)) => ProgressView::Finished(Ok(())),
        },
    }
}

/// Starts the check of the export at `source`.
pub fn verify_export(source: String) -> (r: (VerifyExport, Request))
    ensures
        (r.0@, r.1@) == verify_export_start(source@),
{
    let path = source.clone();
    (VerifyExport { stage: VerifyExportStage::ProbingSource, source }, Request::Exists { path })
}

impl VerifyExport {
    /// Takes the reply to the last request and makes the next step.
    pub fn resume(self, reply: Reply) -> (p: Progress<VerifyExport, VerifyExportError>)
        ensures
            p@ == verify_export_step(self@, reply@),
    {
        let mut m = self;
        match m.stage {
            VerifyExportStage::ProbingSource => {
                if reply.into_flag() {
                    m.stage = VerifyExportStage::InspectingSource;
                    let path = m.source.clone();
                    Progress::Ask(m, Request::IsDir { path })
                } else {
                    Progress::Finished(Err(VerifyExportError::MissingSourcePath(m.source)))
                }
            },
            VerifyExportStage::InspectingSource => {
                if reply.into_flag() {
                    let start = verify_checksums(m.source.as_str());
                    m.stage = VerifyExportStage::Verifying(start.0);
                    Progress::Ask(m, start.1)
                } else {
                    Progress::Finished(Err(VerifyExportError::SourceNotDir(m.source)))
                }
            },
            VerifyExportStage::Verifying(v) => match v.resume(reply) {
                Progress::Ask(v2, request) => {
                    m.stage = VerifyExportStage::Verifying(v2);
                    Progress::Ask(m, request)
                },
                Progress::Finished(Err(e)) => Progress::Finished(
                    Err(VerifyExportError::VerifySource(e)),
                ),
                Progress::Finished(Ok(_)) => Progress::Finished(Ok(())),
            },
        }
    }
}

} // verus!
