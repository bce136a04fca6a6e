//! The safe-write guard: a file is written only where none exists, and an
//! existing file is accepted only when it already holds the same bytes.

use crate::effects::{Progress, ProgressView, Reply, ReplyView, Request, RequestView};
use vstd::prelude::*;
use vstd::string::*;

verus! {

/// Why a safe write did not go through.
#[derive(Debug, Clone, PartialEq, Eq)]
pub enum SafeFsError {
    /// The existing file at the path could not be read, for the reason given.
    ReadExisting(String, String),
    /// The file at the path exists and holds other content.
    ContentMismatch(String),
    /// The file at the path could not be written, for the reason given.
    Write(String, String),
}

/// What `SafeFsError` holds, as mathematical values.
pub enum SafeFsErrorView {
    ReadExisting(Seq<char>, Seq<char>),
    ContentMismatch(Seq<char>),
    Write(Seq<char>, Seq<char>),
}

impl View for SafeFsError {
    type V = SafeFsErrorView;

    open spec fn view(&self) -> SafeFsErrorView {
        match self {
            SafeFsError::ReadExisting(p, r) => SafeFsErrorView::ReadExisting(p@, r@),
            SafeFsError::ContentMismatch(p) => SafeFsErrorView::ContentMismatch(p@),
            SafeFsError::Write(p, r) => SafeFsErrorView::Write(p@, r@),
        }
    }
}

/// Where a safe write stands.
#[derive(Debug, Clone, Copy, PartialEq, Eq)]
pub enum SafeWriteStage {
    /// Asked whether the file exists.
    Probing,
    /// Asked for the content of the existing file.
    ReadingExisting,
    /// Asked to write the file.
    Writing,
}

/// The safe write of `content` to `path`.
#[derive(Debug, Clone)]
pub struct SafeWrite {
    pub stage: SafeWriteStage,
    pub path: String,
    pub content: Vec<u8>,
}

/// What `SafeWrite` holds, as mathematical values.
pub struct SafeWriteView {
    pub stage: SafeWriteStage,
    pub path: Seq<char>,
    pub content: Seq<u8>,
}

impl View for SafeWrite {
    type V = SafeWriteView;

    open spec fn view(&self) -> SafeWriteView {
        SafeWriteView { stage: self.stage, path: self.path@, content: self.content@ }
    }
}

/// The first step of a safe write: ask whether the file exists.
pub open spec fn safe_write_start(path: Seq<char>, content: Seq<u8>) -> (
    SafeWriteView,
    RequestView,
) {
    (SafeWriteView { stage: SafeWriteStage::Probing, path, content }, RequestView::Exists { path })
}

/// One step of a safe write. A file that does not exist is written; one
/// that exists is read and compared byte by byte, and never written.
pub open spec fn safe_write_step(m: SafeWriteView, reply: ReplyView) -> ProgressView<
    SafeWriteView,
    SafeFsErrorView,
> {
    match m.stage {
        SafeWriteStage::Probing => if reply.flag() {
            ProgressView::Ask(
                SafeWriteView { stage: SafeWriteStage::ReadingExisting, ..m },
                RequestView::Read { path: m.path },
            )
        } else {
            ProgressView::Ask(
                SafeWriteView { stage: SafeWriteStage::Writing, ..m },
                RequestView::Write { path: m.path, content: m.content },
            )
        },
        SafeWriteStage::ReadingExisting => match reply.bytes() {
            Err(reason) => ProgressView::Finished(
                Err(SafeFsErrorView::ReadExisting(m.path, reason)),
            ),
            Ok(existing) => if existing == m.content {
                ProgressView::Finished(Ok(()))
            } else {
                ProgressView::Finished(Err(SafeFsErrorView::ContentMismatch(m.path)))
            },
        },
        SafeWriteStage::Writing => match reply.done() {
            Err(reason) => ProgressView::Finished(Err(SafeFsErrorView::Write(m.path, reason))),
            Ok(_) => ProgressView::Finished(Ok(())),
        },
    }
}

/// Decides whether two byte vectors hold the same bytes.
pub fn same_bytes(a: &Vec<u8>, b: &Vec<u8>) -> (r: bool)
    ensures
        r == (a@ == b@),
{
    if a.len() != b.len() {
        return false;
    }
    let mut i: usize = 0;
    while i < a.len()
        invariant
            i <= a.len(),
            a.len() == b.len(),
            forall|k: int| 0 <= k < i ==> a@[k] == b@[k],
        decreases a.len() - i,
    {
        if a[i] != b[i] {
            return false;
        }
        i = i + 1;
    }
    assert(a@ =~= b@);
    true
}

/// Starts the safe write of `content` to `path`.
pub fn safe_write(path: &str, content: Vec<u8>) -> (r: (SafeWrite, Request))
    ensures
        (r.0@, r.1@) == safe_write_start(path@, content@),
{
    (
        SafeWrite { stage: SafeWriteStage::Probing, path: String::from_str(path), content },
        Request::Exists { path: String::from_str(path) },
    )
}

impl SafeWrite {
    /// Takes the reply to the last request and makes the next step.
    pub fn resume(self, reply: Reply) -> (p: Progress<SafeWrite, SafeFsError>)
        ensures
            p@ == safe_write_step(self@, reply@),
    {
        let mut m = self;
        match m.stage {
            SafeWriteStage::Probing => {
                let path = m.path.clone();
                if reply.into_flag() {
                    m.stage = SafeWriteStage::ReadingExisting;
                    Progress::Ask(m, Request::Read { path })
                } else {
                    m.stage = SafeWriteStage::Writing;
                    let content = m.content.clone();
                    Progress::Ask(m, Request::Write { path, content })
                }
            },
            SafeWriteStage::ReadingExisting => match reply.into_bytes() {
                Err(reason) => Progress::Finished(Err(SafeFsError::ReadExisting(m.path, reason))),
                Ok(existing) => {
                    if same_bytes(&existing, &m.content) {
                        Progress::Finished(Ok(()))
                    } else {
                        Progress::Finished(Err(SafeFsError::ContentMismatch(m.path)))
                    }
                },
            },
            SafeWriteStage::Writing => match reply.into_done() {
                Err(reason) => Progress::Finished(Err(SafeFsError::Write(m.path, reason))),
                Ok(_) => Progress::Finished(Ok(())),
            },
        }
    }
}

/// A file system that holds `file` at the one path it is asked about and
/// never fails: the reply it gives to a request, and what it holds after.
pub open spec fn served(file: Option<Seq<u8>>, request: RequestView) -> (
    ReplyView,
    Option<Seq<u8>>,
) {
    match request {
        RequestView::Exists { path } => (ReplyView::Flag(file is Some), file),
        RequestView::Read { path } => match file {
            Some(content) => (ReplyView::Bytes(content), file),
            None => (ReplyView::Failed(Seq::empty()), file),
        },
        RequestView::Write { path, content } => (ReplyView::Done, Some(content)),
        _ => (ReplyView::Failed(Seq::empty()), file),
    }
}

/// The safe write that has just been started, as a pipeline in progress.
pub open spec fn safe_write_asked(path: Seq<char>, content: Seq<u8>) -> ProgressView<
    SafeWriteView,
    SafeFsErrorView,
> {
    ProgressView::Ask(safe_write_start(path, content).0, safe_write_start(path, content).1)
}

/// Where a safe write stands, and what the file holds, after at most
/// `steps` requests were served.
pub open spec fn safe_write_run(
    p: ProgressView<SafeWriteView, SafeFsErrorView>,
    file: Option<Seq<u8>>,
    steps: nat,
) -> (ProgressView<SafeWriteView, SafeFsErrorView>, Option<Seq<u8>>)
    decreases steps,
{
    if steps == 0 {
        (p, file)
    } else {
        match p {
            ProgressView::Finished(_) => (p, file),
            ProgressView::Ask(m, request) => {
                let (reply, after) = served(file, request);
                safe_write_run(safe_write_step(m, reply), after, (steps - 1) as nat)
            },
        }
    }
}

/// Safe-write idempotence. On a file that is absent or already holds `x`,
/// a safe write of `x` ends well after two requests and leaves the file
/// holding `x`; so a second safe write of `x` ends well too and changes
/// nothing. A safe write of other bytes `y` on a file that holds `x` fails
/// with `ContentMismatch` and leaves the file holding `x`.
pub proof fn lemma_safe_write_idempotent(
    path: Seq<char>,
    file: Option<Seq<u8>>,
    x: Seq<u8>,
    y: Seq<u8>,
)
    requires
        file is None || file == Some(x),
    ensures
        safe_write_run(safe_write_asked(path, x), file, 2) == (
            ProgressView::<SafeWriteView, SafeFsErrorView>::Finished(Ok(())),
            Some(x),
        ),
        safe_write_run(safe_write_asked(path, x), Some(x), 2) == (
            ProgressView::<SafeWriteView, SafeFsErrorView>::Finished(Ok(())),
            Some(x),
        ),
        y != x ==> safe_write_run(safe_write_asked(path, y), Some(x), 2) == (
            ProgressView::<SafeWriteView, SafeFsErrorView>::Finished(
                Err(SafeFsErrorView::ContentMismatch(path)),
            ),
            Some(x),
        ),
{
    reveal_with_fuel(safe_write_run, 3);
}

} // verus!
