//! The vocabulary between the pipelines and whoever touches the file system
//! for them. A pipeline asks for one operation at a time with a `Request`
//! and is resumed with the `Reply`; it never performs an operation itself.

use vstd::prelude::*;
use vstd::string::*;

verus! {

/// The owner of a file and its permission bits.
#[derive(Debug, Clone, Copy, PartialEq, Eq)]
pub struct FileMeta {
    /// The user that owns the file.
    pub uid: u32,
    /// The group that owns the file.
    pub gid: u32,
    /// The permission bits of the file.
    pub mode: u32,
}

/// One file-system operation that a pipeline asks for.
#[derive(Debug, Clone, PartialEq, Eq)]
pub enum Request {
    /// Does anything exist at `path`? Answered by `Reply::Flag`.
    Exists { path: String },
    /// Is `path` a directory? Answered by `Reply::Flag`.
    IsDir { path: String },
    /// Read the file at `path`. Answered by `Reply::Bytes`.
    Read { path: String },
    /// Read the file at `path` as text. Answered by `Reply::Text`.
    ReadText { path: String },
    /// Write `content` to the file at `path`. Answered by `Reply::Done`.
    Write { path: String, content: Vec<u8> },
    /// Write `text` to the file at `path`. Answered by `Reply::Done`.
    WriteText { path: String, text: String },
    /// Create the directory `path`. Answered by `Reply::Done`.
    CreateDir { path: String },
    /// Create the directory `path` and its missing parents. Answered by `Reply::Done`.
    CreateDirAll { path: String },
    /// Give `path` to user `uid` and group `gid`. Answered by `Reply::Done`.
    Chown { path: String, uid: u32, gid: u32 },
    /// Set the permission bits of `path` to `mode`. Answered by `Reply::Done`.
    Chmod { path: String, mode: u32 },
    /// Copy the file at `from` to `to`. Answered by `Reply::Done`.
    Copy { from: String, to: String },
    /// Who owns `path`, and what are its permission bits? Answered by `Reply::Meta`.
    Stat { path: String },
    /// What is at `path`, itself and not what it may point to? Answered by
    /// `Reply::Link` where a symbolic link is, by `Reply::Flag`
    /// elsewhere: `true` where anything else is, `false` where nothing is.
    ReadLink { path: String },
    /// Create at `link` a symbolic link to `file`. Answered by `Reply::Done`.
    Symlink { file: String, link: String },
}

/// What `Request` holds, as mathematical values.
pub enum RequestView {
    Exists { path: Seq<char> },
    IsDir { path: Seq<char> },
    Read { path: Seq<char> },
    ReadText { path: Seq<char> },
    Write { path: Seq<char>, content: Seq<u8> },
    WriteText { path: Seq<char>, text: Seq<char> },
    CreateDir { path: Seq<char> },
    CreateDirAll { path: Seq<char> },
    Chown { path: Seq<char>, uid: u32, gid: u32 },
    Chmod { path: Seq<char>, mode: u32 },
    Copy { from: Seq<char>, to: Seq<char> },
    Stat { path: Seq<char> },
    ReadLink { path: Seq<char> },
    Symlink { file: Seq<char>, link: Seq<char> },
}

impl View for Request {
    type V = RequestView;

    open spec fn view(&self) -> RequestView {
        match self {
            Request::Exists { path } => RequestView::Exists { path: path@ },
            Request::IsDir { path } => RequestView::IsDir { path: path@ },
            Request::Read { path } => RequestView::Read { path: path@ },
            Request::ReadText { path } => RequestView::ReadText { path: path@ },
            Request::Write { path, content } => RequestView::Write {
                path: path@,
                content: content@,
            },
            Request::WriteText { path, text } => RequestView::WriteText {
                path: path@,
                text: text@,
            },
            Request::CreateDir { path } => RequestView::CreateDir { path: path@ },
            Request::CreateDirAll { path } => RequestView::CreateDirAll { path: path@ },
            Request::Chown { path, uid, gid } => RequestView::Chown {
                path: path@,
                uid: *uid,
                gid: *gid,
            },
            Request::Chmod { path, mode } => RequestView::Chmod { path: path@, mode: *mode },
            Request::Copy { from, to } => RequestView::Copy { from: from@, to: to@ },
            Request::Stat { path } => RequestView::Stat { path: path@ },
            Request::ReadLink { path } => RequestView::ReadLink { path: path@ },
            Request::Symlink { file, link } => RequestView::Symlink {
                file: file@,
                link: link@,
            },
        }
    }
}

/// The outcome of one operation.
#[derive(Debug, Clone, PartialEq, Eq)]
pub enum Reply {
    /// The answer to a yes-or-no question.
    Flag(bool),
    /// What a file holds.
    Bytes(Vec<u8>),
    /// What a file holds, read as text.
    Text(String),
    /// Where a symbolic link points.
    Link(String),
    /// Who owns a file, and its permission bits.
    Meta(FileMeta),
    /// The operation was carried out.
    Done,
    /// The operation failed, with the reason.
    Failed(String),
}

/// What `Reply` holds, as mathematical values.
pub enum ReplyView {
    Flag(bool),
    Bytes(Seq<u8>),
    Text(Seq<char>),
    Link(Seq<char>),
    Meta(FileMeta),
    Done,
    Failed(Seq<char>),
}

impl View for Reply {
    type V = ReplyView;

    open spec fn view(&self) -> ReplyView {
        match self {
            Reply::Flag(b) => ReplyView::Flag(*b),
            Reply::Bytes(b) => ReplyView::Bytes(b@),
            Reply::Text(t) => ReplyView::Text(t@),
            Reply::Link(t) => ReplyView::Link(t@),
            Reply::Meta(meta) => ReplyView::Meta(*meta),
            Reply::Done => ReplyView::Done,
            Reply::Failed(reason) => ReplyView::Failed(reason@),
        }
    }
}

/// The reason recorded when a reply is not of the kind that the request
/// calls for.
pub open spec fn unexpected() -> Seq<char> {
    "unexpected reply"@
}

impl ReplyView {
    /// The reply read as the answer to a yes-or-no question: anything but a
    /// plain yes counts as no.
    pub open spec fn flag(self) -> bool {
        self == ReplyView::Flag(true)
    }

    /// The reply read as the content of a file, or the reason why there is none.
    pub open spec fn bytes(self) -> Result<Seq<u8>, Seq<char>> {
        match self {
            ReplyView::Bytes(b) => Ok(b),
            ReplyView::Failed(reason) => Err(reason),
            _ => Err(unexpected()),
        }
    }

    /// The reply read as the text of a file, or the reason why there is none.
    pub open spec fn text(self) -> Result<Seq<char>, Seq<char>> {
        match self {
            ReplyView::Text(t) => Ok(t),
            ReplyView::Failed(reason) => Err(reason),
            _ => Err(unexpected()),
        }
    }

    /// The reply read as owner and permission bits, or the reason why there
    /// are none.
    pub open spec fn meta(self) -> Result<FileMeta, Seq<char>> {
        match self {
            ReplyView::Meta(meta) => Ok(meta),
            ReplyView::Failed(reason) => Err(reason),
            _ => Err(unexpected()),
        }
    }

    /// The reply read as the completion of an operation, or the reason why
    /// it was not carried out.
    pub open spec fn done(self) -> Result<(), Seq<char>> {
        match self {
            ReplyView::Done => Ok(()),
            ReplyView::Failed(reason) => Err(reason),
            _ => Err(unexpected()),
        }
    }
}

impl Reply {
    /// The reply read as the answer to a yes-or-no question.
    pub fn into_flag(self) -> (r: bool)
        ensures
            r == self@.flag(),
    {
        match self {
            Reply::Flag(b) => b,
            _ => false,
        }
    }

    /// The reply read as the content of a file.
    pub fn into_bytes(self) -> (r: Result<Vec<u8>, String>)
        ensures
            match r {
                Ok(b) => self@.bytes() == Ok::<Seq<u8>, Seq<char>>(b@),
                Err(reason) => self@.bytes() == Err::<Seq<u8>, Seq<char>>(reason@),
            },
    {
        match self {
            Reply::Bytes(b) => Ok(b),
            Reply::Failed(reason) => Err(reason),
            _ => Err(String::from_str("unexpected reply")),
        }
    }

    /// The reply read as the text of a file.
    pub fn into_text(self) -> (r: Result<String, String>)
        ensures
            match r {
                Ok(t) => self@.text() == Ok::<Seq<char>, Seq<char>>(t@),
                Err(reason) => self@.text() == Err::<Seq<char>, Seq<char>>(reason@),
            },
    {
        match self {
            Reply::Text(t) => Ok(t),
            Reply::Failed(reason) => Err(reason),
            _ => Err(String::from_str("unexpected reply")),
        }
    }

    /// The reply read as owner and permission bits.
    pub fn into_meta(self) -> (r: Result<FileMeta, String>)
        ensures
            match r {
                Ok(meta) => self@.meta() == Ok::<FileMeta, Seq<char>>(meta),
                Err(reason) => self@.meta() == Err::<FileMeta, Seq<char>>(reason@),
            },
    {
        match self {
            Reply::Meta(meta) => Ok(meta),
            Reply::Failed(reason) => Err(reason),
            _ => Err(String::from_str("unexpected reply")),
        }
    }

    /// The reply read as the completion of an operation.
    pub fn into_done(self) -> (r: Result<(), String>)
        ensures
            match r {
                Ok(_) => self@.done() is Ok,
                Err(reason) => self@.done() == Err::<(), Seq<char>>(reason@),
            },
    {
        match self {
            Reply::Done => Ok(()),
            Reply::Failed(reason) => Err(reason),
            _ => Err(String::from_str("unexpected reply")),
        }
    }
}

/// Where a pipeline stands after a step: it asks for the next operation, or
/// it has finished.
#[derive(Debug)]
pub enum Progress<M, E> {
    /// The pipeline goes on in state `M` once the request is answered.
    Ask(M, Request),
    /// The pipeline has ended, well or with an error.
    Finished(Result<(), E>),
}

/// What `Progress` holds, as mathematical values.
pub enum ProgressView<M, E> {
    Ask(M, RequestView),
    Finished(Result<(), E>),
}

impl<M: View, E: View> View for Progress<M, E> {
    type V = ProgressView<M::V, E::V>;

    open spec fn view(&self) -> ProgressView<M::V, E::V> {
        match self {
            Progress::Ask(m, request) => ProgressView::Ask(m@, request@),
            Progress::Finished(Ok(_)) => ProgressView::Finished(Ok(())),
            Progress::Finished(Err(e)) => ProgressView::Finished(Err(e@)),
        }
    }
}

} // verus!
