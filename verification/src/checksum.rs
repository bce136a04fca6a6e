//! The integrity manifest of a directory: one line per file with the
//! SHA-256 digest of its content, and the sidecar files that record the
//! digest of a single file.

use crate::effects::{Progress, ProgressView, Reply, ReplyView, Request, RequestView};
use crate::text::{
    char_views, chars_of, drop_spaces, is_plain_line, is_space, join_lines, lemma_lines_of_join,
    lines_of, push_chars, same_text, skip_spaces, split_lines, string_of, sub_vec, trim_bounds,
    trimmed,
};
use crate::utf8path_ext::{extended, is_same_path, join, joined, same_path, ExtraUtf8Path};
use vstd::prelude::*;
use vstd::string::*;

verus! {

/// One line of a manifest: the digest of a file and the path of that file
/// relative to the manifest's directory.
#[derive(Debug, Clone, PartialEq, Eq)]
pub struct ManifestEntry {
    pub digest: String,
    pub path: String,
}

/// What `ManifestEntry` holds, as mathematical values.
pub struct ManifestEntryView {
    pub digest: Seq<char>,
    pub path: Seq<char>,
}

impl View for ManifestEntry {
    type V = ManifestEntryView;

    open spec fn view(&self) -> ManifestEntryView {
        ManifestEntryView { digest: self.digest@, path: self.path@ }
    }
}

/// The views of a list of entries.
pub open spec fn entry_views(entries: Seq<ManifestEntry>) -> Seq<ManifestEntryView> {
    entries.map_values(|e: ManifestEntry| e@)
}

/// The name of the manifest file inside the directory it describes.
pub open spec fn manifest_name() -> Seq<char> {
    "sha256sums.txt"@
}

/// The extension of the sidecar that records the digest of one file.
pub open spec fn sidecar_extension() -> Seq<char> {
    "sha256"@
}

/// True when `c` is one of the sixteen lowercase hexadecimal digits.
pub open spec fn is_hex_digit(c: char) -> bool {
    ('0' <= c && c <= '9') || ('a' <= c && c <= 'f')
}

/// A digest as the manifest writes it: 64 lowercase hexadecimal digits.
pub open spec fn is_digest(d: Seq<char>) -> bool {
    &&& d.len() == 64
    &&& forall|i: int| 0 <= i < 64 ==> is_hex_digit(#[trigger] d[i])
}

/// The line grammar: a digest, two spaces, and a path of at least one
/// character that holds no line feed.
pub open spec fn is_entry_line(line: Seq<char>) -> bool {
    &&& line.len() > 66
    &&& forall|i: int| 0 <= i < 64 ==> is_hex_digit(#[trigger] line[i])
    &&& line[64] == ' '
    &&& line[65] == ' '
    &&& forall|i: int| 66 <= i < line.len() ==> #[trigger] line[i] != '\n'
}

/// The entry that a line of the grammar records.
pub open spec fn entry_of(line: Seq<char>) -> ManifestEntryView {
    ManifestEntryView { digest: line.subrange(0, 64), path: line.subrange(66, line.len() as int) }
}

/// The line that records `digest` for `path`.
pub open spec fn entry_line(digest: Seq<char>, path: Seq<char>) -> Seq<char> {
    digest + seq![' ', ' '] + path
}

/// Every line follows the grammar.
pub open spec fn all_entry_lines(lines: Seq<Seq<char>>) -> bool {
    forall|k: int| 0 <= k < lines.len() ==> is_entry_line(#[trigger] lines[k])
}

/// The entries of a manifest text, or `None` when one of its lines does not
/// follow the grammar.
pub open spec fn parsed_manifest(text: Seq<char>) -> Option<Seq<ManifestEntryView>> {
    let lines = lines_of(text);
    if all_entry_lines(lines) {
        Some(lines.map_values(|l: Seq<char>| entry_of(l)))
    } else {
        None
    }
}

/// The lines that stay when an entry for `path` is about to be added: those
/// that record another path, in their order.
pub open spec fn kept_lines(lines: Seq<Seq<char>>, path: Seq<char>) -> Seq<Seq<char>>
    decreases lines.len(),
{
    if lines.len() == 0 {
        Seq::empty()
    } else if is_same_path(entry_of(lines.last()).path, path) {
        kept_lines(lines.drop_last(), path)
    } else {
        kept_lines(lines.drop_last(), path).push(lines.last())
    }
}

/// The manifest text after `line`, an entry for `path`, has been added to
/// the manifest text `old`: earlier entries for that path leave, the new
/// line comes last. `None` when a line of `old` does not follow the grammar.
pub open spec fn appended_text(old: Seq<char>, line: Seq<char>, path: Seq<char>) -> Option<
    Seq<char>,
> {
    let lines = lines_of(old);
    if all_entry_lines(lines) {
        Some(join_lines(kept_lines(lines, path).push(line)))
    } else {
        None
    }
}

/// The SHA-256 digest of `content`, as `sha256::digest` writes it.
pub uninterp spec fn sha256_hex(content: Seq<u8>) -> Seq<char>;

/// Calls `sha256::digest`. Believed: the result is a function of the bytes
/// alone, and it is the hex encoding of 32 bytes in lowercase digits.
#[verifier::external_body]
pub(crate) fn digest(content: &[u8]) -> (r: String)
    ensures
        r@ == sha256_hex(content@),
        is_digest(r@),
{
    sha256::digest(content)
}

/// Decides whether `c` is a lowercase hexadecimal digit.
pub fn hex_digit(c: char) -> (r: bool)
    ensures
        r == is_hex_digit(c),
{
    ('0' <= c && c <= '9') || ('a' <= c && c <= 'f')
}

/// Reads one line against the grammar.
pub fn parse_line(line: &Vec<char>) -> (r: Option<ManifestEntry>)
    ensures
        match r {
            Some(e) => is_entry_line(line@) && e@ == entry_of(line@),
            None => !is_entry_line(line@),
        },
{
    let n = line.len();
    if n <= 66 {
        return None;
    }
    let mut i: usize = 0;
    while i < 64
        invariant
            i <= 64,
            n == line.len(),
            n > 66,
            forall|k: int| 0 <= k < i ==> is_hex_digit(#[trigger] line@[k]),
        decreases 64 - i,
    {
        if !hex_digit(line[i]) {
            return None;
        }
        i = i + 1;
    }
    if line[64] != ' ' || line[65] != ' ' {
        return None;
    }
    let mut j: usize = 66;
    while j < n
        invariant
            66 <= j <= n,
            n == line.len(),
            forall|k: int| 66 <= k < j ==> #[trigger] line@[k] != '\n',
        decreases n - j,
    {
        if line[j] == '\n' {
            return None;
        }
        j = j + 1;
    }
    let digest = string_of(line, 0, 64);
    let path = string_of(line, 66, n);
    Some(ManifestEntry { digest, path })
}

/// Reads a manifest text into its entries.
pub fn parse_manifest(text: &str) -> (r: Option<Vec<ManifestEntry>>)
    ensures
        match r {
            Some(entries) => parsed_manifest(text@) == Some(entry_views(entries@)),
            None => parsed_manifest(text@) is None,
        },
{
    let lines = split_lines(text);
    let mut entries: Vec<ManifestEntry> = Vec::new();
    let mut k: usize = 0;
    while k < lines.len()
        invariant
            k <= lines.len(),
            char_views(lines@) == lines_of(text@),
            entries.len() == k,
            forall|j: int| 0 <= j < k ==> is_entry_line(#[trigger] lines_of(text@)[j]),
            forall|j: int| 0 <= j < k ==> (#[trigger] entries@[j])@ == entry_of(lines_of(text@)[j]),
        decreases lines.len() - k,
    {
        proof {
            assert(char_views(lines@)[k as int] == lines@[k as int]@);
        }
        match parse_line(&lines[k]) {
            None => {
                return None;
            },
            Some(entry) => {
                entries.push(entry);
            },
        }
        k = k + 1;
    }
    proof {
        assert(char_views(lines@).len() == lines@.len());
        assert(entry_views(entries@) =~= lines_of(text@).map_values(|l: Seq<char>| entry_of(l)));
    }
    Some(entries)
}

/// Writes the line that records `digest` for `path`.
pub fn render_line(digest: &str, path: &str) -> (r: String)
    ensures
        r@ == entry_line(digest@, path@),
{
    proof {
        reveal_strlit("  ");
        assert("  "@ =~= seq![' ', ' ']);
    }
    String::from_str(digest).concat("  ").concat(path)
}

/// Adds `line`, an entry for `path`, to the manifest text `old`.
pub fn append_entry(old: &str, line: &str, path: &str) -> (r: Option<String>)
    ensures
        match r {
            Some(t) => appended_text(old@, line@, path@) == Some(t@),
            None => appended_text(old@, line@, path@) is None,
        },
{
    let lines = split_lines(old);
    let mut out = String::new();
    let mut k: usize = 0;
    let ghost all = lines_of(old@);
    assert(all.take(0) =~= Seq::<Seq<char>>::empty());
    while k < lines.len()
        invariant
            k <= lines.len(),
            all == lines_of(old@),
            char_views(lines@) == all,
            forall|j: int| 0 <= j < k ==> is_entry_line(#[trigger] all[j]),
            out@ == join_lines(kept_lines(all.take(k as int), path@)),
        decreases lines.len() - k,
    {
        proof {
            assert(char_views(lines@)[k as int] == lines@[k as int]@);
            assert(all.take(k + 1).drop_last() =~= all.take(k as int));
            assert(all.take(k + 1).last() == all[k as int]);
        }
        match parse_line(&lines[k]) {
            None => {
                return None;
            },
            Some(entry) => {
                if !same_path(entry.path.as_str(), path) {
                    proof {
                        assert(kept_lines(all.take(k + 1), path@).drop_last() =~= kept_lines(
                            all.take(k as int),
                            path@,
                        ));
                    }
                    push_chars(&mut out, &lines[k]);
                    out.push('\n');
                    proof {
                        assert(out@ =~= join_lines(kept_lines(all.take(k as int), path@)) + all[k as int]
                            + seq!['\n']);
                    }
                }
            },
        }
        k = k + 1;
    }
    proof {
        assert(char_views(lines@).len() == lines@.len());
        assert(all.take(k as int) =~= all);
        assert(kept_lines(all, path@).push(line@).drop_last() =~= kept_lines(all, path@));
    }
    out.append(line);
    out.push('\n');
    proof {
        assert(out@ =~= join_lines(kept_lines(all, path@)) + line@ + seq!['\n']);
    }
    Some(out)
}

/// Why a manifest or a sidecar could not vouch for a file.
#[derive(Debug, Clone, PartialEq, Eq)]
pub enum ChecksumError {
    /// The file at the path could not be read, for the reason given.
    ReadSource(String, String),
    /// No manifest or sidecar exists at the path.
    MissingChecksum(String),
    /// The manifest or sidecar at the path could not be read, for the reason given.
    ReadChecksum(String, String),
    /// The manifest or sidecar at the path holds a line outside the grammar.
    IllFormattedChecksum(String),
    /// The manifest at the path could not be written, for the reason given.
    WriteChecksum(String, String),
    /// The file at the first path does not have the digest that the
    /// manifest or sidecar at the second path records for it.
    ChecksumMismatch(String, String),
}

/// What `ChecksumError` holds, as mathematical values.
pub enum ChecksumErrorView {
    ReadSource(Seq<char>, Seq<char>),
    MissingChecksum(Seq<char>),
    ReadChecksum(Seq<char>, Seq<char>),
    IllFormattedChecksum(Seq<char>),
    WriteChecksum(Seq<char>, Seq<char>),
    ChecksumMismatch(Seq<char>, Seq<char>),
}

impl View for ChecksumError {
    type V = ChecksumErrorView;

    open spec fn view(&self) -> ChecksumErrorView {
        match self {
            ChecksumError::ReadSource(p, r) => ChecksumErrorView::ReadSource(p@, r@),
            ChecksumError::MissingChecksum(p) => ChecksumErrorView::MissingChecksum(p@),
            ChecksumError::ReadChecksum(p, r) => ChecksumErrorView::ReadChecksum(p@, r@),
            ChecksumError::IllFormattedChecksum(p) => ChecksumErrorView::IllFormattedChecksum(p@),
            ChecksumError::WriteChecksum(p, r) => ChecksumErrorView::WriteChecksum(p@, r@),
            ChecksumError::ChecksumMismatch(f, c) => ChecksumErrorView::ChecksumMismatch(f@, c@),
        }
    }
}

/// Where the check of one file against its sidecar stands.
#[derive(Debug, Clone, Copy, PartialEq, Eq)]
pub enum VerifyFileStage {
    /// Asked whether the sidecar exists.
    Probing,
    /// Asked for the text of the sidecar.
    ReadingSidecar,
    /// Asked for the content of the file.
    ReadingFile,
}

/// The check of one file against the sidecar beside it.
#[derive(Debug, Clone)]
pub struct VerifyFileChecksum {
    pub stage: VerifyFileStage,
    /// The file to check.
    pub file: String,
    /// The sidecar that records its digest.
    pub sidecar: String,
    /// The digest read from the sidecar; empty before that.
    pub expected: String,
}

/// What `VerifyFileChecksum` holds, as mathematical values.
pub struct VerifyFileChecksumView {
    pub stage: VerifyFileStage,
    pub file: Seq<char>,
    pub sidecar: Seq<char>,
    pub expected: Seq<char>,
}

impl View for VerifyFileChecksum {
    type V = VerifyFileChecksumView;

    open spec fn view(&self) -> VerifyFileChecksumView {
        VerifyFileChecksumView {
            stage: self.stage,
            file: self.file@,
            sidecar: self.sidecar@,
            expected: self.expected@,
        }
    }
}

/// The first step of checking the file `file_rel_path` of `dir` against its
/// sidecar: ask whether the sidecar exists.
pub open spec fn verify_file_start(dir: Seq<char>, file_rel_path: Seq<char>) -> (
    VerifyFileChecksumView,
    RequestView,
) {
    let file = joined(dir, file_rel_path);
    let sidecar = extended(file, sidecar_extension());
    (
        VerifyFileChecksumView {
            stage: VerifyFileStage::Probing,
            file,
            sidecar,
            expected: Seq::empty(),
        },
        RequestView::Exists { path: sidecar },
    )
}

/// One step of checking a file against its sidecar. A missing sidecar, an
/// unreadable sidecar, a sidecar whose trimmed text is not one line of the
/// grammar, an unreadable file and a file with another digest each end the
/// check with their error; the file is read only after the sidecar was.
pub open spec fn verify_file_step(m: VerifyFileChecksumView, reply: ReplyView) -> ProgressView<
    VerifyFileChecksumView,
    ChecksumErrorView,
> {
    match m.stage {
        VerifyFileStage::Probing => if reply.flag() {
            ProgressView::Ask(
                VerifyFileChecksumView { stage: VerifyFileStage::ReadingSidecar, ..m },
                RequestView::ReadText { path: m.sidecar },
            )
        } else {
            ProgressView::Finished(Err(ChecksumErrorView::MissingChecksum(m.sidecar)))
        },
        VerifyFileStage::ReadingSidecar => match reply.text() {
            Err(reason) => ProgressView::Finished(
                Err(ChecksumErrorView::ReadChecksum(m.sidecar, reason)),
            ),
            Ok(text) => if is_entry_line(trimmed(text)) {
                ProgressView::Ask(
                    VerifyFileChecksumView {
                        stage: VerifyFileStage::ReadingFile,
                        expected: entry_of(trimmed(text)).digest,
                        ..m
                    },
                    RequestView::Read { path: m.file },
                )
            } else {
                ProgressView::Finished(Err(ChecksumErrorView::IllFormattedChecksum(m.sidecar)))
            },
        },
        VerifyFileStage::ReadingFile => match reply.bytes() {
            Err(reason) => ProgressView::Finished(
                Err(ChecksumErrorView::ReadSource(m.file, reason)),
            ),
            Ok(content) => verify_file_judged(m, sha256_hex(content)),
        },
    }
}

/// How the check of one file ends once the digest `actual` of the file is
/// known: well when it is the digest that the sidecar records, else with a
/// mismatch.
pub open spec fn verify_file_judged(m: VerifyFileChecksumView, actual: Seq<char>) -> ProgressView<
    VerifyFileChecksumView,
    ChecksumErrorView,
> {
    if actual == m.expected {
        ProgressView::Finished(Ok(()))
    } else {
        ProgressView::Finished(Err(ChecksumErrorView::ChecksumMismatch(m.file, m.sidecar)))
    }
}

/// Starts the check of the file `file_rel_path` of `dir` against the
/// sidecar beside it.
pub fn verify_file_checksum(dir: &str, file_rel_path: &str) -> (r: (VerifyFileChecksum, Request))
    ensures
        (r.0@, r.1@) == verify_file_start(dir@, file_rel_path@),
{
    let file = join(dir, file_rel_path);
    let sidecar = file.add_extension("sha256");
    let path = sidecar.clone();
    (
        VerifyFileChecksum {
            stage: VerifyFileStage::Probing,
            file,
            sidecar,
            expected: String::new(),
        },
        Request::Exists { path },
    )
}

impl VerifyFileChecksum {
    /// Takes the reply to the last request and makes the next step.
    pub fn resume(self, reply: Reply) -> (p: Progress<VerifyFileChecksum, ChecksumError>)
        ensures
            p@ == verify_file_step(self@, reply@),
    {
        let mut m = self;
        match m.stage {
            VerifyFileStage::Probing => {
                if reply.into_flag() {
                    m.stage = VerifyFileStage::ReadingSidecar;
                    let path = m.sidecar.clone();
                    Progress::Ask(m, Request::ReadText { path })
                } else {
                    Progress::Finished(Err(ChecksumError::MissingChecksum(m.sidecar)))
                }
            },
            VerifyFileStage::ReadingSidecar => match reply.into_text() {
                Err(reason) => Progress::Finished(
                    Err(ChecksumError::ReadChecksum(m.sidecar, reason)),
                ),
                Ok(text) => {
                    let chars = chars_of(text.as_str());
                    let (a, b) = trim_bounds(&chars);
                    let line = sub_vec(&chars, a, b);
                    match parse_line(&line) {
                        Some(entry) => {
                            m.stage = VerifyFileStage::ReadingFile;
                            m.expected = entry.digest;
                            let path = m.file.clone();
                            Progress::Ask(m, Request::Read { path })
                        },
                        None => Progress::Finished(
                            Err(ChecksumError::IllFormattedChecksum(m.sidecar)),
                        ),
                    }
                },
            },
            VerifyFileStage::ReadingFile => match reply.into_bytes() {
                Err(reason) => Progress::Finished(Err(ChecksumError::ReadSource(m.file, reason))),
                Ok(content) => {
                    let actual = digest(content.as_slice());
                    m.judge(actual.as_str())
                },
            },
        }
    }

    /// Ends the check, given the digest `actual` of the file.
    pub fn judge(self, actual: &str) -> (p: Progress<VerifyFileChecksum, ChecksumError>)
        ensures
            p@ == verify_file_judged(self@, actual@),
    {
        if same_text(actual, self.expected.as_str()) {
            Progress::Finished(Ok(()))
        } else {
            Progress::Finished(Err(ChecksumError::ChecksumMismatch(self.file, self.sidecar)))
        }
    }
}

/// Where the addition of one entry to a manifest stands.
#[derive(Debug, Clone, Copy, PartialEq, Eq)]
pub enum AppendStage {
    /// Asked for the content of the file.
    ReadingFile,
    /// Asked whether the manifest exists.
    Probing,
    /// Asked for the text of the manifest.
    ReadingManifest,
    /// Asked to write the new text of the manifest.
    Writing,
}

/// The addition of one file's entry to the manifest of a directory.
#[derive(Debug, Clone)]
pub struct AppendChecksum {
    pub stage: AppendStage,
    /// The path of the file relative to the directory, as the entry names it.
    pub rel: String,
    /// The file whose entry is added.
    pub file: String,
    /// The manifest of the directory.
    pub sums: String,
    /// The line to add; empty before the file was read.
    pub line: String,
}

/// What `AppendChecksum` holds, as mathematical values.
pub struct AppendChecksumView {
    pub stage: AppendStage,
    pub rel: Seq<char>,
    pub file: Seq<char>,
    pub sums: Seq<char>,
    pub line: Seq<char>,
}

impl View for AppendChecksum {
    type V = AppendChecksumView;

    open spec fn view(&self) -> AppendChecksumView {
        AppendChecksumView {
            stage: self.stage,
            rel: self.rel@,
            file: self.file@,
            sums: self.sums@,
            line: self.line@,
        }
    }
}

/// The first step of adding the entry of `file_rel_path` to the manifest of
/// `dir`: ask for the content of the file.
pub open spec fn append_start(dir: Seq<char>, file_rel_path: Seq<char>) -> (
    AppendChecksumView,
    RequestView,
) {
    let file = joined(dir, file_rel_path);
    (
        AppendChecksumView {
            stage: AppendStage::ReadingFile,
            rel: file_rel_path,
            file,
            sums: joined(dir, manifest_name()),
            line: Seq::empty(),
        },
        RequestView::Read { path: file },
    )
}

/// One step of adding an entry. The digest is taken of the content read; a
/// manifest that does not exist yet is written with the one new line; one
/// that exists is rewritten as `appended_text` says, and one with a line
/// outside the grammar is left untouched.
pub open spec fn append_step(m: AppendChecksumView, reply: ReplyView) -> ProgressView<
    AppendChecksumView,
    ChecksumErrorView,
> {
    match m.stage {
        AppendStage::ReadingFile => match reply.bytes() {
            Err(reason) => ProgressView::Finished(
                Err(ChecksumErrorView::ReadSource(m.file, reason)),
            ),
            Ok(content) => append_recorded(m, sha256_hex(content)),
        },
        AppendStage::Probing => if reply.flag() {
            ProgressView::Ask(
                AppendChecksumView { stage: AppendStage::ReadingManifest, ..m },
                RequestView::ReadText { path: m.sums },
            )
        } else {
            ProgressView::Ask(
                AppendChecksumView { stage: AppendStage::Writing, ..m },
                RequestView::WriteText { path: m.sums, text: join_lines(seq![m.line]) },
            )
        },
        AppendStage::ReadingManifest => match reply.text() {
            Err(reason) => ProgressView::Finished(
                Err(ChecksumErrorView::ReadChecksum(m.sums, reason)),
            ),
            Ok(old) => match appended_text(old, m.line, m.rel) {
                Some(text) => ProgressView::Ask(
                    AppendChecksumView { stage: AppendStage::Writing, ..m },
                    RequestView::WriteText { path: m.sums, text },
                ),
                None => ProgressView::Finished(
                    Err(ChecksumErrorView::IllFormattedChecksum(m.sums)),
                ),
            },
        },
        AppendStage::Writing => match reply.done() {
            Err(reason) => ProgressView::Finished(
                Err(ChecksumErrorView::WriteChecksum(m.sums, reason)),
            ),
            Ok(_) => ProgressView::Finished(Ok(())),
        },
    }
}

/// How the addition goes on once the digest `hex` of the file is known: the
/// line for the file is made of it, and the manifest is asked after.
pub open spec fn append_recorded(m: AppendChecksumView, hex: Seq<char>) -> ProgressView<
    AppendChecksumView,
    ChecksumErrorView,
> {
    ProgressView::Ask(
        AppendChecksumView { stage: AppendStage::Probing, line: entry_line(hex, m.rel), ..m },
        RequestView::Exists { path: m.sums },
    )
}

/// Starts the addition of the entry of `file_rel_path` to the manifest of `dir`.
pub fn append_checksum(dir: &str, file_rel_path: &str) -> (r: (AppendChecksum, Request))
    ensures
        (r.0@, r.1@) == append_start(dir@, file_rel_path@),
{
    let file = join(dir, file_rel_path);
    let sums = join(dir, "sha256sums.txt");
    let path = file.clone();
    (
        AppendChecksum {
            stage: AppendStage::ReadingFile,
            rel: String::from_str(file_rel_path),
            file,
            sums,
            line: String::new(),
        },
        Request::Read { path },
    )
}

impl AppendChecksum {
    /// Goes on with the addition, given the digest `hex` of the file.
    pub fn record(self, hex: &str) -> (p: Progress<AppendChecksum, ChecksumError>)
        ensures
            p@ == append_recorded(self@, hex@),
    {
        let mut m = self;
        m.line = render_line(hex, m.rel.as_str());
        m.stage = AppendStage::Probing;
        let path = m.sums.clone();
        Progress::Ask(m, Request::Exists { path })
    }

    /// Takes the reply to the last request and makes the next step.
    pub fn resume(self, reply: Reply) -> (p: Progress<AppendChecksum, ChecksumError>)
        ensures
            p@ == append_step(self@, reply@),
    {
        let mut m = self;
        match m.stage {
            AppendStage::ReadingFile => match reply.into_bytes() {
                Err(reason) => Progress::Finished(Err(ChecksumError::ReadSource(m.file, reason))),
                Ok(content) => {
                    let hex = digest(content.as_slice());
                    m.record(hex.as_str())
                },
            },
            AppendStage::Probing => {
                let path = m.sums.clone();
                if reply.into_flag() {
                    m.stage = AppendStage::ReadingManifest;
                    Progress::Ask(m, Request::ReadText { path })
                } else {
                    m.stage = AppendStage::Writing;
                    let mut text = m.line.clone();
                    text.push('\n');
                    proof {
                        let one = seq![m.line@];
                        assert(one.drop_last() =~= Seq::<Seq<char>>::empty());
                        assert(join_lines(one.drop_last()) =~= Seq::<char>::empty());
                        assert(join_lines(one) =~= m.line@ + seq!['\n']);
                        assert(text@ =~= join_lines(one));
                    }
                    Progress::Ask(m, Request::WriteText { path, text })
                }
            },
            AppendStage::ReadingManifest => match reply.into_text() {
                Err(reason) => Progress::Finished(Err(ChecksumError::ReadChecksum(m.sums, reason))),
                Ok(old) => match append_entry(old.as_str(), m.line.as_str(), m.rel.as_str()) {
                    Some(text) => {
                        m.stage = AppendStage::Writing;
                        let path = m.sums.clone();
                        Progress::Ask(m, Request::WriteText { path, text })
                    },
                    None => Progress::Finished(Err(ChecksumError::IllFormattedChecksum(m.sums))),
                },
            },
            AppendStage::Writing => match reply.into_done() {
                Err(reason) => Progress::Finished(
                    Err(ChecksumError::WriteChecksum(m.sums, reason)),
                ),
                Ok(_) => Progress::Finished(Ok(())),
            },
        }
    }
}

/// The entries of several files are being added to the manifest of a directory.
#[derive(Debug, Clone)]
pub struct GenerateChecksums {
    /// The addition that is under way.
    pub current: AppendChecksum,
    /// The directory that the manifest describes.
    pub dir: String,
    /// The files to enter, relative to the directory, and how many are done.
    pub files: Vec<String>,
    pub index: usize,
}

/// What `GenerateChecksums` holds, as mathematical values.
pub struct GenerateChecksumsView {
    pub current: AppendChecksumView,
    pub dir: Seq<char>,
    pub files: Seq<Seq<char>>,
    pub index: nat,
}

impl View for GenerateChecksums {
    type V = GenerateChecksumsView;

    open spec fn view(&self) -> GenerateChecksumsView {
        GenerateChecksumsView {
            current: self.current@,
            dir: self.dir@,
            files: crate::utf8path_ext::texts(self.files@),
            index: self.index as nat,
        }
    }
}

/// The first step of entering `files` in the manifest of `dir`: the
/// addition of the first file begins. With no file there is nothing to do.
pub open spec fn generate_start(dir: Seq<char>, files: Seq<Seq<char>>) -> Option<
    (GenerateChecksumsView, RequestView),
> {
    if files.len() > 0 {
        Some(
            (
                GenerateChecksumsView {
                    current: append_start(dir, files[0]).0,
                    dir,
                    files,
                    index: 0,
                },
                append_start(dir, files[0]).1,
            ),
        )
    } else {
        None
    }
}

/// One step of entering several files: the files are added one after the
/// other, as `append_step` adds each, and the first failure ends the work.
/// For a single file this is the addition of that file.
pub open spec fn generate_step(m: GenerateChecksumsView, reply: ReplyView) -> ProgressView<
    GenerateChecksumsView,
    ChecksumErrorView,
> {
    match append_step(m.current, reply) {
        ProgressView::Ask(a, request) => ProgressView::Ask(
            GenerateChecksumsView { current: a, ..m },
            request,
        ),
        ProgressView::Finished(Err(e)) => ProgressView::Finished(Err(e)),
        ProgressView::Finished(Ok(_)) => if m.index + 1 < m.files.len() {
            ProgressView::Ask(
                GenerateChecksumsView {
                    current: append_start(m.dir, m.files[m.index as int + 1]).0,
                    index: m.index + 1,
                    ..m
                },
                append_start(m.dir, m.files[m.index as int + 1]).1,
            )
        } else {
            ProgressView::Finished(Ok(()))
        },
    }
}

/// Starts entering `files`, given relative to `dir`, in the manifest of `dir`.
pub fn generate_checksums(dir: &str, files: Vec<String>) -> (r: Option<
    (GenerateChecksums, Request),
>)
    ensures
        match r {
            Some((m, request)) => generate_start(dir@, crate::utf8path_ext::texts(files@)) == Some(
                (m@, request@),
            ),
            None => generate_start(dir@, crate::utf8path_ext::texts(files@)) is None,
        },
{
    if files.len() > 0 {
        proof {
            assert(crate::utf8path_ext::texts(files@)[0] == files@[0]@);
        }
        let (current, request) = append_checksum(dir, files[0].as_str());
        Some((GenerateChecksums { current, dir: String::from_str(dir), files, index: 0 }, request))
    } else {
        None
    }
}

impl GenerateChecksums {
    /// Takes the reply to the last request and makes the next step.
    pub fn resume(self, reply: Reply) -> (p: Progress<GenerateChecksums, ChecksumError>)
        ensures
            p@ == generate_step(self@, reply@),
    {
        let GenerateChecksums { current, dir, files, index } = self;
        match current.resume(reply) {
            Progress::Ask(a, request) => Progress::Ask(
                GenerateChecksums { current: a, dir, files, index },
                request,
            ),
            Progress::Finished(Err(e)) => Progress::Finished(Err(e)),
            Progress::Finished(Ok(_)) => {
                if index < files.len() && index + 1 < files.len() {
                    proof {
                        assert(crate::utf8path_ext::texts(files@)[index + 1] == files@[index + 1]@);
                    }
                    let (next, request) = append_checksum(dir.as_str(), files[index + 1].as_str());
                    Progress::Ask(
                        GenerateChecksums { current: next, dir, files, index: index + 1 },
                        request,
                    )
                } else {
                    Progress::Finished(Ok(()))
                }
            },
        }
    }
}

/// Where the check of a directory against its manifest stands.
#[derive(Debug, Clone, Copy, PartialEq, Eq)]
pub enum VerifyStage {
    /// Asked whether the manifest exists.
    Probing,
    /// Asked for the text of the manifest.
    ReadingManifest,
    /// Asked for the content of the file of the entry at `index`.
    ReadingFile,
}

/// The check of every file that the manifest of a directory lists.
#[derive(Debug, Clone)]
pub struct VerifyChecksums {
    pub stage: VerifyStage,
    /// The directory that the manifest describes.
    pub dir: String,
    /// The manifest of the directory.
    pub sums: String,
    /// The entries read from the manifest; empty before that.
    pub entries: Vec<ManifestEntry>,
    /// How many entries have been checked.
    pub index: usize,
    /// The file that is being read; empty before the first.
    pub file: String,
}

/// What `VerifyChecksums` holds, as mathematical values.
pub struct VerifyChecksumsView {
    pub stage: VerifyStage,
    pub dir: Seq<char>,
    pub sums: Seq<char>,
    pub entries: Seq<ManifestEntryView>,
    pub index: nat,
    pub file: Seq<char>,
}

impl View for VerifyChecksums {
    type V = VerifyChecksumsView;

    open spec fn view(&self) -> VerifyChecksumsView {
        VerifyChecksumsView {
            stage: self.stage,
            dir: self.dir@,
            sums: self.sums@,
            entries: entry_views(self.entries@),
            index: self.index as nat,
            file: self.file@,
        }
    }
}

/// The first step of checking `dir` against its manifest: ask whether the
/// manifest exists.
pub open spec fn verify_start(dir: Seq<char>) -> (VerifyChecksumsView, RequestView) {
    let sums = joined(dir, manifest_name());
    (
        VerifyChecksumsView {
            stage: VerifyStage::Probing,
            dir,
            sums,
            entries: Seq::empty(),
            index: 0,
            file: Seq::empty(),
        },
        RequestView::Exists { path: sums },
    )
}

/// The check goes on with the entry at `m.index`: it asks for that file, or
/// ends well when no entry is left.
pub open spec fn verify_from(m: VerifyChecksumsView) -> ProgressView<
    VerifyChecksumsView,
    ChecksumErrorView,
> {
    if m.index < m.entries.len() {
        let file = joined(m.dir, m.entries[m.index as int].path);
        ProgressView::Ask(
            VerifyChecksumsView { stage: VerifyStage::ReadingFile, file, ..m },
            RequestView::Read { path: file },
        )
    } else {
        ProgressView::Finished(Ok(()))
    }
}

/// One step of checking a directory against its manifest. The whole
/// manifest is read against the grammar before any file is asked for; the
/// files are then read in the order of their entries, and the first that
/// cannot be read or has another digest ends the check.
pub open spec fn verify_step(m: VerifyChecksumsView, reply: ReplyView) -> ProgressView<
    VerifyChecksumsView,
    ChecksumErrorView,
> {
    match m.stage {
        VerifyStage::Probing => if reply.flag() {
            ProgressView::Ask(
                VerifyChecksumsView { stage: VerifyStage::ReadingManifest, ..m },
                RequestView::ReadText { path: m.sums },
            )
        } else {
            ProgressView::Finished(Err(ChecksumErrorView::MissingChecksum(m.sums)))
        },
        VerifyStage::ReadingManifest => match reply.text() {
            Err(reason) => ProgressView::Finished(
                Err(ChecksumErrorView::ReadChecksum(m.sums, reason)),
            ),
            Ok(text) => match parsed_manifest(text) {
                Some(entries) => verify_from(VerifyChecksumsView { entries, index: 0, ..m }),
                None => ProgressView::Finished(
                    Err(ChecksumErrorView::IllFormattedChecksum(m.sums)),
                ),
            },
        },
        VerifyStage::ReadingFile => match reply.bytes() {
            Err(reason) => ProgressView::Finished(
                Err(ChecksumErrorView::ReadSource(m.file, reason)),
            ),
            Ok(content) => verify_judged(m, sha256_hex(content)),
        },
    }
}

/// How the check goes on once the digest `actual` of the file at `m.index`
/// is known: with the next entry when it is the digest listed, else it ends
/// with a mismatch. A check that has no entry at `m.index` has lost its
/// place: nothing vouches for the file that was read, and the check ends
/// with a mismatch too.
pub open spec fn verify_judged(m: VerifyChecksumsView, actual: Seq<char>) -> ProgressView<
    VerifyChecksumsView,
    ChecksumErrorView,
> {
    if m.index < m.entries.len() && actual == m.entries[m.index as int].digest {
        verify_from(VerifyChecksumsView { index: m.index + 1, ..m })
    } else {
        ProgressView::Finished(Err(ChecksumErrorView::ChecksumMismatch(m.file, m.sums)))
    }
}

/// Starts the check of `dir` against its manifest.
pub fn verify_checksums(dir: &str) -> (r: (VerifyChecksums, Request))
    ensures
        (r.0@, r.1@) == verify_start(dir@),
{
    let sums = join(dir, "sha256sums.txt");
    let path = sums.clone();
    let entries: Vec<ManifestEntry> = Vec::new();
    proof {
        assert(entry_views(entries@) =~= Seq::<ManifestEntryView>::empty());
    }
    (
        VerifyChecksums {
            stage: VerifyStage::Probing,
            dir: String::from_str(dir),
            sums,
            entries,
            index: 0,
            file: String::new(),
        },
        Request::Exists { path },
    )
}

impl VerifyChecksums {
    /// Goes on with the entry at `self.index`.
    fn proceed(self) -> (p: Progress<VerifyChecksums, ChecksumError>)
        ensures
            p@ == verify_from(self@),
    {
        let mut m = self;
        if m.index < m.entries.len() {
            proof {
                assert(entry_views(m.entries@)[m.index as int] == m.entries@[m.index as int]@);
            }
            m.file = join(m.dir.as_str(), m.entries[m.index].path.as_str());
            m.stage = VerifyStage::ReadingFile;
            let path = m.file.clone();
            Progress::Ask(m, Request::Read { path })
        } else {
            Progress::Finished(Ok(()))
        }
    }

    /// Goes on with the check, given the digest `actual` of the file at
    /// `self.index`.
    pub fn judge(self, actual: &str) -> (p: Progress<VerifyChecksums, ChecksumError>)
        ensures
            p@ == verify_judged(self@, actual@),
    {
        let mut m = self;
        if m.index < m.entries.len() {
            proof {
                assert(entry_views(m.entries@)[m.index as int] == m.entries@[m.index as int]@);
            }
            if same_text(actual, m.entries[m.index].digest.as_str()) {
                m.index = m.index + 1;
                return m.proceed();
            }
        }
        Progress::Finished(Err(ChecksumError::ChecksumMismatch(m.file, m.sums)))
    }

    /// Takes the reply to the last request and makes the next step.
    pub fn resume(self, reply: Reply) -> (p: Progress<VerifyChecksums, ChecksumError>)
        ensures
            p@ == verify_step(self@, reply@),
    {
        let mut m = self;
        match m.stage {
            VerifyStage::Probing => {
                if reply.into_flag() {
                    m.stage = VerifyStage::ReadingManifest;
                    let path = m.sums.clone();
                    Progress::Ask(m, Request::ReadText { path })
                } else {
                    Progress::Finished(Err(ChecksumError::MissingChecksum(m.sums)))
                }
            },
            VerifyStage::ReadingManifest => match reply.into_text() {
                Err(reason) => Progress::Finished(Err(ChecksumError::ReadChecksum(m.sums, reason))),
                Ok(text) => match parse_manifest(text.as_str()) {
                    Some(entries) => {
                        m.entries = entries;
                        m.index = 0;
                        m.proceed()
                    },
                    None => Progress::Finished(Err(ChecksumError::IllFormattedChecksum(m.sums))),
                },
            },
            VerifyStage::ReadingFile => match reply.into_bytes() {
                Err(reason) => Progress::Finished(Err(ChecksumError::ReadSource(m.file, reason))),
                Ok(content) => {
                    let actual = digest(content.as_slice());
                    m.judge(actual.as_str())
                },
            },
        }
    }
}

/// A path that a manifest line can carry and give back: at least one
/// character, no line feed, no carriage return at its end.
pub open spec fn is_line_path(path: Seq<char>) -> bool {
    &&& path.len() > 0
    &&& forall|i: int| 0 <= i < path.len() ==> #[trigger] path[i] != '\n'
    &&& path.last() != '\r'
}

/// The line written for a digest and a line path follows the grammar and
/// records exactly that digest and that path.
pub proof fn lemma_entry_line_parses(digest: Seq<char>, path: Seq<char>)
    requires
        is_digest(digest),
        path.len() > 0,
        forall|i: int| 0 <= i < path.len() ==> #[trigger] path[i] != '\n',
    ensures
        is_entry_line(entry_line(digest, path)),
        entry_of(entry_line(digest, path)) == (ManifestEntryView { digest, path }),
{
    let line = entry_line(digest, path);
    assert(line.len() == 66 + path.len());
    assert forall|i: int| 0 <= i < 64 implies is_hex_digit(#[trigger] line[i]) by {
        assert(line[i] == digest[i]);
    }
    assert forall|i: int| 66 <= i < line.len() implies #[trigger] line[i] != '\n' by {
        assert(line[i] == path[i - 66]);
    }
    assert(line.subrange(0, 64) =~= digest);
    assert(line.subrange(66, line.len() as int) =~= path);
}

/// No line that `kept_lines` keeps records the path that was dropped, and
/// every kept line is one of the given lines.
pub proof fn lemma_kept_lines(lines: Seq<Seq<char>>, path: Seq<char>)
    ensures
        forall|j: int|
            0 <= j < kept_lines(lines, path).len() ==> !is_same_path(
                entry_of(#[trigger] kept_lines(lines, path)[j]).path,
                path,
            ),
        forall|j: int|
            0 <= j < kept_lines(lines, path).len() ==> lines.contains(
                #[trigger] kept_lines(lines, path)[j],
            ),
    decreases lines.len(),
{
    if lines.len() > 0 {
        let front = lines.drop_last();
        lemma_kept_lines(front, path);
        assert forall|j: int| 0 <= j < kept_lines(lines, path).len() implies lines.contains(
            #[trigger] kept_lines(lines, path)[j],
        ) by {
            if j < kept_lines(front, path).len() {
                let l = kept_lines(front, path)[j];
                assert(front.contains(l));
                let w = choose|w: int| 0 <= w < front.len() && front[w] == l;
                assert(lines[w] == l);
            } else {
                assert(kept_lines(lines, path)[j] == lines[lines.len() - 1]);
            }
        }
    }
}

/// Adding an entry and reading the manifest again: the new text follows the
/// grammar, its last entry records the digest for the path, and no other
/// entry is left for that path. This holds of a manifest that does not
/// exist yet (no lines) and of one written as `join_lines` writes it.
pub proof fn lemma_append_then_parse(lines: Seq<Seq<char>>, digest: Seq<char>, path: Seq<char>)
    requires
        all_entry_lines(lines),
        forall|k: int| 0 <= k < lines.len() ==> is_plain_line(#[trigger] lines[k]),
        is_digest(digest),
        is_line_path(path),
    ensures
        appended_text(join_lines(lines), entry_line(digest, path), path) is Some,
        ({
            let text = appended_text(join_lines(lines), entry_line(digest, path), path)->0;
            &&& parsed_manifest(text) is Some
            &&& parsed_manifest(text)->0.len() >= 1
            &&& parsed_manifest(text)->0.last() == (ManifestEntryView { digest, path })
            &&& forall|j: int|
                0 <= j < parsed_manifest(text)->0.len() - 1 ==> !is_same_path(
                    (#[trigger] parsed_manifest(text)->0[j]).path,
                    path,
                )
        }),
{
    let line = entry_line(digest, path);
    lemma_lines_of_join(lines);
    lemma_entry_line_parses(digest, path);
    lemma_kept_lines(lines, path);
    let kept = kept_lines(lines, path);
    let all = kept.push(line);
    assert(line.last() == path.last());
    assert forall|k: int| 0 <= k < all.len() implies is_plain_line(#[trigger] all[k])
        && is_entry_line(all[k]) by {
        if k < kept.len() {
            assert(lines.contains(kept[k]));
            let w = choose|w: int| 0 <= w < lines.len() && lines[w] == kept[k];
            assert(is_plain_line(lines[w]));
        } else {
            assert forall|i: int| 0 <= i < line.len() implies line[i] != '\n' by {
                if i >= 66 {
                    assert(line[i] == path[i - 66]);
                }
            }
        }
    }
    lemma_lines_of_join(all);
    let text = join_lines(all);
    assert(appended_text(join_lines(lines), line, path) == Some(text));
    assert(all_entry_lines(lines_of(text)));
    let entries = parsed_manifest(text)->0;
    assert(entries.last() == entry_of(all.last()));
    assert forall|j: int| 0 <= j < entries.len() - 1 implies !is_same_path(
        (#[trigger] entries[j]).path,
        path,
    ) by {
        assert(entries[j] == entry_of(kept[j]));
    }
}

/// No two of the lines record the same path.
pub open spec fn one_entry_per_path(lines: Seq<Seq<char>>) -> bool {
    forall|i: int, j: int|
        0 <= i < j < lines.len() ==> !is_same_path(
            entry_of(#[trigger] lines[i]).path,
            entry_of(#[trigger] lines[j]).path,
        )
}

/// The lines that `kept_lines` keeps stand in the order in which they were given.
pub proof fn lemma_kept_lines_ordered(lines: Seq<Seq<char>>, path: Seq<char>, a: int, b: int)
    requires
        0 <= a < b < kept_lines(lines, path).len(),
    ensures
        exists|i: int, j: int|
            0 <= i < j < lines.len() && #[trigger] lines[i] == kept_lines(lines, path)[a]
                && #[trigger] lines[j] == kept_lines(lines, path)[b],
    decreases lines.len(),
{
    let front = lines.drop_last();
    let kept_front = kept_lines(front, path);
    if b < kept_front.len() {
        lemma_kept_lines_ordered(front, path, a, b);
        let (i, j) = choose|i: int, j: int|
            0 <= i < j < front.len() && #[trigger] front[i] == kept_front[a] && #[trigger] front[j]
                == kept_front[b];
        assert(lines[i] == kept_lines(lines, path)[a] && lines[j] == kept_lines(lines, path)[b]);
    } else {
        lemma_kept_lines(front, path);
        assert(front.contains(kept_front[a]));
        let i = choose|i: int| 0 <= i < front.len() && front[i] == kept_front[a];
        let j = lines.len() - 1;
        assert(lines[i] == kept_lines(lines, path)[a] && lines[j] == kept_lines(lines, path)[b]);
    }
}

/// One entry per path. A manifest in which no two lines record the same
/// path is still one after an entry was added: the lines for other paths
/// stay, and the path of the new entry occurs in the new line only.
pub proof fn lemma_append_keeps_one_entry_per_path(
    lines: Seq<Seq<char>>,
    digest: Seq<char>,
    path: Seq<char>,
)
    requires
        one_entry_per_path(lines),
        is_digest(digest),
        is_line_path(path),
    ensures
        one_entry_per_path(kept_lines(lines, path).push(entry_line(digest, path))),
{
    let kept = kept_lines(lines, path);
    let all = kept.push(entry_line(digest, path));
    lemma_entry_line_parses(digest, path);
    lemma_kept_lines(lines, path);
    assert forall|a: int, b: int| 0 <= a < b < all.len() implies !is_same_path(
        entry_of(#[trigger] all[a]).path,
        entry_of(#[trigger] all[b]).path,
    ) by {
        if b < kept.len() {
            lemma_kept_lines_ordered(lines, path, a, b);
            let (i, j) = choose|i: int, j: int|
                0 <= i < j < lines.len() && #[trigger] lines[i] == kept[a] && #[trigger] lines[j]
                    == kept[b];
            assert(!is_same_path(entry_of(lines[i]).path, entry_of(lines[j]).path));
        } else {
            assert(all[a] == kept[a]);
            assert(!is_same_path(entry_of(kept[a]).path, path));
        }
    }
}

/// A file whose digest is the one that the manifest records passes: the
/// check goes on to the next entry.
pub proof fn lemma_recorded_digest_verifies(m: VerifyChecksumsView, content: Seq<u8>)
    requires
        m.stage == VerifyStage::ReadingFile,
        m.index < m.entries.len(),
    ensures
        m.entries[m.index as int].digest == sha256_hex(content) ==> verify_step(
            m,
            ReplyView::Bytes(content),
        ) == verify_from(VerifyChecksumsView { index: m.index + 1, ..m }),
{
}

/// A name that a sidecar line can carry through trimming: it holds no line
/// feed, and at least one character that is no whitespace.
pub open spec fn is_sidecar_name(path: Seq<char>) -> bool {
    &&& forall|i: int| 0 <= i < path.len() ==> #[trigger] path[i] != '\n'
    &&& exists|i: int| 0 <= i < path.len() && !is_space(#[trigger] path[i])
}

/// A sidecar that holds the line written for a digest, with or without a
/// line feed behind it, vouches for every content with that digest: the
/// check reads the file and ends well.
pub proof fn lemma_sidecar_vouches(
    m: VerifyFileChecksumView,
    digest: Seq<char>,
    path: Seq<char>,
    content: Seq<u8>,
    newline: bool,
)
    requires
        m.stage == VerifyFileStage::ReadingSidecar,
        is_digest(digest),
        is_sidecar_name(path),
    ensures
        ({
            let line = entry_line(digest, path);
            let text = if newline {
                line + seq!['\n']
            } else {
                line
            };
            let reading = VerifyFileChecksumView {
                stage: VerifyFileStage::ReadingFile,
                expected: digest,
                ..m
            };
            &&& verify_file_step(m, ReplyView::Text(text)) == ProgressView::<
                VerifyFileChecksumView,
                ChecksumErrorView,
            >::Ask(reading, RequestView::Read { path: m.file })
            &&& sha256_hex(content) == digest ==> verify_file_step(
                reading,
                ReplyView::Bytes(content),
            ) == ProgressView::<VerifyFileChecksumView, ChecksumErrorView>::Finished(Ok(()))
        }),
{
    let line = entry_line(digest, path);
    assert(line.len() == 66 + path.len());
    assert(is_hex_digit(digest[0]));
    assert(line[0] == digest[0]);
    let text = if newline {
        line + seq!['\n']
    } else {
        line
    };
    let n = text.len() as int;
    assert(text[0] == line[0]);
    assert(!is_space(text[0]));
    assert(skip_spaces(text, 0) == 0);
    crate::text::lemma_drop_spaces_bounds(text, 0, n);
    let b = drop_spaces(text, 0, n);
    let k = choose|k: int| 0 <= k < path.len() && !is_space(#[trigger] path[k]);
    assert(text[66 + k] == path[k]);
    assert(b > 66 + k);
    if newline {
        assert(is_space(text[n - 1]));
        assert(b <= n - 1);
    }
    assert(b <= 66 + path.len());
    let t = trimmed(text);
    assert(t == text.subrange(0, b));
    assert(t.len() == b);
    assert forall|i: int| 0 <= i < 64 implies is_hex_digit(#[trigger] t[i]) by {
        assert(t[i] == digest[i]);
    }
    assert(t[64] == ' ');
    assert(t[65] == ' ');
    assert forall|i: int| 66 <= i < t.len() implies #[trigger] t[i] != '\n' by {
        assert(t[i] == path[i - 66]);
    }
    assert(is_entry_line(t));
    assert(t.subrange(0, 64) =~= digest);
}

/// A line lacks the separator when it does not hold two spaces right behind
/// the 64 characters of the digest.
pub open spec fn lacks_separator(line: Seq<char>) -> bool {
    !(line.len() >= 66 && line[64] == ' ' && line[65] == ' ')
}

/// A manifest with a line that lacks the separator is refused as a whole:
/// the check ends with `IllFormattedChecksum` naming the manifest, and no
/// file has been asked for.
pub proof fn lemma_missing_separator_rejected(m: VerifyChecksumsView, text: Seq<char>, k: int)
    requires
        m.stage == VerifyStage::ReadingManifest,
        0 <= k < lines_of(text).len(),
        lacks_separator(lines_of(text)[k]),
    ensures
        parsed_manifest(text) is None,
        verify_step(m, ReplyView::Text(text)) == ProgressView::<
            VerifyChecksumsView,
            ChecksumErrorView,
        >::Finished(Err(ChecksumErrorView::IllFormattedChecksum(m.sums))),
{
    assert(!is_entry_line(lines_of(text)[k]));
}

/// Where the check of one file stands after at most `steps` requests were
/// answered by `world`, a file system that is only looked at: `world` says
/// what it answers to each request.
pub open spec fn verify_file_run(
    p: ProgressView<VerifyFileChecksumView, ChecksumErrorView>,
    world: spec_fn(RequestView) -> ReplyView,
    steps: nat,
) -> ProgressView<VerifyFileChecksumView, ChecksumErrorView>
    decreases steps,
{
    if steps == 0 {
        p
    } else {
        match p {
            ProgressView::Finished(_) => p,
            ProgressView::Ask(m, request) => verify_file_run(
                verify_file_step(m, world(request)),
                world,
                (steps - 1) as nat,
            ),
        }
    }
}

/// What the check of the file `rel` of `dir` against its sidecar comes to
/// in `world`: the sidecar must exist, be readable and hold, once trimmed,
/// one line of the grammar; the file must be readable and have the digest
/// of that line.
pub open spec fn verify_file_verdict(
    world: spec_fn(RequestView) -> ReplyView,
    dir: Seq<char>,
    rel: Seq<char>,
) -> Result<(), ChecksumErrorView> {
    let file = joined(dir, rel);
    let sidecar = extended(file, sidecar_extension());
    if !world(RequestView::Exists { path: sidecar }).flag() {
        Err(ChecksumErrorView::MissingChecksum(sidecar))
    } else {
        match world(RequestView::ReadText { path: sidecar }).text() {
            Err(reason) => Err(ChecksumErrorView::ReadChecksum(sidecar, reason)),
            Ok(text) => if !is_entry_line(trimmed(text)) {
                Err(ChecksumErrorView::IllFormattedChecksum(sidecar))
            } else {
                match world(RequestView::Read { path: file }).bytes() {
                    Err(reason) => Err(ChecksumErrorView::ReadSource(file, reason)),
                    Ok(content) => if sha256_hex(content) == entry_of(trimmed(text)).digest {
                        Ok(())
                    } else {
                        Err(ChecksumErrorView::ChecksumMismatch(file, sidecar))
                    },
                }
            },
        }
    }
}

/// The check of one file, run to its end. Whatever the file system holds,
/// the check has ended after three requests at most, and with the outcome
/// that `verify_file_verdict` gives.
pub proof fn lemma_verify_file_outcome(
    world: spec_fn(RequestView) -> ReplyView,
    dir: Seq<char>,
    rel: Seq<char>,
    steps: nat,
)
    requires
        steps >= 3,
    ensures
        verify_file_run(
            ProgressView::Ask(verify_file_start(dir, rel).0, verify_file_start(dir, rel).1),
            world,
            steps,
        ) == ProgressView::<VerifyFileChecksumView, ChecksumErrorView>::Finished(
            verify_file_verdict(world, dir, rel),
        ),
{
    reveal_with_fuel(verify_file_run, 5);
}

/// Where the check of a directory stands after at most `steps` requests
/// were answered by `world`.
pub open spec fn verify_run(
    p: ProgressView<VerifyChecksumsView, ChecksumErrorView>,
    world: spec_fn(RequestView) -> ReplyView,
    steps: nat,
) -> ProgressView<VerifyChecksumsView, ChecksumErrorView>
    decreases steps,
{
    if steps == 0 {
        p
    } else {
        match p {
            ProgressView::Finished(_) => p,
            ProgressView::Ask(m, request) => verify_run(
                verify_step(m, world(request)),
                world,
                (steps - 1) as nat,
            ),
        }
    }
}

/// What the check of the entries from index `from` on comes to in `world`:
/// the first file that cannot be read or has another digest than its entry
/// ends the check with its error.
pub open spec fn entries_verdict(
    world: spec_fn(RequestView) -> ReplyView,
    dir: Seq<char>,
    sums: Seq<char>,
    entries: Seq<ManifestEntryView>,
    from: int,
) -> Result<(), ChecksumErrorView>
    decreases entries.len() - from,
{
    if 0 <= from < entries.len() {
        let file = joined(dir, entries[from].path);
        match world(RequestView::Read { path: file }).bytes() {
            Err(reason) => Err(ChecksumErrorView::ReadSource(file, reason)),
            Ok(content) => if sha256_hex(content) == entries[from].digest {
                entries_verdict(world, dir, sums, entries, from + 1)
            } else {
                Err(ChecksumErrorView::ChecksumMismatch(file, sums))
            },
        }
    } else {
        Ok(())
    }
}

/// What the check of `dir` against its manifest comes to in `world`: the
/// manifest must exist, be readable and follow the grammar in every line,
/// and every file it lists must be readable and have the digest listed.
pub open spec fn verify_verdict(
    world: spec_fn(RequestView) -> ReplyView,
    dir: Seq<char>,
) -> Result<(), ChecksumErrorView> {
    let sums = joined(dir, manifest_name());
    if !world(RequestView::Exists { path: sums }).flag() {
        Err(ChecksumErrorView::MissingChecksum(sums))
    } else {
        match world(RequestView::ReadText { path: sums }).text() {
            Err(reason) => Err(ChecksumErrorView::ReadChecksum(sums, reason)),
            Ok(text) => match parsed_manifest(text) {
                None => Err(ChecksumErrorView::IllFormattedChecksum(sums)),
                Some(entries) => entries_verdict(world, dir, sums, entries, 0),
            },
        }
    }
}

/// How many requests the check of `dir` needs at most in `world`: two for
/// the manifest and one for each file that it lists.
pub open spec fn verify_budget(world: spec_fn(RequestView) -> ReplyView, dir: Seq<char>) -> nat {
    let sums = joined(dir, manifest_name());
    match world(RequestView::ReadText { path: sums }).text() {
        Ok(text) => match parsed_manifest(text) {
            Some(entries) => 2 + entries.len(),
            None => 2,
        },
        Err(_) => 2,
    }
}

proof fn lemma_verify_entries_outcome(
    world: spec_fn(RequestView) -> ReplyView,
    m: VerifyChecksumsView,
    steps: nat,
)
    requires
        m.index <= m.entries.len(),
        steps >= m.entries.len() - m.index,
    ensures
        verify_run(verify_from(m), world, steps) == ProgressView::<
            VerifyChecksumsView,
            ChecksumErrorView,
        >::Finished(entries_verdict(world, m.dir, m.sums, m.entries, m.index as int)),
    decreases m.entries.len() - m.index,
{
    if m.index < m.entries.len() {
        let file = joined(m.dir, m.entries[m.index as int].path);
        let reading = VerifyChecksumsView { stage: VerifyStage::ReadingFile, file, ..m };
        let request = RequestView::Read { path: file };
        assert(verify_from(m) == ProgressView::<VerifyChecksumsView, ChecksumErrorView>::Ask(
            reading,
            request,
        ));
        let next = verify_step(reading, world(request));
        assert(verify_run(verify_from(m), world, steps) == verify_run(
            next,
            world,
            (steps - 1) as nat,
        ));
        match world(request).bytes() {
            Err(reason) => {
                assert(verify_run(next, world, (steps - 1) as nat) == next) by {
                    reveal_with_fuel(verify_run, 2);
                }
            },
            Ok(content) => {
                if sha256_hex(content) == m.entries[m.index as int].digest {
                    let after = VerifyChecksumsView { index: m.index + 1, ..reading };
                    assert(next == verify_from(after));
                    lemma_verify_entries_outcome(world, after, (steps - 1) as nat);
                } else {
                    assert(verify_run(next, world, (steps - 1) as nat) == next) by {
                        reveal_with_fuel(verify_run, 2);
                    }
                }
            },
        }
    } else {
        assert(verify_run(verify_from(m), world, steps) == verify_from(m)) by {
            reveal_with_fuel(verify_run, 2);
        }
    }
}

/// The check of a directory, run to its end. Whatever the file system
/// holds, the check has ended after `verify_budget` requests at most, and
/// with the outcome that `verify_verdict` gives.
pub proof fn lemma_verify_checksums_outcome(
    world: spec_fn(RequestView) -> ReplyView,
    dir: Seq<char>,
    steps: nat,
)
    requires
        steps >= verify_budget(world, dir),
    ensures
        verify_run(ProgressView::Ask(verify_start(dir).0, verify_start(dir).1), world, steps)
            == ProgressView::<VerifyChecksumsView, ChecksumErrorView>::Finished(
            verify_verdict(world, dir),
        ),
{
    let sums = joined(dir, manifest_name());
    let (m0, r0) = verify_start(dir);
    let start = ProgressView::<VerifyChecksumsView, ChecksumErrorView>::Ask(m0, r0);
    let after_first = verify_step(m0, world(r0));
    assert(verify_run(start, world, steps) == verify_run(after_first, world, (steps - 1) as nat));
    if !world(r0).flag() {
        assert(verify_run(after_first, world, (steps - 1) as nat) == after_first) by {
            reveal_with_fuel(verify_run, 2);
        }
    } else {
        let m1 = VerifyChecksumsView { stage: VerifyStage::ReadingManifest, ..m0 };
        let r1 = RequestView::ReadText { path: sums };
        assert(after_first == ProgressView::<VerifyChecksumsView, ChecksumErrorView>::Ask(m1, r1));
        let after_second = verify_step(m1, world(r1));
        assert(verify_run(after_first, world, (steps - 1) as nat) == verify_run(
            after_second,
            world,
            (steps - 2) as nat,
        ));
        match world(r1).text() {
            Err(reason) => {
                assert(verify_run(after_second, world, (steps - 2) as nat) == after_second) by {
                    reveal_with_fuel(verify_run, 2);
                }
            },
            Ok(text) => match parsed_manifest(text) {
                None => {
                    assert(verify_run(after_second, world, (steps - 2) as nat) == after_second) by {
                        reveal_with_fuel(verify_run, 2);
                    }
                },
                Some(entries) => {
                    let m2 = VerifyChecksumsView { entries, index: 0, ..m1 };
                    assert(after_second == verify_from(m2));
                    lemma_verify_entries_outcome(world, m2, (steps - 2) as nat);
                },
            },
        }
    }
}

/// A file beside the sidecar written for its digest passes the check.
/// Where the sidecar of the file `rel` of `dir` holds the line written for
/// the digest `digest`, with a line feed behind it, and the file holds
/// content with that digest, the check of the file ends well.
pub proof fn lemma_verify_one_succeeds(
    world: spec_fn(RequestView) -> ReplyView,
    dir: Seq<char>,
    rel: Seq<char>,
    digest: Seq<char>,
    path: Seq<char>,
    content: Seq<u8>,
)
    requires
        is_digest(digest),
        is_sidecar_name(path),
        world(RequestView::Exists { path: extended(joined(dir, rel), sidecar_extension()) })
            == ReplyView::Flag(true),
        world(RequestView::ReadText { path: extended(joined(dir, rel), sidecar_extension()) })
            == ReplyView::Text(entry_line(digest, path) + seq!['\n']),
        world(RequestView::Read { path: joined(dir, rel) }) == ReplyView::Bytes(content),
    ensures
        sha256_hex(content) == digest ==> verify_file_verdict(world, dir, rel) == Ok::<
            (),
            ChecksumErrorView,
        >(()),
{
    let file = joined(dir, rel);
    let sidecar = extended(file, sidecar_extension());
    let m = VerifyFileChecksumView {
        stage: VerifyFileStage::ReadingSidecar,
        file,
        sidecar,
        expected: Seq::empty(),
    };
    lemma_sidecar_vouches(m, digest, path, content, true);
}

/// A manifest line without the separator fails the whole check before any
/// file is read. Where the manifest of `dir` exists and holds a line that
/// lacks the separator, the check has ended after the two requests for the
/// manifest, with `IllFormattedChecksum` naming the manifest, whatever the
/// files hold.
pub proof fn lemma_malformed_manifest_fails_first(
    world: spec_fn(RequestView) -> ReplyView,
    dir: Seq<char>,
    text: Seq<char>,
    k: int,
)
    requires
        world(RequestView::Exists { path: joined(dir, manifest_name()) }) == ReplyView::Flag(true),
        world(RequestView::ReadText { path: joined(dir, manifest_name()) }) == ReplyView::Text(
            text,
        ),
        0 <= k < lines_of(text).len(),
        lacks_separator(lines_of(text)[k]),
    ensures
        verify_run(ProgressView::Ask(verify_start(dir).0, verify_start(dir).1), world, 2)
            == ProgressView::<VerifyChecksumsView, ChecksumErrorView>::Finished(
            Err(ChecksumErrorView::IllFormattedChecksum(joined(dir, manifest_name()))),
        ),
{
    assert(!is_entry_line(lines_of(text)[k]));
    assert(parsed_manifest(text) is None);
    lemma_verify_checksums_outcome(world, dir, 2);
}

} // verus!
