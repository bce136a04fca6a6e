//! Path texts and what `camino` reads in them: components, parents, file
//! names, and the extension that sidecars and encrypted files carry. A path
//! is kept as its text; `camino` reads it by the rules of the platform that
//! the library is built for.

use camino::{Utf8Component, Utf8Path};
use vstd::prelude::*;
use vstd::string::*;

verus! {

/// One component of a path, as `camino` tells them apart.
pub enum PathPart {
    Prefix(String),
    RootDir,
    CurDir,
    ParentDir,
    Normal(String),
}

/// What `PathPart` holds, as mathematical values.
pub enum PathPartView {
    Prefix(Seq<char>),
    RootDir,
    CurDir,
    ParentDir,
    Normal(Seq<char>),
}

impl View for PathPart {
    type V = PathPartView;

    open spec fn view(&self) -> PathPartView {
        match self {
            PathPart::Prefix(s) => PathPartView::Prefix(s@),
            PathPart::RootDir => PathPartView::RootDir,
            PathPart::CurDir => PathPartView::CurDir,
            PathPart::ParentDir => PathPartView::ParentDir,
            PathPart::Normal(s) => PathPartView::Normal(s@),
        }
    }
}

/// The views of a list of components.
pub open spec fn part_views(parts: Seq<PathPart>) -> Seq<PathPartView> {
    parts.map_values(|p: PathPart| p@)
}

/// The views of a list of strings.
pub open spec fn texts(items: Seq<String>) -> Seq<Seq<char>> {
    items.map_values(|s: String| s@)
}

/// The view of a string that may be absent.
pub open spec fn text_of(item: Option<String>) -> Option<Seq<char>> {
    match item {
        Some(s) => Some(s@),
        None => None,
    }
}

/// The components that `Utf8Path::components` yields for a path text.
pub uninterp spec fn path_parts(path: Seq<char>) -> Seq<PathPartView>;

/// The text that `Utf8Path::join` makes of a base and a path adjoined to it.
pub uninterp spec fn joined(base: Seq<char>, tail: Seq<char>) -> Seq<char>;

/// What `Utf8Path::file_name` finds as the final component of a path.
pub uninterp spec fn file_name_of(path: Seq<char>) -> Option<Seq<char>>;

/// The text that `Utf8Path::with_file_name` makes of a path and a new file name.
pub uninterp spec fn with_file_name_of(path: Seq<char>, name: Seq<char>) -> Seq<char>;

/// What `Utf8Path::parent` gives as the path without its final component.
pub uninterp spec fn parent_of(path: Seq<char>) -> Option<Seq<char>>;

/// The paths that `Utf8Path::ancestors` yields, the path itself first.
pub uninterp spec fn ancestors_of(path: Seq<char>) -> Seq<Seq<char>>;

/// Calls `Utf8Path::components` and copies each component out. Believed:
/// the components are a function of the path text alone.
#[verifier::external_body]
pub(crate) fn components(path: &str) -> (parts: Vec<PathPart>)
    ensures
        part_views(parts@) == path_parts(path@),
{
    let mut parts = Vec::new();
    for component in Utf8Path::new(path).components() {
        parts.push(
            match component {
                Utf8Component::Prefix(p) => PathPart::Prefix(p.as_str().to_owned()),
                Utf8Component::RootDir => PathPart::RootDir,
                Utf8Component::CurDir => PathPart::CurDir,
                Utf8Component::ParentDir => PathPart::ParentDir,
                Utf8Component::Normal(s) => PathPart::Normal(s.to_owned()),
            },
        );
    }
    parts
}

/// Calls `Utf8Path::join`. Believed: the result is a function of the two
/// texts alone.
#[verifier::external_body]
pub(crate) fn join(base: &str, tail: &str) -> (r: String)
    ensures
        r@ == joined(base@, tail@),
{
    Utf8Path::new(base).join(tail).into_string()
}

/// Calls `Utf8Path::file_name`. Believed: the result is a function of the
/// path text alone.
#[verifier::external_body]
pub(crate) fn file_name(path: &str) -> (r: Option<String>)
    ensures
        r matches Some(name) ==> file_name_of(path@) == Some(name@),
        r is None ==> file_name_of(path@) is None,
{
    Utf8Path::new(path).file_name().map(str::to_owned)
}

/// Calls `Utf8Path::with_file_name`. Believed: the result is a function of
/// the two texts alone.
#[verifier::external_body]
pub(crate) fn with_file_name(path: &str, name: &str) -> (r: String)
    ensures
        r@ == with_file_name_of(path@, name@),
{
    Utf8Path::new(path).with_file_name(name).into_string()
}

/// Calls `Utf8Path::parent`. Believed: the result is a function of the path
/// text alone.
#[verifier::external_body]
pub(crate) fn parent(path: &str) -> (r: Option<String>)
    ensures
        r matches Some(p) ==> parent_of(path@) == Some(p@),
        r is None ==> parent_of(path@) is None,
{
    Utf8Path::new(path).parent().map(|p| p.as_str().to_owned())
}

/// Calls `Utf8Path::ancestors` and copies each path out. Believed: the
/// result is a function of the path text alone.
#[verifier::external_body]
pub(crate) fn ancestors(path: &str) -> (r: Vec<String>)
    ensures
        texts(r@) == ancestors_of(path@),
{
    Utf8Path::new(path).ancestors().map(|p| p.as_str().to_owned()).collect()
}

/// The path with `.` and `extension` appended to the file name `name`
/// that was found in it; a path in which none was found is left as it is.
pub open spec fn extended_name(
    path: Seq<char>,
    name: Option<Seq<char>>,
    extension: Seq<char>,
) -> Seq<char> {
    match name {
        Some(name) => with_file_name_of(path, name + seq!['.'] + extension),
        None => path,
    }
}

/// The path with `.` and `extension` appended to its file name; a path
/// without a file name is left as it is.
pub open spec fn extended(path: Seq<char>, extension: Seq<char>) -> Seq<char> {
    extended_name(path, file_name_of(path), extension)
}

/// Appends `.` and `extension` to the file name `name` that was found in `path`.
pub fn extend_name(path: &str, name: Option<String>, extension: &str) -> (r: String)
    ensures
        r@ == extended_name(path@, text_of(name), extension@),
{
    match name {
        Some(name) => {
            proof {
                reveal_strlit(".");
                assert("."@ =~= seq!['.']);
            }
            let name = name.concat(".").concat(extension);
            with_file_name(path, name.as_str())
        },
        None => String::from_str(path),
    }
}

/// Paths that can take one more extension behind their file name.
pub trait ExtraUtf8Path {
    /// The text of the path.
    spec fn path_text(&self) -> Seq<char>;

    /// The path with `.` and `extension` appended to its file name.
    fn add_extension(&self, extension: &str) -> (r: String)
        ensures
            r@ == extended(self.path_text(), extension@),
    ;
}

impl ExtraUtf8Path for str {
    open spec fn path_text(&self) -> Seq<char> {
        self@
    }

    fn add_extension(&self, extension: &str) -> (r: String) {
        extend_name(self, file_name(self), extension)
    }
}

impl ExtraUtf8Path for String {
    open spec fn path_text(&self) -> Seq<char> {
        self@
    }

    fn add_extension(&self, extension: &str) -> (r: String) {
        self.as_str().add_extension(extension)
    }
}

/// Two path texts name the same path when they have the same components.
pub open spec fn is_same_path(a: Seq<char>, b: Seq<char>) -> bool {
    path_parts(a) == path_parts(b)
}

/// Decides whether two components are equal.
pub fn part_eq(a: &PathPart, b: &PathPart) -> (r: bool)
    ensures
        r == (a@ == b@),
{
    match a {
        PathPart::Prefix(x) => match b {
            PathPart::Prefix(y) => *x == *y,
            _ => false,
        },
        PathPart::RootDir => matches!(b, PathPart::RootDir),
        PathPart::CurDir => matches!(b, PathPart::CurDir),
        PathPart::ParentDir => matches!(b, PathPart::ParentDir),
        PathPart::Normal(x) => match b {
            PathPart::Normal(y) => *x == *y,
            _ => false,
        },
    }
}

/// Decides whether two lists of components are equal.
pub fn same_parts(a: &Vec<PathPart>, b: &Vec<PathPart>) -> (r: bool)
    ensures
        r == (part_views(a@) == part_views(b@)),
{
    if a.len() != b.len() {
        proof {
            assert(part_views(a@).len() != part_views(b@).len());
        }
        return false;
    }
    let mut i: usize = 0;
    while i < a.len()
        invariant
            i <= a.len(),
            a.len() == b.len(),
            forall|k: int| 0 <= k < i ==> a@[k]@ == b@[k]@,
        decreases a.len() - i,
    {
        if !part_eq(&a[i], &b[i]) {
            proof {
                assert(part_views(a@)[i as int] == a@[i as int]@);
                assert(part_views(b@)[i as int] == b@[i as int]@);
            }
            return false;
        }
        i = i + 1;
    }
    proof {
        assert(part_views(a@) =~= part_views(b@));
    }
    true
}

/// Decides whether two path texts name the same path.
pub fn same_path(a: &str, b: &str) -> (r: bool)
    ensures
        r == is_same_path(a@, b@),
{
    let pa = components(a);
    let pb = components(b);
    same_parts(&pa, &pb)
}

} // verus!
