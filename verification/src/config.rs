//! The declarations of a configuration: which profile owns which secrets,
//! which secrets a profile imports from others, and the checks that a
//! configuration must pass before any pipeline runs on it.

use crate::utf8path_ext::{
    components, is_same_path, join, joined, path_parts, same_path, texts, PathPart, PathPartView,
};
use crate::effects::{Request, RequestView};
use crate::text::same_text;
use vstd::prelude::*;
use vstd::string::*;

verus! {

/// Why a declared path is refused. The text is the path as declared.
#[derive(Debug, Clone, PartialEq, Eq)]
pub enum InvalidPath {
    /// The path starts at the root directory.
    Root(String),
    /// The path holds a `.` component.
    Current(String),
    /// The path holds a `..` component.
    Parent(String),
    /// The path starts with a drive or share prefix.
    Prefix(String),
}

/// What `InvalidPath` holds, as mathematical values.
pub enum InvalidPathView {
    Root(Seq<char>),
    Current(Seq<char>),
    Parent(Seq<char>),
    Prefix(Seq<char>),
}

impl View for InvalidPath {
    type V = InvalidPathView;

    open spec fn view(&self) -> InvalidPathView {
        match self {
            InvalidPath::Root(p) => InvalidPathView::Root(p@),
            InvalidPath::Current(p) => InvalidPathView::Current(p@),
            InvalidPath::Parent(p) => InvalidPathView::Parent(p@),
            InvalidPath::Prefix(p) => InvalidPathView::Prefix(p@),
        }
    }
}

/// The first component from index `from` on that is not a normal one.
pub open spec fn fault_from(parts: Seq<PathPartView>, from: int) -> Option<PathPartView>
    decreases parts.len() - from,
{
    if 0 <= from < parts.len() {
        if parts[from] is Normal {
            fault_from(parts, from + 1)
        } else {
            Some(parts[from])
        }
    } else {
        None
    }
}

/// The refusal that a component other than a normal one earns the path.
pub open spec fn fault_of(path: Seq<char>, part: PathPartView) -> InvalidPathView {
    match part {
        PathPartView::RootDir => InvalidPathView::Root(path),
        PathPartView::CurDir => InvalidPathView::Current(path),
        PathPartView::ParentDir => InvalidPathView::Parent(path),
        _ => InvalidPathView::Prefix(path),
    }
}

/// The text holds a segment that is a single dot at index `i`: the dot
/// stands at the start or behind a separator, and at the end or in front of
/// a separator.
pub open spec fn is_dot_segment_at(path: Seq<char>, i: int) -> bool {
    &&& 0 <= i < path.len()
    &&& path[i] == '.'
    &&& (i == 0 || path[i - 1] == '/')
    &&& (i + 1 == path.len() || path[i + 1] == '/')
}

/// The text holds a `.` segment at some place: at the start, inside, or at
/// the end.
pub open spec fn has_dot_segment(path: Seq<char>) -> bool {
    exists|i: int| is_dot_segment_at(path, i)
}

/// What the components of a path and its text say of it. The path is
/// refused for the first component that is not a normal one. Where all are
/// normal it is still refused, as holding a current-directory component,
/// when its text holds a `.` segment at any place, since the components
/// show such a segment at the start only. Else it is accepted as it is.
pub open spec fn parts_verdict(path: Seq<char>, parts: Seq<PathPartView>) -> Result<
    Seq<char>,
    InvalidPathView,
> {
    match fault_from(parts, 0) {
        Some(part) => Err(fault_of(path, part)),
        None => if has_dot_segment(path) {
            Err(InvalidPathView::Current(path))
        } else {
            Ok(path)
        },
    }
}

/// What holds of a declared path: accepted, or refused with its reason.
pub open spec fn path_verdict(path: Seq<char>) -> Result<Seq<char>, InvalidPathView> {
    parts_verdict(path, path_parts(path))
}

/// A path is valid when it is relative and normalized: every component is
/// a normal one, and no segment of its text is a single dot.
pub open spec fn is_valid_path(path: Seq<char>) -> bool {
    path_verdict(path) is Ok
}

/// A path is valid exactly when `camino` reads none but normal components
/// in it and its text holds no `.` segment.
pub proof fn lemma_valid_path_has_normal_parts(path: Seq<char>)
    ensures
        is_valid_path(path) <==> !has_dot_segment(path) && forall|i: int|
            0 <= i < path_parts(path).len() ==> (#[trigger] path_parts(path)[i]) is Normal,
{
    lemma_fault_from(path_parts(path), 0);
}

/// A path with a `.` segment is refused whatever its components are, and
/// as holding a current-directory component where all of them are normal.
pub proof fn lemma_dot_segment_refused(path: Seq<char>, parts: Seq<PathPartView>)
    requires
        has_dot_segment(path),
    ensures
        parts_verdict(path, parts) is Err,
        fault_from(parts, 0) is None ==> parts_verdict(path, parts) == Err::<
            Seq<char>,
            InvalidPathView,
        >(InvalidPathView::Current(path)),
{
}

/// Decides whether the text holds a `.` segment.
pub fn dot_segment(path: &str) -> (r: bool)
    ensures
        r == has_dot_segment(path@),
{
    let v = crate::text::chars_of(path);
    let n = v.len();
    let mut i: usize = 0;
    while i < n
        invariant
            i <= n,
            n == v.len(),
            v@ == path@,
            forall|k: int| 0 <= k < i ==> !is_dot_segment_at(path@, k),
        decreases n - i,
    {
        if v[i] == '.' && (i == 0 || v[i - 1] == '/') && (i + 1 == n || v[i + 1] == '/') {
            assert(is_dot_segment_at(path@, i as int));
            return true;
        }
        i = i + 1;
    }
    false
}

/// `fault_from` finds no component exactly when all from `from` on are
/// normal, and what it finds is not normal.
pub proof fn lemma_fault_from(parts: Seq<PathPartView>, from: int)
    requires
        0 <= from,
    ensures
        fault_from(parts, from) is None <==> forall|i: int|
            from <= i < parts.len() ==> (#[trigger] parts[i]) is Normal,
        fault_from(parts, from) matches Some(part) ==> !(part is Normal),
    decreases parts.len() - from,
{
    if from < parts.len() {
        if parts[from] is Normal {
            lemma_fault_from(parts, from + 1);
            if fault_from(parts, from) is None {
                assert forall|i: int| from <= i < parts.len() implies (#[trigger] parts[i]) is Normal by {
                    if i > from {
                        assert(from + 1 <= i);
                    }
                }
            }
        } else {
            assert(!(parts[from] is Normal));
        }
    }
}

/// The view of the outcome of checking one path.
pub open spec fn path_result_view(r: Result<String, InvalidPath>) -> Result<
    Seq<char>,
    InvalidPathView,
> {
    match r {
        Ok(p) => Ok(p@),
        Err(e) => Err(e@),
    }
}

/// Judges a path by its components and its text.
pub fn check_parts(path: String, parts: &Vec<PathPart>) -> (r: Result<String, InvalidPath>)
    ensures
        path_result_view(r) == parts_verdict(path@, crate::utf8path_ext::part_views(parts@)),
{
    let ghost views = crate::utf8path_ext::part_views(parts@);
    let mut i: usize = 0;
    while i < parts.len()
        invariant
            i <= parts.len(),
            views == crate::utf8path_ext::part_views(parts@),
            fault_from(views, 0) == fault_from(views, i as int),
        decreases parts.len() - i,
    {
        proof {
            assert(views[i as int] == parts@[i as int]@);
        }
        match &parts[i] {
            PathPart::Normal(_) => {},
            PathPart::RootDir => {
                return Err(InvalidPath::Root(path));
            },
            PathPart::CurDir => {
                return Err(InvalidPath::Current(path));
            },
            PathPart::ParentDir => {
                return Err(InvalidPath::Parent(path));
            },
            PathPart::Prefix(_) => {
                return Err(InvalidPath::Prefix(path));
            },
        }
        i = i + 1;
    }
    if dot_segment(path.as_str()) {
        Err(InvalidPath::Current(path))
    } else {
        Ok(path)
    }
}

/// Accepts a declared path when it is relative and normalized.
pub fn to_valid_path(path: String) -> (r: Result<String, InvalidPath>)
    ensures
        path_result_view(r) == path_verdict(path@),
{
    let parts = components(path.as_str());
    check_parts(path, &parts)
}

/// The paths that one profile declares.
#[derive(Debug, Clone, PartialEq, Eq)]
pub struct Profile {
    pub name: String,
    pub paths: Vec<String>,
}

/// What `Profile` holds, as mathematical values.
pub struct ProfileView {
    pub name: Seq<char>,
    pub paths: Seq<Seq<char>>,
}

impl View for Profile {
    type V = ProfileView;

    open spec fn view(&self) -> ProfileView {
        ProfileView { name: self.name@, paths: texts(self.paths@) }
    }
}

/// The views of a list of profiles.
pub open spec fn profile_views(profiles: Seq<Profile>) -> Seq<ProfileView> {
    profiles.map_values(|p: Profile| p@)
}

/// No two entries carry the same profile name.
pub open spec fn names_unique(t: Seq<ProfileView>) -> bool {
    forall|i: int, j: int|
        0 <= i < t.len() && 0 <= j < t.len() && i != j ==> (#[trigger] t[i]).name != (
        #[trigger] t[j]).name
}

/// The index of the entry for `name`, when there is one.
pub open spec fn has_profile(t: Seq<ProfileView>, name: Seq<char>) -> bool {
    exists|i: int| 0 <= i < t.len() && (#[trigger] t[i]).name == name
}

/// The paths that `name` declares in `t`; none when `t` has no entry for it.
pub open spec fn paths_of(t: Seq<ProfileView>, name: Seq<char>) -> Seq<Seq<char>> {
    if has_profile(t, name) {
        t[choose|i: int| 0 <= i < t.len() && (#[trigger] t[i]).name == name].paths
    } else {
        Seq::empty()
    }
}

/// The table after `name` has been given `paths`: its entry is replaced
/// where it has one, and a new entry comes last where it has none.
pub open spec fn with_profile(t: Seq<ProfileView>, name: Seq<char>, paths: Seq<Seq<char>>) -> Seq<
    ProfileView,
> {
    if has_profile(t, name) {
        t.update(
            choose|i: int| 0 <= i < t.len() && (#[trigger] t[i]).name == name,
            ProfileView { name, paths },
        )
    } else {
        t.push(ProfileView { name, paths })
    }
}

/// A table from profile names to the paths that each profile declares, in
/// the order in which the profiles were entered. A name occurs once.
#[derive(Debug, PartialEq, Eq)]
pub struct ProfileTable {
    entries: Vec<Profile>,
}

impl View for ProfileTable {
    type V = Seq<ProfileView>;

    closed spec fn view(&self) -> Seq<ProfileView> {
        profile_views(self.entries@)
    }
}

impl ProfileTable {
    #[verifier::type_invariant]
    spec fn unique(self) -> bool {
        names_unique(profile_views(self.entries@))
    }

    /// The table without entries.
    pub fn new() -> (r: ProfileTable)
        ensures
            r@ == Seq::<ProfileView>::empty(),
    {
        let entries: Vec<Profile> = Vec::new();
        assert(profile_views(entries@) =~= Seq::<ProfileView>::empty());
        ProfileTable { entries }
    }

    /// How many profiles the table holds. In every table a name occurs once.
    pub fn len(&self) -> (n: usize)
        ensures
            n == self@.len(),
            names_unique(self@),
    {
        proof {
            use_type_invariant(self);
        }
        self.entries.len()
    }

    /// The name of the profile at `index`.
    pub fn name(&self, index: usize) -> (r: &String)
        requires
            index < self@.len(),
        ensures
            r@ == self@[index as int].name,
    {
        &self.entries[index].name
    }

    /// The paths of the profile at `index`.
    pub fn paths(&self, index: usize) -> (r: &Vec<String>)
        requires
            index < self@.len(),
        ensures
            texts(r@) == self@[index as int].paths,
    {
        &self.entries[index].paths
    }

    /// The index of the entry for `name`.
    pub fn position(&self, name: &str) -> (r: Option<usize>)
        ensures
            match r {
                Some(i) => i < self@.len() && self@[i as int].name == name@,
                None => !has_profile(self@, name@),
            },
    {
        let mut i: usize = 0;
        while i < self.entries.len()
            invariant
                i <= self.entries.len(),
                forall|j: int| 0 <= j < i ==> (#[trigger] profile_views(self.entries@)[j]).name != name@,
            decreases self.entries.len() - i,
        {
            proof {
                assert(profile_views(self.entries@)[i as int] == self.entries@[i as int]@);
            }
            if same_text(self.entries[i].name.as_str(), name) {
                return Some(i);
            }
            i = i + 1;
        }
        None
    }

    /// The paths that `name` declares; none when the table has no entry for it.
    pub fn get(&self, name: &str) -> (r: Vec<String>)
        ensures
            texts(r@) == paths_of(self@, name@),
    {
        proof {
            use_type_invariant(self);
        }
        match self.position(name) {
            Some(i) => {
                let ghost w = choose|w: int|
                    0 <= w < self@.len() && (#[trigger] self@[w]).name == name@;
                assert(w == i);
                copy_paths(&self.entries[i].paths)
            },
            None => {
                let r: Vec<String> = Vec::new();
                assert(texts(r@) =~= Seq::<Seq<char>>::empty());
                r
            },
        }
    }

    /// Gives `name` the paths `paths`, in place of those it had.
    pub fn insert(&mut self, name: String, paths: Vec<String>)
        ensures
            final(self)@ == with_profile(old(self)@, name@, texts(paths@)),
    {
        proof {
            use_type_invariant(&*self);
        }
        let ghost before = self@;
        let ghost entry = ProfileView { name: name@, paths: texts(paths@) };
        match self.position(name.as_str()) {
            Some(i) => {
                let ghost w = choose|w: int| 0 <= w < before.len() && (#[trigger] before[w]).name == name@;
                assert(w == i);
                let mut entries: Vec<Profile> = Vec::new();
                let mut k: usize = 0;
                while k < self.entries.len()
                    invariant
                        k <= self.entries.len(),
                        i < self.entries.len(),
                        before == profile_views(self.entries@),
                        entries.len() == k,
                        forall|j: int|
                            0 <= j < k ==> (#[trigger] entries@[j])@ == (if j == i {
                                entry
                            } else {
                                before[j]
                            }),
                        entry == (ProfileView { name: name@, paths: texts(paths@) }),
                    decreases self.entries.len() - k,
                {
                    if k == i {
                        entries.push(Profile { name: name.clone(), paths: copy_paths(&paths) });
                    } else {
                        proof {
                            assert(before[k as int] == self.entries@[k as int]@);
                        }
                        entries.push(
                            Profile {
                                name: self.entries[k].name.clone(),
                                paths: copy_paths(&self.entries[k].paths),
                            },
                        );
                    }
                    k = k + 1;
                }
                proof {
                    assert(profile_views(entries@) =~= before.update(i as int, entry));
                    assert(before[i as int].name == name@);
                    assert(names_unique(before.update(i as int, entry))) by {
                        let u = before.update(i as int, entry);
                        assert forall|a: int, b: int|
                            0 <= a < u.len() && 0 <= b < u.len() && a != b implies (#[trigger] u[a]).name
                            != (#[trigger] u[b]).name by {
                            assert(u[a].name == before[a].name);
                            assert(u[b].name == before[b].name);
                        }
                    }
                }
                self.entries = entries;
            },
            None => {
                let mut entries: Vec<Profile> = Vec::new();
                let mut k: usize = 0;
                while k < self.entries.len()
                    invariant
                        k <= self.entries.len(),
                        before == profile_views(self.entries@),
                        entries.len() == k,
                        forall|j: int| 0 <= j < k ==> (#[trigger] entries@[j])@ == before[j],
                    decreases self.entries.len() - k,
                {
                    proof {
                        assert(before[k as int] == self.entries@[k as int]@);
                    }
                    entries.push(
                        Profile {
                            name: self.entries[k].name.clone(),
                            paths: copy_paths(&self.entries[k].paths),
                        },
                    );
                    k = k + 1;
                }
                entries.push(Profile { name, paths });
                proof {
                    assert(profile_views(entries@) =~= before.push(entry));
                    assert(names_unique(before.push(entry))) by {
                        let u = before.push(entry);
                        assert forall|a: int, b: int|
                            0 <= a < u.len() && 0 <= b < u.len() && a != b implies (#[trigger] u[a]).name
                            != (#[trigger] u[b]).name by {
                            if a < before.len() {
                                assert(u[a] == before[a]);
                            }
                            if b < before.len() {
                                assert(u[b] == before[b]);
                            }
                        }
                    }
                }
                self.entries = entries;
            },
        }
    }
}

/// A copy of a list of paths.
pub fn copy_paths(paths: &Vec<String>) -> (r: Vec<String>)
    ensures
        texts(r@) == texts(paths@),
{
    let mut r: Vec<String> = Vec::new();
    let mut i: usize = 0;
    while i < paths.len()
        invariant
            i <= paths.len(),
            r.len() == i,
            forall|j: int| 0 <= j < i ==> (#[trigger] r@[j])@ == paths@[j]@,
        decreases paths.len() - i,
    {
        r.push(paths[i].clone());
        i = i + 1;
    }
    assert(texts(r@) =~= texts(paths@));
    r
}

/// Why the secrets of a configuration are refused.
#[derive(Debug, Clone, PartialEq, Eq)]
pub enum InvalidSecrets {
    /// The profile declares a path that is not valid.
    InvalidPath(String, InvalidPath),
    /// The profile declares the path more than once.
    MultipleSecretDeclaration(String, String),
    /// The two profiles both declare the path, which only one can own.
    MultipleSecretOwnership(String, String, String),
}

/// What `InvalidSecrets` holds, as mathematical values.
pub enum InvalidSecretsView {
    InvalidPath(Seq<char>, InvalidPathView),
    MultipleSecretDeclaration(Seq<char>, Seq<char>),
    MultipleSecretOwnership(Seq<char>, Seq<char>, Seq<char>),
}

impl View for InvalidSecrets {
    type V = InvalidSecretsView;

    open spec fn view(&self) -> InvalidSecretsView {
        match self {
            InvalidSecrets::InvalidPath(p, e) => InvalidSecretsView::InvalidPath(p@, e@),
            InvalidSecrets::MultipleSecretDeclaration(p, s) => {
                InvalidSecretsView::MultipleSecretDeclaration(p@, s@)
            },
            InvalidSecrets::MultipleSecretOwnership(a, b, s) => {
                InvalidSecretsView::MultipleSecretOwnership(a@, b@, s@)
            },
        }
    }
}

/// Why the additional imports of a configuration are refused.
#[derive(Debug, Clone, PartialEq, Eq)]
pub enum InvalidImports {
    /// The profile declares an import path that is not valid.
    InvalidPath(String, InvalidPath),
    /// The profile declares the import more than once.
    MultipleDeclaration(String, String),
    /// The profile imports a secret that it owns itself.
    DeclaredRedundant(String, String),
    /// The profile imports a path that no profile declares as a secret.
    DeclaredMissing(String, String),
}

/// What `InvalidImports` holds, as mathematical values.
pub enum InvalidImportsView {
    InvalidPath(Seq<char>, InvalidPathView),
    MultipleDeclaration(Seq<char>, Seq<char>),
    DeclaredRedundant(Seq<char>, Seq<char>),
    DeclaredMissing(Seq<char>, Seq<char>),
}

impl View for InvalidImports {
    type V = InvalidImportsView;

    open spec fn view(&self) -> InvalidImportsView {
        match self {
            InvalidImports::InvalidPath(p, e) => InvalidImportsView::InvalidPath(p@, e@),
            InvalidImports::MultipleDeclaration(p, s) => InvalidImportsView::MultipleDeclaration(
                p@,
                s@,
            ),
            InvalidImports::DeclaredRedundant(p, s) => InvalidImportsView::DeclaredRedundant(
                p@,
                s@,
            ),
            InvalidImports::DeclaredMissing(p, s) => InvalidImportsView::DeclaredMissing(p@, s@),
        }
    }
}

/// One of `paths` names the same path as `p`.
pub open spec fn has_path(paths: Seq<Seq<char>>, p: Seq<char>) -> bool {
    exists|k: int| 0 <= k < paths.len() && is_same_path(#[trigger] paths[k], p)
}

/// The path at index `k` of `paths` occurs at another index too.
pub open spec fn is_repeated(paths: Seq<Seq<char>>, k: int) -> bool {
    exists|j: int| 0 <= j < paths.len() && j != k && is_same_path(#[trigger] paths[j], paths[k])
}

/// Position `(i2, k2)` is read before position `(i, k)`: tables are read
/// profile by profile, and each profile path by path.
pub open spec fn earlier(i2: int, k2: int, i: int, k: int) -> bool {
    i2 < i || (i2 == i && k2 < k)
}

/// Path `k` of profile `i` is not valid.
pub open spec fn bad_path_at(t: Seq<ProfileView>, i: int, k: int) -> bool {
    &&& 0 <= i < t.len()
    &&& 0 <= k < t[i].paths.len()
    &&& !is_valid_path(t[i].paths[k])
}

/// Path `k` of profile `i` is the first in the table that is not valid.
pub open spec fn first_bad_path(t: Seq<ProfileView>, i: int, k: int) -> bool {
    &&& bad_path_at(t, i, k)
    &&& forall|i2: int, k2: int| earlier(i2, k2, i, k) ==> !#[trigger] bad_path_at(t, i2, k2)
}

/// Every path of the table is valid.
pub open spec fn all_paths_valid(t: Seq<ProfileView>) -> bool {
    forall|i: int, k: int| !#[trigger] bad_path_at(t, i, k)
}

/// Profile `i` declares its path `k` once more.
pub open spec fn repeat_at(t: Seq<ProfileView>, i: int, k: int) -> bool {
    &&& 0 <= i < t.len()
    &&& 0 <= k < t[i].paths.len()
    &&& is_repeated(t[i].paths, k)
}

/// Path `k` of profile `i` is the first in the table that its profile repeats.
pub open spec fn first_repeat(t: Seq<ProfileView>, i: int, k: int) -> bool {
    &&& repeat_at(t, i, k)
    &&& forall|i2: int, k2: int| earlier(i2, k2, i, k) ==> !#[trigger] repeat_at(t, i2, k2)
}

/// No profile declares a path twice.
pub open spec fn no_repeats(t: Seq<ProfileView>) -> bool {
    forall|i: int, k: int| !#[trigger] repeat_at(t, i, k)
}

/// Path `k` of profile `i` is also declared by the later profile `j`.
pub open spec fn conflict_at(t: Seq<ProfileView>, i: int, j: int, k: int) -> bool {
    &&& 0 <= i < j < t.len()
    &&& 0 <= k < t[i].paths.len()
    &&& has_path(t[j].paths, t[i].paths[k])
}

/// Pairs of profiles are read in the order of the first, then of the
/// second, and the paths of the first in their order.
pub open spec fn earlier_pair(i2: int, j2: int, k2: int, i: int, j: int, k: int) -> bool {
    i2 < i || (i2 == i && (j2 < j || (j2 == j && k2 < k)))
}

/// `(i, j, k)` is the first conflict of the table.
pub open spec fn first_conflict(t: Seq<ProfileView>, i: int, j: int, k: int) -> bool {
    &&& conflict_at(t, i, j, k)
    &&& forall|i2: int, j2: int, k2: int|
        earlier_pair(i2, j2, k2, i, j, k) ==> !#[trigger] conflict_at(t, i2, j2, k2)
}

/// No path is declared by two profiles.
pub open spec fn no_conflicts(t: Seq<ProfileView>) -> bool {
    forall|i: int, j: int, k: int| !#[trigger] conflict_at(t, i, j, k)
}

/// What validation owes for the secrets `t`. The table is accepted
/// unchanged when every path is valid, no profile repeats a path and no
/// path has two owners. Else it is refused for the first fault, the checks
/// taken in that order: an invalid path before any repeated one, a repeated
/// one before any path with two owners.
pub open spec fn secrets_verdict(
    t: Seq<ProfileView>,
    r: Result<Seq<ProfileView>, InvalidSecretsView>,
) -> bool {
    match r {
        Ok(v) => v == t && all_paths_valid(t) && no_repeats(t) && no_conflicts(t),
        Err(InvalidSecretsView::InvalidPath(name, fault)) => exists|i: int, k: int|
            #[trigger] first_bad_path(t, i, k) && name == t[i].name && path_verdict(
                t[i].paths[k],
            ) == Err::<Seq<char>, InvalidPathView>(fault),
        Err(InvalidSecretsView::MultipleSecretDeclaration(name, path)) => all_paths_valid(t)
            && exists|i: int, k: int|
            #[trigger] first_repeat(t, i, k) && name == t[i].name && path == t[i].paths[k],
        Err(InvalidSecretsView::MultipleSecretOwnership(first, second, path)) => all_paths_valid(t)
            && no_repeats(t) && exists|i: int, j: int, k: int|
            #[trigger] first_conflict(t, i, j, k) && first == t[i].name && second == t[j].name
                && path == t[i].paths[k],
    }
}

/// Some profile of `secrets` declares the path `p`.
pub open spec fn is_owned(secrets: Seq<ProfileView>, p: Seq<char>) -> bool {
    exists|s: int| 0 <= s < secrets.len() && has_path((#[trigger] secrets[s]).paths, p)
}

/// Import `k` of profile `i` is one of that profile's own secrets.
pub open spec fn is_redundant(
    secrets: Seq<ProfileView>,
    t: Seq<ProfileView>,
    i: int,
    k: int,
) -> bool {
    has_path(paths_of(secrets, t[i].name), t[i].paths[k])
}

/// Import `k` of profile `i` is at fault: declared twice, redundant, or
/// owned by nobody.
pub open spec fn import_fault_at(
    secrets: Seq<ProfileView>,
    t: Seq<ProfileView>,
    i: int,
    k: int,
) -> bool {
    &&& 0 <= i < t.len()
    &&& 0 <= k < t[i].paths.len()
    &&& (is_repeated(t[i].paths, k) || is_redundant(secrets, t, i, k) || !is_owned(
        secrets,
        t[i].paths[k],
    ))
}

/// Import `k` of profile `i` is the first in the table that is at fault.
pub open spec fn first_import_fault(
    secrets: Seq<ProfileView>,
    t: Seq<ProfileView>,
    i: int,
    k: int,
) -> bool {
    &&& import_fault_at(secrets, t, i, k)
    &&& forall|i2: int, k2: int|
        earlier(i2, k2, i, k) ==> !#[trigger] import_fault_at(secrets, t, i2, k2)
}

/// What validation owes for the additional imports `t` beside the secrets
/// `secrets`. The table is accepted unchanged when every path is valid and
/// no import is at fault. Else it is refused: for the first invalid path if
/// there is one, and otherwise for the first import at fault, which is
/// reported as declared twice before redundant, and as redundant before
/// owned by nobody.
pub open spec fn imports_verdict(
    secrets: Seq<ProfileView>,
    t: Seq<ProfileView>,
    r: Result<Seq<ProfileView>, InvalidImportsView>,
) -> bool {
    match r {
        Ok(v) => v == t && all_paths_valid(t) && forall|i: int, k: int|
            !#[trigger] import_fault_at(secrets, t, i, k),
        Err(InvalidImportsView::InvalidPath(name, fault)) => exists|i: int, k: int|
            #[trigger] first_bad_path(t, i, k) && name == t[i].name && path_verdict(
                t[i].paths[k],
            ) == Err::<Seq<char>, InvalidPathView>(fault),
        Err(InvalidImportsView::MultipleDeclaration(name, path)) => all_paths_valid(t)
            && exists|i: int, k: int|
            #[trigger] first_import_fault(secrets, t, i, k) && name == t[i].name && path
                == t[i].paths[k] && is_repeated(t[i].paths, k),
        Err(InvalidImportsView::DeclaredRedundant(name, path)) => all_paths_valid(t)
            && exists|i: int, k: int|
            #[trigger] first_import_fault(secrets, t, i, k) && name == t[i].name && path
                == t[i].paths[k] && !is_repeated(t[i].paths, k) && is_redundant(secrets, t, i, k),
        Err(InvalidImportsView::DeclaredMissing(name, path)) => all_paths_valid(t)
            && exists|i: int, k: int|
            #[trigger] first_import_fault(secrets, t, i, k) && name == t[i].name && path
                == t[i].paths[k] && !is_repeated(t[i].paths, k) && !is_redundant(
                secrets,
                t,
                i,
                k,
            ) && !is_owned(secrets, t[i].paths[k]),
    }
}

/// The view of the outcome of validating secrets.
pub open spec fn secrets_result_view(r: Result<ProfileTable, InvalidSecrets>) -> Result<
    Seq<ProfileView>,
    InvalidSecretsView,
> {
    match r {
        Ok(t) => Ok(t@),
        Err(e) => Err(e@),
    }
}

/// The view of the outcome of validating imports.
pub open spec fn imports_result_view(r: Result<ProfileTable, InvalidImports>) -> Result<
    Seq<ProfileView>,
    InvalidImportsView,
> {
    match r {
        Ok(t) => Ok(t@),
        Err(e) => Err(e@),
    }
}

/// Decides whether one of `paths` names the same path as `p`.
pub fn contains_path(paths: &Vec<String>, p: &str) -> (r: bool)
    ensures
        r == has_path(texts(paths@), p@),
{
    let mut k: usize = 0;
    while k < paths.len()
        invariant
            k <= paths.len(),
            forall|j: int| 0 <= j < k ==> !is_same_path(#[trigger] texts(paths@)[j], p@),
        decreases paths.len() - k,
    {
        if same_path(paths[k].as_str(), p) {
            assert(is_same_path(texts(paths@)[k as int], p@));
            return true;
        }
        k = k + 1;
    }
    false
}

/// Decides whether the path at index `k` occurs at another index too.
pub fn occurs_twice(paths: &Vec<String>, k: usize) -> (r: bool)
    requires
        k < paths.len(),
    ensures
        r == is_repeated(texts(paths@), k as int),
{
    let mut j: usize = 0;
    while j < paths.len()
        invariant
            j <= paths.len(),
            k < paths.len(),
            forall|w: int|
                0 <= w < j && w != k ==> !is_same_path(
                    #[trigger] texts(paths@)[w],
                    texts(paths@)[k as int],
                ),
        decreases paths.len() - j,
    {
        if j != k && same_path(paths[j].as_str(), paths[k].as_str()) {
            assert(is_same_path(texts(paths@)[j as int], texts(paths@)[k as int]));
            return true;
        }
        j = j + 1;
    }
    false
}

/// Finds the first of `paths` that is not valid, with the reason.
pub fn find_invalid(paths: &Vec<String>) -> (r: Option<(usize, InvalidPath)>)
    ensures
        match r {
            Some((k, e)) => {
                &&& k < paths.len()
                &&& path_verdict(texts(paths@)[k as int]) == Err::<Seq<char>, InvalidPathView>(e@)
                &&& forall|j: int| 0 <= j < k ==> is_valid_path(#[trigger] texts(paths@)[j])
            },
            None => forall|j: int| 0 <= j < paths.len() ==> is_valid_path(#[trigger] texts(paths@)[j]),
        },
{
    let mut k: usize = 0;
    while k < paths.len()
        invariant
            k <= paths.len(),
            forall|j: int| 0 <= j < k ==> is_valid_path(#[trigger] texts(paths@)[j]),
        decreases paths.len() - k,
    {
        assert(texts(paths@)[k as int] == paths@[k as int]@);
        match to_valid_path(paths[k].clone()) {
            Ok(_) => {},
            Err(e) => {
                return Some((k, e));
            },
        }
        k = k + 1;
    }
    None
}

/// Finds the first of `paths` that occurs more than once.
pub fn find_repeated(paths: &Vec<String>) -> (r: Option<usize>)
    ensures
        match r {
            Some(k) => {
                &&& k < paths.len()
                &&& is_repeated(texts(paths@), k as int)
                &&& forall|j: int| 0 <= j < k ==> !#[trigger] is_repeated(texts(paths@), j)
            },
            None => forall|j: int| 0 <= j < paths.len() ==> !#[trigger] is_repeated(texts(paths@), j),
        },
{
    let mut k: usize = 0;
    while k < paths.len()
        invariant
            k <= paths.len(),
            forall|j: int| 0 <= j < k ==> !#[trigger] is_repeated(texts(paths@), j),
        decreases paths.len() - k,
    {
        if occurs_twice(paths, k) {
            return Some(k);
        }
        k = k + 1;
    }
    None
}

/// Finds the first of `mine` that `theirs` holds too.
pub fn find_shared(mine: &Vec<String>, theirs: &Vec<String>) -> (r: Option<usize>)
    ensures
        match r {
            Some(k) => {
                &&& k < mine.len()
                &&& has_path(texts(theirs@), texts(mine@)[k as int])
                &&& forall|j: int|
                    0 <= j < k ==> !has_path(texts(theirs@), #[trigger] texts(mine@)[j])
            },
            None => forall|j: int|
                0 <= j < mine.len() ==> !has_path(texts(theirs@), #[trigger] texts(mine@)[j]),
        },
{
    let mut k: usize = 0;
    while k < mine.len()
        invariant
            k <= mine.len(),
            forall|j: int| 0 <= j < k ==> !has_path(texts(theirs@), #[trigger] texts(mine@)[j]),
        decreases mine.len() - k,
    {
        assert(texts(mine@)[k as int] == mine@[k as int]@);
        if contains_path(theirs, mine[k].as_str()) {
            return Some(k);
        }
        k = k + 1;
    }
    None
}

/// Validates the secrets that the profiles declare.
pub fn to_valid_secrets(secrets: ProfileTable) -> (r: Result<ProfileTable, InvalidSecrets>)
    ensures
        secrets_verdict(secrets@, secrets_result_view(r)),
{
    let ghost t = secrets@;
    let n = secrets.len();
    let mut i: usize = 0;
    while i < n
        invariant
            i <= n,
            n == t.len(),
            t == secrets@,
            forall|i2: int, k2: int| i2 < i ==> !#[trigger] bad_path_at(t, i2, k2),
        decreases n - i,
    {
        match find_invalid(secrets.paths(i)) {
            Some((k, e)) => {
                let name = secrets.name(i).clone();
                proof {
                    assert(bad_path_at(t, i as int, k as int));
                    assert forall|i2: int, k2: int|
                        earlier(i2, k2, i as int, k as int) implies !#[trigger] bad_path_at(
                        t,
                        i2,
                        k2,
                    ) by {
                        if i2 == i && 0 <= k2 {
                            assert(is_valid_path(t[i as int].paths[k2]));
                        }
                    }
                    assert(first_bad_path(t, i as int, k as int));
                }
                return Err(InvalidSecrets::InvalidPath(name, e));
            },
            None => {},
        }
        i = i + 1;
    }
    assert(all_paths_valid(t));
    let mut i: usize = 0;
    while i < n
        invariant
            i <= n,
            n == t.len(),
            t == secrets@,
            all_paths_valid(t),
            forall|i2: int, k2: int| i2 < i ==> !#[trigger] repeat_at(t, i2, k2),
        decreases n - i,
    {
        let mine = secrets.paths(i);
        match find_repeated(mine) {
            Some(k) => {
                let name = secrets.name(i).clone();
                let path = mine[k].clone();
                proof {
                    assert(texts(mine@)[k as int] == mine@[k as int]@);
                    assert(repeat_at(t, i as int, k as int));
                    assert(first_repeat(t, i as int, k as int));
                }
                return Err(InvalidSecrets::MultipleSecretDeclaration(name, path));
            },
            None => {},
        }
        i = i + 1;
    }
    assert(no_repeats(t));
    let mut i: usize = 0;
    while i < n
        invariant
            i <= n,
            n == t.len(),
            t == secrets@,
            all_paths_valid(t),
            no_repeats(t),
            forall|i2: int, j2: int, k2: int| i2 < i ==> !#[trigger] conflict_at(t, i2, j2, k2),
        decreases n - i,
    {
        let mut j: usize = i + 1;
        while j < n
            invariant
                i < j <= n,
                n == t.len(),
                t == secrets@,
                all_paths_valid(t),
                no_repeats(t),
                forall|i2: int, j2: int, k2: int| i2 < i ==> !#[trigger] conflict_at(t, i2, j2, k2),
                forall|j2: int, k2: int| j2 < j ==> !#[trigger] conflict_at(t, i as int, j2, k2),
            decreases n - j,
        {
            let mine = secrets.paths(i);
            match find_shared(mine, secrets.paths(j)) {
                Some(k) => {
                    let first = secrets.name(i).clone();
                    let second = secrets.name(j).clone();
                    let path = mine[k].clone();
                    proof {
                        assert(texts(mine@)[k as int] == mine@[k as int]@);
                        assert(conflict_at(t, i as int, j as int, k as int));
                        assert(first_conflict(t, i as int, j as int, k as int));
                    }
                    return Err(InvalidSecrets::MultipleSecretOwnership(first, second, path));
                },
                None => {},
            }
            j = j + 1;
        }
        i = i + 1;
    }
    assert(no_conflicts(t));
    Ok(secrets)
}

/// Decides whether some profile of `secrets` declares the path `p`.
pub fn owned(secrets: &ProfileTable, p: &str) -> (r: bool)
    ensures
        r == is_owned(secrets@, p@),
{
    let n = secrets.len();
    let mut s: usize = 0;
    while s < n
        invariant
            s <= n,
            n == secrets@.len(),
            forall|w: int| 0 <= w < s ==> !has_path((#[trigger] secrets@[w]).paths, p@),
        decreases n - s,
    {
        if contains_path(secrets.paths(s), p) {
            return true;
        }
        s = s + 1;
    }
    false
}

/// Validates the additional imports that the profiles declare, against the
/// validated secrets.
pub fn to_valid_imports(secrets: &ProfileTable, additional_imports: ProfileTable) -> (r: Result<
    ProfileTable,
    InvalidImports,
>)
    ensures
        imports_verdict(secrets@, additional_imports@, imports_result_view(r)),
{
    let ghost t = additional_imports@;
    let ghost s = secrets@;
    let n = additional_imports.len();
    let mut i: usize = 0;
    while i < n
        invariant
            i <= n,
            n == t.len(),
            t == additional_imports@,
            forall|i2: int, k2: int| i2 < i ==> !#[trigger] bad_path_at(t, i2, k2),
        decreases n - i,
    {
        match find_invalid(additional_imports.paths(i)) {
            Some((k, e)) => {
                let name = additional_imports.name(i).clone();
                proof {
                    assert(bad_path_at(t, i as int, k as int));
                    assert forall|i2: int, k2: int|
                        earlier(i2, k2, i as int, k as int) implies !#[trigger] bad_path_at(
                        t,
                        i2,
                        k2,
                    ) by {
                        if i2 == i && 0 <= k2 {
                            assert(is_valid_path(t[i as int].paths[k2]));
                        }
                    }
                    assert(first_bad_path(t, i as int, k as int));
                }
                return Err(InvalidImports::InvalidPath(name, e));
            },
            None => {},
        }
        i = i + 1;
    }
    assert(all_paths_valid(t));
    let mut i: usize = 0;
    while i < n
        invariant
            i <= n,
            n == t.len(),
            t == additional_imports@,
            s == secrets@,
            all_paths_valid(t),
            forall|i2: int, k2: int| i2 < i ==> !#[trigger] import_fault_at(s, t, i2, k2),
        decreases n - i,
    {
        let imports = additional_imports.paths(i);
        let own = secrets.get(additional_imports.name(i).as_str());
        let mut k: usize = 0;
        while k < imports.len()
            invariant
                k <= imports.len(),
                i < n,
                n == t.len(),
                t == additional_imports@,
                s == secrets@,
                texts(imports@) == t[i as int].paths,
                texts(own@) == paths_of(s, t[i as int].name),
                all_paths_valid(t),
                forall|i2: int, k2: int| i2 < i ==> !#[trigger] import_fault_at(s, t, i2, k2),
                forall|k2: int| k2 < k ==> !#[trigger] import_fault_at(s, t, i as int, k2),
            decreases imports.len() - k,
        {
            proof {
                assert(texts(imports@)[k as int] == imports@[k as int]@);
            }
            let repeated = occurs_twice(imports, k);
            let redundant = contains_path(&own, imports[k].as_str());
            let missing = !owned(secrets, imports[k].as_str());
            if repeated || redundant || missing {
                let name = additional_imports.name(i).clone();
                let path = imports[k].clone();
                proof {
                    assert(import_fault_at(s, t, i as int, k as int));
                    assert(first_import_fault(s, t, i as int, k as int));
                }
                if repeated {
                    return Err(InvalidImports::MultipleDeclaration(name, path));
                } else if redundant {
                    return Err(InvalidImports::DeclaredRedundant(name, path));
                } else {
                    return Err(InvalidImports::DeclaredMissing(name, path));
                }
            }
            k = k + 1;
        }
        i = i + 1;
    }
    Ok(additional_imports)
}

/// A table has one first invalid path at most.
pub proof fn lemma_first_bad_path_unique(t: Seq<ProfileView>, i: int, k: int, i2: int, k2: int)
    requires
        first_bad_path(t, i, k),
        first_bad_path(t, i2, k2),
    ensures
        i == i2,
        k == k2,
{
    if earlier(i, k, i2, k2) {
        assert(bad_path_at(t, i, k));
        assert(false);
    }
    if earlier(i2, k2, i, k) {
        assert(bad_path_at(t, i2, k2));
        assert(false);
    }
}

/// A table has one first repeated path at most.
pub proof fn lemma_first_repeat_unique(t: Seq<ProfileView>, i: int, k: int, i2: int, k2: int)
    requires
        first_repeat(t, i, k),
        first_repeat(t, i2, k2),
    ensures
        i == i2,
        k == k2,
{
    if earlier(i, k, i2, k2) {
        assert(repeat_at(t, i, k));
        assert(false);
    }
    if earlier(i2, k2, i, k) {
        assert(repeat_at(t, i2, k2));
        assert(false);
    }
}

/// A table has one first conflict at most.
pub proof fn lemma_first_conflict_unique(
    t: Seq<ProfileView>,
    i: int,
    j: int,
    k: int,
    i2: int,
    j2: int,
    k2: int,
)
    requires
        first_conflict(t, i, j, k),
        first_conflict(t, i2, j2, k2),
    ensures
        i == i2,
        j == j2,
        k == k2,
{
    if earlier_pair(i, j, k, i2, j2, k2) {
        assert(conflict_at(t, i, j, k));
        assert(false);
    }
    if earlier_pair(i2, j2, k2, i, j, k) {
        assert(conflict_at(t, i2, j2, k2));
        assert(false);
    }
}

/// Validation of secrets has one outcome: two results that both meet
/// `secrets_verdict` for the same table are the same result.
pub proof fn lemma_secrets_verdict_unique(
    t: Seq<ProfileView>,
    r1: Result<Seq<ProfileView>, InvalidSecretsView>,
    r2: Result<Seq<ProfileView>, InvalidSecretsView>,
)
    requires
        secrets_verdict(t, r1),
        secrets_verdict(t, r2),
    ensures
        r1 == r2,
{
    let rank1 = secrets_rank(t, r1);
    let rank2 = secrets_rank(t, r2);
    match (r1, r2) {
        (
            Err(InvalidSecretsView::InvalidPath(n1, f1)),
            Err(InvalidSecretsView::InvalidPath(n2, f2)),
        ) => {
            let (i, k) = choose|i: int, k: int|
                #[trigger] first_bad_path(t, i, k) && n1 == t[i].name && path_verdict(
                    t[i].paths[k],
                ) == Err::<Seq<char>, InvalidPathView>(f1);
            let (i2, k2) = choose|i: int, k: int|
                #[trigger] first_bad_path(t, i, k) && n2 == t[i].name && path_verdict(
                    t[i].paths[k],
                ) == Err::<Seq<char>, InvalidPathView>(f2);
            lemma_first_bad_path_unique(t, i, k, i2, k2);
        },
        (
            Err(InvalidSecretsView::MultipleSecretDeclaration(n1, path_a)),
            Err(InvalidSecretsView::MultipleSecretDeclaration(n2, path_b)),
        ) => {
            let (i, k) = choose|i: int, k: int|
                #[trigger] first_repeat(t, i, k) && n1 == t[i].name && path_a == t[i].paths[k];
            let (i2, k2) = choose|i: int, k: int|
                #[trigger] first_repeat(t, i, k) && n2 == t[i].name && path_b == t[i].paths[k];
            lemma_first_repeat_unique(t, i, k, i2, k2);
        },
        (
            Err(InvalidSecretsView::MultipleSecretOwnership(a1, b1, path_a)),
            Err(InvalidSecretsView::MultipleSecretOwnership(a2, b2, path_b)),
        ) => {
            let (i, j, k) = choose|i: int, j: int, k: int|
                #[trigger] first_conflict(t, i, j, k) && a1 == t[i].name && b1 == t[j].name && path_a
                    == t[i].paths[k];
            let (i2, j2, k2) = choose|i: int, j: int, k: int|
                #[trigger] first_conflict(t, i, j, k) && a2 == t[i].name && b2 == t[j].name && path_b
                    == t[i].paths[k];
            lemma_first_conflict_unique(t, i, j, k, i2, j2, k2);
        },
        (Ok(_), Ok(_)) => {},
        _ => {
            assert(rank1 != rank2);
            if rank1 == 0 || rank2 == 0 {
                let (i, k) = choose|i: int, k: int| #[trigger] first_bad_path(t, i, k);
                assert(bad_path_at(t, i, k));
            } else if rank1 == 1 || rank2 == 1 {
                let (i, k) = choose|i: int, k: int| #[trigger] first_repeat(t, i, k);
                assert(repeat_at(t, i, k));
            } else {
                let (i, j, k) = choose|i: int, j: int, k: int| #[trigger] first_conflict(t, i, j, k);
                assert(conflict_at(t, i, j, k));
            }
            assert(false);
        },
    }
}

/// The place of an outcome in the order of the checks.
pub open spec fn secrets_rank(
    t: Seq<ProfileView>,
    r: Result<Seq<ProfileView>, InvalidSecretsView>,
) -> int {
    match r {
        Err(InvalidSecretsView::InvalidPath(_, _)) => 0,
        Err(InvalidSecretsView::MultipleSecretDeclaration(_, _)) => 1,
        Err(InvalidSecretsView::MultipleSecretOwnership(_, _, _)) => 2,
        Ok(_) => 3,
    }
}

/// Validation of imports has one outcome: two results that both meet
/// `imports_verdict` for the same tables are the same result.
pub proof fn lemma_imports_verdict_unique(
    secrets: Seq<ProfileView>,
    t: Seq<ProfileView>,
    r1: Result<Seq<ProfileView>, InvalidImportsView>,
    r2: Result<Seq<ProfileView>, InvalidImportsView>,
)
    requires
        imports_verdict(secrets, t, r1),
        imports_verdict(secrets, t, r2),
    ensures
        r1 == r2,
{
    let bad1 = r1 matches Err(InvalidImportsView::InvalidPath(_, _));
    let bad2 = r2 matches Err(InvalidImportsView::InvalidPath(_, _));
    if bad1 || bad2 {
        let (i, k) = choose|i: int, k: int| #[trigger] first_bad_path(t, i, k);
        assert(bad_path_at(t, i, k));
        assert(bad1 && bad2);
        match (r1, r2) {
            (
                Err(InvalidImportsView::InvalidPath(n1, f1)),
                Err(InvalidImportsView::InvalidPath(n2, f2)),
            ) => {
                let (i, k) = choose|i: int, k: int|
                    #[trigger] first_bad_path(t, i, k) && n1 == t[i].name && path_verdict(
                        t[i].paths[k],
                    ) == Err::<Seq<char>, InvalidPathView>(f1);
                let (i2, k2) = choose|i: int, k: int|
                    #[trigger] first_bad_path(t, i, k) && n2 == t[i].name && path_verdict(
                        t[i].paths[k],
                    ) == Err::<Seq<char>, InvalidPathView>(f2);
                lemma_first_bad_path_unique(t, i, k, i2, k2);
            },
            _ => {},
        }
    } else if r1 is Ok || r2 is Ok {
        if r1 is Err {
            let (i, k) = import_fault_of(secrets, t, r1);
            assert(import_fault_at(secrets, t, i, k));
        }
        if r2 is Err {
            let (i, k) = import_fault_of(secrets, t, r2);
            assert(import_fault_at(secrets, t, i, k));
        }
    } else {
        let (i, k) = import_fault_of(secrets, t, r1);
        let (i2, k2) = import_fault_of(secrets, t, r2);
        lemma_first_import_fault_unique(secrets, t, i, k, i2, k2);
    }
}

/// The import that a refusal other than for an invalid path names.
pub open spec fn import_fault_of(
    secrets: Seq<ProfileView>,
    t: Seq<ProfileView>,
    r: Result<Seq<ProfileView>, InvalidImportsView>,
) -> (int, int) {
    match r {
        Err(InvalidImportsView::MultipleDeclaration(name, path)) => choose|i: int, k: int|
            #[trigger] first_import_fault(secrets, t, i, k) && name == t[i].name && path
                == t[i].paths[k] && is_repeated(t[i].paths, k),
        Err(InvalidImportsView::DeclaredRedundant(name, path)) => choose|i: int, k: int|
            #[trigger] first_import_fault(secrets, t, i, k) && name == t[i].name && path
                == t[i].paths[k] && !is_repeated(t[i].paths, k) && is_redundant(secrets, t, i, k),
        Err(InvalidImportsView::DeclaredMissing(name, path)) => choose|i: int, k: int|
            #[trigger] first_import_fault(secrets, t, i, k) && name == t[i].name && path
                == t[i].paths[k] && !is_repeated(t[i].paths, k) && !is_redundant(
                secrets,
                t,
                i,
                k,
            ) && !is_owned(secrets, t[i].paths[k]),
        _ => (0, 0),
    }
}

/// Exclusive ownership. When every declared path is valid and no profile
/// repeats a path, a path that two profiles declare makes validation fail
/// with `MultipleSecretOwnership`: the error names two entries of the table
/// that both declare the path it names, and with unique names, as in every
/// `ProfileTable`, two different profiles.
pub proof fn lemma_exclusive_ownership(
    t: Seq<ProfileView>,
    a: int,
    b: int,
    ka: int,
    kb: int,
    r: Result<Seq<ProfileView>, InvalidSecretsView>,
)
    requires
        0 <= a < t.len(),
        0 <= b < t.len(),
        a != b,
        0 <= ka < t[a].paths.len(),
        0 <= kb < t[b].paths.len(),
        is_same_path(t[a].paths[ka], t[b].paths[kb]),
        all_paths_valid(t),
        no_repeats(t),
        secrets_verdict(t, r),
    ensures
        r matches Err(InvalidSecretsView::MultipleSecretOwnership(first, second, path)) && (
        exists|i: int, j: int|
            0 <= i < j < t.len() && first == (#[trigger] t[i]).name && second == (
            #[trigger] t[j]).name && has_path(t[i].paths, path) && has_path(t[j].paths, path))
            && (names_unique(t) ==> first != second),
{
    if a < b {
        assert(is_same_path(t[b].paths[kb], t[a].paths[ka]));
        assert(conflict_at(t, a, b, ka));
    } else {
        assert(conflict_at(t, b, a, kb));
    }
    match r {
        Ok(_) => {
            assert(false);
        },
        Err(InvalidSecretsView::InvalidPath(name, fault)) => {
            let (i, k) = choose|i: int, k: int| #[trigger] first_bad_path(t, i, k);
            assert(bad_path_at(t, i, k));
            assert(false);
        },
        Err(InvalidSecretsView::MultipleSecretDeclaration(name, path)) => {
            let (i, k) = choose|i: int, k: int| #[trigger] first_repeat(t, i, k);
            assert(repeat_at(t, i, k));
            assert(false);
        },
        Err(InvalidSecretsView::MultipleSecretOwnership(first, second, path)) => {
            let (i, j, k) = choose|i: int, j: int, k: int|
                #[trigger] first_conflict(t, i, j, k) && first == t[i].name && second == t[j].name
                    && path == t[i].paths[k];
            assert(conflict_at(t, i, j, k));
            assert(is_same_path(t[i].paths[k], path));
            assert(has_path(t[i].paths, path));
            assert(first == t[i].name && second == t[j].name);
        },
    }
}

/// Import redundancy. When every import path is valid, an import that is
/// one of the importer's own secrets makes validation fail with
/// `DeclaredRedundant`, naming the importer and the path, unless an earlier
/// import is at fault or the import itself is declared twice.
pub proof fn lemma_redundant_import(
    secrets: Seq<ProfileView>,
    t: Seq<ProfileView>,
    i: int,
    k: int,
    r: Result<Seq<ProfileView>, InvalidImportsView>,
)
    requires
        0 <= i < t.len(),
        0 <= k < t[i].paths.len(),
        is_redundant(secrets, t, i, k),
        all_paths_valid(t),
        !is_repeated(t[i].paths, k),
        forall|i2: int, k2: int|
            earlier(i2, k2, i, k) ==> !#[trigger] import_fault_at(secrets, t, i2, k2),
        imports_verdict(secrets, t, r),
    ensures
        r == Err::<Seq<ProfileView>, InvalidImportsView>(
            InvalidImportsView::DeclaredRedundant(t[i].name, t[i].paths[k]),
        ),
{
    assert(import_fault_at(secrets, t, i, k));
    assert(first_import_fault(secrets, t, i, k));
    match r {
        Ok(_) => {
            assert(false);
        },
        Err(InvalidImportsView::InvalidPath(name, fault)) => {
            let (i2, k2) = choose|i2: int, k2: int| #[trigger] first_bad_path(t, i2, k2);
            assert(bad_path_at(t, i2, k2));
            assert(false);
        },
        Err(InvalidImportsView::MultipleDeclaration(name, path)) => {
            let (i2, k2) = choose|i2: int, k2: int|
                #[trigger] first_import_fault(secrets, t, i2, k2) && name == t[i2].name && path
                    == t[i2].paths[k2] && is_repeated(t[i2].paths, k2);
            lemma_first_import_fault_unique(secrets, t, i, k, i2, k2);
        },
        Err(InvalidImportsView::DeclaredRedundant(name, path)) => {
            let (i2, k2) = choose|i2: int, k2: int|
                #[trigger] first_import_fault(secrets, t, i2, k2) && name == t[i2].name && path
                    == t[i2].paths[k2];
            lemma_first_import_fault_unique(secrets, t, i, k, i2, k2);
        },
        Err(InvalidImportsView::DeclaredMissing(name, path)) => {
            let (i2, k2) = choose|i2: int, k2: int|
                #[trigger] first_import_fault(secrets, t, i2, k2) && name == t[i2].name && path
                    == t[i2].paths[k2] && !is_redundant(secrets, t, i2, k2);
            lemma_first_import_fault_unique(secrets, t, i, k, i2, k2);
        },
    }
}

/// A table has one first import at fault at most.
pub proof fn lemma_first_import_fault_unique(
    secrets: Seq<ProfileView>,
    t: Seq<ProfileView>,
    i: int,
    k: int,
    i2: int,
    k2: int,
)
    requires
        first_import_fault(secrets, t, i, k),
        first_import_fault(secrets, t, i2, k2),
    ensures
        i == i2,
        k == k2,
{
    if earlier(i, k, i2, k2) {
        assert(import_fault_at(secrets, t, i, k));
        assert(false);
    }
    if earlier(i2, k2, i, k) {
        assert(import_fault_at(secrets, t, i2, k2));
        assert(false);
    }
}

/// The secrets of a configuration are in order: every path is valid, no
/// profile repeats a path, and no path has two owners.
pub open spec fn secrets_ok(t: Seq<ProfileView>) -> bool {
    all_paths_valid(t) && no_repeats(t) && no_conflicts(t)
}

/// The additional imports of a configuration are in order beside its
/// secrets: every path is valid, and every import is declared once, is not
/// one of the importer's own secrets, and is owned by some profile.
pub open spec fn imports_ok(secrets: Seq<ProfileView>, t: Seq<ProfileView>) -> bool {
    all_paths_valid(t) && forall|i: int, k: int| !#[trigger] import_fault_at(secrets, t, i, k)
}

/// Secrets that are in order are owned exclusively: two different
/// declarations in the table, be it in one profile or in two, never name
/// the same path.
pub proof fn lemma_secrets_ok_is_exclusive(
    t: Seq<ProfileView>,
    i: int,
    k: int,
    j: int,
    l: int,
)
    requires
        secrets_ok(t),
        0 <= i < t.len(),
        0 <= j < t.len(),
        0 <= k < t[i].paths.len(),
        0 <= l < t[j].paths.len(),
        i != j || k != l,
    ensures
        !is_same_path(t[i].paths[k], t[j].paths[l]),
{
    if is_same_path(t[i].paths[k], t[j].paths[l]) {
        if i == j {
            assert(is_same_path(t[i].paths[l], t[i].paths[k]));
            assert(is_repeated(t[i].paths, k));
            assert(repeat_at(t, i, k));
        } else if i < j {
            assert(is_same_path(t[j].paths[l], t[i].paths[k]));
            assert(has_path(t[j].paths, t[i].paths[k]));
            assert(conflict_at(t, i, j, k));
        } else {
            assert(has_path(t[i].paths, t[j].paths[l]));
            assert(conflict_at(t, j, i, l));
        }
    }
}

/// A configuration that passed validation, with the text it was read from.
#[derive(Debug, PartialEq, Eq)]
pub struct Config {
    source: String,
    secrets: ProfileTable,
    additional_imports: ProfileTable,
}

/// What `Config` holds, as mathematical values.
pub struct ConfigView {
    pub source: Seq<char>,
    pub secrets: Seq<ProfileView>,
    pub additional_imports: Seq<ProfileView>,
}

impl View for Config {
    type V = ConfigView;

    closed spec fn view(&self) -> ConfigView {
        ConfigView {
            source: self.source@,
            secrets: self.secrets@,
            additional_imports: self.additional_imports@,
        }
    }
}

impl Config {
    #[verifier::type_invariant]
    spec fn validated(self) -> bool {
        secrets_ok(self.secrets@) && imports_ok(self.secrets@, self.additional_imports@)
    }

    /// The text that the configuration was read from.
    pub fn source(&self) -> (r: &String)
        ensures
            r@ == self@.source,
    {
        &self.source
    }

    /// The secrets that each profile owns. They are in order.
    pub fn secrets(&self) -> (r: &ProfileTable)
        ensures
            r@ == self@.secrets,
            secrets_ok(r@),
    {
        proof {
            use_type_invariant(self);
        }
        &self.secrets
    }

    /// The secrets that each profile imports from others. They are in order.
    pub fn additional_imports(&self) -> (r: &ProfileTable)
        ensures
            r@ == self@.additional_imports,
            imports_ok(self@.secrets, r@),
    {
        proof {
            use_type_invariant(self);
        }
        &self.additional_imports
    }
}

/// Why no configuration could be loaded.
#[derive(Debug, Clone, PartialEq, Eq)]
pub enum LoadConfigError {
    /// The user's configuration directory is not known.
    GetConfigDir,
    /// The user's configuration directory, given approximately, is not UTF-8.
    Utf8ConfigDir(String),
    /// No configuration file exists.
    MissingConfig,
    /// The configuration file at the path could not be read, for the reason given.
    ReadConfig(String, String),
    /// The configuration file at the path could not be parsed, for the reason given.
    ParseConfig(String, String),
    /// The configuration file at the path declares secrets that are refused.
    InvalidSecrets(String, InvalidSecrets),
    /// The configuration file at the path declares imports that are refused.
    InvalidImports(String, InvalidImports),
}

/// What `LoadConfigError` holds, as mathematical values.
pub enum LoadConfigErrorView {
    GetConfigDir,
    Utf8ConfigDir(Seq<char>),
    MissingConfig,
    ReadConfig(Seq<char>, Seq<char>),
    ParseConfig(Seq<char>, Seq<char>),
    InvalidSecrets(Seq<char>, InvalidSecretsView),
    InvalidImports(Seq<char>, InvalidImportsView),
}

impl View for LoadConfigError {
    type V = LoadConfigErrorView;

    open spec fn view(&self) -> LoadConfigErrorView {
        match self {
            LoadConfigError::GetConfigDir => LoadConfigErrorView::GetConfigDir,
            LoadConfigError::Utf8ConfigDir(d) => LoadConfigErrorView::Utf8ConfigDir(d@),
            LoadConfigError::MissingConfig => LoadConfigErrorView::MissingConfig,
            LoadConfigError::ReadConfig(p, r) => LoadConfigErrorView::ReadConfig(p@, r@),
            LoadConfigError::ParseConfig(p, r) => LoadConfigErrorView::ParseConfig(p@, r@),
            LoadConfigError::InvalidSecrets(p, e) => LoadConfigErrorView::InvalidSecrets(p@, e@),
            LoadConfigError::InvalidImports(p, e) => LoadConfigErrorView::InvalidImports(p@, e@),
        }
    }
}

/// What is known of the user's configuration directory.
#[derive(Debug, Clone, PartialEq, Eq)]
pub enum ConfigDir {
    /// The system names none.
    Unknown,
    /// The system names one that is not UTF-8; the text approximates it.
    NotUtf8(String),
    /// The directory.
    Known(String),
}

/// What `ConfigDir` holds, as mathematical values.
pub enum ConfigDirView {
    Unknown,
    NotUtf8(Seq<char>),
    Known(Seq<char>),
}

impl View for ConfigDir {
    type V = ConfigDirView;

    open spec fn view(&self) -> ConfigDirView {
        match self {
            ConfigDir::Unknown => ConfigDirView::Unknown,
            ConfigDir::NotUtf8(d) => ConfigDirView::NotUtf8(d@),
            ConfigDir::Known(d) => ConfigDirView::Known(d@),
        }
    }
}

/// The name of the configuration file.
pub open spec fn config_file_name() -> Seq<char> {
    "secrets-manager.toml"@
}

/// The directory that holds the user's configuration file inside the
/// configuration directory.
pub open spec fn config_dir_name() -> Seq<char> {
    "secrets-manager"@
}

/// The user's configuration file inside the configuration directory `dir`.
pub open spec fn user_config(dir: Seq<char>) -> Seq<char> {
    joined(joined(dir, config_dir_name()), config_file_name())
}

/// The configuration file of the current directory.
pub open spec fn local_config() -> Seq<char> {
    "./secrets-manager.toml"@
}

/// Which configuration file a run reads: the user's where it exists, else
/// the one of the current directory where that exists. An unknown or
/// unreadable configuration directory is an error before either is looked at.
pub open spec fn chosen_config(dir: ConfigDirView, user_exists: bool, local_exists: bool) -> Result<
    Seq<char>,
    LoadConfigErrorView,
> {
    match dir {
        ConfigDirView::Unknown => Err(LoadConfigErrorView::GetConfigDir),
        ConfigDirView::NotUtf8(d) => Err(LoadConfigErrorView::Utf8ConfigDir(d)),
        ConfigDirView::Known(d) => if user_exists {
            Ok(user_config(d))
        } else if local_exists {
            Ok(local_config())
        } else {
            Err(LoadConfigErrorView::MissingConfig)
        },
    }
}

/// The user's configuration file inside the configuration directory `dir`.
pub fn user_config_file(dir: &str) -> (r: String)
    ensures
        r@ == user_config(dir@),
{
    let inner = join(dir, "secrets-manager");
    join(inner.as_str(), "secrets-manager.toml")
}

/// The configuration file of the current directory.
pub fn local_config_file() -> (r: String)
    ensures
        r@ == local_config(),
{
    String::from_str("./secrets-manager.toml")
}

/// Chooses the configuration file to read. `user_exists` says whether the
/// user's file exists, `local_exists` whether the one of the current
/// directory does.
pub fn get_config_file(dir: ConfigDir, user_exists: bool, local_exists: bool) -> (r: Result<
    String,
    LoadConfigError,
>)
    ensures
        match r {
            Ok(p) => chosen_config(dir@, user_exists, local_exists) == Ok::<
                Seq<char>,
                LoadConfigErrorView,
            >(p@),
            Err(e) => chosen_config(dir@, user_exists, local_exists) == Err::<
                Seq<char>,
                LoadConfigErrorView,
            >(e@),
        },
{
    match dir {
        ConfigDir::Unknown => Err(LoadConfigError::GetConfigDir),
        ConfigDir::NotUtf8(d) => Err(LoadConfigError::Utf8ConfigDir(d)),
        ConfigDir::Known(d) => {
            if user_exists {
                Ok(user_config_file(d.as_str()))
            } else if local_exists {
                Ok(local_config_file())
            } else {
                Err(LoadConfigError::MissingConfig)
            }
        },
    }
}

/// Validates what was parsed from the configuration file at `config_path`
/// and keeps it with the text `config_str` it was parsed from. The secrets
/// are judged first, the imports only beside secrets that are in order.
pub fn load_config(
    config_path: &str,
    config_str: String,
    secrets: ProfileTable,
    additional_imports: ProfileTable,
) -> (r: Result<Config, LoadConfigError>)
    ensures
        match r {
            Ok(c) => {
                &&& c@ == (ConfigView {
                    source: config_str@,
                    secrets: secrets@,
                    additional_imports: additional_imports@,
                })
                &&& secrets_ok(secrets@)
                &&& imports_ok(secrets@, additional_imports@)
            },
            Err(LoadConfigError::InvalidSecrets(p, e)) => {
                &&& p@ == config_path@
                &&& secrets_verdict(secrets@, Err(e@))
            },
            Err(LoadConfigError::InvalidImports(p, e)) => {
                &&& p@ == config_path@
                &&& secrets_ok(secrets@)
                &&& imports_verdict(secrets@, additional_imports@, Err(e@))
            },
            Err(_) => false,
        },
{
    let secrets = match to_valid_secrets(secrets) {
        Ok(t) => t,
        Err(e) => {
            return Err(LoadConfigError::InvalidSecrets(String::from_str(config_path), e));
        },
    };
    let additional_imports = match to_valid_imports(&secrets, additional_imports) {
        Ok(t) => t,
        Err(e) => {
            return Err(LoadConfigError::InvalidImports(String::from_str(config_path), e));
        },
    };
    Ok(Config { source: config_str, secrets, additional_imports })
}

/// The configuration could not be written to the path, for the reason given.
#[derive(Debug, Clone, PartialEq, Eq)]
pub struct SaveConfigError(pub String, pub String);

/// What `SaveConfigError` holds, as mathematical values.
pub struct SaveConfigErrorView(pub Seq<char>, pub Seq<char>);

impl View for SaveConfigError {
    type V = SaveConfigErrorView;

    open spec fn view(&self) -> SaveConfigErrorView {
        SaveConfigErrorView(self.0@, self.1@)
    }
}

/// The request that saves a configuration at `path`: its source text is
/// written as it was read, not rendered anew.
pub fn save_config(path: &str, config: &Config) -> (r: Request)
    ensures
        r@ == (RequestView::WriteText { path: path@, text: config@.source }),
{
    Request::WriteText { path: String::from_str(path), text: config.source().clone() }
}

} // verus!
