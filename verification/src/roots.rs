//! The three roots and the virtual path namespace over them.
//!
//! A path in a manifest is written against a root by a marker in its first
//! part (`@r`, `@l`, `@t`), so that the same manifest names the same file on
//! every machine. Resolving replaces the marker by the root's directory on
//! this machine; unresolving goes the other way.

use vstd::prelude::*;
use crate::path::{FilePath, PathModel, parse_path, same_text};

verus! {

/// One of the well-known base directories.
#[derive(Clone, Copy, Debug, PartialEq, Eq, Structural)]
pub enum Root {
    /// The version-controlled repository.
    Repo,
    /// The state that stays on this machine.
    Local,
    /// The directory that the files are installed into.
    Target,
}

/// The marker that stands for a root in the first part of a path.
pub open spec fn marker(root: Root) -> Seq<char> {
    match root {
        Root::Repo => seq!['@', 'r'],
        Root::Local => seq!['@', 'l'],
        Root::Target => seq!['@', 't'],
    }
}

/// The root whose marker opens the relative path `p`, if any does.
pub open spec fn marked(p: PathModel) -> Option<Root> {
    if p.rooted || p.parts.len() == 0 {
        None
    } else if p.parts[0] == marker(Root::Local) {
        Some(Root::Local)
    } else if p.parts[0] == marker(Root::Repo) {
        Some(Root::Repo)
    } else if p.parts[0] == marker(Root::Target) {
        Some(Root::Target)
    } else {
        None
    }
}

/// The relative path that is the marker of `root` followed by `rest`.
pub open spec fn tagged(root: Root, rest: PathModel) -> PathModel {
    PathModel { rooted: false, parts: seq![marker(root)] + rest.parts }
}

/// What follows the first part of `p`.
pub open spec fn untagged(p: PathModel) -> PathModel {
    PathModel { rooted: false, parts: p.parts.skip(1) }
}

/// The mathematical value of the roots of one machine.
pub struct RootsModel {
    /// The directory that holds the repository and the local state.
    pub config: PathModel,
    /// The directory that files are installed into.
    pub target: PathModel,
}

impl RootsModel {
    /// Both directories are rooted.
    pub open spec fn well_formed(self) -> bool {
        self.config.rooted && self.target.rooted
    }

    /// The directory of the local state.
    pub open spec fn local_dir(self) -> PathModel {
        self.config.child("LOCAL"@)
    }

    /// The directory of the repository.
    pub open spec fn repo_dir(self) -> PathModel {
        self.config.child("REPO"@)
    }

    /// The directory of a root.
    pub open spec fn dir(self, root: Root) -> PathModel {
        match root {
            Root::Repo => self.repo_dir(),
            Root::Local => self.local_dir(),
            Root::Target => self.target,
        }
    }

    /// The concrete path of `p` where that needs no default: a rooted path
    /// is itself, a marked path lies below the directory of its root.
    pub open spec fn resolve_common(self, p: PathModel) -> Option<PathModel> {
        if p.rooted {
            Some(p)
        } else {
            match marked(p) {
                Some(root) => Some(self.dir(root).join(untagged(p))),
                None => None,
            }
        }
    }

    /// The concrete path of `p`, with a relative path that has no marker
    /// taken below `default`.
    pub open spec fn resolve(self, default: Root, p: PathModel) -> PathModel {
        match self.resolve_common(p) {
            Some(q) => q,
            None => self.dir(default).join(p),
        }
    }

    /// The first root, in the order repository, local state, target, whose
    /// directory leads to `p`.
    pub open spec fn containing(self, p: PathModel) -> Option<Root> {
        if p.starts_with(self.repo_dir()) {
            Some(Root::Repo)
        } else if p.starts_with(self.local_dir()) {
            Some(Root::Local)
        } else if p.starts_with(self.target) {
            Some(Root::Target)
        } else {
            None
        }
    }

    /// The portable form of a rooted path: below the first root that contains
    /// it, or itself if none does. A relative path has none.
    pub open spec fn unresolve(self, p: PathModel) -> Option<PathModel> {
        if !p.rooted {
            None
        } else {
            match self.containing(p) {
                Some(root) => Some(tagged(root, p.strip_prefix(self.dir(root)))),
                None => Some(p),
            }
        }
    }

    /// The portable form of `p` as it is written where `root` is understood:
    /// the marker of `root` is left out, any other stays. A relative path is
    /// left as it is.
    pub open spec fn unresolve_for(self, root: Root, p: PathModel) -> PathModel {
        match self.unresolve(p) {
            Some(v) => if marked(v) == Some(root) {
                untagged(v)
            } else {
                v
            },
            None => p,
        }
    }
}

/// The roots of one machine.
#[derive(Debug, PartialEq, Eq)]
pub struct Roots {
    config: FilePath,
    target: FilePath,
}

impl View for Roots {
    type V = RootsModel;

    closed spec fn view(&self) -> RootsModel {
        RootsModel { config: self.config@, target: self.target@ }
    }
}

impl Clone for Roots {
    fn clone(&self) -> (res: Self)
        ensures
            res@ == self@,
    {
        proof {
            use_type_invariant(self);
        }
        Roots { config: self.config.clone(), target: self.target.clone() }
    }
}

impl Roots {
    /// The roots with the given directories, which must both be rooted.
    pub fn new(config: FilePath, target: FilePath) -> (roots: Option<Roots>)
        ensures
            roots.is_some() == (config@.rooted && target@.rooted),
            roots matches Some(r) ==> r@ == (RootsModel { config: config@, target: target@ }),
    {
        if config.is_absolute() && target.is_absolute() {
            Some(Roots { config, target })
        } else {
            None
        }
    }

    #[verifier::type_invariant]
    spec fn rooted(&self) -> bool {
        self.config@.rooted && self.target@.rooted
    }
}

/// The text of the marker of `root`.
fn marker_text(root: Root) -> (text: &'static str)
    ensures
        text@ == marker(root),
{
    proof {
        reveal_strlit("@r");
        reveal_strlit("@l");
        reveal_strlit("@t");
    }
    let text = match root {
        Root::Repo => "@r",
        Root::Local => "@l",
        Root::Target => "@t",
    };
    assert(text@ =~= marker(root));
    text
}

/// The root whose marker opens the relative path `p`, if any does.
pub fn marked_root(p: &FilePath) -> (root: Option<Root>)
    ensures
        root == marked(p@),
{
    if p.is_absolute() || p.parts().len() == 0 {
        return None;
    }
    let first = p.parts()[0].as_str();
    assert(first@ == p@.parts[0]);
    if same_text(first, marker_text(Root::Local)) {
        Some(Root::Local)
    } else if same_text(first, marker_text(Root::Repo)) {
        Some(Root::Repo)
    } else if same_text(first, marker_text(Root::Target)) {
        Some(Root::Target)
    } else {
        None
    }
}

/// The directory that holds the repository and the local state.
pub fn config_dir(roots: &Roots) -> (dir: &FilePath)
    ensures
        dir@ == roots@.config,
        dir@.rooted,
{
    proof {
        use_type_invariant(roots);
    }
    &roots.config
}

/// `path` seen from the configuration directory.
pub fn config_path(roots: &Roots, path: &FilePath) -> (p: FilePath)
    ensures
        p@ == roots@.config.join(path@),
{
    roots.config.join(path)
}

/// The directory of the local state.
pub fn local_dir(roots: &Roots) -> (dir: FilePath)
    ensures
        dir@ == roots@.local_dir(),
        dir@.rooted,
{
    proof {
        use_type_invariant(roots);
    }
    roots.config.child("LOCAL")
}

/// The directory of the repository.
pub fn repo_dir(roots: &Roots) -> (dir: FilePath)
    ensures
        dir@ == roots@.repo_dir(),
        dir@.rooted,
{
    proof {
        use_type_invariant(roots);
    }
    roots.config.child("REPO")
}

/// `path` seen from the directory of the local state.
pub fn local_path(roots: &Roots, path: &FilePath) -> (p: FilePath)
    ensures
        p@ == roots@.local_dir().join(path@),
{
    local_dir(roots).join(path)
}

/// `path` seen from the directory of the repository.
pub fn repo_path(roots: &Roots, path: &FilePath) -> (p: FilePath)
    ensures
        p@ == roots@.repo_dir().join(path@),
{
    repo_dir(roots).join(path)
}

/// The directory that files are installed into.
pub fn target_dir(roots: &Roots) -> (dir: &FilePath)
    ensures
        dir@ == roots@.target,
        dir@.rooted,
{
    proof {
        use_type_invariant(roots);
    }
    &roots.target
}

/// `path` seen from the target directory.
pub fn target_path(roots: &Roots, path: &FilePath) -> (p: FilePath)
    ensures
        p@ == roots@.target.join(path@),
{
    roots.target.join(path)
}

/// The directory of a root.
pub fn root_dir(roots: &Roots, root: Root) -> (dir: FilePath)
    ensures
        dir@ == roots@.dir(root),
        dir@.rooted,
{
    match root {
        Root::Repo => repo_dir(roots),
        Root::Local => local_dir(roots),
        Root::Target => target_dir(roots).clone(),
    }
}

/// What follows the first part of `p`.
fn without_first(p: &FilePath) -> (rest: FilePath)
    requires
        p@.parts.len() > 0,
    ensures
        rest@ == untagged(p@),
{
    let parts = p.parts();
    let mut rest: Vec<String> = Vec::new();
    let mut i: usize = 1;
    while i < parts.len()
        invariant
            1 <= i <= parts.len(),
            rest.len() == i - 1,
            forall|j: int| 0 <= j < rest.len() ==> rest@[j]@ == parts@[j + 1]@,
        decreases parts.len() - i,
    {
        rest.push(parts[i].clone());
        i += 1;
    }
    assert(crate::path::texts(rest@) =~= crate::path::texts(parts@).skip(1));
    FilePath::new(false, rest)
}

/// The concrete path of `p` where that needs no default: `None` for a
/// relative path without a marker.
pub fn resolve_common(roots: &Roots, p: &FilePath) -> (q: Option<FilePath>)
    ensures
        q.is_some() == roots@.resolve_common(p@).is_some(),
        q matches Some(r) ==> Some(r@) == roots@.resolve_common(p@),
{
    if p.is_absolute() {
        return Some(p.clone());
    }
    match marked_root(p) {
        Some(root) => Some(root_dir(roots, root).join(&without_first(p))),
        None => None,
    }
}

/// The concrete path of `p`, with a relative path that has no marker taken
/// below `default`.
pub fn resolve(roots: &Roots, default: Root, p: &FilePath) -> (q: FilePath)
    ensures
        q@ == roots@.resolve(default, p@),
{
    match resolve_common(roots, p) {
        Some(q) => q,
        None => root_dir(roots, default).join(p),
    }
}

/// The concrete path of `p`, taken below the repository by default.
pub fn resolve_path_repo(roots: &Roots, p: &FilePath) -> (q: FilePath)
    ensures
        q@ == roots@.resolve(Root::Repo, p@),
{
    resolve(roots, Root::Repo, p)
}

/// The concrete path of `p`, taken below the target directory by default.
pub fn resolve_path_target(roots: &Roots, p: &FilePath) -> (q: FilePath)
    ensures
        q@ == roots@.resolve(Root::Target, p@),
{
    resolve(roots, Root::Target, p)
}

/// The concrete path of `p`, taken below the local state by default.
pub fn resolve_path_local(roots: &Roots, p: &FilePath) -> (q: FilePath)
    ensures
        q@ == roots@.resolve(Root::Local, p@),
{
    resolve(roots, Root::Local, p)
}

/// The relative path that is the marker of `root` followed by `rest`.
fn with_marker(root: Root, rest: &FilePath) -> (p: FilePath)
    requires
        !rest@.rooted,
    ensures
        p@ == tagged(root, rest@),
{
    let mut first: Vec<String> = Vec::new();
    first.push(String::from_str(marker_text(root)));
    let lead = FilePath::new(false, first);
    assert(lead@.parts =~= seq![marker(root)]);
    lead.join(rest)
}

/// The portable form of a rooted path; `None` for a relative one.
pub fn unresolve_path(roots: &Roots, p: &FilePath) -> (v: Option<FilePath>)
    ensures
        v.is_some() == p@.rooted,
        v.is_some() == roots@.unresolve(p@).is_some(),
        v matches Some(q) ==> Some(q@) == roots@.unresolve(p@),
{
    if !p.is_absolute() {
        return None;
    }
    let repo = repo_dir(roots);
    if let Some(rest) = p.strip_prefix(&repo) {
        return Some(with_marker(Root::Repo, &rest));
    }
    let local = local_dir(roots);
    if let Some(rest) = p.strip_prefix(&local) {
        return Some(with_marker(Root::Local, &rest));
    }
    if let Some(rest) = p.strip_prefix(target_dir(roots)) {
        return Some(with_marker(Root::Target, &rest));
    }
    Some(p.clone())
}

/// The portable form of `p` as it is written where `root` is understood.
pub fn unresolve_for(roots: &Roots, root: Root, p: &FilePath) -> (v: FilePath)
    ensures
        v@ == roots@.unresolve_for(root, p@),
{
    match unresolve_path(roots, p) {
        Some(v) => {
            if marked_root(&v) == Some(root) {
                without_first(&v)
            } else {
                v
            }
        },
        None => p.clone(),
    }
}

/// The portable form of `p` as it is written in the repository.
pub fn unresolve_path_repo(roots: &Roots, p: &FilePath) -> (v: FilePath)
    ensures
        v@ == roots@.unresolve_for(Root::Repo, p@),
{
    unresolve_for(roots, Root::Repo, p)
}

/// The portable form of `p` as it is written in the local state.
pub fn unresolve_path_local(roots: &Roots, p: &FilePath) -> (v: FilePath)
    ensures
        v@ == roots@.unresolve_for(Root::Local, p@),
{
    unresolve_for(roots, Root::Local, p)
}

/// The portable form of `p` as it is written for the target directory.
pub fn unresolve_path_target(roots: &Roots, p: &FilePath) -> (v: FilePath)
    ensures
        v@ == roots@.unresolve_for(Root::Target, p@),
{
    unresolve_for(roots, Root::Target, p)
}

/// The directory that has to exist before `path` can be written, if the path
/// names one.
pub fn assure_path_to(path: &FilePath) -> (dir: Option<FilePath>)
    ensures
        dir.is_some() == path@.parent().is_some(),
        dir matches Some(d) ==> Some(d@) == path@.parent(),
{
    path.parent()
}

/// The markers of two different roots differ.
pub proof fn lemma_markers_differ(a: Root, b: Root)
    requires
        a != b,
    ensures
        marker(a) != marker(b),
{
    assert(marker(Root::Repo)[1] == 'r');
    assert(marker(Root::Local)[1] == 'l');
    assert(marker(Root::Target)[1] == 't');
}

/// A path that opens with the marker of a root is marked with that root, and
/// what follows the marker is what was put behind it.
pub proof fn lemma_tagged(root: Root, rest: PathModel)
    ensures
        marked(tagged(root, rest)) == Some(root),
        untagged(tagged(root, rest)).parts == rest.parts,
{
    let v = tagged(root, rest);
    assert(v.parts[0] == marker(root));
    if root != Root::Local {
        lemma_markers_differ(root, Root::Local);
    }
    if root != Root::Repo {
        lemma_markers_differ(root, Root::Repo);
    }
    assert(v.parts.skip(1) =~= rest.parts);
}

/// Resolving the portable form of a rooted path gives the path back, whatever
/// the default root: below a root through that root's marker, outside all
/// roots because the path was left as it is.
pub proof fn lemma_resolve_unresolve(roots: RootsModel, default: Root, p: PathModel)
    requires
        p.rooted,
    ensures
        roots.unresolve(p) matches Some(v) && roots.resolve(default, v) == p,
{
    match roots.containing(p) {
        Some(root) => {
            let dir = roots.dir(root);
            let rest = p.strip_prefix(dir);
            assert(p.starts_with(dir));
            lemma_tagged(root, rest);
            let back = dir.join(untagged(tagged(root, rest)));
            assert(back.parts =~= p.parts);
        },
        None => {},
    }
}

/// The directories of the repository and of the local state lead to no
/// common path.
pub proof fn lemma_repo_and_local_apart(roots: RootsModel, p: PathModel)
    ensures
        !(p.starts_with(roots.repo_dir()) && p.starts_with(roots.local_dir())),
{
    reveal_strlit("LOCAL");
    reveal_strlit("REPO");
    if p.starts_with(roots.repo_dir()) && p.starts_with(roots.local_dir()) {
        let n = roots.config.parts.len() as int;
        assert(roots.repo_dir().parts[n] == "REPO"@);
        assert(roots.local_dir().parts[n] == "LOCAL"@);
        assert(p.parts[n] == "REPO"@);
        assert(p.parts[n] == "LOCAL"@);
        assert("REPO"@.len() != "LOCAL"@.len());
    }
}

/// A marked path resolves to a path below the directory of its root.
pub proof fn lemma_resolve_marked(roots: RootsModel, default: Root, v: PathModel)
    requires
        roots.well_formed(),
        marked(v).is_some(),
    ensures
        roots.resolve(default, v).rooted,
        roots.resolve(default, v).starts_with(roots.dir(marked(v).unwrap())),
        roots.resolve(default, v).strip_prefix(roots.dir(marked(v).unwrap())).parts
            == untagged(v).parts,
{
    let root = marked(v).unwrap();
    let dir = roots.dir(root);
    let q = roots.resolve(default, v);
    assert(q == dir.join(untagged(v)));
    assert(dir.parts =~= q.parts.subrange(0, dir.parts.len() as int));
    assert(q.parts.skip(dir.parts.len() as int) =~= untagged(v).parts);
}

/// Unresolving what a marked path resolves to gives the marked path back,
/// whatever the default root. A path below the target directory that also
/// lies below the repository or the local state is written against those, so
/// the law leaves out the paths marked for the target that resolve into one
/// of them.
pub proof fn lemma_unresolve_resolve(roots: RootsModel, default: Root, v: PathModel)
    requires
        roots.well_formed(),
        marked(v).is_some(),
        marked(v) == Some(Root::Target) ==> !roots.resolve(default, v).starts_with(
            roots.repo_dir(),
        ) && !roots.resolve(default, v).starts_with(roots.local_dir()),
    ensures
        roots.unresolve(roots.resolve(default, v)) == Some(v),
{
    let root = marked(v).unwrap();
    let q = roots.resolve(default, v);
    lemma_resolve_marked(roots, default, v);
    lemma_repo_and_local_apart(roots, q);
    assert(roots.containing(q) == Some(root));
    let back = tagged(root, q.strip_prefix(roots.dir(root)));
    assert(v.parts[0] == marker(root));
    assert(back.parts =~= v.parts);
}

/// Why the directory of a root could not be told.
#[derive(Clone, Copy, Debug, PartialEq, Eq, Structural)]
pub enum ConfigError {
    /// Nothing was set for the root, and the user has no home directory to
    /// fall back on.
    NoHomeDirectory,
}

/// The characters of text that may be missing.
pub open spec fn text_of(text: Option<&str>) -> Option<Seq<char>> {
    match text {
        Some(t) => Some(t@),
        None => None,
    }
}

/// The directory of a root before it is created and made canonical: what
/// was set for it, or else the home directory, or `below` in the home
/// directory where such a name is given. Without a setting and without a home
/// directory there is none.
pub open spec fn chosen_root(
    setting: Option<Seq<char>>,
    home: Option<Seq<char>>,
    below: Option<Seq<char>>,
) -> Option<PathModel> {
    match setting {
        Some(s) => Some(parse_path(s)),
        None => match home {
            Some(h) => match below {
                Some(name) => Some(parse_path(h).child(name)),
                None => Some(parse_path(h)),
            },
            None => None,
        },
    }
}

/// `res` gives the directory `choice`, or fails for want of a home directory
/// where there is no choice.
pub open spec fn gives(res: Result<FilePath, ConfigError>, choice: Option<PathModel>) -> bool {
    match choice {
        Some(p) => res matches Ok(q) && q@ == p,
        None => res == Err::<FilePath, ConfigError>(ConfigError::NoHomeDirectory),
    }
}

/// The directory of a root before it is created and made canonical.
pub fn assure_var(setting: Option<&str>, home: Option<&str>, below: Option<&str>) -> (res: Result<
    FilePath,
    ConfigError,
>)
    ensures
        gives(res, chosen_root(text_of(setting), text_of(home), text_of(below))),
{
    match setting {
        Some(s) => Ok(FilePath::parse(s)),
        None => match home {
            Some(h) => match below {
                Some(name) => Ok(FilePath::parse(h).child(name)),
                None => Ok(FilePath::parse(h)),
            },
            None => Err(ConfigError::NoHomeDirectory),
        },
    }
}

/// `dirs_next::home_dir`, as text. Nothing is claimed of the result: it
/// depends on the environment and on the user database. A home directory
/// whose path is not Unicode counts as none.
#[verifier::external_body]
fn home_directory() -> (home: Option<String>) {
    dirs_next::home_dir().and_then(|home| home.into_os_string().into_string().ok())
}

/// The directory of a root with the home directory asked for only where
/// nothing is set.
fn assure_with_home(setting: Option<&str>, below: Option<&str>) -> (res: Result<
    FilePath,
    ConfigError,
>)
    ensures
        setting.is_some() ==> gives(res, chosen_root(text_of(setting), None, text_of(below))),
        setting.is_none() ==> exists|home: Option<Seq<char>>|
            gives(res, #[trigger] chosen_root(None, home, text_of(below))),
{
    if setting.is_some() {
        return assure_var(setting, None, below);
    }
    let res = match home_directory() {
        Some(home) => {
            let res = assure_var(None, Some(home.as_str()), below);
            assert(gives(res, chosen_root(None, Some(home@), text_of(below))));
            res
        },
        None => {
            let res = assure_var(None, None, below);
            assert(gives(res, chosen_root(None, None, text_of(below))));
            res
        },
    };
    res
}

/// The configuration directory before it is created and made canonical:
/// `setting` where it is given, else `.dotflex` in the user's home
/// directory. It fails only without a setting and without a home directory.
pub fn assure_config(setting: Option<&str>) -> (res: Result<FilePath, ConfigError>)
    ensures
        setting matches Some(s) ==> res matches Ok(p) && p@ == parse_path(s@),
        setting.is_none() ==> exists|home: Option<Seq<char>>|
            gives(res, #[trigger] chosen_root(None, home, Some(".dotflex"@))),
{
    assure_with_home(setting, Some(".dotflex"))
}

/// The target directory before it is created and made canonical: `setting`
/// where it is given, else the user's home directory. It fails only without
/// a setting and without a home directory.
pub fn assure_target(setting: Option<&str>) -> (res: Result<FilePath, ConfigError>)
    ensures
        setting matches Some(s) ==> res matches Ok(p) && p@ == parse_path(s@),
        setting.is_none() ==> exists|home: Option<Seq<char>>|
            gives(res, #[trigger] chosen_root(None, home, None)),
{
    assure_with_home(setting, None)
}

} // verus!
