//! The install operations of a feature and what each of them needs.

use vstd::prelude::*;
use crate::path::{
    FilePath, PathModel, clone_paths, clone_strings, paths, render_path, separated, texts,
    append_separated,
};
use crate::roots::{Root, Roots, RootsModel, unresolve_path_repo, unresolve_path_target};

verus! {

/// The mathematical value of [`OperationEffects`].
pub struct EffectsModel {
    /// The paths that the operation creates.
    pub generates: Seq<PathModel>,
    /// The paths that the operation overwrites.
    pub clobbers: Seq<PathModel>,
    /// The paths that the operation removes.
    pub deletes: Seq<PathModel>,
}

/// What a shell operation is said to do to the file system. It informs the
/// reader of a manifest; nothing here or in the executor acts on it.
#[derive(Debug, PartialEq, Eq)]
pub struct OperationEffects {
    generates: Vec<FilePath>,
    clobbers: Vec<FilePath>,
    deletes: Vec<FilePath>,
}

impl View for OperationEffects {
    type V = EffectsModel;

    closed spec fn view(&self) -> EffectsModel {
        EffectsModel {
            generates: paths(self.generates@),
            clobbers: paths(self.clobbers@),
            deletes: paths(self.deletes@),
        }
    }
}

impl Clone for OperationEffects {
    fn clone(&self) -> (res: Self)
        ensures
            res@ == self@,
    {
        OperationEffects {
            generates: clone_paths(self.generates.as_slice()),
            clobbers: clone_paths(self.clobbers.as_slice()),
            deletes: clone_paths(self.deletes.as_slice()),
        }
    }
}

impl OperationEffects {
    /// No effects.
    pub fn new() -> (effects: OperationEffects)
        ensures
            effects@ == (EffectsModel {
                generates: Seq::empty(),
                clobbers: Seq::empty(),
                deletes: Seq::empty(),
            }),
    {
        let effects = OperationEffects {
            generates: Vec::new(),
            clobbers: Vec::new(),
            deletes: Vec::new(),
        };
        assert(paths(effects.generates@) =~= Seq::empty());
        assert(paths(effects.clobbers@) =~= Seq::empty());
        assert(paths(effects.deletes@) =~= Seq::empty());
        effects
    }

    /// The effects with the given paths, each list in its order.
    pub fn from(generates: &[FilePath], clobbers: &[FilePath], deletes: &[FilePath]) -> (effects:
        OperationEffects)
        ensures
            effects@ == (EffectsModel {
                generates: paths(generates@),
                clobbers: paths(clobbers@),
                deletes: paths(deletes@),
            }),
    {
        OperationEffects {
            generates: clone_paths(generates),
            clobbers: clone_paths(clobbers),
            deletes: clone_paths(deletes),
        }
    }

    /// The effects with the given lists, taking them over.
    pub fn with_lists(generates: Vec<FilePath>, clobbers: Vec<FilePath>, deletes: Vec<FilePath>) -> (effects:
        OperationEffects)
        ensures
            effects@ == (EffectsModel {
                generates: paths(generates@),
                clobbers: paths(clobbers@),
                deletes: paths(deletes@),
            }),
    {
        OperationEffects { generates, clobbers, deletes }
    }

    /// Records one more path that the operation creates.
    pub fn generates(&mut self, path: FilePath)
        ensures
            final(self)@ == (EffectsModel {
                generates: old(self)@.generates.push(path@),
                ..old(self)@
            }),
    {
        let ghost before = paths(self.generates@);
        self.generates.push(path);
        assert(paths(self.generates@) =~= before.push(path@));
    }

    /// Records one more path that the operation overwrites.
    pub fn clobbers(&mut self, path: FilePath)
        ensures
            final(self)@ == (EffectsModel {
                clobbers: old(self)@.clobbers.push(path@),
                ..old(self)@
            }),
    {
        let ghost before = paths(self.clobbers@);
        self.clobbers.push(path);
        assert(paths(self.clobbers@) =~= before.push(path@));
    }

    /// Records one more path that the operation removes.
    pub fn deletes(&mut self, path: FilePath)
        ensures
            final(self)@ == (EffectsModel {
                deletes: old(self)@.deletes.push(path@),
                ..old(self)@
            }),
    {
        let ghost before = paths(self.deletes@);
        self.deletes.push(path);
        assert(paths(self.deletes@) =~= before.push(path@));
    }

    /// The paths that the operation creates.
    pub fn generates_list(&self) -> (list: &Vec<FilePath>)
        ensures
            paths(list@) == self@.generates,
    {
        &self.generates
    }

    /// The paths that the operation overwrites.
    pub fn clobbers_list(&self) -> (list: &Vec<FilePath>)
        ensures
            paths(list@) == self@.clobbers,
    {
        &self.clobbers
    }

    /// The paths that the operation removes.
    pub fn deletes_list(&self) -> (list: &Vec<FilePath>)
        ensures
            paths(list@) == self@.deletes,
    {
        &self.deletes
    }
}

/// The mathematical value of [`ShellInvocation`].
pub struct InvocationModel {
    /// The program.
    pub file: PathModel,
    /// Its arguments, in order.
    pub args: Seq<Seq<char>>,
}

impl InvocationModel {
    /// The program's path, a space, and the arguments with spaces between.
    pub open spec fn text(self) -> Seq<char> {
        render_path(self.file) + seq![' '] + separated(self.args, ' ')
    }
}

/// A program with its arguments.
#[derive(Debug, PartialEq, Eq)]
pub struct ShellInvocation {
    file: FilePath,
    args: Vec<String>,
}

impl View for ShellInvocation {
    type V = InvocationModel;

    closed spec fn view(&self) -> InvocationModel {
        InvocationModel { file: self.file@, args: texts(self.args@) }
    }
}

impl Clone for ShellInvocation {
    fn clone(&self) -> (res: Self)
        ensures
            res@ == self@,
    {
        ShellInvocation { file: self.file.clone(), args: clone_strings(&self.args) }
    }
}

/// The views of a sequence of borrowed pieces of text.
pub open spec fn slices(v: Seq<&str>) -> Seq<Seq<char>> {
    Seq::new(v.len(), |i: int| v[i]@)
}

impl ShellInvocation {
    /// The invocation of `path` with `args`.
    pub fn from(path: &FilePath, args: &[&str]) -> (invocation: ShellInvocation)
        ensures
            invocation@ == (InvocationModel { file: path@, args: slices(args@) }),
    {
        let mut owned: Vec<String> = Vec::new();
        let mut i: usize = 0;
        while i < args.len()
            invariant
                i <= args.len(),
                owned.len() == i,
                forall|j: int| 0 <= j < i ==> owned@[j]@ == args@[j]@,
            decreases args.len() - i,
        {
            owned.push(String::from_str(args[i]));
            i += 1;
        }
        assert(texts(owned@) =~= slices(args@));
        ShellInvocation { file: path.clone(), args: owned }
    }

    /// The invocation of `file` with `args`, taking both over.
    pub fn new(file: FilePath, args: Vec<String>) -> (invocation: ShellInvocation)
        ensures
            invocation@ == (InvocationModel { file: file@, args: texts(args@) }),
    {
        ShellInvocation { file, args }
    }

    /// The arguments, in order.
    pub fn args(&self) -> (args: &Vec<String>)
        ensures
            texts(args@) == self@.args,
    {
        &self.args
    }

    /// The program.
    pub fn file(&self) -> (file: &FilePath)
        ensures
            file@ == self@.file,
    {
        &self.file
    }

    /// The invocation as one line of text.
    pub fn to_string(&self) -> (text: String)
        ensures
            text@ == self@.text(),
    {
        proof {
            reveal_strlit(" ");
            assert(" "@ =~= seq![' ']);
        }
        let mut text = self.file.render();
        text.append(" ");
        append_separated(&mut text, &self.args, ' ', " ");
        text
    }
}

/// The mathematical value of [`OperationSchema`].
#[allow(inconsistent_fields)]
pub enum OperationModel {
    /// Copy `from` to `to`.
    CopyFile { from: PathModel, to: PathModel },
    /// Add what `from` holds to the end of `to`.
    AppendToFile { from: PathModel, to: PathModel },
    /// Hand `cmd` to the command interpreter.
    ShellString { cmd: Seq<char>, effects: Option<EffectsModel> },
    /// Run the program of `cmd` with its arguments.
    ShellFile { cmd: InvocationModel, effects: Option<EffectsModel> },
}

impl OperationModel {
    /// The path that must exist for the operation to be worth trying: the
    /// source of a copy or an append, the program of an invocation. A
    /// command line needs none.
    pub open spec fn required_path(self) -> Option<PathModel> {
        match self {
            OperationModel::CopyFile { from, to } => Some(from),
            OperationModel::AppendToFile { from, to } => Some(from),
            OperationModel::ShellString { cmd, effects } => None,
            OperationModel::ShellFile { cmd, effects } => Some(cmd.file),
        }
    }

    /// Whether the operation is worth trying when `present` says whether its
    /// required path exists.
    pub open spec fn is_viable(self, present: bool) -> bool {
        self.required_path().is_none() || present
    }

    /// The operation with each of its paths made concrete: sources and
    /// programs lie in the repository by default, destinations in the target
    /// directory.
    pub open spec fn resolved(self, roots: RootsModel) -> OperationModel {
        match self {
            OperationModel::CopyFile { from, to } => OperationModel::CopyFile {
                from: roots.resolve(Root::Repo, from),
                to: roots.resolve(Root::Target, to),
            },
            OperationModel::AppendToFile { from, to } => OperationModel::AppendToFile {
                from: roots.resolve(Root::Repo, from),
                to: roots.resolve(Root::Target, to),
            },
            OperationModel::ShellString { cmd, effects } => self,
            OperationModel::ShellFile { cmd, effects } => OperationModel::ShellFile {
                cmd: InvocationModel { file: roots.resolve(Root::Repo, cmd.file), args: cmd.args },
                effects,
            },
        }
    }

    /// The line that names the operation in a listing. Paths below a root
    /// are shown in their portable form; `quoted` is the command line of a
    /// shell operation as [`debug_quoted`] gives it.
    pub open spec fn description(self, roots: RootsModel, quoted: Seq<char>) -> Seq<char> {
        match self {
            OperationModel::CopyFile { from, to } => "copying "@ + render_path(
                roots.unresolve_for(Root::Repo, from),
            ) + " to "@ + render_path(roots.unresolve_for(Root::Target, to)),
            OperationModel::AppendToFile { from, to } => "append "@ + render_path(
                roots.unresolve_for(Root::Repo, from),
            ) + " to "@ + render_path(roots.unresolve_for(Root::Target, to)),
            OperationModel::ShellString { cmd, effects } => "shell: [["@ + quoted + "]]"@,
            OperationModel::ShellFile { cmd, effects } => "shell: "@ + cmd.text(),
        }
    }
}

/// One install operation.
#[allow(inconsistent_fields)]
#[derive(Debug, PartialEq, Eq)]
pub enum OperationSchema {
    /// Copy `from` to `to`.
    CopyFile { from: FilePath, to: FilePath },
    /// Add what `from` holds to the end of `to`.
    AppendToFile { from: FilePath, to: FilePath },
    /// Hand `cmd` to the command interpreter.
    ShellString { cmd: String, effects: Option<OperationEffects> },
    /// Run the program of `cmd` with its arguments.
    ShellFile { cmd: ShellInvocation, effects: Option<OperationEffects> },
}

/// The value of effects that may be missing.
pub open spec fn effects_view(effects: Option<OperationEffects>) -> Option<EffectsModel> {
    match effects {
        Some(e) => Some(e@),
        None => None,
    }
}

impl View for OperationSchema {
    type V = OperationModel;

    open spec fn view(&self) -> OperationModel {
        match self {
            OperationSchema::CopyFile { from, to } => OperationModel::CopyFile {
                from: from@,
                to: to@,
            },
            OperationSchema::AppendToFile { from, to } => OperationModel::AppendToFile {
                from: from@,
                to: to@,
            },
            OperationSchema::ShellString { cmd, effects } => OperationModel::ShellString {
                cmd: cmd@,
                effects: effects_view(*effects),
            },
            OperationSchema::ShellFile { cmd, effects } => OperationModel::ShellFile {
                cmd: cmd@,
                effects: effects_view(*effects),
            },
        }
    }
}

/// A copy of effects that may be missing.
pub(crate) fn clone_effects(effects: &Option<OperationEffects>) -> (res: Option<OperationEffects>)
    ensures
        effects_view(res) == effects_view(*effects),
{
    match effects {
        Some(e) => Some(e.clone()),
        None => None,
    }
}

impl Clone for OperationSchema {
    fn clone(&self) -> (res: Self)
        ensures
            res@ == self@,
    {
        match self {
            OperationSchema::CopyFile { from, to } => OperationSchema::CopyFile {
                from: from.clone(),
                to: to.clone(),
            },
            OperationSchema::AppendToFile { from, to } => OperationSchema::AppendToFile {
                from: from.clone(),
                to: to.clone(),
            },
            OperationSchema::ShellString { cmd, effects } => OperationSchema::ShellString {
                cmd: cmd.clone(),
                effects: clone_effects(effects),
            },
            OperationSchema::ShellFile { cmd, effects } => OperationSchema::ShellFile {
                cmd: cmd.clone(),
                effects: clone_effects(effects),
            },
        }
    }
}

/// What the standard debug formatting of text gives for `text`: the text in
/// double quotes with its special characters escaped.
pub uninterp spec fn debug_quoted(text: Seq<char>) -> Seq<char>;

/// `text` in the standard debug formatting of text, `{:?}`. The result is
/// named, not described: the escaping rules are those of the standard
/// library.
#[verifier::external_body]
fn quoted(text: &str) -> (res: String)
    ensures
        res@ == debug_quoted(text@),
{
    format!("{:?}", text)
}

impl OperationSchema {
    /// The path that must exist for the operation to be worth trying.
    pub fn required_path(&self) -> (path: Option<&FilePath>)
        ensures
            path.is_some() == self@.required_path().is_some(),
            path matches Some(p) ==> Some(p@) == self@.required_path(),
    {
        match self {
            OperationSchema::CopyFile { from, to } => Some(from),
            OperationSchema::AppendToFile { from, to } => Some(from),
            OperationSchema::ShellString { cmd, effects } => None,
            OperationSchema::ShellFile { cmd, effects } => Some(cmd.file()),
        }
    }

    /// Whether the operation is worth trying. `present` tells whether
    /// [`OperationSchema::required_path`] exists now; a copy or an append
    /// is viable exactly if its source does, an invocation exactly if its
    /// program does, and a command line always.
    pub fn is_viable(&self, present: bool) -> (viable: bool)
        ensures
            viable == self@.is_viable(present),
            self@ is ShellString ==> viable,
            !(self@ is ShellString) ==> viable == present,
    {
        match self {
            OperationSchema::ShellString { cmd, effects } => true,
            _ => present,
        }
    }

    /// The operation with each of its paths made concrete.
    pub fn resolve(&self, roots: &Roots) -> (op: OperationSchema)
        ensures
            op@ == self@.resolved(roots@),
    {
        match self {
            OperationSchema::CopyFile { from, to } => OperationSchema::CopyFile {
                from: crate::roots::resolve_path_repo(roots, from),
                to: crate::roots::resolve_path_target(roots, to),
            },
            OperationSchema::AppendToFile { from, to } => OperationSchema::AppendToFile {
                from: crate::roots::resolve_path_repo(roots, from),
                to: crate::roots::resolve_path_target(roots, to),
            },
            OperationSchema::ShellString { cmd, effects } => self.clone(),
            OperationSchema::ShellFile { cmd, effects } => {
                let file = crate::roots::resolve_path_repo(roots, cmd.file());
                OperationSchema::ShellFile {
                    cmd: ShellInvocation { file, args: clone_strings(cmd.args()) },
                    effects: clone_effects(effects),
                }
            },
        }
    }

    /// The line that names the operation in a listing, given the command
    /// line of a shell operation in its quoted form.
    pub fn describe(&self, roots: &Roots, quoted: &str) -> (text: String)
        ensures
            text@ == self@.description(roots@, quoted@),
    {
        match self {
            OperationSchema::CopyFile { from, to } => transfer_text("copying ", roots, from, to),
            OperationSchema::AppendToFile { from, to } => transfer_text("append ", roots, from, to),
            OperationSchema::ShellString { cmd, effects } => {
                let mut text = String::from_str("shell: [[");
                text.append(quoted);
                text.append("]]");
                text
            },
            OperationSchema::ShellFile { cmd, effects } => {
                let mut text = String::from_str("shell: ");
                text.append(cmd.to_string().as_str());
                text
            },
        }
    }

    /// The line that names the operation in a listing.
    pub fn to_string(&self, roots: &Roots) -> (text: String)
        ensures
            text@ == self@.description(
                roots@,
                match self@ {
                    OperationModel::ShellString { cmd, effects } => debug_quoted(cmd),
                    _ => Seq::empty(),
                },
            ),
    {
        match self {
            OperationSchema::ShellString { cmd, effects } => {
                let shown = quoted(cmd.as_str());
                self.describe(roots, shown.as_str())
            },
            _ => self.describe(roots, ""),
        }
    }
}

/// `verb`, the source as it is written in the repository, ` to `, and the
/// destination as it is written for the target directory.
fn transfer_text(verb: &str, roots: &Roots, from: &FilePath, to: &FilePath) -> (text: String)
    ensures
        text@ == verb@ + render_path(roots@.unresolve_for(Root::Repo, from@)) + " to "@
            + render_path(roots@.unresolve_for(Root::Target, to@)),
{
    let mut text = String::from_str(verb);
    text.append(unresolve_path_repo(roots, from).render().as_str());
    text.append(" to ");
    text.append(unresolve_path_target(roots, to).render().as_str());
    text
}

/// The views of a sequence of operations.
pub open spec fn operations(v: Seq<OperationSchema>) -> Seq<OperationModel> {
    Seq::new(v.len(), |i: int| v[i]@)
}

/// A copy of a list of operations.
pub(crate) fn clone_operations(v: &Vec<OperationSchema>) -> (res: Vec<OperationSchema>)
    ensures
        operations(res@) == operations(v@),
{
    let mut res: Vec<OperationSchema> = Vec::new();
    let mut i: usize = 0;
    while i < v.len()
        invariant
            i <= v.len(),
            res.len() == i,
            forall|j: int| 0 <= j < i ==> res@[j]@ == v@[j]@,
        decreases v.len() - i,
    {
        res.push(v[i].clone());
        i += 1;
    }
    assert(operations(res@) =~= operations(v@));
    res
}

/// The mathematical value of [`FeatureSchema`].
pub struct SchemaModel {
    /// The operations that install the feature, in the order in which they
    /// run.
    pub install: Seq<OperationModel>,
    /// The operations that would remove it.
    pub uninstall: Seq<OperationModel>,
}

/// What an installation does next.
#[derive(Clone, Copy, Debug, PartialEq, Eq, Structural)]
pub enum InstallStep {
    /// Run the operation at this index and report how it ended.
    Execute(usize),
    /// Nothing is left to do: the installation succeeded or failed.
    Finish(bool),
}

/// Whether every outcome is a success.
pub open spec fn all_succeeded(outcomes: Seq<bool>) -> bool {
    forall|i: int| 0 <= i < outcomes.len() ==> outcomes[i]
}

/// What comes next in a run over `count` items, of which the first
/// `outcomes.len()` have been tried with these outcomes: failure as soon as
/// one has failed, else the next item, and success once all are done.
pub open spec fn next_step(count: nat, outcomes: Seq<bool>) -> InstallStep {
    if !all_succeeded(outcomes) {
        InstallStep::Finish(false)
    } else if outcomes.len() < count {
        InstallStep::Execute(outcomes.len() as usize)
    } else {
        InstallStep::Finish(true)
    }
}

/// What comes next in a run over `count` items after these outcomes.
pub fn step_after(count: usize, outcomes: &Vec<bool>) -> (step: InstallStep)
    ensures
        step == next_step(count as nat, outcomes@),
{
    let mut i: usize = 0;
    while i < outcomes.len()
        invariant
            i <= outcomes.len(),
            forall|j: int| 0 <= j < i ==> outcomes@[j],
        decreases outcomes.len() - i,
    {
        if !outcomes[i] {
            return InstallStep::Finish(false);
        }
        i += 1;
    }
    if outcomes.len() < count {
        InstallStep::Execute(outcomes.len())
    } else {
        InstallStep::Finish(true)
    }
}

/// A run in which the item at `failing` is the first to fail tries the items
/// before it and that item, in order, and then ends in failure: no later
/// item is asked for.
pub proof fn lemma_run_stops_at_first_failure(count: nat, outcomes: Seq<bool>, failing: int)
    requires
        count <= usize::MAX,
        outcomes.len() == count,
        0 <= failing < count,
        !outcomes[failing],
        forall|j: int| 0 <= j < failing ==> outcomes[j],
    ensures
        forall|k: int|
            0 <= k <= failing ==> #[trigger] next_step(count, outcomes.take(k))
                == InstallStep::Execute(k as usize),
        forall|k: int|
            failing < k <= count ==> #[trigger] next_step(count, outcomes.take(k))
                == InstallStep::Finish(false),
{
    assert forall|k: int| failing < k <= count implies #[trigger] next_step(
        count,
        outcomes.take(k),
    ) == InstallStep::Finish(false) by {
        assert(!outcomes.take(k)[failing]);
    }
}

/// A run in which nothing fails tries every item in order and then ends in
/// success.
pub proof fn lemma_run_completes(count: nat, outcomes: Seq<bool>)
    requires
        count <= usize::MAX,
        outcomes.len() == count,
        all_succeeded(outcomes),
    ensures
        forall|k: int|
            0 <= k < count ==> #[trigger] next_step(count, outcomes.take(k)) == InstallStep::Execute(
                k as usize,
            ),
        next_step(count, outcomes) == InstallStep::Finish(true),
{
}

/// Why an operation on a schema was refused.
#[derive(Clone, Copy, Debug, PartialEq, Eq, Structural)]
pub enum SchemaError {
    /// Removing a feature is not supported.
    UninstallNotSupported,
}

/// The operations that make up one feature.
#[derive(Debug, PartialEq, Eq)]
pub struct FeatureSchema {
    install: Vec<OperationSchema>,
    uninstall: Vec<OperationSchema>,
}

impl View for FeatureSchema {
    type V = SchemaModel;

    closed spec fn view(&self) -> SchemaModel {
        SchemaModel { install: operations(self.install@), uninstall: operations(self.uninstall@) }
    }
}

impl Clone for FeatureSchema {
    fn clone(&self) -> (res: Self)
        ensures
            res@ == self@,
    {
        FeatureSchema {
            install: clone_operations(&self.install),
            uninstall: clone_operations(&self.uninstall),
        }
    }
}

impl FeatureSchema {
    /// The schema without operations.
    pub fn new() -> (schema: FeatureSchema)
        ensures
            schema@ == (SchemaModel { install: Seq::empty(), uninstall: Seq::empty() }),
    {
        let schema = FeatureSchema { install: Vec::new(), uninstall: Vec::new() };
        assert(operations(schema.install@) =~= Seq::empty());
        assert(operations(schema.uninstall@) =~= Seq::empty());
        schema
    }

    /// The schema that installs by `install`, in that order.
    pub fn install(install: Vec<OperationSchema>) -> (schema: FeatureSchema)
        ensures
            schema@ == (SchemaModel { install: operations(install@), uninstall: Seq::empty() }),
    {
        let schema = FeatureSchema { install, uninstall: Vec::new() };
        assert(operations(schema.uninstall@) =~= Seq::empty());
        schema
    }

    /// The schema with both lists of operations.
    pub fn with_uninstall(install: Vec<OperationSchema>, uninstall: Vec<OperationSchema>) -> (schema:
        FeatureSchema)
        ensures
            schema@ == (SchemaModel {
                install: operations(install@),
                uninstall: operations(uninstall@),
            }),
    {
        FeatureSchema { install, uninstall }
    }

    /// The operations that install the feature.
    pub fn install_operations(&self) -> (ops: &Vec<OperationSchema>)
        ensures
            operations(ops@) == self@.install,
    {
        &self.install
    }

    /// The operations that would remove the feature.
    pub fn uninstall_operations(&self) -> (ops: &Vec<OperationSchema>)
        ensures
            operations(ops@) == self@.uninstall,
    {
        &self.uninstall
    }

    /// The operations that install the feature, to be changed in place.
    pub fn install_operations_mut(&mut self) -> (ops: &mut Vec<OperationSchema>)
        ensures
            operations(ops@) == old(self)@.install,
            final(self)@ == (SchemaModel {
                install: operations(final(ops)@),
                uninstall: old(self)@.uninstall,
            }),
    {
        &mut self.install
    }

    /// One step of installing the feature. `outcomes` holds how the
    /// operations that were run so far ended, in order. The operations run in
    /// the order of the schema; the first that fails ends the installation in
    /// failure, with no later operation asked for and none undone.
    pub fn install_feature(&self, outcomes: &Vec<bool>) -> (step: InstallStep)
        ensures
            step == next_step(self@.install.len(), outcomes@),
            step matches InstallStep::Execute(i) ==> i < self@.install.len(),
    {
        step_after(self.install.len(), outcomes)
    }

    /// Removing a feature is not supported: this fails for every schema.
    pub fn uninstall_feature(&self) -> (res: Result<bool, SchemaError>)
        ensures
            res == Err::<bool, SchemaError>(SchemaError::UninstallNotSupported),
    {
        Err(SchemaError::UninstallNotSupported)
    }
}

} // verus!
