//! What the commands decide: which operations binding and rebinding a file
//! come to, which features are to be enabled, and the lines of the status
//! report. Carrying the operations out is left to the caller.

use vstd::prelude::*;
use crate::operation::{
    FeatureSchema, InstallStep, OperationModel, OperationSchema, SchemaModel, clone_operations,
    next_step, operations, step_after,
};
use crate::path::{FilePath, PathModel, parse_path, render_path, texts};
use crate::roots::{
    Root, Roots, RootsModel, repo_dir, resolve_common, resolve_path_repo, resolve_path_target,
    target_dir, unresolve_path_repo, unresolve_path_target,
};
use crate::tracker::{
    FeatureModel, Features, InstalledFile, InstalledModel, TrackedFeature, features,
};

verus! {

/// Why a file cannot be bound.
#[derive(Clone, Copy, Debug, PartialEq, Eq, Structural)]
pub enum BindError {
    /// No file was named.
    MissingFile,
    /// More than a file and its place in the repository were given.
    TooManyArguments,
    /// The file lies outside the target directory and no place in the
    /// repository was given for it.
    OutsideTarget,
}

impl RootsModel {
    /// The directory of the feature `name` in the repository.
    pub open spec fn feature_dir(self, name: Seq<char>) -> PathModel {
        self.repo_dir().join(parse_path("features"@)).join(parse_path(name))
    }
}

/// The directory of the feature `name` in the repository.
pub fn feature_dir(roots: &Roots, name: &str) -> (dir: FilePath)
    ensures
        dir@ == roots@.feature_dir(name@),
{
    repo_dir(roots).join(&FilePath::parse("features")).join(&FilePath::parse(name))
}

/// The copy that brings `file` into the repository. The file is taken below
/// the target directory. Its place is `place`, taken below `dir` unless it
/// is rooted or marked; without a place, the file goes where it lies below
/// the target directory, and a file outside has none.
pub open spec fn binding(
    roots: RootsModel,
    dir: PathModel,
    file: PathModel,
    place: Option<PathModel>,
) -> Option<OperationModel> {
    let from = roots.resolve(Root::Target, file);
    match place {
        Some(q) => Some(
            OperationModel::CopyFile {
                from,
                to: match roots.resolve_common(q) {
                    Some(r) => r,
                    None => dir.join(q),
                },
            },
        ),
        None => if from.starts_with(roots.target) {
            Some(OperationModel::CopyFile { from, to: dir.join(from.strip_prefix(roots.target)) })
        } else {
            None
        },
    }
}

/// The copy that brings `file` into the repository, to `place` or to the
/// place in `dir` that matches where the file lies in the target directory.
pub fn bind_operation(
    roots: &Roots,
    dir: &FilePath,
    file: &FilePath,
    place: Option<&FilePath>,
) -> (res: Result<OperationSchema, BindError>)
    ensures
        match binding(roots@, dir@, file@, match place {
            Some(q) => Some(q@),
            None => None,
        }) {
            Some(op) => res matches Ok(o) && o@ == op,
            None => res == Err::<OperationSchema, BindError>(BindError::OutsideTarget),
        },
{
    let from = resolve_path_target(roots, file);
    match place {
        Some(q) => {
            let to = match resolve_common(roots, q) {
                Some(r) => r,
                None => dir.join(q),
            };
            Ok(OperationSchema::CopyFile { from, to })
        },
        None => match from.strip_prefix(target_dir(roots)) {
            Some(rest) => {
                let to = dir.join(&rest);
                Ok(OperationSchema::CopyFile { from, to })
            },
            None => Err(BindError::OutsideTarget),
        },
    }
}

/// What one group of arguments binds: a file, or a file and its place.
pub open spec fn bound_group(
    roots: RootsModel,
    dir: PathModel,
    group: Seq<Seq<char>>,
) -> Result<OperationModel, BindError> {
    if group.len() == 0 {
        Err(BindError::MissingFile)
    } else if group.len() > 2 {
        Err(BindError::TooManyArguments)
    } else {
        let place = if group.len() == 2 {
            Some(parse_path(group[1]))
        } else {
            None
        };
        match binding(roots, dir, parse_path(group[0]), place) {
            Some(op) => Ok(op),
            None => Err(BindError::OutsideTarget),
        }
    }
}

/// What the groups bind, in order; the first group that cannot be bound
/// decides the error.
pub open spec fn bound_groups(
    roots: RootsModel,
    dir: PathModel,
    groups: Seq<Seq<Seq<char>>>,
) -> Result<Seq<OperationModel>, BindError>
    decreases groups.len(),
{
    if groups.len() == 0 {
        Ok(Seq::empty())
    } else {
        match bound_groups(roots, dir, groups.drop_last()) {
            Err(e) => Err(e),
            Ok(ops) => match bound_group(roots, dir, groups.last()) {
                Ok(op) => Ok(ops.push(op)),
                Err(e) => Err(e),
            },
        }
    }
}

/// The views of groups of arguments.
pub open spec fn groups_of(v: Seq<Vec<String>>) -> Seq<Seq<Seq<char>>> {
    Seq::new(v.len(), |i: int| texts(v[i]@))
}

/// The copies that bring the named files into the directory of the feature
/// `feature`. Each group names a file and, if it has a second entry, its
/// place in the repository.
pub fn bind(roots: &Roots, feature: &str, files: &Vec<Vec<String>>) -> (res: Result<
    Vec<OperationSchema>,
    BindError,
>)
    ensures
        match bound_groups(roots@, roots@.feature_dir(feature@), groups_of(files@)) {
            Ok(ops) => res matches Ok(list) && operations(list@) == ops,
            Err(e) => res == Err::<Vec<OperationSchema>, BindError>(e),
        },
{
    let dir = feature_dir(roots, feature);
    let ghost all = groups_of(files@);
    let mut list: Vec<OperationSchema> = Vec::new();
    let mut i: usize = 0;
    assert(all.take(0) =~= Seq::empty());
    assert(operations(list@) =~= Seq::empty());
    while i < files.len()
        invariant
            i <= files.len(),
            all == groups_of(files@),
            dir@ == roots@.feature_dir(feature@),
            bound_groups(roots@, dir@, all.take(i as int)) == Ok::<Seq<OperationModel>, BindError>(
                operations(list@),
            ),
        decreases files.len() - i,
    {
        let group = &files[i];
        proof {
            assert(all.take(i + 1).drop_last() =~= all.take(i as int));
            assert(all.take(i + 1).last() == texts(group@));
        }
        let bound = if group.len() == 0 {
            Err(BindError::MissingFile)
        } else if group.len() > 2 {
            Err(BindError::TooManyArguments)
        } else {
            let file = FilePath::parse(group[0].as_str());
            if group.len() == 2 {
                let place = FilePath::parse(group[1].as_str());
                bind_operation(roots, &dir, &file, Some(&place))
            } else {
                bind_operation(roots, &dir, &file, None)
            }
        };
        match bound {
            Ok(op) => {
                let ghost before = operations(list@);
                list.push(op);
                assert(operations(list@) =~= before.push(op@));
            },
            Err(e) => {
                proof {
                    lemma_bound_groups_fails(roots@, dir@, all, i as int);
                }
                return Err(e);
            },
        }
        i += 1;
    }
    assert(all.take(i as int) =~= all);
    Ok(list)
}

/// Where the groups before `at` can be bound and the group at `at` cannot,
/// the groups as a whole fail with the error of that group.
proof fn lemma_bound_groups_fails(
    roots: RootsModel,
    dir: PathModel,
    groups: Seq<Seq<Seq<char>>>,
    at: int,
)
    requires
        0 <= at < groups.len(),
        bound_groups(roots, dir, groups.take(at)).is_ok(),
        bound_group(roots, dir, groups[at]).is_err(),
    ensures
        bound_groups(roots, dir, groups) == Err::<Seq<OperationModel>, BindError>(
            bound_group(roots, dir, groups[at])->Err_0,
        ),
    decreases groups.len(),
{
    if at == groups.len() - 1 {
        assert(groups.drop_last() =~= groups.take(at));
    } else {
        assert(groups.drop_last().take(at) =~= groups.take(at));
        lemma_bound_groups_fails(roots, dir, groups.drop_last(), at);
    }
}

/// A copy into the repository as the manifest records it: the other way
/// round, as the copy that installs the file, with both paths in their
/// portable form. Any other operation is recorded as it is.
pub open spec fn recorded(roots: RootsModel, op: OperationModel) -> OperationModel {
    match op {
        OperationModel::CopyFile { from, to } => OperationModel::CopyFile {
            from: roots.unresolve_for(Root::Repo, to),
            to: roots.unresolve_for(Root::Target, from),
        },
        _ => op,
    }
}

/// The operation as the manifest records it.
pub fn recorded_operation(roots: &Roots, op: &OperationSchema) -> (res: OperationSchema)
    ensures
        res@ == recorded(roots@, op@),
{
    match op {
        OperationSchema::CopyFile { from, to } => OperationSchema::CopyFile {
            from: unresolve_path_repo(roots, to),
            to: unresolve_path_target(roots, from),
        },
        _ => op.clone(),
    }
}

/// The registry after `ops` were bound to the feature `name`: a feature
/// that was there has them at the end of its install operations, a new one
/// starts switched on with them.
pub open spec fn bound(
    registry: Map<Seq<char>, FeatureModel>,
    name: Seq<char>,
    ops: Seq<OperationModel>,
) -> Map<Seq<char>, FeatureModel> {
    if registry.contains_key(name) {
        registry.insert(
            name,
            FeatureModel::of(
                name,
                registry[name].active,
                SchemaModel {
                    install: registry[name].schema.install + ops,
                    uninstall: registry[name].schema.uninstall,
                },
            ),
        )
    } else {
        registry.insert(
            name,
            FeatureModel::of(name, true, SchemaModel { install: ops, uninstall: Seq::empty() }),
        )
    }
}

/// Records `ops` as bound to the feature `name`; `true` where that made a
/// new feature.
pub fn record_binding(registry: &mut Features, name: &str, ops: &Vec<OperationSchema>) -> (created:
    bool)
    ensures
        created == !old(registry)@.contains_key(name@),
        final(registry)@ == bound(old(registry)@, name@, operations(ops@)),
        old(registry).well_formed() ==> final(registry).well_formed(),
{
    let existing = match registry.get(name) {
        Some(feature) => Some(
            (
                feature.active(),
                clone_operations(feature.schema().install_operations()),
                clone_operations(feature.schema().uninstall_operations()),
            ),
        ),
        None => None,
    };
    match existing {
        Some((active, mut install, uninstall)) => {
            let ghost first = operations(install@);
            let mut i: usize = 0;
            while i < ops.len()
                invariant
                    i <= ops.len(),
                    operations(install@) == first + operations(ops@).take(i as int),
                decreases ops.len() - i,
            {
                let ghost before = operations(install@);
                install.push(ops[i].clone());
                assert(operations(install@) =~= before.push(ops@[i as int]@));
                assert(operations(ops@).take(i + 1) =~= operations(ops@).take(i as int).push(
                    ops@[i as int]@,
                ));
                i += 1;
            }
            assert(operations(ops@).take(i as int) =~= operations(ops@));
            registry.insert(
                TrackedFeature::new(
                    String::from_str(name),
                    active,
                    FeatureSchema::with_uninstall(install, uninstall),
                ),
            );
            false
        },
        None => {
            registry.insert(
                TrackedFeature::new(
                    String::from_str(name),
                    true,
                    FeatureSchema::install(clone_operations(ops)),
                ),
            );
            true
        },
    }
}

/// The copy that brings the installed file of `op` back into the
/// repository, if `op` is the copy that installs `target`.
pub open spec fn copy_back(roots: RootsModel, op: OperationModel, target: PathModel) -> Option<
    OperationModel,
> {
    match op {
        OperationModel::CopyFile { from, to } => if to == target {
            Some(
                OperationModel::CopyFile {
                    from: roots.resolve(Root::Target, to),
                    to: roots.resolve(Root::Repo, from),
                },
            )
        } else {
            None
        },
        _ => None,
    }
}

/// The copies that bring `file` back into the repository: one for each copy
/// among `ops` that installs it, in their order.
pub open spec fn rebinding(
    roots: RootsModel,
    ops: Seq<OperationModel>,
    file: PathModel,
) -> Seq<OperationModel>
    decreases ops.len(),
{
    let target = roots.unresolve_for(Root::Target, roots.resolve(Root::Target, file));
    if ops.len() == 0 {
        Seq::empty()
    } else {
        let before = rebinding(roots, ops.drop_last(), file);
        match copy_back(roots, ops.last(), target) {
            Some(op) => before.push(op),
            None => before,
        }
    }
}

/// The copies that bring `file` back into the repository. The file is found
/// by the place that the schema installs it to; where there is none, no
/// copy comes back.
pub fn rebind(roots: &Roots, schema: &FeatureSchema, file: &FilePath) -> (list: Vec<
    OperationSchema,
>)
    ensures
        operations(list@) == rebinding(roots@, schema@.install, file@),
{
    let target = unresolve_path_target(roots, &resolve_path_target(roots, file));
    let ops = schema.install_operations();
    let ghost all = schema@.install;
    let mut list: Vec<OperationSchema> = Vec::new();
    let mut i: usize = 0;
    assert(all.take(0) =~= Seq::empty());
    assert(operations(list@) =~= Seq::empty());
    while i < ops.len()
        invariant
            i <= ops.len(),
            all == schema@.install,
            all == operations(ops@),
            target@ == roots@.unresolve_for(Root::Target, roots@.resolve(Root::Target, file@)),
            operations(list@) == rebinding(roots@, all.take(i as int), file@),
        decreases ops.len() - i,
    {
        proof {
            assert(all.take(i + 1).drop_last() =~= all.take(i as int));
            assert(all.take(i + 1).last() == ops@[i as int]@);
        }
        match &ops[i] {
            OperationSchema::CopyFile { from, to } => {
                if to.same(&target) {
                    let op = OperationSchema::CopyFile {
                        from: resolve_path_target(roots, to),
                        to: resolve_path_repo(roots, from),
                    };
                    let ghost before = operations(list@);
                    list.push(op);
                    assert(operations(list@) =~= before.push(op@));
                }
            },
            _ => {},
        }
        i += 1;
    }
    assert(all.take(i as int) =~= all);
    list
}

/// The names among `names` of features that the registry holds switched
/// off, in the order of `names`.
pub open spec fn to_enable(registry: Map<Seq<char>, FeatureModel>, names: Seq<Seq<char>>) -> Seq<
    Seq<char>,
> {
    names.filter(|name: Seq<char>| registry.contains_key(name) && !registry[name].active)
}

/// The features to enable: those named that the registry holds and that are
/// switched off. A name that the registry does not know is passed over, and
/// so is a feature that is switched on already.
pub fn enable(registry: &Features, names: &Vec<String>) -> (list: Vec<String>)
    ensures
        texts(list@) == to_enable(registry@, texts(names@)),
{
    let ghost wanted = |name: Seq<char>| registry@.contains_key(name) && !registry@[name].active;
    let ghost all = texts(names@);
    let mut list: Vec<String> = Vec::new();
    let mut i: usize = 0;
    proof {
        reveal(Seq::filter);
        assert(all.take(0) =~= Seq::empty());
        assert(texts(list@) =~= Seq::empty());
    }
    while i < names.len()
        invariant
            i <= names.len(),
            all == texts(names@),
            wanted == |name: Seq<char>| registry@.contains_key(name) && !registry@[name].active,
            texts(list@) == all.take(i as int).filter(wanted),
        decreases names.len() - i,
    {
        proof {
            reveal(Seq::filter);
            assert(all.take(i + 1).drop_last() =~= all.take(i as int));
            assert(all.take(i + 1).last() == names@[i as int]@);
        }
        let name = &names[i];
        let pending = match registry.get(name.as_str()) {
            Some(feature) => !feature.active(),
            None => false,
        };
        if pending {
            let ghost before = texts(list@);
            list.push(name.clone());
            assert(texts(list@) =~= before.push(name@));
        }
        i += 1;
    }
    assert(all.take(i as int) =~= all);
    list
}

/// The install operations of a schema with their paths made concrete, ready
/// for the executor.
pub fn resolved_operations(roots: &Roots, schema: &FeatureSchema) -> (list: Vec<OperationSchema>)
    ensures
        list.len() == schema@.install.len(),
        forall|i: int|
            0 <= i < list.len() ==> (#[trigger] list@[i])@ == schema@.install[i].resolved(roots@),
{
    let ops = schema.install_operations();
    let mut list: Vec<OperationSchema> = Vec::new();
    let mut i: usize = 0;
    while i < ops.len()
        invariant
            i <= ops.len(),
            operations(ops@) == schema@.install,
            list.len() == i,
            forall|j: int|
                0 <= j < i ==> (#[trigger] list@[j])@ == schema@.install[j].resolved(roots@),
        decreases ops.len() - i,
    {
        assert(operations(ops@)[i as int] == ops@[i as int]@);
        list.push(ops[i].resolve(roots));
        i += 1;
    }
    list
}

/// The greatest number of characters that a name among the entries has.
pub open spec fn longest_name(entries: Seq<FeatureModel>) -> nat
    decreases entries.len(),
{
    if entries.len() == 0 {
        0
    } else {
        let before = longest_name(entries.drop_last());
        if entries.last().name.len() > before {
            entries.last().name.len()
        } else {
            before
        }
    }
}

/// The greatest number of characters that the name of a feature has.
pub fn longest_feature_name(registry: &Features) -> (width: usize)
    ensures
        width == longest_name(registry.entries()),
{
    let list = registry.expose();
    let ghost all = registry.entries();
    let mut width: usize = 0;
    let mut i: usize = 0;
    assert(all.take(0) =~= Seq::empty());
    while i < list.len()
        invariant
            i <= list.len(),
            all == features(list@),
            width == longest_name(all.take(i as int)),
        decreases list.len() - i,
    {
        proof {
            assert(all.take(i + 1).drop_last() =~= all.take(i as int));
            assert(all.take(i + 1).last() == list@[i as int]@);
        }
        let n = list[i].name().as_str().unicode_len();
        if n > width {
            width = n;
        }
        i += 1;
    }
    assert(all.take(i as int) =~= all);
    width
}

/// `count` spaces.
pub open spec fn spaces(count: nat) -> Seq<char> {
    Seq::new(count, |i: int| ' ')
}

/// The line of a feature in the status report: its name, filled with spaces
/// to `width` characters, and whether it is enabled.
pub open spec fn status_text(name: Seq<char>, active: bool, width: nat) -> Seq<char> {
    "  "@ + name + spaces((if name.len() < width {
        width - name.len()
    } else {
        0
    }) as nat) + ": "@ + if active {
        "enabled"@
    } else {
        "disabled"@
    }
}

/// The line of a feature in the status report.
pub fn status_line(feature: &TrackedFeature, width: usize) -> (line: String)
    ensures
        line@ == status_text(feature@.name, feature@.active, width as nat),
{
    let mut line = String::from_str("  ");
    line.append(feature.name().as_str());
    let n = feature.name().as_str().unicode_len();
    let ghost lead = line@;
    let mut i: usize = n;
    proof {
        reveal_strlit(" ");
        assert(lead + spaces(0) =~= lead);
    }
    while i < width
        invariant
            n <= i,
            n < width ==> i <= width,
            n >= width ==> i == n,
            lead == "  "@ + feature@.name,
            n == feature@.name.len(),
            " "@.len() == 1,
            " "@[0] == ' ',
            line@ == lead + spaces((i - n) as nat),
        decreases width - i,
    {
        line.append(" ");
        assert(line@ =~= lead + spaces((i + 1 - n) as nat));
        i += 1;
    }
    line.append(": ");
    if feature.active() {
        line.append("enabled");
    } else {
        line.append("disabled");
    }
    assert(line@ =~= status_text(feature@.name, feature@.active, width as nat));
    line
}

/// The path that a file line shows: where the file is installed, or a
/// placeholder where that is not known.
pub open spec fn shown_path(file: InstalledModel) -> PathModel {
    match file.local_path {
        Some(path) => path,
        None => parse_path("<no target path>"@),
    }
}

/// The line of a file in the status report: where it is installed, as the
/// manifest says it and, in brackets, as it is on this machine.
pub open spec fn file_text(roots: RootsModel, file: InstalledModel) -> Seq<char> {
    "    "@ + render_path(shown_path(file)) + " ("@ + render_path(
        roots.resolve(Root::Target, shown_path(file)),
    ) + ")"@
}

/// The line of a file in the status report.
pub fn file_line(roots: &Roots, file: &InstalledFile) -> (line: String)
    ensures
        line@ == file_text(roots@, file@),
{
    let shown = match file.local_path() {
        Some(path) => path.clone(),
        None => FilePath::parse("<no target path>"),
    };
    let mut line = String::from_str("    ");
    line.append(shown.render().as_str());
    line.append(" (");
    line.append(resolve_path_target(roots, &shown).render().as_str());
    line.append(")");
    line
}

/// One step of installing the given features after a download, in their
/// order; without a list there is nothing to install. `outcomes` tells how
/// the installations that were run so far ended: the first that fails ends
/// the run, and with it the download, in failure.
pub fn install_all(list: Option<&Vec<TrackedFeature>>, outcomes: &Vec<bool>) -> (step: InstallStep)
    ensures
        step == next_step(
            match list {
                Some(v) => v@.len(),
                None => 0,
            },
            outcomes@,
        ),
{
    match list {
        Some(v) => step_after(v.len(), outcomes),
        None => step_after(0, outcomes),
    }
}

} // verus!
