//! Tracked features and the registry that holds them.

use vstd::prelude::*;
use crate::path::{FilePath, PathModel, same_text};
use crate::operation::{
    FeatureSchema, InstallStep, OperationModel, OperationSchema, SchemaModel, next_step,
    step_after,
};
use crate::seqs::{first_index, lemma_first_index, lemma_first_index_is, lemma_first_index_none};

verus! {

/// The mathematical value of [`InstalledFile`].
pub struct InstalledModel {
    /// Where the file lies in the repository.
    pub repo_path: PathModel,
    /// Where a copy operation puts it on the machine.
    pub local_path: Option<PathModel>,
}

/// A file that a feature deposits on the machine.
#[derive(Debug, PartialEq, Eq)]
pub struct InstalledFile {
    repo_path: FilePath,
    local_path: Option<FilePath>,
}

impl View for InstalledFile {
    type V = InstalledModel;

    closed spec fn view(&self) -> InstalledModel {
        InstalledModel {
            repo_path: self.repo_path@,
            local_path: match self.local_path {
                Some(p) => Some(p@),
                None => None,
            },
        }
    }
}

impl Clone for InstalledFile {
    fn clone(&self) -> (res: Self)
        ensures
            res@ == self@,
    {
        InstalledFile {
            repo_path: self.repo_path.clone(),
            local_path: match &self.local_path {
                Some(p) => Some(p.clone()),
                None => None,
            },
        }
    }
}

impl InstalledFile {
    /// The record of a file that lies at `repo_path` in the repository and is
    /// put at `local_path`, if a copy puts it anywhere.
    pub fn new(repo_path: FilePath, local_path: Option<FilePath>) -> (file: InstalledFile)
        ensures
            file@ == (InstalledModel {
                repo_path: repo_path@,
                local_path: match local_path {
                    Some(p) => Some(p@),
                    None => None,
                },
            }),
    {
        InstalledFile { repo_path, local_path }
    }

    /// Where the file lies in the repository.
    pub fn repo_path(&self) -> (path: &FilePath)
        ensures
            path@ == self@.repo_path,
    {
        &self.repo_path
    }

    /// Where a copy operation puts the file on the machine.
    pub fn local_path(&self) -> (path: Option<&FilePath>)
        ensures
            path.is_some() == self@.local_path.is_some(),
            path matches Some(p) ==> Some(p@) == self@.local_path,
    {
        match &self.local_path {
            Some(p) => Some(p),
            None => None,
        }
    }
}

/// The views of a sequence of installed files.
pub open spec fn installed(v: Seq<InstalledFile>) -> Seq<InstalledModel> {
    Seq::new(v.len(), |i: int| v[i]@)
}

/// The file that a copy operation deposits.
pub open spec fn deposit(op: OperationModel) -> InstalledModel {
    InstalledModel { repo_path: op->CopyFile_from, local_path: Some(op->CopyFile_to) }
}

/// The files that a list of operations deposits: one for each copy, in the
/// order of the copies. No other operation is tracked file by file.
pub open spec fn installed_files(ops: Seq<OperationModel>) -> Seq<InstalledModel> {
    ops.filter(|op: OperationModel| op is CopyFile).map_values(|op: OperationModel| deposit(op))
}

/// The files of a list of operations with one more operation at its end.
pub proof fn lemma_installed_files_push(ops: Seq<OperationModel>, op: OperationModel)
    ensures
        installed_files(ops.push(op)) == if op is CopyFile {
            installed_files(ops).push(deposit(op))
        } else {
            installed_files(ops)
        },
{
    let copies = |op: OperationModel| op is CopyFile;
    reveal(Seq::filter);
    assert(ops.push(op).drop_last() =~= ops);
    assert(ops.push(op).filter(copies) == if op is CopyFile {
        ops.filter(copies).push(op)
    } else {
        ops.filter(copies)
    });
    if op is CopyFile {
        assert(ops.filter(copies).push(op).map_values(|op: OperationModel| deposit(op))
            =~= installed_files(ops).push(deposit(op)));
    }
}

/// The mathematical value of [`TrackedFeature`].
pub struct FeatureModel {
    /// The name, by which the registry finds the feature.
    pub name: Seq<char>,
    /// Whether the feature is switched on for this machine.
    pub active: bool,
    /// The files that the feature deposits.
    pub files: Seq<InstalledModel>,
    /// The operations of the feature.
    pub schema: SchemaModel,
}

impl FeatureModel {
    /// The files are those of the schema.
    pub open spec fn well_formed(self) -> bool {
        self.files == installed_files(self.schema.install)
    }

    /// The feature with the given name, flag and schema, and the files of
    /// that schema.
    pub open spec fn of(name: Seq<char>, active: bool, schema: SchemaModel) -> FeatureModel {
        FeatureModel { name, active, files: installed_files(schema.install), schema }
    }
}

/// A feature with its state on this machine.
#[derive(Debug, PartialEq, Eq)]
pub struct TrackedFeature {
    name: String,
    active: bool,
    files: Vec<InstalledFile>,
    schema: FeatureSchema,
}

impl View for TrackedFeature {
    type V = FeatureModel;

    closed spec fn view(&self) -> FeatureModel {
        FeatureModel {
            name: self.name@,
            active: self.active,
            files: installed(self.files@),
            schema: self.schema@,
        }
    }
}

impl Clone for TrackedFeature {
    fn clone(&self) -> (res: Self)
        ensures
            res@ == self@,
    {
        let mut files: Vec<InstalledFile> = Vec::new();
        let mut i: usize = 0;
        while i < self.files.len()
            invariant
                i <= self.files.len(),
                files.len() == i,
                forall|j: int| 0 <= j < i ==> files@[j]@ == self.files@[j]@,
            decreases self.files.len() - i,
        {
            files.push(self.files[i].clone());
            i += 1;
        }
        assert(installed(files@) =~= installed(self.files@));
        TrackedFeature {
            name: self.name.clone(),
            active: self.active,
            files,
            schema: self.schema.clone(),
        }
    }
}

impl TrackedFeature {
    /// The feature with the given name, flag and schema. Its files are those
    /// of the schema.
    pub fn new(name: String, active: bool, schema: FeatureSchema) -> (feature: TrackedFeature)
        ensures
            feature@ == FeatureModel::of(name@, active, schema@),
            feature@.well_formed(),
    {
        let files = Self::files_from_schema(&schema);
        TrackedFeature { name, active, files, schema }
    }

    /// The files that `schema` deposits: one for each copy among its install
    /// operations, in their order.
    pub fn files_from_schema(schema: &FeatureSchema) -> (files: Vec<InstalledFile>)
        ensures
            installed(files@) == installed_files(schema@.install),
    {
        let ops = schema.install_operations();
        let mut files: Vec<InstalledFile> = Vec::new();
        let mut i: usize = 0;
        assert(schema@.install.take(0) =~= Seq::empty());
        assert(installed_files(Seq::empty()) =~= Seq::empty()) by {
            reveal(Seq::filter);
        }
        assert(installed(files@) =~= Seq::empty());
        while i < ops.len()
            invariant
                i <= ops.len(),
                crate::operation::operations(ops@) == schema@.install,
                installed(files@) == installed_files(schema@.install.take(i as int)),
            decreases ops.len() - i,
        {
            proof {
                lemma_installed_files_push(schema@.install.take(i as int), ops@[i as int]@);
                assert(schema@.install.take(i + 1) =~= schema@.install.take(i as int).push(
                    ops@[i as int]@,
                ));
            }
            let ghost before = installed(files@);
            match &ops[i] {
                OperationSchema::CopyFile { from, to } => {
                    let file = InstalledFile {
                        repo_path: from.clone(),
                        local_path: Some(to.clone()),
                    };
                    assert(file@ == deposit(ops@[i as int]@));
                    files.push(file);
                    assert(installed(files@) =~= before.push(deposit(ops@[i as int]@)));
                },
                _ => {},
            }
            i += 1;
        }
        assert(schema@.install.take(i as int) =~= schema@.install);
        files
    }

    /// Brings the files in line with the schema.
    pub fn update_files_from_schema(&mut self)
        ensures
            final(self)@ == FeatureModel::of(old(self)@.name, old(self)@.active, old(self)@.schema),
            final(self)@.well_formed(),
    {
        self.files = Self::files_from_schema(&self.schema);
    }

    /// The name.
    pub fn name(&self) -> (name: &String)
        ensures
            name@ == self@.name,
    {
        &self.name
    }

    /// Whether the feature is switched on for this machine.
    pub fn active(&self) -> (active: bool)
        ensures
            active == self@.active,
    {
        self.active
    }

    /// Sets the flag. Nothing is installed or removed by this: the flag
    /// records what the caller has done or is about to do.
    pub fn mark_active(&mut self, active: bool)
        ensures
            final(self)@ == (FeatureModel { active, ..old(self)@ }),
    {
        self.active = active;
    }

    /// The files that the feature deposits.
    pub fn files(&self) -> (files: &Vec<InstalledFile>)
        ensures
            installed(files@) == self@.files,
    {
        &self.files
    }

    /// The files, to be changed in place. The caller answers for their
    /// agreement with the schema: see
    /// [`TrackedFeature::update_files_from_schema`].
    pub fn files_mut(&mut self) -> (files: &mut Vec<InstalledFile>)
        ensures
            installed(files@) == old(self)@.files,
            final(self)@ == (FeatureModel { files: installed(final(files)@), ..old(self)@ }),
    {
        &mut self.files
    }

    /// The operations of the feature.
    pub fn schema(&self) -> (schema: &FeatureSchema)
        ensures
            schema@ == self@.schema,
    {
        &self.schema
    }

    /// The schema, to be changed in place. The files are those of the schema
    /// again after [`TrackedFeature::update_files_from_schema`].
    pub fn schema_mut(&mut self) -> (schema: &mut FeatureSchema)
        ensures
            schema@ == old(self)@.schema,
            final(self)@ == (FeatureModel { schema: final(schema)@, ..old(self)@ }),
    {
        &mut self.schema
    }

    /// Replaces the schema and brings the files in line with it.
    pub fn insert_schema(&mut self, schema: FeatureSchema)
        ensures
            final(self)@ == FeatureModel::of(old(self)@.name, old(self)@.active, schema@),
            final(self)@.well_formed(),
    {
        self.files = Self::files_from_schema(&schema);
        self.schema = schema;
    }
}

/// The views of a sequence of features.
pub open spec fn features(v: Seq<TrackedFeature>) -> Seq<FeatureModel> {
    Seq::new(v.len(), |i: int| v[i]@)
}

/// The index of the first entry with the name `name`.
pub open spec fn position(entries: Seq<FeatureModel>, name: Seq<char>) -> Option<int> {
    first_index(entries, |entry: FeatureModel| entry.name == name)
}

/// The mapping that a list of entries stands for: each name that occurs, to
/// the first entry that has it.
pub open spec fn registry(entries: Seq<FeatureModel>) -> Map<Seq<char>, FeatureModel> {
    Map::new(
        |name: Seq<char>| position(entries, name).is_some(),
        |name: Seq<char>| entries[position(entries, name).unwrap()],
    )
}

/// No two entries have the same name.
pub open spec fn distinct_names(entries: Seq<FeatureModel>) -> bool {
    forall|i: int, j: int|
        0 <= i < j < entries.len() ==> (#[trigger] entries[i]).name != (#[trigger] entries[j]).name
}

/// Two lists whose entries have the same names, place by place, find every
/// name at the same place.
pub proof fn lemma_position_by_names(
    a: Seq<FeatureModel>,
    b: Seq<FeatureModel>,
    name: Seq<char>,
)
    requires
        a.len() == b.len(),
        forall|i: int| 0 <= i < a.len() ==> (#[trigger] a[i]).name == b[i].name,
    ensures
        position(a, name) == position(b, name),
{
    let named = |entry: FeatureModel| entry.name == name;
    lemma_first_index(a, named);
    match first_index(a, named) {
        Some(i) => {
            assert(a[i].name == b[i].name);
            assert forall|j: int| 0 <= j < i implies !named(#[trigger] b[j]) by {
                assert(a[j].name == b[j].name);
            }
            lemma_first_index_is(b, named, i);
        },
        None => {
            assert forall|j: int| 0 <= j < b.len() implies !named(#[trigger] b[j]) by {
                assert(a[j].name == b[j].name);
            }
            lemma_first_index_none(b, named);
        },
    }
}

/// Replacing the first entry of a name by another of that name changes the
/// mapping at that name and nowhere else.
pub proof fn lemma_registry_update(entries: Seq<FeatureModel>, at: int, entry: FeatureModel)
    requires
        0 <= at < entries.len(),
        position(entries, entry.name) == Some(at),
    ensures
        registry(entries.update(at, entry)) == registry(entries).insert(entry.name, entry),
        distinct_names(entries) ==> distinct_names(entries.update(at, entry)),
{
    let after = entries.update(at, entry);
    lemma_first_index(entries, |e: FeatureModel| e.name == entry.name);
    assert forall|name: Seq<char>| position(after, name) == position(entries, name) by {
        lemma_position_by_names(entries, after, name);
    }
    assert forall|name: Seq<char>| #[trigger]
        registry(entries).insert(entry.name, entry).contains_key(name) implies registry(
        after,
    )[name] == registry(entries).insert(entry.name, entry)[name] by {
        lemma_first_index(entries, |e: FeatureModel| e.name == name);
    }
    assert(registry(after) =~= registry(entries).insert(entry.name, entry));
    if distinct_names(entries) {
        assert forall|i: int, j: int| 0 <= i < j < after.len() implies (#[trigger] after[i]).name
            != (#[trigger] after[j]).name by {
            assert(entries[i].name != entries[j].name);
        }
    }
}

/// Adding an entry whose name does not occur yet adds it to the mapping.
pub proof fn lemma_registry_push(entries: Seq<FeatureModel>, entry: FeatureModel)
    requires
        position(entries, entry.name).is_none(),
    ensures
        registry(entries.push(entry)) == registry(entries).insert(entry.name, entry),
        distinct_names(entries) ==> distinct_names(entries.push(entry)),
{
    let after = entries.push(entry);
    assert(after.drop_last() =~= entries);
    assert forall|name: Seq<char>| #[trigger]
        registry(entries).insert(entry.name, entry).contains_key(name) implies registry(
        after,
    ).contains_key(name) && registry(after)[name] == registry(entries).insert(
        entry.name,
        entry,
    )[name] by {
        lemma_first_index(entries, |e: FeatureModel| e.name == name);
    }
    assert(registry(after) =~= registry(entries).insert(entry.name, entry));
    if distinct_names(entries) {
        lemma_first_index(entries, |e: FeatureModel| e.name == entry.name);
        assert forall|i: int, j: int| 0 <= i < j < after.len() implies (#[trigger] after[i]).name
            != (#[trigger] after[j]).name by {
            if j < entries.len() {
                assert(entries[i].name != entries[j].name);
            } else {
                assert(after[i] == entries[i]);
            }
        }
    }
}

/// The features of one machine, by name.
#[derive(Debug, PartialEq, Eq)]
pub struct Features {
    features: Vec<TrackedFeature>,
}

impl View for Features {
    type V = Map<Seq<char>, FeatureModel>;

    open spec fn view(&self) -> Map<Seq<char>, FeatureModel> {
        registry(self.entries())
    }
}

impl Clone for Features {
    fn clone(&self) -> (res: Self)
        ensures
            res.entries() == self.entries(),
    {
        let mut copy: Vec<TrackedFeature> = Vec::new();
        let mut i: usize = 0;
        while i < self.features.len()
            invariant
                i <= self.features.len(),
                copy.len() == i,
                forall|j: int| 0 <= j < i ==> copy@[j]@ == self.features@[j]@,
            decreases self.features.len() - i,
        {
            copy.push(self.features[i].clone());
            i += 1;
        }
        assert(features(copy@) =~= features(self.features@));
        Features { features: copy }
    }
}

impl Features {
    /// The entries in the order in which they are held.
    pub closed spec fn entries(&self) -> Seq<FeatureModel> {
        features(self.features@)
    }

    /// No two entries have the same name. Every registry that this module
    /// makes is well formed, and its methods keep it so; only a caller of
    /// [`Features::expose_mut`] can add a second entry of a name, which then
    /// stands behind the first and is never found.
    pub open spec fn well_formed(&self) -> bool {
        distinct_names(self.entries())
    }

    /// The registry without features.
    pub fn new() -> (registry: Features)
        ensures
            registry@ == Map::<Seq<char>, FeatureModel>::empty(),
            registry.entries() == Seq::<FeatureModel>::empty(),
            registry.well_formed(),
    {
        let registry = Features { features: Vec::new() };
        assert(registry.entries() =~= Seq::empty());
        assert(registry@ =~= Map::empty());
        registry
    }

    /// The entries in the order in which they are held.
    pub fn expose(&self) -> (entries: &Vec<TrackedFeature>)
        ensures
            features(entries@) == self.entries(),
    {
        &self.features
    }

    /// The entries, to be changed in place.
    pub fn expose_mut(&mut self) -> (entries: &mut Vec<TrackedFeature>)
        ensures
            features(entries@) == old(self).entries(),
            final(self).entries() == features(final(entries)@),
    {
        &mut self.features
    }

    /// The place of the first entry with the name `name`.
    pub fn find(&self, name: &str) -> (at: Option<usize>)
        ensures
            at.is_some() == self@.contains_key(name@),
            at matches Some(i) ==> position(self.entries(), name@) == Some(i as int) && i
                < self.entries().len(),
    {
        let ghost named = |entry: FeatureModel| entry.name == name@;
        let mut i: usize = 0;
        while i < self.features.len()
            invariant
                i <= self.features.len(),
                named == |entry: FeatureModel| entry.name == name@,
                forall|j: int| 0 <= j < i ==> !named(#[trigger] self.entries()[j]),
            decreases self.features.len() - i,
        {
            if same_text(self.features[i].name().as_str(), name) {
                proof {
                    lemma_first_index_is(self.entries(), named, i as int);
                }
                return Some(i);
            }
            i += 1;
        }
        proof {
            lemma_first_index_none(self.entries(), named);
        }
        None
    }

    /// The feature with the name `name`.
    pub fn get(&self, name: &str) -> (feature: Option<&TrackedFeature>)
        ensures
            feature.is_some() == self@.contains_key(name@),
            feature matches Some(f) ==> f@ == self@[name@] && f@.name == name@,
    {
        match self.find(name) {
            Some(i) => {
                proof {
                    lemma_first_index(self.entries(), |entry: FeatureModel| entry.name == name@);
                }
                Some(&self.features[i])
            },
            None => None,
        }
    }

    /// Whether the registry holds a feature of that name that is switched
    /// on.
    pub fn is_active(&self, name: &str) -> (active: bool)
        ensures
            active == (self@.contains_key(name@) && self@[name@].active),
    {
        match self.get(name) {
            Some(feature) => feature.active(),
            None => false,
        }
    }

    /// Switches the feature of that name on; `false` if there is none.
    pub fn mark_active(&mut self, name: &str) -> (known: bool)
        ensures
            known == old(self)@.contains_key(name@),
            final(self)@ == flagged(old(self)@, name@, true),
            old(self).well_formed() ==> final(self).well_formed(),
    {
        self._mark_active(name, true)
    }

    /// Switches the feature of that name off; `false` if there is none.
    pub fn mark_inactive(&mut self, name: &str) -> (known: bool)
        ensures
            known == old(self)@.contains_key(name@),
            final(self)@ == flagged(old(self)@, name@, false),
            old(self).well_formed() ==> final(self).well_formed(),
    {
        self._mark_active(name, false)
    }

    /// Sets the flag of the feature of that name; `false` if there is none.
    fn _mark_active(&mut self, name: &str, val: bool) -> (known: bool)
        ensures
            known == old(self)@.contains_key(name@),
            final(self)@ == flagged(old(self)@, name@, val),
            old(self).well_formed() ==> final(self).well_formed(),
    {
        match self.find(name) {
            Some(i) => {
                let ghost before = self.entries();
                proof {
                    lemma_first_index(before, |entry: FeatureModel| entry.name == name@);
                }
                self.features[i].mark_active(val);
                proof {
                    let entry = FeatureModel { active: val, ..before[i as int] };
                    assert(self.entries() =~= before.update(i as int, entry));
                    lemma_registry_update(before, i as int, entry);
                }
                true
            },
            None => false,
        }
    }

    /// Puts `feature` under its name, in place of the feature that was
    /// there, if any.
    pub fn insert(&mut self, feature: TrackedFeature)
        ensures
            final(self)@ == old(self)@.insert(feature@.name, feature@),
            old(self).well_formed() ==> final(self).well_formed(),
    {
        let ghost before = self.entries();
        match self.find(feature.name().as_str()) {
            Some(i) => {
                self.features[i] = feature;
                proof {
                    assert(self.entries() =~= before.update(i as int, feature@));
                    lemma_registry_update(before, i as int, feature@);
                }
            },
            None => {
                self.features.push(feature);
                proof {
                    assert(self.entries() =~= before.push(feature@));
                    lemma_registry_push(before, feature@);
                }
            },
        }
    }

    /// One step of installing every feature, in the order in which the
    /// registry holds them. `outcomes` tells how the installations that were
    /// run so far ended; the first that fails ends the run in failure.
    pub fn install_all(&self, outcomes: &Vec<bool>) -> (step: InstallStep)
        ensures
            step == next_step(self.entries().len(), outcomes@),
            step matches InstallStep::Execute(i) ==> i < self.entries().len(),
    {
        step_after(self.features.len(), outcomes)
    }
}

/// The mapping with the flag of the feature at `name` set to `active`, if
/// there is one.
pub open spec fn flagged(
    registry: Map<Seq<char>, FeatureModel>,
    name: Seq<char>,
    active: bool,
) -> Map<Seq<char>, FeatureModel> {
    if registry.contains_key(name) {
        registry.insert(name, FeatureModel { active, ..registry[name] })
    } else {
        registry
    }
}

} // verus!
