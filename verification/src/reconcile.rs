//! Bringing the registry of this machine in line with the features that the
//! repository holds.
//!
//! A feature that the repository holds takes its schema from there, whatever
//! the registry knew before; its flag stays as it was, and a feature that the
//! registry did not know starts switched off. A feature that only the
//! registry knows is left alone.

use vstd::prelude::*;
use crate::operation::{FeatureSchema, SchemaModel};
use crate::tracker::{FeatureModel, Features, TrackedFeature};
use crate::path::texts;
use crate::parser::{ManifestError, decode_schema, parse_manifest};
use crate::seqs::{first_index, lemma_first_index_is, lemma_first_index_none};
use crate::yaml::yaml_document;

verus! {

/// The mathematical value of [`FoundFeature`].
pub struct FoundModel {
    /// The name of the feature's directory.
    pub name: Seq<char>,
    /// What its manifest holds.
    pub schema: SchemaModel,
}

/// A feature as the repository holds it.
#[derive(Debug, PartialEq, Eq)]
pub struct FoundFeature {
    /// The name of the feature's directory.
    pub name: String,
    /// What its manifest holds.
    pub schema: FeatureSchema,
}

impl View for FoundFeature {
    type V = FoundModel;

    open spec fn view(&self) -> FoundModel {
        FoundModel { name: self.name@, schema: self.schema@ }
    }
}

/// The views of a sequence of found features.
pub open spec fn found_features(v: Seq<FoundFeature>) -> Seq<FoundModel> {
    Seq::new(v.len(), |i: int| v[i]@)
}

/// The registry after one feature of the repository has been taken in: the
/// feature has the schema found, with the flag that it had, or switched off
/// if it is new.
pub open spec fn merged(
    registry: Map<Seq<char>, FeatureModel>,
    found: FoundModel,
) -> Map<Seq<char>, FeatureModel> {
    registry.insert(
        found.name,
        FeatureModel::of(
            found.name,
            registry.contains_key(found.name) && registry[found.name].active,
            found.schema,
        ),
    )
}

/// The registry after the features of the repository have been taken in, in
/// their order.
pub open spec fn reconciled(
    registry: Map<Seq<char>, FeatureModel>,
    found: Seq<FoundModel>,
) -> Map<Seq<char>, FeatureModel>
    decreases found.len(),
{
    if found.len() == 0 {
        registry
    } else {
        merged(reconciled(registry, found.drop_last()), found.last())
    }
}

/// The names of the found features that the registry did not know when they
/// were taken in, in their order.
pub open spec fn unrecorded(
    registry: Map<Seq<char>, FeatureModel>,
    found: Seq<FoundModel>,
) -> Seq<Seq<char>>
    decreases found.len(),
{
    if found.len() == 0 {
        Seq::empty()
    } else {
        let before = unrecorded(registry, found.drop_last());
        if reconciled(registry, found.drop_last()).contains_key(found.last().name) {
            before
        } else {
            before.push(found.last().name)
        }
    }
}

/// The schema of the last found feature with the name `name`.
pub open spec fn latest(found: Seq<FoundModel>, name: Seq<char>) -> Option<SchemaModel>
    decreases found.len(),
{
    if found.len() == 0 {
        None
    } else if found.last().name == name {
        Some(found.last().schema)
    } else {
        latest(found.drop_last(), name)
    }
}

/// What reconciling does to each name. A name that was found is in the
/// registry afterwards, with the schema found last and the flag it had
/// before, or switched off if it is new. A name that was not found is in the
/// registry afterwards exactly if it was before, with its entry unchanged.
pub proof fn lemma_reconciled_at(
    registry: Map<Seq<char>, FeatureModel>,
    found: Seq<FoundModel>,
    name: Seq<char>,
)
    ensures
        match latest(found, name) {
            Some(schema) => reconciled(registry, found).contains_key(name) && reconciled(
                registry,
                found,
            )[name] == FeatureModel::of(
                name,
                registry.contains_key(name) && registry[name].active,
                schema,
            ),
            None => reconciled(registry, found).contains_key(name) == registry.contains_key(name)
                && (registry.contains_key(name) ==> reconciled(registry, found)[name]
                == registry[name]),
        },
    decreases found.len(),
{
    if found.len() > 0 {
        lemma_reconciled_at(registry, found.drop_last(), name);
    }
}

/// Reconciling removes nothing: every name of the registry is still there.
pub proof fn lemma_reconciled_keeps_names(
    registry: Map<Seq<char>, FeatureModel>,
    found: Seq<FoundModel>,
    name: Seq<char>,
)
    requires
        registry.contains_key(name),
    ensures
        reconciled(registry, found).contains_key(name),
        reconciled(registry, found)[name].active == registry[name].active,
{
    lemma_reconciled_at(registry, found, name);
}

/// A feature whose directory is gone from the repository keeps its entry:
/// reconciling with features of other names leaves it as it was.
pub proof fn lemma_reconciled_leaves_absent(
    registry: Map<Seq<char>, FeatureModel>,
    found: Seq<FoundModel>,
    name: Seq<char>,
)
    requires
        registry.contains_key(name),
        forall|i: int| 0 <= i < found.len() ==> (#[trigger] found[i]).name != name,
    ensures
        reconciled(registry, found).contains_key(name),
        reconciled(registry, found)[name] == registry[name],
{
    lemma_latest_none(found, name);
    lemma_reconciled_at(registry, found, name);
}

/// A name that no found feature has, has no latest schema.
pub proof fn lemma_latest_none(found: Seq<FoundModel>, name: Seq<char>)
    requires
        forall|i: int| 0 <= i < found.len() ==> (#[trigger] found[i]).name != name,
    ensures
        latest(found, name).is_none(),
    decreases found.len(),
{
    if found.len() > 0 {
        assert(found[found.len() - 1].name != name);
        assert forall|i: int| 0 <= i < found.drop_last().len() implies (
        #[trigger] found.drop_last()[i]).name != name by {
            assert(found[i].name != name);
        }
        lemma_latest_none(found.drop_last(), name);
    }
}

/// Reconciling again with the same features changes nothing.
pub proof fn lemma_reconciled_twice(registry: Map<Seq<char>, FeatureModel>, found: Seq<FoundModel>)
    ensures
        reconciled(reconciled(registry, found), found) == reconciled(registry, found),
{
    let once = reconciled(registry, found);
    let twice = reconciled(once, found);
    assert forall|name: Seq<char>| #[trigger]
        twice.dom().contains(name) == once.dom().contains(name) && (once.dom().contains(name)
            ==> twice[name] == once[name]) by {
        lemma_reconciled_at(registry, found, name);
        lemma_reconciled_at(once, found, name);
    }
    assert(twice.dom() =~= once.dom());
    assert(twice =~= once);
}

/// What reconciling gives back.
#[derive(Debug, PartialEq, Eq)]
pub struct Reconciliation {
    /// The registry with the features of the repository taken in.
    pub features: Features,
    /// The names of the features that the registry did not know. The
    /// manifest of each is to be written back as the registry now holds it.
    pub unrecorded: Vec<String>,
}

/// Takes the features found in the repository into the registry.
pub fn load_features(registry: Features, found: &Vec<FoundFeature>) -> (res: Reconciliation)
    ensures
        res.features@ == reconciled(registry@, found_features(found@)),
        texts(res.unrecorded@) == unrecorded(registry@, found_features(found@)),
        registry.well_formed() ==> res.features.well_formed(),
{
    let mut features = registry;
    let mut fresh: Vec<String> = Vec::new();
    let ghost all = found_features(found@);
    let mut i: usize = 0;
    assert(all.take(0) =~= Seq::empty());
    assert(texts(fresh@) =~= Seq::empty());
    while i < found.len()
        invariant
            i <= found.len(),
            all == found_features(found@),
            features@ == reconciled(registry@, all.take(i as int)),
            texts(fresh@) == unrecorded(registry@, all.take(i as int)),
            registry.well_formed() ==> features.well_formed(),
        decreases found.len() - i,
    {
        proof {
            assert(all.take(i + 1).drop_last() =~= all.take(i as int));
            assert(all.take(i + 1).last() == found@[i as int]@);
        }
        let item = &found[i];
        let active = features.is_active(item.name.as_str());
        if features.get(item.name.as_str()).is_none() {
            let ghost before = texts(fresh@);
            fresh.push(item.name.clone());
            assert(texts(fresh@) =~= before.push(item.name@));
        }
        features.insert(TrackedFeature::new(item.name.clone(), active, item.schema.clone()));
        i += 1;
    }
    assert(all.take(i as int) =~= all);
    Reconciliation { features, unrecorded: fresh }
}

/// The mathematical value of [`ManifestText`].
pub struct ManifestTextModel {
    /// The name of the feature's directory.
    pub name: Seq<char>,
    /// The text of its manifest.
    pub text: Seq<char>,
}

/// A manifest as it lies in the repository.
#[derive(Debug, PartialEq, Eq)]
pub struct ManifestText {
    /// The name of the feature's directory.
    pub name: String,
    /// The text of its manifest.
    pub text: String,
}

impl View for ManifestText {
    type V = ManifestTextModel;

    open spec fn view(&self) -> ManifestTextModel {
        ManifestTextModel { name: self.name@, text: self.text@ }
    }
}

/// The views of a sequence of manifest texts.
pub open spec fn manifest_texts(v: Seq<ManifestText>) -> Seq<ManifestTextModel> {
    Seq::new(v.len(), |i: int| v[i]@)
}

/// The manifest that text holds, if it holds one.
pub open spec fn manifest_of(text: Seq<char>) -> Option<SchemaModel> {
    match yaml_document(text) {
        Some(tree) => decode_schema(tree),
        None => None,
    }
}

/// The index of the first text that holds no manifest.
pub open spec fn first_unreadable(list: Seq<ManifestTextModel>) -> Option<int> {
    first_index(list, |m: ManifestTextModel| manifest_of(m.text).is_none())
}

/// A manifest that could not be read.
#[derive(Debug, PartialEq, Eq)]
pub struct UnreadableManifest {
    /// Its place in the list that was handed in.
    pub index: usize,
    /// Why it was refused.
    pub error: ManifestError,
}

/// Reads the manifests of the repository. The first text that holds no
/// manifest ends the reading: nothing can be reconciled then.
pub fn parse_manifests(list: &Vec<ManifestText>) -> (res: Result<
    Vec<FoundFeature>,
    UnreadableManifest,
>)
    ensures
        match first_unreadable(manifest_texts(list@)) {
            Some(i) => res matches Err(failed) && failed.index == i && if yaml_document(
                list@[i].text@,
            ).is_none() {
                failed.error is Syntax
            } else {
                failed.error == ManifestError::Shape
            },
            None => res matches Ok(found) && found_features(found@) == Seq::new(
                list@.len(),
                |i: int|
                    FoundModel { name: list@[i].name@, schema: manifest_of(list@[i].text@).unwrap() },
            ),
        },
{
    let ghost unreadable = |m: ManifestTextModel| manifest_of(m.text).is_none();
    let mut found: Vec<FoundFeature> = Vec::new();
    let mut i: usize = 0;
    while i < list.len()
        invariant
            i <= list.len(),
            found.len() == i,
            unreadable == |m: ManifestTextModel| manifest_of(m.text).is_none(),
            forall|j: int| 0 <= j < i ==> !unreadable(#[trigger] manifest_texts(list@)[j]),
            forall|j: int|
                0 <= j < i ==> (#[trigger] found@[j])@ == (FoundModel {
                    name: list@[j].name@,
                    schema: manifest_of(list@[j].text@).unwrap(),
                }),
        decreases list.len() - i,
    {
        match parse_manifest(list[i].text.as_str()) {
            Ok(schema) => {
                found.push(FoundFeature { name: list[i].name.clone(), schema });
            },
            Err(error) => {
                proof {
                    assert(unreadable(manifest_texts(list@)[i as int]));
                    lemma_first_index_is(manifest_texts(list@), unreadable, i as int);
                }
                return Err(UnreadableManifest { index: i, error });
            },
        }
        i += 1;
    }
    proof {
        lemma_first_index_none(manifest_texts(list@), unreadable);
        assert(found_features(found@) =~= Seq::new(
            list@.len(),
            |i: int|
                FoundModel { name: list@[i].name@, schema: manifest_of(list@[i].text@).unwrap() },
        ));
    }
    Ok(found)
}

} // verus!
