//! The registry file: which features this machine knows, and which of them
//! are switched on.
//!
//! ```yaml
//! features:
//!   zsh:
//!     name: zsh
//!     active: true
//! ```
//!
//! Only the flag is read from an entry; the schema of a feature comes from
//! the manifest in the repository.

use vstd::prelude::*;
use crate::operation::{FeatureSchema, SchemaModel};
use crate::parser::{
    ManifestError, entry, entry_of, field, get_field, lemma_keys_differ, lemma_plain_pair,
    mapping_of_one, mapping_of_two,
};
use crate::seqs::{lemma_first_index, lemma_first_index_is};
use crate::tracker::{
    FeatureModel, Features, TrackedFeature, features, lemma_registry_push, position, registry,
};
use crate::yaml::{
    EntryModel, Yaml, YamlEntry, YamlModel, emit_document, entries, lemma_map_view, parse_document,
    plain_keys, yaml_document, yaml_text,
};

verus! {

/// The schema without operations.
pub open spec fn empty_schema() -> SchemaModel {
    SchemaModel { install: Seq::empty(), uninstall: Seq::empty() }
}

/// One entry of the registry: the name as the key, over a mapping that holds
/// the flag under `active`. The schema is not kept in the registry, so the
/// feature comes without operations.
pub open spec fn decode_feature(item: EntryModel) -> Option<FeatureModel> {
    match (item.key, item.value) {
        (YamlModel::Text(name), YamlModel::Mapping(fields)) => match field(fields, "active"@) {
            Some(YamlModel::Bool(active)) => Some(FeatureModel::of(name, active, empty_schema())),
            _ => None,
        },
        _ => None,
    }
}

/// The features of the entries, each under its name; of two entries with one
/// name the later counts.
pub open spec fn decode_features(items: Seq<EntryModel>) -> Option<Map<Seq<char>, FeatureModel>>
    decreases items.len(),
{
    if items.len() == 0 {
        Some(Map::empty())
    } else {
        match (decode_features(items.drop_last()), decode_feature(items.last())) {
            (Some(before), Some(feature)) => Some(before.insert(feature.name, feature)),
            _ => None,
        }
    }
}

/// A registry: a mapping with the mapping of the features under `features`.
pub open spec fn decode_registry(tree: YamlModel) -> Option<Map<Seq<char>, FeatureModel>> {
    match tree {
        YamlModel::Mapping(fields) => match field(fields, "features"@) {
            Some(YamlModel::Mapping(items)) => decode_features(items),
            _ => None,
        },
        _ => None,
    }
}

/// One entry of the registry.
fn read_feature(item: &YamlEntry) -> (feature: Option<TrackedFeature>)
    ensures
        feature.is_some() == decode_feature(item@).is_some(),
        feature matches Some(f) ==> Some(f@) == decode_feature(item@),
{
    match (&item.key, &item.value) {
        (Yaml::Text(name), Yaml::Mapping(fields)) => {
            proof {
                lemma_map_view(*fields);
            }
            match get_field(fields, "active") {
                Some(Yaml::Bool(active)) => Some(
                    TrackedFeature::new(name.clone(), *active, FeatureSchema::new()),
                ),
                _ => None,
            }
        },
        _ => None,
    }
}

/// The registry that a document holds. It is refused for its shape exactly
/// where [`decode_registry`] finds none.
pub fn decode_local(tree: &Yaml) -> (res: Result<Features, ManifestError>)
    ensures
        match decode_registry(tree@) {
            Some(registry) => res matches Ok(f) && f@ == registry && f.well_formed(),
            None => res == Err::<Features, ManifestError>(ManifestError::Shape),
        },
{
    let fields = match tree {
        Yaml::Mapping(fields) => fields,
        _ => {
            return Err(ManifestError::Shape);
        },
    };
    proof {
        lemma_map_view(*fields);
    }
    let items = match get_field(fields, "features") {
        Some(Yaml::Mapping(items)) => items,
        _ => {
            return Err(ManifestError::Shape);
        },
    };
    proof {
        lemma_map_view(*items);
    }
    let ghost all = entries(items@);
    let mut registry = Features::new();
    let mut i: usize = 0;
    assert(all.take(0) =~= Seq::empty());
    while i < items.len()
        invariant
            i <= items.len(),
            all == entries(items@),
            decode_registry(tree@) == decode_features(all),
            decode_features(all.take(i as int)) == Some(registry@),
            registry.well_formed(),
        decreases items.len() - i,
    {
        proof {
            assert(all.take(i + 1).drop_last() =~= all.take(i as int));
            assert(all.take(i + 1).last() == items@[i as int]@);
        }
        match read_feature(&items[i]) {
            Some(feature) => {
                registry.insert(feature);
            },
            None => {
                proof {
                    lemma_decode_features_fails(all, i as int);
                }
                return Err(ManifestError::Shape);
            },
        }
        i += 1;
    }
    assert(all.take(i as int) =~= all);
    Ok(registry)
}

/// Where one entry cannot be decoded, the entries as a whole cannot.
proof fn lemma_decode_features_fails(items: Seq<EntryModel>, at: int)
    requires
        0 <= at < items.len(),
        decode_feature(items[at]).is_none(),
    ensures
        decode_features(items).is_none(),
    decreases items.len(),
{
    if at < items.len() - 1 {
        lemma_decode_features_fails(items.drop_last(), at);
    }
}

/// One feature as an entry of the registry: its name, over its name and its
/// flag.
pub open spec fn encode_feature(feature: FeatureModel) -> EntryModel {
    entry(
        feature.name,
        YamlModel::Mapping(
            seq![
                entry("name"@, YamlModel::Text(feature.name)),
                entry("active"@, YamlModel::Bool(feature.active)),
            ],
        ),
    )
}

/// The entries of the registry: one for each feature that is the first of
/// its name, in their order.
pub open spec fn encode_features(list: Seq<FeatureModel>) -> Seq<EntryModel>
    decreases list.len(),
{
    if list.len() == 0 {
        Seq::empty()
    } else {
        let before = encode_features(list.drop_last());
        if position(list.drop_last(), list.last().name).is_some() {
            before
        } else {
            before.push(encode_feature(list.last()))
        }
    }
}

/// The registry as a document.
pub open spec fn encode_registry(list: Seq<FeatureModel>) -> YamlModel {
    YamlModel::Mapping(seq![entry("features"@, YamlModel::Mapping(encode_features(list)))])
}

/// Every entry that is written for a list of features has the name of one
/// of them as its key, over a part with plain keys.
proof fn lemma_encode_features_keys(list: Seq<FeatureModel>, at: int)
    requires
        0 <= at < encode_features(list).len(),
    ensures
        encode_features(list)[at].key is Text,
        position(list, encode_features(list)[at].key->Text_0).is_some(),
        plain_keys(encode_features(list)[at].value),
    decreases list.len(),
{
    lemma_keys_differ();
    let front = list.drop_last();
    let before = encode_features(front);
    if at < before.len() {
        lemma_encode_features_keys(front, at);
        let name = before[at].key->Text_0;
        lemma_first_index(front, |e: FeatureModel| e.name == name);
        let k = position(front, name).unwrap();
        assert(list[k] == front[k]);
        lemma_first_index(list, |e: FeatureModel| e.name == name);
    } else {
        let name = list.last().name;
        assert(list[list.len() - 1].name == name);
        lemma_first_index(list, |e: FeatureModel| e.name == name);
        lemma_plain_pair(
            entry("name"@, YamlModel::Text(name)),
            entry("active"@, YamlModel::Bool(list.last().active)),
        );
    }
}

/// No two entries that are written for a list of features have the same
/// key.
proof fn lemma_encode_features_distinct(list: Seq<FeatureModel>)
    ensures
        forall|i: int, j: int|
            0 <= i < j < encode_features(list).len() ==> (#[trigger] encode_features(list)[i]).key
                != (#[trigger] encode_features(list)[j]).key,
    decreases list.len(),
{
    if list.len() > 0 {
        let front = list.drop_last();
        let before = encode_features(front);
        lemma_encode_features_distinct(front);
        if position(front, list.last().name).is_none() {
            assert forall|i: int, j: int| 0 <= i < j < encode_features(list).len() implies (
            #[trigger] encode_features(list)[i]).key != (#[trigger] encode_features(list)[j]).key by {
                if j == before.len() {
                    lemma_encode_features_keys(front, i);
                }
            }
        }
    }
}

/// The document of a registry has plain keys.
proof fn lemma_encode_registry_plain(list: Seq<FeatureModel>)
    ensures
        plain_keys(encode_registry(list)),
{
    let items = encode_features(list);
    lemma_encode_features_distinct(list);
    assert forall|i: int| 0 <= i < items.len() implies (#[trigger] items[i]).key is Text
        && plain_keys(items[i].value) by {
        lemma_encode_features_keys(list, i);
    }
    assert(plain_keys(YamlModel::Mapping(items)));
}

/// The registry as a document.
pub fn encode_local(registry: &Features) -> (tree: Yaml)
    ensures
        tree@ == encode_registry(registry.entries()),
        plain_keys(tree@),
{
    let list = registry.expose();
    let ghost all = registry.entries();
    let mut items: Vec<YamlEntry> = Vec::new();
    let mut i: usize = 0;
    assert(all.take(0) =~= Seq::empty());
    assert(entries(items@) =~= Seq::empty());
    while i < list.len()
        invariant
            i <= list.len(),
            all == registry.entries(),
            all == features(list@),
            entries(items@) == encode_features(all.take(i as int)),
        decreases list.len() - i,
    {
        let feature = &list[i];
        proof {
            assert(all.take(i + 1).drop_last() =~= all.take(i as int));
            assert(all.take(i + 1).last() == feature@);
            lemma_position_among_first(all, i as int);
        }
        let first = match registry.find(feature.name().as_str()) {
            Some(at) => at == i,
            None => false,
        };
        if first {
            let name = entry_of("name", Yaml::Text(feature.name().clone()));
            let active = entry_of("active", Yaml::Bool(feature.active()));
            let ghost before = entries(items@);
            items.push(entry_of(feature.name().as_str(), mapping_of_two(name, active)));
            assert(entries(items@) =~= before.push(encode_feature(feature@)));
        }
        i += 1;
    }
    assert(all.take(i as int) =~= all);
    proof {
        lemma_map_view(items);
        lemma_encode_registry_plain(all);
    }
    let inner = entry_of("features", Yaml::Mapping(items));
    mapping_of_one(inner)
}

/// The entry at `at` is the first of its name among all entries exactly if
/// none of the entries before it has that name.
proof fn lemma_position_among_first(list: Seq<FeatureModel>, at: int)
    requires
        0 <= at < list.len(),
    ensures
        position(list, list[at].name).is_some(),
        (position(list, list[at].name) == Some(at)) == position(
            list.take(at),
            list[at].name,
        ).is_none(),
{
    let named = |e: FeatureModel| e.name == list[at].name;
    lemma_first_index(list, named);
    lemma_first_index(list.take(at), named);
    let k = position(list, list[at].name).unwrap();
    if k < at {
        assert(list.take(at)[k] == list[k]);
    } else {
        match position(list.take(at), list[at].name) {
            Some(j) => {
                assert(list.take(at)[j] == list[j]);
            },
            None => {},
        }
    }
}

/// What the registry file keeps of a registry: every feature under its
/// name with its flag, and nothing of its schema.
pub open spec fn kept(registry: Map<Seq<char>, FeatureModel>) -> Map<Seq<char>, FeatureModel> {
    Map::new(
        |name: Seq<char>| registry.contains_key(name),
        |name: Seq<char>| FeatureModel::of(name, registry[name].active, empty_schema()),
    )
}

/// An entry whose name is taken already changes nothing in the mapping that
/// the list stands for.
proof fn lemma_registry_shadowed(list: Seq<FeatureModel>, feature: FeatureModel)
    requires
        position(list, feature.name).is_some(),
    ensures
        registry(list.push(feature)) == registry(list),
{
    let after = list.push(feature);
    assert(after.drop_last() =~= list);
    assert forall|name: Seq<char>| position(after, name) == position(list, name) by {
        lemma_first_index(list, |e: FeatureModel| e.name == name);
    }
    assert forall|name: Seq<char>| #[trigger] registry(list).contains_key(name) implies registry(
        after,
    )[name] == registry(list)[name] by {
        lemma_first_index(list, |e: FeatureModel| e.name == name);
    }
    assert(registry(after) =~= registry(list));
}

/// Reading the entries that were written for a list of features gives what
/// the registry file keeps of them.
proof fn lemma_decode_encode_features(list: Seq<FeatureModel>)
    ensures
        decode_features(encode_features(list)) == Some(kept(registry(list))),
    decreases list.len(),
{
    if list.len() == 0 {
        assert(kept(registry(list)) =~= Map::empty());
    } else {
        let front = list.drop_last();
        let last = list.last();
        assert(front.push(last) =~= list);
        lemma_decode_encode_features(front);
        if position(front, last.name).is_some() {
            lemma_registry_shadowed(front, last);
        } else {
            lemma_registry_push(front, last);
            lemma_keys_differ();
            let item = encode_feature(last);
            let inner = item.value->Mapping_0;
            lemma_first_index_is(
                inner,
                |e: EntryModel| e.key == YamlModel::Text("active"@),
                1,
            );
            let written = encode_features(front).push(item);
            assert(written.drop_last() =~= encode_features(front));
            assert(decode_feature(item) == Some(
                FeatureModel::of(last.name, last.active, empty_schema()),
            ));
            assert(kept(registry(front)).insert(
                last.name,
                FeatureModel::of(last.name, last.active, empty_schema()),
            ) =~= kept(registry(front).insert(last.name, last)));
        }
    }
}

/// Writing a registry as a document and reading the document gives every
/// feature back under its name with its flag; schemas are not kept.
pub proof fn lemma_decode_encode_registry(list: Seq<FeatureModel>)
    ensures
        decode_registry(encode_registry(list)) == Some(kept(registry(list))),
{
    let fields = encode_registry(list)->Mapping_0;
    lemma_first_index_is(fields, |e: EntryModel| e.key == YamlModel::Text("features"@), 0);
    lemma_decode_encode_features(list);
}

impl Features {
    /// The registry that the registry file holds. `text` is what the file
    /// holds, or nothing where there is no file: the registry is then empty.
    pub fn load_local(text: Option<&str>) -> (res: Result<Features, ManifestError>)
        ensures
            match text {
                None => res matches Ok(f) && f@ == Map::<Seq<char>, FeatureModel>::empty(),
                Some(t) => match yaml_document(t@) {
                    None => res matches Err(ManifestError::Syntax(_)),
                    Some(tree) => match decode_registry(tree) {
                        Some(registry) => res matches Ok(f) && f@ == registry,
                        None => res == Err::<Features, ManifestError>(ManifestError::Shape),
                    },
                },
            },
            res matches Ok(f) ==> f.well_formed(),
    {
        match text {
            None => Ok(Features::new()),
            Some(t) => match parse_document(t) {
                Ok(tree) => decode_local(&tree),
                Err(message) => Err(ManifestError::Syntax(message)),
            },
        }
    }

    /// The text of the registry file: each feature under its name, with its
    /// flag. Schemas and files are not written: they come from the
    /// repository.
    pub fn dump_local(&self) -> (res: Result<String, ManifestError>)
        ensures
            match yaml_text(encode_registry(self.entries())) {
                Some(text) => res matches Ok(t) && t@ == text,
                None => res matches Err(ManifestError::Unwritable(_)),
            },
    {
        let tree = encode_local(self);
        match emit_document(&tree) {
            Ok(text) => Ok(text),
            Err(message) => Err(ManifestError::Unwritable(message)),
        }
    }
}

} // verus!
