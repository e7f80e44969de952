//! YAML documents as trees of plain values.
//!
//! Reading and writing the text is the work of `serde_yaml`. What the
//! library decides on is the tree: a value of its own that holds what a
//! document holds, so that decoding and encoding of manifests can be followed
//! node by node.

use vstd::prelude::*;

verus! {

/// A YAML value as `serde_yaml` holds it.
#[verifier::external_type_specification]
#[verifier::external_body]
pub struct ExValue(serde_yaml::Value);

/// A YAML number as `serde_yaml` holds it. The library carries numbers
/// through and never looks into one.
#[verifier::external_type_specification]
#[verifier::external_body]
pub struct ExNumber(serde_yaml::Number);

/// What `serde_yaml` reports when it cannot read or write a document.
#[verifier::external_type_specification]
#[verifier::external_body]
pub struct ExError(serde_yaml::Error);

/// One entry of a mapping in the mathematical value of a document.
pub struct EntryModel {
    /// The key.
    pub key: YamlModel,
    /// What stands under the key.
    pub value: YamlModel,
}

/// The mathematical value of a document.
pub enum YamlModel {
    /// The null value.
    Null,
    /// A boolean.
    Bool(bool),
    /// A number.
    Number(serde_yaml::Number),
    /// A string.
    Text(Seq<char>),
    /// A sequence, in its order.
    Sequence(Seq<YamlModel>),
    /// A mapping, its entries in the order of the document.
    Mapping(Seq<EntryModel>),
}

/// One entry of a mapping.
#[derive(Debug, PartialEq)]
pub struct YamlEntry {
    /// The key.
    pub key: Yaml,
    /// What stands under the key.
    pub value: Yaml,
}

/// A document, or a part of one.
#[derive(Debug, PartialEq)]
pub enum Yaml {
    /// The null value.
    Null,
    /// A boolean.
    Bool(bool),
    /// A number.
    Number(serde_yaml::Number),
    /// A string.
    Text(String),
    /// A sequence, in its order.
    Sequence(Vec<Yaml>),
    /// A mapping, its entries in the order of the document.
    Mapping(Vec<YamlEntry>),
}

impl View for YamlEntry {
    type V = EntryModel;

    open spec fn view(&self) -> EntryModel
        decreases self,
    {
        EntryModel { key: self.key@, value: self.value@ }
    }
}

impl View for Yaml {
    type V = YamlModel;

    open spec fn view(&self) -> YamlModel
        decreases self,
    {
        match self {
            Yaml::Null => YamlModel::Null,
            Yaml::Bool(b) => YamlModel::Bool(*b),
            Yaml::Number(n) => YamlModel::Number(*n),
            Yaml::Text(s) => YamlModel::Text(s@),
            Yaml::Sequence(items) => YamlModel::Sequence(
                Seq::new(
                    items.len() as nat,
                    |i: int|
                        if 0 <= i < items.len() {
                            items[i]@
                        } else {
                            YamlModel::Null
                        },
                ),
            ),
            Yaml::Mapping(entries) => YamlModel::Mapping(
                Seq::new(
                    entries.len() as nat,
                    |i: int|
                        if 0 <= i < entries.len() {
                            entries[i]@
                        } else {
                            EntryModel { key: YamlModel::Null, value: YamlModel::Null }
                        },
                ),
            ),
        }
    }
}

/// The views of a sequence of documents.
pub open spec fn trees(v: Seq<Yaml>) -> Seq<YamlModel> {
    Seq::new(v.len(), |i: int| v[i]@)
}

/// The views of a sequence of entries.
pub open spec fn entries(v: Seq<YamlEntry>) -> Seq<EntryModel> {
    Seq::new(v.len(), |i: int| v[i]@)
}

/// The value of a sequence is the sequence of the values of its items.
pub proof fn lemma_list_view(items: Vec<Yaml>)
    ensures
        Yaml::Sequence(items)@ == YamlModel::Sequence(trees(items@)),
{
    assert(Yaml::Sequence(items)@->Sequence_0 =~= trees(items@));
}

/// The value of a mapping is the sequence of the values of its entries.
pub proof fn lemma_map_view(items: Vec<YamlEntry>)
    ensures
        Yaml::Mapping(items)@ == YamlModel::Mapping(entries(items@)),
{
    assert(Yaml::Mapping(items)@->Mapping_0 =~= entries(items@));
}

/// Every key of a mapping is a string and no two keys of one mapping are the
/// same, in the document and in every part of it.
pub open spec fn plain_keys(tree: YamlModel) -> bool
    decreases tree,
{
    match tree {
        YamlModel::Sequence(items) => forall|i: int|
            0 <= i < items.len() ==> plain_keys(#[trigger] items[i]),
        YamlModel::Mapping(entries) => {
            &&& forall|i: int|
                0 <= i < entries.len() ==> (#[trigger] entries[i]).key is Text && plain_keys(
                    entries[i].value,
                )
            &&& forall|i: int, j: int|
                0 <= i < j < entries.len() ==> (#[trigger] entries[i]).key != (
                #[trigger] entries[j]).key
        },
        _ => true,
    }
}

/// The tree of plain values that a value of `serde_yaml` holds: each variant
/// under the same name, strings by their characters, sequences and mappings
/// in their order.
pub uninterp spec fn value_tree(value: serde_yaml::Value) -> YamlModel;

/// What `serde_yaml::from_str` reads from `text` as a value: the tree of that
/// value, or nothing where it reports an error.
pub uninterp spec fn yaml_document(text: Seq<char>) -> Option<YamlModel>;

/// What `serde_yaml::to_string` writes for a value with the tree `tree`: the
/// text, or nothing where it reports an error.
pub uninterp spec fn yaml_text(tree: YamlModel) -> Option<Seq<char>>;

/// `serde_yaml::from_str`, read as a value. The result is named, not
/// described: the same text gives the same value or the same failure.
#[verifier::external_body]
fn read_value(text: &str) -> (res: Result<serde_yaml::Value, serde_yaml::Error>)
    ensures
        match res {
            Ok(value) => yaml_document(text@) == Some(value_tree(value)),
            Err(_) => yaml_document(text@).is_none(),
        },
{
    serde_yaml::from_str::<serde_yaml::Value>(text)
}

/// `serde_yaml::to_string` on a value. The result is named, not described:
/// values with the same tree give the same text or the same failure.
#[verifier::external_body]
fn write_value(value: &serde_yaml::Value) -> (res: Result<String, serde_yaml::Error>)
    ensures
        match res {
            Ok(text) => yaml_text(value_tree(*value)) == Some(text@),
            Err(_) => yaml_text(value_tree(*value)).is_none(),
        },
{
    serde_yaml::to_string(value)
}

/// The message of an error of `serde_yaml`, by its `Display`. Nothing is
/// claimed of the text.
#[verifier::external_body]
fn error_text(error: &serde_yaml::Error) -> (text: String) {
    error.to_string()
}

/// Takes a value of `serde_yaml` apart into a tree of the library, variant by
/// variant: the tree is the one that the value holds.
#[verifier::external_body]
fn tree_of(value: &serde_yaml::Value) -> (tree: Yaml)
    ensures
        tree@ == value_tree(*value),
{
    match value {
        serde_yaml::Value::Null => Yaml::Null,
        serde_yaml::Value::Bool(b) => Yaml::Bool(*b),
        serde_yaml::Value::Number(n) => Yaml::Number(n.clone()),
        serde_yaml::Value::String(s) => Yaml::Text(s.clone()),
        serde_yaml::Value::Sequence(items) => Yaml::Sequence(items.iter().map(tree_of).collect()),
        serde_yaml::Value::Mapping(m) => Yaml::Mapping(
            m.iter().map(|(k, v)| YamlEntry { key: tree_of(k), value: tree_of(v) }).collect(),
        ),
    }
}

/// Puts a tree of the library together as a value of `serde_yaml`, variant by
/// variant. A mapping of `serde_yaml` holds each key once, so the value holds
/// the whole tree only where no mapping has a key twice; with keys that are
/// strings, that is when no two are the same text.
#[verifier::external_body]
fn value_of(tree: &Yaml) -> (value: serde_yaml::Value)
    requires
        plain_keys(tree@),
    ensures
        value_tree(value) == tree@,
{
    match tree {
        Yaml::Null => serde_yaml::Value::Null,
        Yaml::Bool(b) => serde_yaml::Value::Bool(*b),
        Yaml::Number(n) => serde_yaml::Value::Number(n.clone()),
        Yaml::Text(s) => serde_yaml::Value::String(s.clone()),
        Yaml::Sequence(items) => serde_yaml::Value::Sequence(items.iter().map(value_of).collect()),
        Yaml::Mapping(entries) => serde_yaml::Value::Mapping(
            entries.iter().map(|e| (value_of(&e.key), value_of(&e.value))).collect(),
        ),
    }
}

/// Reads `text` as one YAML document. The error is the message of
/// `serde_yaml`.
pub fn parse_document(text: &str) -> (res: Result<Yaml, String>)
    ensures
        match res {
            Ok(tree) => yaml_document(text@) == Some(tree@),
            Err(_) => yaml_document(text@).is_none(),
        },
{
    match read_value(text) {
        Ok(value) => Ok(tree_of(&value)),
        Err(error) => Err(error_text(&error)),
    }
}

/// Writes `tree` as YAML text. The error is the message of `serde_yaml`.
pub(crate) fn emit_document(tree: &Yaml) -> (res: Result<String, String>)
    requires
        plain_keys(tree@),
    ensures
        match res {
            Ok(text) => yaml_text(tree@) == Some(text@),
            Err(_) => yaml_text(tree@).is_none(),
        },
{
    let value = value_of(tree);
    match write_value(&value) {
        Ok(text) => Ok(text),
        Err(error) => Err(error_text(&error)),
    }
}

} // verus!
