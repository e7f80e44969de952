//! Manifests and the registry as YAML.
//!
//! A manifest is a mapping with the keys `install` and `uninstall`, each a
//! sequence of operations. An operation is a mapping with one key, its tag,
//! over a mapping of its fields:
//!
//! ```yaml
//! install:
//!   - copy_file: { from: "@r/features/zsh/.zshrc", to: "@t/.zshrc" }
//!   - append_file: { from: "@r/features/zsh/extra", to: "@t/.profile" }
//!   - shell: { cmd: "echo done", effects: ~ }
//!   - script: { cmd: { file: "@r/setup.sh", args: ["--fast"] }, effects: ~ }
//! uninstall: []
//! ```
//!
//! Strings must be strings to YAML: a scalar that reads as a number or a
//! boolean is not taken for text. Keys that the format does not know are
//! passed over.

use vstd::prelude::*;
use crate::operation::{
    EffectsModel, FeatureSchema, InvocationModel, OperationEffects, OperationModel,
    OperationSchema, SchemaModel, ShellInvocation, operations,
};
use crate::path::{
    FilePath, PathModel, lemma_parse_render, lemma_parse_well_formed, parse_path, paths,
    render_path, texts,
};
use crate::seqs::{first_index, lemma_first_index_is, lemma_first_index_none};
use crate::path::same_text;
use crate::yaml::{
    EntryModel, Yaml, YamlEntry, YamlModel, emit_document, entries, lemma_list_view,
    lemma_map_view, parse_document, plain_keys, trees, yaml_document, yaml_text,
};

verus! {

/// Why text was refused.
#[derive(Debug, PartialEq, Eq)]
pub enum ManifestError {
    /// The text is not one YAML document. The message is that of the YAML
    /// reader.
    Syntax(String),
    /// The document does not have the shape of what was asked for.
    Shape,
    /// The YAML writer refused the document, with this message.
    Unwritable(String),
}

/// What stands under the key `key` in a mapping: the value of the first
/// entry whose key is that string.
pub open spec fn field(fields: Seq<EntryModel>, key: Seq<char>) -> Option<YamlModel> {
    match first_index(fields, |e: EntryModel| e.key == YamlModel::Text(key)) {
        Some(i) => Some(fields[i].value),
        None => None,
    }
}

/// The items of `items` decoded by `decode`, if each of them can be.
pub open spec fn decode_each<T>(
    items: Seq<YamlModel>,
    decode: spec_fn(YamlModel) -> Option<T>,
) -> Option<Seq<T>> {
    if forall|i: int| 0 <= i < items.len() ==> (#[trigger] decode(items[i])).is_some() {
        Some(Seq::new(items.len(), |i: int| decode(items[i]).unwrap()))
    } else {
        None
    }
}

/// The items of a sequence decoded by `decode`.
pub open spec fn decode_sequence<T>(
    tree: YamlModel,
    decode: spec_fn(YamlModel) -> Option<T>,
) -> Option<Seq<T>> {
    match tree {
        YamlModel::Sequence(items) => decode_each(items, decode),
        _ => None,
    }
}

/// The characters of a string.
pub open spec fn decode_text(tree: YamlModel) -> Option<Seq<char>> {
    match tree {
        YamlModel::Text(s) => Some(s),
        _ => None,
    }
}

/// The path that a string spells.
pub open spec fn decode_path(tree: YamlModel) -> Option<PathModel> {
    match tree {
        YamlModel::Text(s) => Some(parse_path(s)),
        _ => None,
    }
}

/// The paths of a sequence of strings.
pub open spec fn decode_paths(tree: YamlModel) -> Option<Seq<PathModel>> {
    decode_sequence(tree, |t: YamlModel| decode_path(t))
}

/// The path under `key`, which must be there.
pub open spec fn path_field(fields: Seq<EntryModel>, key: Seq<char>) -> Option<PathModel> {
    match field(fields, key) {
        Some(t) => decode_path(t),
        None => None,
    }
}

/// The paths under `key`, which must be there.
pub open spec fn paths_field(fields: Seq<EntryModel>, key: Seq<char>) -> Option<Seq<PathModel>> {
    match field(fields, key) {
        Some(t) => decode_paths(t),
        None => None,
    }
}

/// Effects: a mapping with the three lists of paths.
pub open spec fn decode_effects(tree: YamlModel) -> Option<EffectsModel> {
    match tree {
        YamlModel::Mapping(fields) => match (
            paths_field(fields, "generates"@),
            paths_field(fields, "clobbers"@),
            paths_field(fields, "deletes"@),
        ) {
            (Some(generates), Some(clobbers), Some(deletes)) => Some(
                EffectsModel { generates, clobbers, deletes },
            ),
            _ => None,
        },
        _ => None,
    }
}

/// The effects under the key `effects`: none where the key is missing or
/// holds null.
pub open spec fn effects_field(fields: Seq<EntryModel>) -> Option<Option<EffectsModel>> {
    match field(fields, "effects"@) {
        None => Some(None),
        Some(YamlModel::Null) => Some(None),
        Some(t) => match decode_effects(t) {
            Some(e) => Some(Some(e)),
            None => None,
        },
    }
}

/// An invocation: a mapping with the program under `file` and the arguments
/// under `args`.
pub open spec fn decode_invocation(tree: YamlModel) -> Option<InvocationModel> {
    match tree {
        YamlModel::Mapping(fields) => match (path_field(fields, "file"@), field(fields, "args"@)) {
            (Some(file), Some(list)) => match decode_sequence(
                list,
                |t: YamlModel| decode_text(t),
            ) {
                Some(args) => Some(InvocationModel { file, args }),
                None => None,
            },
            _ => None,
        },
        _ => None,
    }
}

/// The operation with the tag `tag` and the fields `fields`.
pub open spec fn decode_tagged(tag: Seq<char>, fields: Seq<EntryModel>) -> Option<OperationModel> {
    if tag == "copy_file"@ {
        match (path_field(fields, "from"@), path_field(fields, "to"@)) {
            (Some(from), Some(to)) => Some(OperationModel::CopyFile { from, to }),
            _ => None,
        }
    } else if tag == "append_file"@ {
        match (path_field(fields, "from"@), path_field(fields, "to"@)) {
            (Some(from), Some(to)) => Some(OperationModel::AppendToFile { from, to }),
            _ => None,
        }
    } else if tag == "shell"@ {
        match (field(fields, "cmd"@), effects_field(fields)) {
            (Some(YamlModel::Text(cmd)), Some(effects)) => Some(
                OperationModel::ShellString { cmd, effects },
            ),
            _ => None,
        }
    } else if tag == "script"@ {
        match (field(fields, "cmd"@), effects_field(fields)) {
            (Some(t), Some(effects)) => match decode_invocation(t) {
                Some(cmd) => Some(OperationModel::ShellFile { cmd, effects }),
                None => None,
            },
            _ => None,
        }
    } else {
        None
    }
}

/// An operation: a mapping with one entry, whose key is the tag and whose
/// value is the mapping of the fields.
pub open spec fn decode_operation(tree: YamlModel) -> Option<OperationModel> {
    match tree {
        YamlModel::Mapping(outer) => if outer.len() == 1 {
            match (outer[0].key, outer[0].value) {
                (YamlModel::Text(tag), YamlModel::Mapping(fields)) => decode_tagged(tag, fields),
                _ => None,
            }
        } else {
            None
        },
        _ => None,
    }
}

/// The operations under `key`, which must be there.
pub open spec fn operations_field(
    fields: Seq<EntryModel>,
    key: Seq<char>,
) -> Option<Seq<OperationModel>> {
    match field(fields, key) {
        Some(t) => decode_sequence(t, |t: YamlModel| decode_operation(t)),
        None => None,
    }
}

/// A manifest: a mapping with the operations under `install` and under
/// `uninstall`.
pub open spec fn decode_schema(tree: YamlModel) -> Option<SchemaModel> {
    match tree {
        YamlModel::Mapping(fields) => match (
            operations_field(fields, "install"@),
            operations_field(fields, "uninstall"@),
        ) {
            (Some(install), Some(uninstall)) => Some(SchemaModel { install, uninstall }),
            _ => None,
        },
        _ => None,
    }
}

/// What stands under the key `key` in a mapping.
pub fn get_field<'a>(fields: &'a Vec<YamlEntry>, key: &str) -> (found: Option<&'a Yaml>)
    ensures
        found.is_some() == field(entries(fields@), key@).is_some(),
        found matches Some(t) ==> Some(t@) == field(entries(fields@), key@),
{
    let ghost wanted = |e: EntryModel| e.key == YamlModel::Text(key@);
    let mut i: usize = 0;
    while i < fields.len()
        invariant
            i <= fields.len(),
            wanted == |e: EntryModel| e.key == YamlModel::Text(key@),
            forall|j: int| 0 <= j < i ==> !wanted(#[trigger] entries(fields@)[j]),
        decreases fields.len() - i,
    {
        let hit = match &fields[i].key {
            Yaml::Text(text) => same_text(text.as_str(), key),
            _ => false,
        };
        if hit {
            proof {
                lemma_first_index_is(entries(fields@), wanted, i as int);
            }
            return Some(&fields[i].value);
        }
        i += 1;
    }
    proof {
        lemma_first_index_none(entries(fields@), wanted);
    }
    None
}

/// The path that a string spells.
pub fn read_path(tree: &Yaml) -> (path: Option<FilePath>)
    ensures
        path.is_some() == decode_path(tree@).is_some(),
        path matches Some(p) ==> Some(p@) == decode_path(tree@),
{
    match tree {
        Yaml::Text(text) => Some(FilePath::parse(text.as_str())),
        _ => None,
    }
}

/// The paths of a sequence of strings.
pub fn read_paths(tree: &Yaml) -> (list: Option<Vec<FilePath>>)
    ensures
        list.is_some() == decode_paths(tree@).is_some(),
        list matches Some(v) ==> Some(paths(v@)) == decode_paths(tree@),
{
    match tree {
        Yaml::Sequence(items) => {
            proof {
                lemma_list_view(*items);
            }
            let ghost decode = |t: YamlModel| decode_path(t);
            let mut list: Vec<FilePath> = Vec::new();
            let mut i: usize = 0;
            while i < items.len()
                invariant
                    i <= items.len(),
                    list.len() == i,
                    decode == |t: YamlModel| decode_path(t),
                    tree@ == YamlModel::Sequence(trees(items@)),
                    forall|j: int| 0 <= j < i ==> decode(#[trigger] trees(items@)[j]) == Some(list@[j]@),
                decreases items.len() - i,
            {
                match read_path(&items[i]) {
                    Some(path) => {
                        list.push(path);
                    },
                    None => {
                        assert(decode(trees(items@)[i as int]).is_none());
                        return None;
                    },
                }
                i += 1;
            }
            assert(decode_each(trees(items@), decode).unwrap() =~= paths(list@));
            Some(list)
        },
        _ => None,
    }
}

/// The strings of a sequence of strings.
pub fn read_texts(tree: &Yaml) -> (list: Option<Vec<String>>)
    ensures
        list.is_some() == decode_sequence(tree@, |t: YamlModel| decode_text(t)).is_some(),
        list matches Some(v) ==> Some(texts(v@)) == decode_sequence(
            tree@,
            |t: YamlModel| decode_text(t),
        ),
{
    match tree {
        Yaml::Sequence(items) => {
            proof {
                lemma_list_view(*items);
            }
            let ghost decode = |t: YamlModel| decode_text(t);
            let mut list: Vec<String> = Vec::new();
            let mut i: usize = 0;
            while i < items.len()
                invariant
                    i <= items.len(),
                    list.len() == i,
                    decode == |t: YamlModel| decode_text(t),
                    tree@ == YamlModel::Sequence(trees(items@)),
                    forall|j: int| 0 <= j < i ==> decode(#[trigger] trees(items@)[j]) == Some(list@[j]@),
                decreases items.len() - i,
            {
                match &items[i] {
                    Yaml::Text(text) => {
                        list.push(text.clone());
                    },
                    _ => {
                        assert(decode(trees(items@)[i as int]).is_none());
                        return None;
                    },
                }
                i += 1;
            }
            assert(decode_each(trees(items@), decode).unwrap() =~= texts(list@));
            Some(list)
        },
        _ => None,
    }
}

/// The path under `key`.
fn read_path_field(fields: &Vec<YamlEntry>, key: &str) -> (path: Option<FilePath>)
    ensures
        path.is_some() == path_field(entries(fields@), key@).is_some(),
        path matches Some(p) ==> Some(p@) == path_field(entries(fields@), key@),
{
    match get_field(fields, key) {
        Some(tree) => read_path(tree),
        None => None,
    }
}

/// The paths under `key`.
fn read_paths_field(fields: &Vec<YamlEntry>, key: &str) -> (list: Option<Vec<FilePath>>)
    ensures
        list.is_some() == paths_field(entries(fields@), key@).is_some(),
        list matches Some(v) ==> Some(paths(v@)) == paths_field(entries(fields@), key@),
{
    match get_field(fields, key) {
        Some(tree) => read_paths(tree),
        None => None,
    }
}

/// Effects: a mapping with the three lists of paths.
pub fn read_effects(tree: &Yaml) -> (effects: Option<OperationEffects>)
    ensures
        effects.is_some() == decode_effects(tree@).is_some(),
        effects matches Some(e) ==> Some(e@) == decode_effects(tree@),
{
    match tree {
        Yaml::Mapping(fields) => {
            proof {
                lemma_map_view(*fields);
            }
            let generates = read_paths_field(fields, "generates");
            let clobbers = read_paths_field(fields, "clobbers");
            let deletes = read_paths_field(fields, "deletes");
            match (generates, clobbers, deletes) {
                (Some(generates), Some(clobbers), Some(deletes)) => Some(
                    OperationEffects::with_lists(generates, clobbers, deletes),
                ),
                _ => None,
            }
        },
        _ => None,
    }
}

/// The effects under the key `effects`, if the key is there.
fn read_effects_field(fields: &Vec<YamlEntry>) -> (effects: Option<Option<OperationEffects>>)
    ensures
        effects.is_some() == effects_field(entries(fields@)).is_some(),
        effects matches Some(e) ==> Some(crate::operation::effects_view(e)) == effects_field(
            entries(fields@),
        ),
{
    match get_field(fields, "effects") {
        None => Some(None),
        Some(Yaml::Null) => Some(None),
        Some(tree) => match read_effects(tree) {
            Some(e) => Some(Some(e)),
            None => None,
        },
    }
}

/// An invocation: a mapping with the program and the arguments.
pub fn read_invocation(tree: &Yaml) -> (invocation: Option<ShellInvocation>)
    ensures
        invocation.is_some() == decode_invocation(tree@).is_some(),
        invocation matches Some(c) ==> Some(c@) == decode_invocation(tree@),
{
    match tree {
        Yaml::Mapping(fields) => {
            proof {
                lemma_map_view(*fields);
            }
            let file = read_path_field(fields, "file");
            let list = get_field(fields, "args");
            match (file, list) {
                (Some(file), Some(list)) => match read_texts(list) {
                    Some(args) => Some(ShellInvocation::new(file, args)),
                    None => None,
                },
                _ => None,
            }
        },
        _ => None,
    }
}

/// The operation with the tag `tag` and the fields `fields`.
fn read_tagged(tag: &str, fields: &Vec<YamlEntry>) -> (op: Option<OperationSchema>)
    ensures
        op.is_some() == decode_tagged(tag@, entries(fields@)).is_some(),
        op matches Some(o) ==> Some(o@) == decode_tagged(tag@, entries(fields@)),
{
    if same_text(tag, "copy_file") {
        match (read_path_field(fields, "from"), read_path_field(fields, "to")) {
            (Some(from), Some(to)) => Some(OperationSchema::CopyFile { from, to }),
            _ => None,
        }
    } else if same_text(tag, "append_file") {
        match (read_path_field(fields, "from"), read_path_field(fields, "to")) {
            (Some(from), Some(to)) => Some(OperationSchema::AppendToFile { from, to }),
            _ => None,
        }
    } else if same_text(tag, "shell") {
        match (get_field(fields, "cmd"), read_effects_field(fields)) {
            (Some(Yaml::Text(cmd)), Some(effects)) => Some(
                OperationSchema::ShellString { cmd: cmd.clone(), effects },
            ),
            _ => None,
        }
    } else if same_text(tag, "script") {
        match (get_field(fields, "cmd"), read_effects_field(fields)) {
            (Some(tree), Some(effects)) => match read_invocation(tree) {
                Some(cmd) => Some(OperationSchema::ShellFile { cmd, effects }),
                None => None,
            },
            _ => None,
        }
    } else {
        None
    }
}

/// An operation: a mapping with one entry, the tag over the fields.
pub fn read_operation(tree: &Yaml) -> (op: Option<OperationSchema>)
    ensures
        op.is_some() == decode_operation(tree@).is_some(),
        op matches Some(o) ==> Some(o@) == decode_operation(tree@),
{
    match tree {
        Yaml::Mapping(outer) => {
            proof {
                lemma_map_view(*outer);
            }
            if outer.len() != 1 {
                return None;
            }
            match (&outer[0].key, &outer[0].value) {
                (Yaml::Text(tag), Yaml::Mapping(fields)) => {
                    proof {
                        lemma_map_view(*fields);
                    }
                    read_tagged(tag.as_str(), fields)
                },
                _ => None,
            }
        },
        _ => None,
    }
}

/// The operations of a sequence.
pub fn read_operations(tree: &Yaml) -> (list: Option<Vec<OperationSchema>>)
    ensures
        list.is_some() == decode_sequence(tree@, |t: YamlModel| decode_operation(t)).is_some(),
        list matches Some(v) ==> Some(operations(v@)) == decode_sequence(
            tree@,
            |t: YamlModel| decode_operation(t),
        ),
{
    match tree {
        Yaml::Sequence(items) => {
            proof {
                lemma_list_view(*items);
            }
            let ghost decode = |t: YamlModel| decode_operation(t);
            let mut list: Vec<OperationSchema> = Vec::new();
            let mut i: usize = 0;
            while i < items.len()
                invariant
                    i <= items.len(),
                    list.len() == i,
                    decode == |t: YamlModel| decode_operation(t),
                    tree@ == YamlModel::Sequence(trees(items@)),
                    forall|j: int| 0 <= j < i ==> decode(#[trigger] trees(items@)[j]) == Some(list@[j]@),
                decreases items.len() - i,
            {
                match read_operation(&items[i]) {
                    Some(op) => {
                        list.push(op);
                    },
                    None => {
                        assert(decode(trees(items@)[i as int]).is_none());
                        return None;
                    },
                }
                i += 1;
            }
            assert(decode_each(trees(items@), decode).unwrap() =~= operations(list@));
            Some(list)
        },
        _ => None,
    }
}

/// The operations under `key`.
fn read_operations_field(fields: &Vec<YamlEntry>, key: &str) -> (list: Option<Vec<OperationSchema>>)
    ensures
        list.is_some() == operations_field(entries(fields@), key@).is_some(),
        list matches Some(v) ==> Some(operations(v@)) == operations_field(entries(fields@), key@),
{
    match get_field(fields, key) {
        Some(tree) => read_operations(tree),
        None => None,
    }
}

/// The manifest that a document holds. It is refused for its shape exactly
/// where [`decode_schema`] finds none.
pub fn decode_manifest(tree: &Yaml) -> (res: Result<FeatureSchema, ManifestError>)
    ensures
        match decode_schema(tree@) {
            Some(schema) => res matches Ok(s) && s@ == schema,
            None => res == Err::<FeatureSchema, ManifestError>(ManifestError::Shape),
        },
{
    match tree {
        Yaml::Mapping(fields) => {
            proof {
                lemma_map_view(*fields);
            }
            let install = read_operations_field(fields, "install");
            let uninstall = read_operations_field(fields, "uninstall");
            match (install, uninstall) {
                (Some(install), Some(uninstall)) => Ok(
                    FeatureSchema::with_uninstall(install, uninstall),
                ),
                _ => Err(ManifestError::Shape),
            }
        },
        _ => Err(ManifestError::Shape),
    }
}

/// The manifest that `text` holds. Text that is not one YAML document is
/// refused as [`ManifestError::Syntax`], a document of another shape as
/// [`ManifestError::Shape`].
pub fn parse_manifest(text: &str) -> (res: Result<FeatureSchema, ManifestError>)
    ensures
        match yaml_document(text@) {
            None => res matches Err(ManifestError::Syntax(_)),
            Some(tree) => match decode_schema(tree) {
                Some(schema) => res matches Ok(s) && s@ == schema,
                None => res == Err::<FeatureSchema, ManifestError>(ManifestError::Shape),
            },
        },
{
    match parse_document(text) {
        Ok(tree) => decode_manifest(&tree),
        Err(message) => Err(ManifestError::Syntax(message)),
    }
}

/// The entry with the string `key` as its key.
pub open spec fn entry(key: Seq<char>, value: YamlModel) -> EntryModel {
    EntryModel { key: YamlModel::Text(key), value }
}

/// A path as the string that spells it.
pub open spec fn encode_path(path: PathModel) -> YamlModel {
    YamlModel::Text(render_path(path))
}

/// Paths as a sequence of strings.
pub open spec fn encode_paths(list: Seq<PathModel>) -> YamlModel {
    YamlModel::Sequence(Seq::new(list.len(), |i: int| encode_path(list[i])))
}

/// Texts as a sequence of strings.
pub open spec fn encode_texts(list: Seq<Seq<char>>) -> YamlModel {
    YamlModel::Sequence(Seq::new(list.len(), |i: int| YamlModel::Text(list[i])))
}

/// Effects as a mapping with their three lists.
pub open spec fn encode_effects(effects: EffectsModel) -> YamlModel {
    YamlModel::Mapping(
        seq![
            entry("generates"@, encode_paths(effects.generates)),
            entry("clobbers"@, encode_paths(effects.clobbers)),
            entry("deletes"@, encode_paths(effects.deletes)),
        ],
    )
}

/// Effects that may be missing: null where there are none.
pub open spec fn encode_optional_effects(effects: Option<EffectsModel>) -> YamlModel {
    match effects {
        Some(e) => encode_effects(e),
        None => YamlModel::Null,
    }
}

/// An invocation as a mapping with the program and the arguments.
pub open spec fn encode_invocation(cmd: InvocationModel) -> YamlModel {
    YamlModel::Mapping(
        seq![entry("file"@, encode_path(cmd.file)), entry("args"@, encode_texts(cmd.args))],
    )
}

/// The tag of an operation.
pub open spec fn tag_of(op: OperationModel) -> Seq<char> {
    match op {
        OperationModel::CopyFile { from, to } => "copy_file"@,
        OperationModel::AppendToFile { from, to } => "append_file"@,
        OperationModel::ShellString { cmd, effects } => "shell"@,
        OperationModel::ShellFile { cmd, effects } => "script"@,
    }
}

/// The fields of an operation.
pub open spec fn fields_of(op: OperationModel) -> Seq<EntryModel> {
    match op {
        OperationModel::CopyFile { from, to } => seq![
            entry("from"@, encode_path(from)),
            entry("to"@, encode_path(to)),
        ],
        OperationModel::AppendToFile { from, to } => seq![
            entry("from"@, encode_path(from)),
            entry("to"@, encode_path(to)),
        ],
        OperationModel::ShellString { cmd, effects } => seq![
            entry("cmd"@, YamlModel::Text(cmd)),
            entry("effects"@, encode_optional_effects(effects)),
        ],
        OperationModel::ShellFile { cmd, effects } => seq![
            entry("cmd"@, encode_invocation(cmd)),
            entry("effects"@, encode_optional_effects(effects)),
        ],
    }
}

/// An operation as a mapping from its tag to its fields.
pub open spec fn encode_operation(op: OperationModel) -> YamlModel {
    YamlModel::Mapping(seq![entry(tag_of(op), YamlModel::Mapping(fields_of(op)))])
}

/// Operations as a sequence.
pub open spec fn encode_operations(ops: Seq<OperationModel>) -> YamlModel {
    YamlModel::Sequence(Seq::new(ops.len(), |i: int| encode_operation(ops[i])))
}

/// A manifest as a mapping with its two lists of operations.
pub open spec fn encode_schema(schema: SchemaModel) -> YamlModel {
    YamlModel::Mapping(
        seq![
            entry("install"@, encode_operations(schema.install)),
            entry("uninstall"@, encode_operations(schema.uninstall)),
        ],
    )
}

/// The keys and tags of the format are what they spell, so that no two of
/// them that meet in one mapping or one choice are the same.
pub proof fn lemma_keys_differ()
    ensures
        "from"@ != "to"@,
        "cmd"@ != "effects"@,
        "file"@ != "args"@,
        "generates"@ != "clobbers"@,
        "generates"@ != "deletes"@,
        "clobbers"@ != "deletes"@,
        "install"@ != "uninstall"@,
        "copy_file"@ != "append_file"@,
        "copy_file"@ != "shell"@,
        "copy_file"@ != "script"@,
        "append_file"@ != "shell"@,
        "append_file"@ != "script"@,
        "shell"@ != "script"@,
        "name"@ != "active"@,
{
    reveal_strlit("from");
    reveal_strlit("to");
    reveal_strlit("cmd");
    reveal_strlit("effects");
    reveal_strlit("file");
    reveal_strlit("args");
    reveal_strlit("generates");
    reveal_strlit("clobbers");
    reveal_strlit("deletes");
    reveal_strlit("install");
    reveal_strlit("uninstall");
    reveal_strlit("copy_file");
    reveal_strlit("append_file");
    reveal_strlit("shell");
    reveal_strlit("script");
    reveal_strlit("name");
    reveal_strlit("active");
    assert("file"@[0] == 'f');
    assert("args"@[0] == 'a');
    assert("from"@.len() == 4);
    assert("to"@.len() == 2);
    assert("cmd"@.len() == 3);
    assert("effects"@.len() == 7);
    assert("generates"@.len() == 9);
    assert("clobbers"@.len() == 8);
    assert("deletes"@.len() == 7);
    assert("install"@.len() == 7);
    assert("uninstall"@.len() == 9);
    assert("copy_file"@.len() == 9);
    assert("append_file"@.len() == 11);
    assert("shell"@.len() == 5);
    assert("script"@.len() == 6);
    assert("name"@.len() == 4);
    assert("active"@.len() == 6);
}

/// A mapping of two entries with different string keys over parts with plain
/// keys has plain keys.
pub(crate) proof fn lemma_plain_pair(a: EntryModel, b: EntryModel)
    requires
        a.key is Text,
        b.key is Text,
        a.key != b.key,
        plain_keys(a.value),
        plain_keys(b.value),
    ensures
        plain_keys(YamlModel::Mapping(seq![a, b])),
{
}

/// A mapping of three entries with different string keys over parts with
/// plain keys has plain keys.
proof fn lemma_plain_triple(a: EntryModel, b: EntryModel, c: EntryModel)
    requires
        a.key is Text,
        b.key is Text,
        c.key is Text,
        a.key != b.key,
        a.key != c.key,
        b.key != c.key,
        plain_keys(a.value),
        plain_keys(b.value),
        plain_keys(c.value),
    ensures
        plain_keys(YamlModel::Mapping(seq![a, b, c])),
{
}

/// The entry with the string `key` as its key.
pub(crate) fn entry_of(key: &str, value: Yaml) -> (e: YamlEntry)
    ensures
        e@ == entry(key@, value@),
{
    YamlEntry { key: Yaml::Text(String::from_str(key)), value }
}

/// The mapping with the entry `a`.
pub(crate) fn mapping_of_one(a: YamlEntry) -> (tree: Yaml)
    ensures
        tree@ == YamlModel::Mapping(seq![a@]),
{
    let mut list: Vec<YamlEntry> = Vec::new();
    list.push(a);
    proof {
        lemma_map_view(list);
        assert(entries(list@) =~= seq![a@]);
    }
    Yaml::Mapping(list)
}

/// The mapping with the entries `a` and `b`.
pub(crate) fn mapping_of_two(a: YamlEntry, b: YamlEntry) -> (tree: Yaml)
    ensures
        tree@ == YamlModel::Mapping(seq![a@, b@]),
{
    let mut list: Vec<YamlEntry> = Vec::new();
    list.push(a);
    list.push(b);
    proof {
        lemma_map_view(list);
        assert(entries(list@) =~= seq![a@, b@]);
    }
    Yaml::Mapping(list)
}

/// The mapping with the entries `a`, `b` and `c`.
fn mapping_of_three(a: YamlEntry, b: YamlEntry, c: YamlEntry) -> (tree: Yaml)
    ensures
        tree@ == YamlModel::Mapping(seq![a@, b@, c@]),
{
    let mut list: Vec<YamlEntry> = Vec::new();
    list.push(a);
    list.push(b);
    list.push(c);
    proof {
        lemma_map_view(list);
        assert(entries(list@) =~= seq![a@, b@, c@]);
    }
    Yaml::Mapping(list)
}

/// Paths as a sequence of strings.
pub fn write_paths(list: &Vec<FilePath>) -> (tree: Yaml)
    ensures
        tree@ == encode_paths(paths(list@)),
        plain_keys(tree@),
{
    let mut items: Vec<Yaml> = Vec::new();
    let mut i: usize = 0;
    while i < list.len()
        invariant
            i <= list.len(),
            items.len() == i,
            forall|j: int| 0 <= j < i ==> (#[trigger] items@[j])@ == encode_path(list@[j]@),
        decreases list.len() - i,
    {
        items.push(Yaml::Text(list[i].render()));
        i += 1;
    }
    proof {
        lemma_list_view(items);
        assert(trees(items@) =~= Seq::new(
            paths(list@).len(),
            |i: int| encode_path(paths(list@)[i]),
        ));
        assert forall|j: int| 0 <= j < trees(items@).len() implies plain_keys(
            #[trigger] trees(items@)[j],
        ) by {
            assert(items@[j]@ is Text);
        }
    }
    Yaml::Sequence(items)
}

/// Texts as a sequence of strings.
pub fn write_texts(list: &Vec<String>) -> (tree: Yaml)
    ensures
        tree@ == encode_texts(texts(list@)),
        plain_keys(tree@),
{
    let mut items: Vec<Yaml> = Vec::new();
    let mut i: usize = 0;
    while i < list.len()
        invariant
            i <= list.len(),
            items.len() == i,
            forall|j: int| 0 <= j < i ==> (#[trigger] items@[j])@ == YamlModel::Text(list@[j]@),
        decreases list.len() - i,
    {
        items.push(Yaml::Text(list[i].clone()));
        i += 1;
    }
    proof {
        lemma_list_view(items);
        assert(trees(items@) =~= Seq::new(
            texts(list@).len(),
            |i: int| YamlModel::Text(texts(list@)[i]),
        ));
        assert forall|j: int| 0 <= j < trees(items@).len() implies plain_keys(
            #[trigger] trees(items@)[j],
        ) by {
            assert(items@[j]@ is Text);
        }
    }
    Yaml::Sequence(items)
}

/// Effects as a mapping with their three lists.
pub fn write_effects(effects: &OperationEffects) -> (tree: Yaml)
    ensures
        tree@ == encode_effects(effects@),
        plain_keys(tree@),
{
    let generates = entry_of("generates", write_paths(effects.generates_list()));
    let clobbers = entry_of("clobbers", write_paths(effects.clobbers_list()));
    let deletes = entry_of("deletes", write_paths(effects.deletes_list()));
    proof {
        lemma_keys_differ();
        lemma_plain_triple(generates@, clobbers@, deletes@);
    }
    mapping_of_three(generates, clobbers, deletes)
}

/// Effects that may be missing: null where there are none.
fn write_optional_effects(effects: &Option<OperationEffects>) -> (tree: Yaml)
    ensures
        tree@ == encode_optional_effects(crate::operation::effects_view(*effects)),
        plain_keys(tree@),
{
    match effects {
        Some(e) => write_effects(e),
        None => Yaml::Null,
    }
}

/// An invocation as a mapping with the program and the arguments.
pub fn write_invocation(cmd: &ShellInvocation) -> (tree: Yaml)
    ensures
        tree@ == encode_invocation(cmd@),
        plain_keys(tree@),
{
    let file = entry_of("file", Yaml::Text(cmd.file().render()));
    let args = entry_of("args", write_texts(cmd.args()));
    proof {
        lemma_keys_differ();
        lemma_plain_pair(file@, args@);
    }
    mapping_of_two(file, args)
}

/// An operation as a mapping from its tag to its fields.
pub fn write_operation(op: &OperationSchema) -> (tree: Yaml)
    ensures
        tree@ == encode_operation(op@),
        plain_keys(tree@),
{
    proof {
        lemma_keys_differ();
    }
    let (tag, fields) = match op {
        OperationSchema::CopyFile { from, to } => {
            let a = entry_of("from", Yaml::Text(from.render()));
            let b = entry_of("to", Yaml::Text(to.render()));
            proof {
                lemma_plain_pair(a@, b@);
            }
            ("copy_file", mapping_of_two(a, b))
        },
        OperationSchema::AppendToFile { from, to } => {
            let a = entry_of("from", Yaml::Text(from.render()));
            let b = entry_of("to", Yaml::Text(to.render()));
            proof {
                lemma_plain_pair(a@, b@);
            }
            ("append_file", mapping_of_two(a, b))
        },
        OperationSchema::ShellString { cmd, effects } => {
            let a = entry_of("cmd", Yaml::Text(cmd.clone()));
            let b = entry_of("effects", write_optional_effects(effects));
            proof {
                lemma_plain_pair(a@, b@);
            }
            ("shell", mapping_of_two(a, b))
        },
        OperationSchema::ShellFile { cmd, effects } => {
            let a = entry_of("cmd", write_invocation(cmd));
            let b = entry_of("effects", write_optional_effects(effects));
            proof {
                lemma_plain_pair(a@, b@);
            }
            ("script", mapping_of_two(a, b))
        },
    };
    let outer = entry_of(tag, fields);
    assert(plain_keys(YamlModel::Mapping(seq![outer@])));
    mapping_of_one(outer)
}

/// Operations as a sequence.
pub fn write_operations(ops: &Vec<OperationSchema>) -> (tree: Yaml)
    ensures
        tree@ == encode_operations(operations(ops@)),
        plain_keys(tree@),
{
    let mut items: Vec<Yaml> = Vec::new();
    let mut i: usize = 0;
    while i < ops.len()
        invariant
            i <= ops.len(),
            items.len() == i,
            forall|j: int|
                0 <= j < i ==> (#[trigger] items@[j])@ == encode_operation(ops@[j]@) && plain_keys(
                    items@[j]@,
                ),
        decreases ops.len() - i,
    {
        items.push(write_operation(&ops[i]));
        i += 1;
    }
    proof {
        lemma_list_view(items);
        assert(trees(items@) =~= Seq::new(
            operations(ops@).len(),
            |i: int| encode_operation(operations(ops@)[i]),
        ));
        assert forall|j: int| 0 <= j < trees(items@).len() implies plain_keys(
            #[trigger] trees(items@)[j],
        ) by {
            assert(plain_keys(items@[j]@));
        }
    }
    Yaml::Sequence(items)
}

/// A manifest as a document.
pub fn encode_manifest(schema: &FeatureSchema) -> (tree: Yaml)
    ensures
        tree@ == encode_schema(schema@),
        plain_keys(tree@),
{
    let install = entry_of("install", write_operations(schema.install_operations()));
    let uninstall = entry_of("uninstall", write_operations(schema.uninstall_operations()));
    proof {
        lemma_keys_differ();
        lemma_plain_pair(install@, uninstall@);
    }
    mapping_of_two(install, uninstall)
}

/// The text of a manifest. It is the text that the YAML writer gives for the
/// document of the manifest; where the writer refuses, its message comes
/// back.
pub fn dump_manifest(feature: &FeatureSchema) -> (res: Result<String, ManifestError>)
    ensures
        match yaml_text(encode_schema(feature@)) {
            Some(text) => res matches Ok(t) && t@ == text,
            None => res matches Err(ManifestError::Unwritable(_)),
        },
{
    let tree = encode_manifest(feature);
    match emit_document(&tree) {
        Ok(text) => Ok(text),
        Err(message) => Err(ManifestError::Unwritable(message)),
    }
}

/// Every path of the list can be written as text.
pub open spec fn writable_paths(list: Seq<PathModel>) -> bool {
    forall|i: int| 0 <= i < list.len() ==> (#[trigger] list[i]).well_formed()
}

/// Every path of the effects can be written as text.
pub open spec fn writable_effects(effects: Option<EffectsModel>) -> bool {
    match effects {
        Some(e) => writable_paths(e.generates) && writable_paths(e.clobbers) && writable_paths(
            e.deletes,
        ),
        None => true,
    }
}

/// Every path of the operation can be written as text.
pub open spec fn writable_operation(op: OperationModel) -> bool {
    match op {
        OperationModel::CopyFile { from, to } => from.well_formed() && to.well_formed(),
        OperationModel::AppendToFile { from, to } => from.well_formed() && to.well_formed(),
        OperationModel::ShellString { cmd, effects } => writable_effects(effects),
        OperationModel::ShellFile { cmd, effects } => cmd.file.well_formed() && writable_effects(
            effects,
        ),
    }
}

/// Every path of every operation can be written as text.
pub open spec fn writable_operations(ops: Seq<OperationModel>) -> bool {
    forall|i: int| 0 <= i < ops.len() ==> writable_operation(#[trigger] ops[i])
}

/// Every path of the manifest can be written as text: no part of a path is
/// empty, is the single dot, or holds a separator.
pub open spec fn writable_schema(schema: SchemaModel) -> bool {
    writable_operations(schema.install) && writable_operations(schema.uninstall)
}

/// The entry at `at` is found under its key if no entry before it has that
/// key.
proof fn lemma_field_at(fields: Seq<EntryModel>, key: Seq<char>, at: int)
    requires
        0 <= at < fields.len(),
        fields[at].key == YamlModel::Text(key),
        forall|j: int| 0 <= j < at ==> (#[trigger] fields[j]).key != YamlModel::Text(key),
    ensures
        field(fields, key) == Some(fields[at].value),
{
    lemma_first_index_is(fields, |e: EntryModel| e.key == YamlModel::Text(key), at);
}

/// Decoding the paths that were encoded gives them back.
pub proof fn lemma_decode_encode_paths(list: Seq<PathModel>)
    requires
        writable_paths(list),
    ensures
        decode_paths(encode_paths(list)) == Some(list),
{
    let items = Seq::new(list.len(), |i: int| encode_path(list[i]));
    let decode = |t: YamlModel| decode_path(t);
    assert forall|i: int| 0 <= i < items.len() implies #[trigger] decode(items[i]) == Some(
        list[i],
    ) by {
        lemma_parse_render(list[i]);
    }
    assert(decode_each(items, decode).unwrap() =~= list);
}

/// Decoding the texts that were encoded gives them back.
pub proof fn lemma_decode_encode_texts(list: Seq<Seq<char>>)
    ensures
        decode_sequence(encode_texts(list), |t: YamlModel| decode_text(t)) == Some(list),
{
    let items = Seq::new(list.len(), |i: int| YamlModel::Text(list[i]));
    let decode = |t: YamlModel| decode_text(t);
    assert forall|i: int| 0 <= i < items.len() implies #[trigger] decode(items[i]) == Some(
        list[i],
    ) by {}
    assert(decode_each(items, decode).unwrap() =~= list);
}

/// Decoding the effects that were encoded gives them back.
pub proof fn lemma_decode_encode_effects(effects: EffectsModel)
    requires
        writable_effects(Some(effects)),
    ensures
        decode_effects(encode_effects(effects)) == Some(effects),
{
    lemma_keys_differ();
    let fields = encode_effects(effects)->Mapping_0;
    lemma_field_at(fields, "generates"@, 0);
    lemma_field_at(fields, "clobbers"@, 1);
    lemma_field_at(fields, "deletes"@, 2);
    lemma_decode_encode_paths(effects.generates);
    lemma_decode_encode_paths(effects.clobbers);
    lemma_decode_encode_paths(effects.deletes);
}

/// Decoding the invocation that was encoded gives it back.
pub proof fn lemma_decode_encode_invocation(cmd: InvocationModel)
    requires
        cmd.file.well_formed(),
    ensures
        decode_invocation(encode_invocation(cmd)) == Some(cmd),
{
    lemma_keys_differ();
    let fields = encode_invocation(cmd)->Mapping_0;
    lemma_field_at(fields, "file"@, 0);
    lemma_field_at(fields, "args"@, 1);
    lemma_parse_render(cmd.file);
    lemma_decode_encode_texts(cmd.args);
}

/// Decoding the operation that was encoded gives it back.
pub proof fn lemma_decode_encode_operation(op: OperationModel)
    requires
        writable_operation(op),
    ensures
        decode_operation(encode_operation(op)) == Some(op),
{
    lemma_keys_differ();
    let fields = fields_of(op);
    match op {
        OperationModel::CopyFile { from, to } => {
            lemma_field_at(fields, "from"@, 0);
            lemma_field_at(fields, "to"@, 1);
            lemma_parse_render(from);
            lemma_parse_render(to);
        },
        OperationModel::AppendToFile { from, to } => {
            lemma_field_at(fields, "from"@, 0);
            lemma_field_at(fields, "to"@, 1);
            lemma_parse_render(from);
            lemma_parse_render(to);
        },
        OperationModel::ShellString { cmd, effects } => {
            lemma_field_at(fields, "cmd"@, 0);
            lemma_field_at(fields, "effects"@, 1);
            if let Some(e) = effects {
                lemma_decode_encode_effects(e);
            }
        },
        OperationModel::ShellFile { cmd, effects } => {
            lemma_field_at(fields, "cmd"@, 0);
            lemma_field_at(fields, "effects"@, 1);
            lemma_decode_encode_invocation(cmd);
            if let Some(e) = effects {
                lemma_decode_encode_effects(e);
            }
        },
    }
}

/// Decoding the operations that were encoded gives them back.
pub proof fn lemma_decode_encode_operations(ops: Seq<OperationModel>)
    requires
        writable_operations(ops),
    ensures
        decode_sequence(encode_operations(ops), |t: YamlModel| decode_operation(t)) == Some(ops),
{
    let items = Seq::new(ops.len(), |i: int| encode_operation(ops[i]));
    let decode = |t: YamlModel| decode_operation(t);
    assert forall|i: int| 0 <= i < items.len() implies #[trigger] decode(items[i]) == Some(
        ops[i],
    ) by {
        lemma_decode_encode_operation(ops[i]);
    }
    assert(decode_each(items, decode).unwrap() =~= ops);
}

/// Writing a manifest as a document and reading the document gives the
/// manifest back, field for field, for every manifest whose paths can be
/// written as text.
pub proof fn lemma_decode_encode_schema(schema: SchemaModel)
    requires
        writable_schema(schema),
    ensures
        decode_schema(encode_schema(schema)) == Some(schema),
{
    lemma_keys_differ();
    let fields = encode_schema(schema)->Mapping_0;
    lemma_field_at(fields, "install"@, 0);
    lemma_field_at(fields, "uninstall"@, 1);
    lemma_decode_encode_operations(schema.install);
    lemma_decode_encode_operations(schema.uninstall);
}

/// The paths that a document holds can be written as text.
proof fn lemma_decoded_paths_writable(tree: YamlModel)
    requires
        decode_paths(tree).is_some(),
    ensures
        writable_paths(decode_paths(tree).unwrap()),
{
    let list = decode_paths(tree).unwrap();
    let items = tree->Sequence_0;
    assert forall|i: int| 0 <= i < list.len() implies (#[trigger] list[i]).well_formed() by {
        let decode = |t: YamlModel| decode_path(t);
        assert(decode(items[i]).is_some());
        lemma_parse_well_formed(items[i]->Text_0);
    }
}

/// The effects that a document holds can be written as text.
proof fn lemma_decoded_effects_writable(fields: Seq<EntryModel>)
    requires
        effects_field(fields).is_some(),
    ensures
        writable_effects(effects_field(fields).unwrap()),
{
    match field(fields, "effects"@) {
        Some(tree) => {
            if !(tree is Null) {
                let inner = tree->Mapping_0;
                lemma_decoded_paths_writable(field(inner, "generates"@).unwrap());
                lemma_decoded_paths_writable(field(inner, "clobbers"@).unwrap());
                lemma_decoded_paths_writable(field(inner, "deletes"@).unwrap());
            }
        },
        None => {},
    }
}

/// The operation that a document holds can be written as text.
proof fn lemma_decoded_operation_writable(tree: YamlModel)
    requires
        decode_operation(tree).is_some(),
    ensures
        writable_operation(decode_operation(tree).unwrap()),
{
    let outer = tree->Mapping_0;
    let tag = outer[0].key->Text_0;
    let fields = outer[0].value->Mapping_0;
    if tag == "copy_file"@ || tag == "append_file"@ {
        lemma_parse_well_formed(field(fields, "from"@).unwrap()->Text_0);
        lemma_parse_well_formed(field(fields, "to"@).unwrap()->Text_0);
    } else if tag == "shell"@ {
        lemma_decoded_effects_writable(fields);
    } else {
        lemma_decoded_effects_writable(fields);
        let inner = field(fields, "cmd"@).unwrap()->Mapping_0;
        lemma_parse_well_formed(field(inner, "file"@).unwrap()->Text_0);
    }
}

/// The operations that a document holds can be written as text.
proof fn lemma_decoded_operations_writable(tree: YamlModel)
    requires
        decode_sequence(tree, |t: YamlModel| decode_operation(t)).is_some(),
    ensures
        writable_operations(decode_sequence(tree, |t: YamlModel| decode_operation(t)).unwrap()),
{
    let ops = decode_sequence(tree, |t: YamlModel| decode_operation(t)).unwrap();
    let items = tree->Sequence_0;
    assert forall|i: int| 0 <= i < ops.len() implies writable_operation(#[trigger] ops[i]) by {
        let decode = |t: YamlModel| decode_operation(t);
        assert(decode(items[i]).is_some());
        lemma_decoded_operation_writable(items[i]);
    }
}

/// A manifest that was read from a document can be written as text, so
/// that writing it and reading it again gives the same manifest.
pub proof fn lemma_decoded_schema_writable(tree: YamlModel)
    requires
        decode_schema(tree).is_some(),
    ensures
        writable_schema(decode_schema(tree).unwrap()),
        decode_schema(encode_schema(decode_schema(tree).unwrap())) == decode_schema(tree),
{
    let fields = tree->Mapping_0;
    lemma_decoded_operations_writable(field(fields, "install"@).unwrap());
    lemma_decoded_operations_writable(field(fields, "uninstall"@).unwrap());
    lemma_decode_encode_schema(decode_schema(tree).unwrap());
}

} // verus!
