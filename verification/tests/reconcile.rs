use dotflex::operation::{FeatureSchema, OperationSchema};
use dotflex::path::FilePath;
use dotflex::parser::{dump_manifest, parse_manifest, ManifestError};
use dotflex::reconcile::{load_features, parse_manifests, FoundFeature, ManifestText};
use dotflex::tracker::{Features, TrackedFeature};

fn p(text: &str) -> FilePath {
    FilePath::parse(text)
}

fn copy(from: &str, to: &str) -> OperationSchema {
    OperationSchema::CopyFile { from: p(from), to: p(to) }
}

fn found(name: &str, ops: Vec<OperationSchema>) -> FoundFeature {
    FoundFeature { name: name.to_string(), schema: FeatureSchema::install(ops) }
}

fn registry_with_shell() -> Features {
    let mut registry = Features::new();
    registry.insert(TrackedFeature::new(
        "shell".to_string(),
        true,
        FeatureSchema::install(vec![copy("@r/old", "@t/old")]),
    ));
    registry
}

#[test]
fn reconciling_updates_known_features_and_adds_new_ones() {
    let new_ops = vec![copy("@r/features/shell/.zshrc", "@t/.zshrc")];
    let vim_ops = vec![copy("@r/features/vim/.vimrc", "@t/.vimrc")];
    let res = load_features(
        registry_with_shell(),
        &vec![found("shell", new_ops.clone()), found("vim", vim_ops.clone())],
    );
    let shell = res.features.get("shell").unwrap();
    assert!(shell.active());
    assert_eq!(shell.schema(), &FeatureSchema::install(new_ops));
    assert_eq!(shell.files().len(), 1);
    assert_eq!(shell.files()[0].local_path(), Some(&p("@t/.zshrc")));
    let vim = res.features.get("vim").unwrap();
    assert!(!vim.active());
    assert_eq!(vim.name(), "vim");
    assert_eq!(vim.schema(), &FeatureSchema::install(vim_ops));
    assert_eq!(res.unrecorded, vec!["vim".to_string()]);
    assert_eq!(res.features.expose().len(), 2);
}

#[test]
fn a_feature_without_directory_keeps_its_entry() {
    let before = registry_with_shell();
    let res = load_features(registry_with_shell(), &vec![found("vim", vec![])]);
    assert_eq!(res.features.get("shell"), before.get("shell"));
    assert!(res.features.is_active("shell"));
    let none = load_features(registry_with_shell(), &vec![]);
    assert_eq!(none.features, before);
    assert!(none.unrecorded.is_empty());
}

#[test]
fn reconciling_twice_changes_nothing_more() {
    let list = vec![found("shell", vec![copy("a", "b")]), found("vim", vec![])];
    let once = load_features(registry_with_shell(), &list);
    let twice = load_features(once.features.clone(), &list);
    assert_eq!(twice.features, once.features);
    assert!(twice.unrecorded.is_empty());
}

#[test]
fn the_last_of_two_found_features_with_one_name_counts() {
    let res = load_features(
        Features::new(),
        &vec![found("vim", vec![copy("a", "b")]), found("vim", vec![copy("c", "d")])],
    );
    assert_eq!(res.features.expose().len(), 1);
    assert_eq!(res.features.get("vim").unwrap().schema(), &FeatureSchema::install(vec![copy("c", "d")]));
    assert_eq!(res.unrecorded, vec!["vim".to_string()]);
}

#[test]
fn manifests_are_read_until_one_cannot_be() {
    let good = "install:\n  - copy_file: { from: a, to: b }\nuninstall: []\n";
    let text = |name: &str, text: &str| ManifestText { name: name.to_string(), text: text.to_string() };
    assert_eq!(
        parse_manifests(&vec![text("zsh", good), text("vim", "install: []\nuninstall: []\n")]),
        Ok(vec![found("zsh", vec![copy("a", "b")]), found("vim", vec![])])
    );
    let shape = parse_manifests(&vec![text("zsh", good), text("vim", "install: 3\n"), text("x", "[")]);
    let failed = shape.unwrap_err();
    assert_eq!(failed.index, 1);
    assert_eq!(failed.error, ManifestError::Shape);
    let syntax = parse_manifests(&vec![text("x", "["), text("vim", "install: 3\n")]).unwrap_err();
    assert_eq!(syntax.index, 0);
    assert!(matches!(syntax.error, ManifestError::Syntax(_)));
    assert_eq!(parse_manifests(&vec![]), Ok(vec![]));
}

#[test]
fn reconciling_from_the_texts_of_the_repository() {
    let registry = Features::load_local(Some("features:\n  shell:\n    active: true\n")).unwrap();
    let texts = vec![
        ManifestText {
            name: "shell".to_string(),
            text: "install:\n  - copy_file: { from: \"@r/rc\", to: \"@t/.rc\" }\nuninstall: []\n".to_string(),
        },
        ManifestText {
            name: "vim".to_string(),
            text: "install:\n  - shell: { cmd: \"vim +PlugInstall\" }\nuninstall: []\n".to_string(),
        },
    ];
    let res = load_features(registry, &parse_manifests(&texts).unwrap());
    assert!(res.features.is_active("shell"));
    assert_eq!(res.features.get("shell").unwrap().files().len(), 1);
    assert!(!res.features.is_active("vim"));
    assert_eq!(res.unrecorded, vec!["vim".to_string()]);
    let vim = res.features.get("vim").unwrap();
    let written = dump_manifest(vim.schema()).unwrap();
    assert_eq!(parse_manifest(&written).as_ref(), Ok(vim.schema()));
    assert_eq!(parse_manifest(&written), parse_manifest(&texts[1].text));
}
