use dotflex::operation::{FeatureSchema, OperationEffects, OperationSchema, ShellInvocation};
use dotflex::parser::{decode_manifest, dump_manifest, encode_manifest, parse_manifest, ManifestError};
use dotflex::path::FilePath;
use dotflex::tracker::{Features, TrackedFeature};
use dotflex::yaml::{parse_document, Yaml, YamlEntry};

fn p(text: &str) -> FilePath {
    FilePath::parse(text)
}

fn one_of_each() -> FeatureSchema {
    let effects = OperationEffects::from(&[p("@t/.cache/x")], &[p("@t/.zshrc")], &[p("@t/old")]);
    FeatureSchema::install(vec![
        OperationSchema::CopyFile { from: p("@r/features/zsh/.zshrc"), to: p("@t/.zshrc") },
        OperationSchema::AppendToFile { from: p("@r/features/zsh/extra"), to: p("@t/.profile") },
        OperationSchema::ShellString { cmd: "echo \"done\": yes".to_string(), effects: Some(effects) },
        OperationSchema::ShellFile {
            cmd: ShellInvocation::from(&p("@r/setup.sh"), &["--fast", "2"]),
            effects: None,
        },
    ])
}

#[test]
fn a_manifest_is_read_from_yaml() {
    let text = "\
install:
  - copy_file:
      from: \"@r/features/zsh/.zshrc\"
      to: \"@t/.zshrc\"
  - shell:
      cmd: echo hi
      effects: ~
  - script:
      cmd:
        file: \"@r/setup.sh\"
        args: [\"--fast\"]
  - append_file: { from: a, to: b }
uninstall: []
";
    let schema = parse_manifest(text).unwrap();
    assert_eq!(
        schema,
        FeatureSchema::install(vec![
            OperationSchema::CopyFile { from: p("@r/features/zsh/.zshrc"), to: p("@t/.zshrc") },
            OperationSchema::ShellString { cmd: "echo hi".to_string(), effects: None },
            OperationSchema::ShellFile {
                cmd: ShellInvocation::from(&p("@r/setup.sh"), &["--fast"]),
                effects: None,
            },
            OperationSchema::AppendToFile { from: p("a"), to: p("b") },
        ])
    );
}

#[test]
fn round_trip_of_every_operation_variant() {
    let schema = one_of_each();
    let text = dump_manifest(&schema).unwrap();
    assert_eq!(parse_manifest(&text), Ok(schema));
}

#[test]
fn round_trip_through_the_document() {
    let schema = one_of_each();
    assert_eq!(decode_manifest(&encode_manifest(&schema)), Ok(schema));
    assert_eq!(decode_manifest(&encode_manifest(&FeatureSchema::new())), Ok(FeatureSchema::new()));
}

#[test]
fn writing_a_manifest_again_gives_the_same_text() {
    let text = dump_manifest(&one_of_each()).unwrap();
    let again = dump_manifest(&parse_manifest(&text).unwrap()).unwrap();
    assert_eq!(again, text);
}

#[test]
fn text_that_is_not_yaml_is_a_syntax_error() {
    assert!(matches!(parse_manifest("install: [unclosed"), Err(ManifestError::Syntax(_))));
    assert!(matches!(parse_manifest("a: b: c: : :\n\t- x"), Err(ManifestError::Syntax(_))));
}

#[test]
fn a_document_of_another_shape_is_refused() {
    for text in [
        "- just\n- a list\n",
        "install: []\n",
        "uninstall: []\n",
        "install: {}\nuninstall: []\n",
        "install:\n  - move_file: { from: a, to: b }\nuninstall: []\n",
        "install:\n  - copy_file: { from: a }\nuninstall: []\n",
        "install:\n  - copy_file: { from: a, to: 7 }\nuninstall: []\n",
        "install:\n  - shell: { cmd: [a] }\nuninstall: []\n",
        "install:\n  - shell: { cmd: a, effects: { generates: [] } }\nuninstall: []\n",
        "install:\n  - copy_file: { from: a, to: b }\n    shell: { cmd: a }\nuninstall: []\n",
        "install:\n  - script: { cmd: { file: a } }\nuninstall: []\n",
        "42\n",
    ] {
        assert_eq!(parse_manifest(text), Err(ManifestError::Shape), "{}", text);
    }
}

#[test]
fn unknown_keys_are_passed_over() {
    let text = "comment: hello\ninstall:\n  - shell: { cmd: a, note: b }\nuninstall: []\n";
    assert_eq!(
        parse_manifest(text),
        Ok(FeatureSchema::install(vec![OperationSchema::ShellString {
            cmd: "a".to_string(),
            effects: None
        }]))
    );
}

#[test]
fn a_document_is_read_as_a_tree() {
    let tree = parse_document("a: [x, true, ~]\n").unwrap();
    assert_eq!(
        tree,
        Yaml::Mapping(vec![YamlEntry {
            key: Yaml::Text("a".to_string()),
            value: Yaml::Sequence(vec![Yaml::Text("x".to_string()), Yaml::Bool(true), Yaml::Null]),
        }])
    );
    assert!(parse_document("a: [").is_err());
    assert!(!parse_document("a: [").unwrap_err().is_empty());
}

#[test]
fn numbers_are_carried_through() {
    let tree = parse_document("- 7\n- -3\n- \"7\"\n").unwrap();
    assert_eq!(
        tree,
        Yaml::Sequence(vec![
            Yaml::Number(serde_yaml::Number::from(7u64)),
            Yaml::Number(serde_yaml::Number::from(-3i64)),
            Yaml::Text("7".to_string()),
        ])
    );
}

#[test]
fn the_text_of_a_manifest() {
    let schema = FeatureSchema::install(vec![OperationSchema::CopyFile {
        from: p("@r/features/zsh/.zshrc"),
        to: p("@t/.zshrc"),
    }]);
    assert_eq!(
        dump_manifest(&schema).unwrap(),
        "---\ninstall:\n  - copy_file:\n      from: \"@r/features/zsh/.zshrc\"\n      to: \"@t/.zshrc\"\nuninstall: []\n"
    );
}

#[test]
fn the_registry_is_read_from_yaml() {
    let text = "features:\n  zsh:\n    name: zsh\n    active: true\n  vim:\n    active: false\n";
    let registry = Features::load_local(Some(text)).unwrap();
    assert!(registry.is_active("zsh"));
    assert!(!registry.is_active("vim"));
    assert_eq!(registry.expose().len(), 2);
    assert_eq!(registry.get("vim").unwrap().schema(), &FeatureSchema::new());
    assert!(registry.get("vim").unwrap().files().is_empty());
}

#[test]
fn no_registry_file_is_an_empty_registry() {
    assert_eq!(Features::load_local(None), Ok(Features::new()));
}

#[test]
fn a_registry_of_another_shape_is_refused() {
    for text in [
        "zsh: { active: true }\n",
        "features: [zsh]\n",
        "features:\n  zsh: { name: zsh }\n",
        "features:\n  zsh: { active: yes please }\n",
        "features:\n  zsh: true\n",
    ] {
        assert_eq!(Features::load_local(Some(text)), Err(ManifestError::Shape), "{}", text);
    }
    assert!(matches!(Features::load_local(Some("features: [")), Err(ManifestError::Syntax(_))));
}

#[test]
fn the_registry_round_trips_names_and_flags() {
    let mut registry = Features::new();
    registry.insert(TrackedFeature::new("zsh".to_string(), true, one_of_each()));
    registry.insert(TrackedFeature::new("vim".to_string(), false, FeatureSchema::new()));
    let text = registry.dump_local().unwrap();
    let back = Features::load_local(Some(&text)).unwrap();
    assert_eq!(back.expose().len(), 2);
    assert!(back.is_active("zsh"));
    assert!(!back.is_active("vim"));
    assert_eq!(back.get("zsh").unwrap().schema(), &FeatureSchema::new());
    assert_eq!(back.dump_local().unwrap(), text);
    assert!(text.contains("zsh"));
    assert!(text.contains("active: true"));
}
