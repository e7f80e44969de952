use dotflex::operation::{FeatureSchema, InstallStep, OperationSchema};
use dotflex::path::FilePath;
use dotflex::tracker::{Features, TrackedFeature};

fn p(text: &str) -> FilePath {
    FilePath::parse(text)
}

fn copy(from: &str, to: &str) -> OperationSchema {
    OperationSchema::CopyFile { from: p(from), to: p(to) }
}

fn shell(cmd: &str) -> OperationSchema {
    OperationSchema::ShellString { cmd: cmd.to_string(), effects: None }
}

fn feature(name: &str, active: bool, ops: Vec<OperationSchema>) -> TrackedFeature {
    TrackedFeature::new(name.to_string(), active, FeatureSchema::install(ops))
}

#[test]
fn files_are_the_copies_of_the_schema_in_order() {
    let schema = FeatureSchema::install(vec![
        copy("@r/features/zsh/.zshrc", "@t/.zshrc"),
        shell("echo done"),
        copy("@r/features/zsh/.zprofile", "@t/.zprofile"),
    ]);
    let files = TrackedFeature::files_from_schema(&schema);
    assert_eq!(files.len(), 2);
    assert_eq!(files[0].repo_path(), &p("@r/features/zsh/.zshrc"));
    assert_eq!(files[0].local_path(), Some(&p("@t/.zshrc")));
    assert_eq!(files[1].repo_path(), &p("@r/features/zsh/.zprofile"));
    assert_eq!(files[1].local_path(), Some(&p("@t/.zprofile")));
}

#[test]
fn only_copies_deposit_files() {
    let schema = FeatureSchema::install(vec![
        OperationSchema::AppendToFile { from: p("a"), to: p("b") },
        shell("true"),
    ]);
    assert!(TrackedFeature::files_from_schema(&schema).is_empty());
    assert!(TrackedFeature::files_from_schema(&FeatureSchema::new()).is_empty());
}

#[test]
fn a_new_feature_has_the_files_of_its_schema() {
    let f = feature("zsh", true, vec![copy("a", "b")]);
    assert_eq!(f.name(), "zsh");
    assert!(f.active());
    assert_eq!(f.files().len(), 1);
    assert_eq!(f.files()[0].repo_path(), &p("a"));
    assert_eq!(f.schema(), &FeatureSchema::install(vec![copy("a", "b")]));
    assert_eq!(f.clone(), f);
}

#[test]
fn marking_flips_the_flag_only() {
    let mut f = feature("zsh", false, vec![copy("a", "b")]);
    f.mark_active(true);
    assert!(f.active());
    assert_eq!(f.files().len(), 1);
    f.mark_active(false);
    assert!(!f.active());
    assert_eq!(f.name(), "zsh");
}

#[test]
fn inserting_a_schema_recomputes_the_files() {
    let mut f = feature("zsh", true, vec![copy("a", "b")]);
    f.insert_schema(FeatureSchema::install(vec![copy("c", "d"), copy("e", "f")]));
    assert_eq!(f.files().len(), 2);
    assert_eq!(f.files()[1].local_path(), Some(&p("f")));
    assert!(f.active());
    f.insert_schema(FeatureSchema::new());
    assert!(f.files().is_empty());
}

#[test]
fn files_follow_a_changed_schema_after_the_update() {
    let mut f = feature("zsh", true, vec![copy("a", "b")]);
    f.schema_mut().install_operations_mut().push(copy("c", "d"));
    assert_eq!(f.files().len(), 1);
    f.update_files_from_schema();
    assert_eq!(f.files().len(), 2);
    f.files_mut().clear();
    assert!(f.files().is_empty());
    f.update_files_from_schema();
    assert_eq!(f.files().len(), 2);
}

#[test]
fn the_registry_finds_features_by_name() {
    let mut registry = Features::new();
    assert!(registry.expose().is_empty());
    assert!(registry.get("zsh").is_none());
    assert!(!registry.is_active("zsh"));
    registry.insert(feature("zsh", true, vec![]));
    registry.insert(feature("vim", false, vec![]));
    assert_eq!(registry.find("zsh"), Some(0));
    assert_eq!(registry.find("vim"), Some(1));
    assert_eq!(registry.find("emacs"), None);
    assert!(registry.is_active("zsh"));
    assert!(!registry.is_active("vim"));
    assert!(!registry.is_active("emacs"));
    assert_eq!(registry.get("vim").unwrap().name(), "vim");
}

#[test]
fn inserting_under_a_known_name_replaces_the_feature() {
    let mut registry = Features::new();
    registry.insert(feature("zsh", true, vec![]));
    registry.insert(feature("vim", false, vec![]));
    registry.insert(feature("zsh", false, vec![copy("a", "b")]));
    assert_eq!(registry.expose().len(), 2);
    assert!(!registry.is_active("zsh"));
    assert_eq!(registry.get("zsh").unwrap().files().len(), 1);
    assert_eq!(registry.find("zsh"), Some(0));
}

#[test]
fn marking_in_the_registry_reports_unknown_names() {
    let mut registry = Features::new();
    registry.insert(feature("zsh", false, vec![copy("a", "b")]));
    assert!(registry.mark_active("zsh"));
    assert!(registry.is_active("zsh"));
    assert_eq!(registry.get("zsh").unwrap().files().len(), 1);
    assert!(registry.mark_inactive("zsh"));
    assert!(!registry.is_active("zsh"));
    assert!(!registry.mark_active("vim"));
    assert!(!registry.mark_inactive("vim"));
    assert_eq!(registry.expose().len(), 1);
}

#[test]
fn the_entries_can_be_changed_in_place() {
    let mut registry = Features::new();
    registry.insert(feature("zsh", false, vec![]));
    registry.expose_mut()[0].mark_active(true);
    assert!(registry.is_active("zsh"));
    assert_eq!(registry.clone(), registry);
}

#[test]
fn install_all_goes_through_the_features_in_order() {
    let mut registry = Features::new();
    registry.insert(feature("zsh", true, vec![]));
    registry.insert(feature("vim", false, vec![]));
    assert_eq!(registry.install_all(&vec![]), InstallStep::Execute(0));
    assert_eq!(registry.install_all(&vec![true]), InstallStep::Execute(1));
    assert_eq!(registry.install_all(&vec![true, true]), InstallStep::Finish(true));
    assert_eq!(registry.install_all(&vec![false]), InstallStep::Finish(false));
    assert_eq!(Features::new().install_all(&vec![]), InstallStep::Finish(true));
}
