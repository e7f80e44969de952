use dotflex::operation::{
    FeatureSchema, InstallStep, OperationEffects, OperationSchema, SchemaError, ShellInvocation,
};
use dotflex::path::FilePath;
use dotflex::roots::Roots;

fn p(text: &str) -> FilePath {
    FilePath::parse(text)
}

fn roots() -> Roots {
    Roots::new(p("/home/u/.dotflex"), p("/home/u")).unwrap()
}

fn copy(from: &str, to: &str) -> OperationSchema {
    OperationSchema::CopyFile { from: p(from), to: p(to) }
}

fn append(from: &str, to: &str) -> OperationSchema {
    OperationSchema::AppendToFile { from: p(from), to: p(to) }
}

fn shell(cmd: &str) -> OperationSchema {
    OperationSchema::ShellString { cmd: cmd.to_string(), effects: None }
}

fn script(file: &str, args: &[&str]) -> OperationSchema {
    OperationSchema::ShellFile { cmd: ShellInvocation::from(&p(file), args), effects: None }
}

#[test]
fn effects_collect_paths_in_order() {
    let mut effects = OperationEffects::new();
    assert!(effects.generates_list().is_empty());
    assert!(effects.clobbers_list().is_empty());
    assert!(effects.deletes_list().is_empty());
    effects.generates(p("/a"));
    effects.generates(p("/b"));
    effects.clobbers(p("/c"));
    effects.deletes(p("/d"));
    assert_eq!(effects.generates_list(), &vec![p("/a"), p("/b")]);
    assert_eq!(effects.clobbers_list(), &vec![p("/c")]);
    assert_eq!(effects.deletes_list(), &vec![p("/d")]);
    let same = OperationEffects::from(&[p("/a"), p("/b")], &[p("/c")], &[p("/d")]);
    assert_eq!(same, effects);
    assert_eq!(OperationEffects::with_lists(vec![p("/a"), p("/b")], vec![p("/c")], vec![p("/d")]), effects);
    assert_eq!(effects.clone(), effects);
}

#[test]
fn invocation_holds_program_and_arguments() {
    let invocation = ShellInvocation::from(&p("/bin/setup"), &["--fast", "now"]);
    assert_eq!(invocation.file(), &p("/bin/setup"));
    assert_eq!(invocation.args(), &vec!["--fast".to_string(), "now".to_string()]);
    assert_eq!(invocation.to_string(), "/bin/setup --fast now");
    assert_eq!(ShellInvocation::from(&p("/bin/true"), &[]).to_string(), "/bin/true ");
    assert_eq!(
        ShellInvocation::new(p("/bin/setup"), vec!["--fast".to_string(), "now".to_string()]),
        invocation
    );
}

#[test]
fn viability_follows_the_required_path() {
    for op in [copy("/s", "/d"), append("/s", "/d"), script("/bin/x", &[])] {
        assert!(op.is_viable(true));
        assert!(!op.is_viable(false));
    }
    assert!(shell("true").is_viable(true));
    assert!(shell("true").is_viable(false));
}

#[test]
fn required_path_is_the_source_or_the_program() {
    assert_eq!(copy("/s", "/d").required_path(), Some(&p("/s")));
    assert_eq!(append("/s2", "/d").required_path(), Some(&p("/s2")));
    assert_eq!(script("/bin/x", &["a"]).required_path(), Some(&p("/bin/x")));
    assert_eq!(shell("true").required_path(), None);
}

#[test]
fn resolving_an_operation_makes_its_paths_concrete() {
    let r = roots();
    assert_eq!(
        copy("features/zsh/.zshrc", ".zshrc").resolve(&r),
        copy("/home/u/.dotflex/REPO/features/zsh/.zshrc", "/home/u/.zshrc")
    );
    assert_eq!(
        append("@r/extra", "@t/.profile").resolve(&r),
        append("/home/u/.dotflex/REPO/extra", "/home/u/.profile")
    );
    assert_eq!(
        script("setup.sh", &["-x"]).resolve(&r),
        script("/home/u/.dotflex/REPO/setup.sh", &["-x"])
    );
    assert_eq!(shell("echo @r").resolve(&r), shell("echo @r"));
}

#[test]
fn descriptions_show_portable_paths() {
    let r = roots();
    assert_eq!(
        copy("/home/u/.dotflex/REPO/features/zsh/.zshrc", "/home/u/.zshrc").to_string(&r),
        "copying features/zsh/.zshrc to .zshrc"
    );
    assert_eq!(
        append("/home/u/.dotflex/REPO/extra", "/etc/profile").to_string(&r),
        "append extra to /etc/profile"
    );
    assert_eq!(copy("/home/u/x", "/home/u/.dotflex/REPO/y").to_string(&r), "copying @t/x to @r/y");
    assert_eq!(shell("echo \"hi\"").to_string(&r), "shell: [[\"echo \\\"hi\\\"\"]]");
    assert_eq!(script("/bin/setup", &["a", "b"]).to_string(&r), "shell: /bin/setup a b");
    assert_eq!(shell("ls").describe(&r, "<ls>"), "shell: [[<ls>]]");
}

#[test]
fn a_schema_keeps_its_operations_in_order() {
    let empty = FeatureSchema::new();
    assert!(empty.install_operations().is_empty());
    assert!(empty.uninstall_operations().is_empty());
    let mut schema = FeatureSchema::install(vec![copy("a", "b"), shell("true")]);
    assert_eq!(schema.install_operations(), &vec![copy("a", "b"), shell("true")]);
    assert!(schema.uninstall_operations().is_empty());
    schema.install_operations_mut().push(append("c", "d"));
    assert_eq!(schema.install_operations().len(), 3);
    assert_eq!(schema.install_operations()[2], append("c", "d"));
    let both = FeatureSchema::with_uninstall(vec![shell("in")], vec![shell("out")]);
    assert_eq!(both.uninstall_operations(), &vec![shell("out")]);
    assert_eq!(both.clone(), both);
}

#[test]
fn install_stops_at_the_first_failure() {
    let schema = FeatureSchema::install(vec![shell("one"), shell("two"), shell("three")]);
    assert_eq!(schema.install_feature(&vec![]), InstallStep::Execute(0));
    assert_eq!(schema.install_feature(&vec![true]), InstallStep::Execute(1));
    assert_eq!(schema.install_feature(&vec![true, false]), InstallStep::Finish(false));
}

#[test]
fn install_succeeds_when_every_operation_does() {
    let schema = FeatureSchema::install(vec![shell("one"), shell("two"), shell("three")]);
    assert_eq!(schema.install_feature(&vec![true, true]), InstallStep::Execute(2));
    assert_eq!(schema.install_feature(&vec![true, true, true]), InstallStep::Finish(true));
    assert_eq!(FeatureSchema::new().install_feature(&vec![]), InstallStep::Finish(true));
    assert_eq!(schema.install_feature(&vec![false]), InstallStep::Finish(false));
}

#[test]
fn uninstall_is_not_supported() {
    let schema = FeatureSchema::install(vec![shell("one")]);
    assert_eq!(schema.uninstall_feature(), Err(SchemaError::UninstallNotSupported));
    assert_eq!(FeatureSchema::new().uninstall_feature(), Err(SchemaError::UninstallNotSupported));
}
