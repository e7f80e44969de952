use dotflex::driver::{
    bind, bind_operation, enable, feature_dir, file_line, install_all, longest_feature_name,
    rebind, record_binding, recorded_operation, resolved_operations, status_line, BindError,
};
use dotflex::operation::{FeatureSchema, InstallStep, OperationSchema};
use dotflex::path::FilePath;
use dotflex::roots::Roots;
use dotflex::tracker::{Features, InstalledFile, TrackedFeature};

fn p(text: &str) -> FilePath {
    FilePath::parse(text)
}

fn roots() -> Roots {
    Roots::new(p("/home/u/.dotflex"), p("/home/u")).unwrap()
}

fn copy(from: &str, to: &str) -> OperationSchema {
    OperationSchema::CopyFile { from: p(from), to: p(to) }
}

fn group(items: &[&str]) -> Vec<String> {
    items.iter().map(|s| s.to_string()).collect()
}

#[test]
fn the_directory_of_a_feature() {
    assert_eq!(feature_dir(&roots(), "zsh"), p("/home/u/.dotflex/REPO/features/zsh"));
}

#[test]
fn binding_a_file_of_the_target_directory() {
    let r = roots();
    assert_eq!(
        bind(&r, "zsh", &vec![group(&[".zshrc"]), group(&["/home/u/.config/zsh/env"])]),
        Ok(vec![
            copy("/home/u/.zshrc", "/home/u/.dotflex/REPO/features/zsh/.zshrc"),
            copy("/home/u/.config/zsh/env", "/home/u/.dotflex/REPO/features/zsh/.config/zsh/env"),
        ])
    );
}

#[test]
fn binding_a_file_to_a_given_place() {
    let r = roots();
    assert_eq!(
        bind(&r, "zsh", &vec![group(&[".zshrc", "rc"]), group(&["/etc/hosts", "@r/hosts"])]),
        Ok(vec![
            copy("/home/u/.zshrc", "/home/u/.dotflex/REPO/features/zsh/rc"),
            copy("/etc/hosts", "/home/u/.dotflex/REPO/hosts"),
        ])
    );
    let dir = feature_dir(&r, "zsh");
    assert_eq!(
        bind_operation(&r, &dir, &p("a"), Some(&p("/abs/place"))),
        Ok(copy("/home/u/a", "/abs/place"))
    );
}

#[test]
fn files_that_cannot_be_bound() {
    let r = roots();
    assert_eq!(bind(&r, "zsh", &vec![group(&["/etc/hosts"])]), Err(BindError::OutsideTarget));
    assert_eq!(bind(&r, "zsh", &vec![group(&["a", "b", "c"])]), Err(BindError::TooManyArguments));
    assert_eq!(bind(&r, "zsh", &vec![group(&[])]), Err(BindError::MissingFile));
    assert_eq!(
        bind(&r, "zsh", &vec![group(&["ok"]), group(&["/etc/hosts"]), group(&["a", "b", "c"])]),
        Err(BindError::OutsideTarget)
    );
    assert_eq!(bind(&r, "zsh", &vec![]), Ok(vec![]));
}

#[test]
fn a_binding_is_recorded_the_other_way_round() {
    let r = roots();
    let op = copy("/home/u/.zshrc", "/home/u/.dotflex/REPO/features/zsh/.zshrc");
    assert_eq!(recorded_operation(&r, &op), copy("features/zsh/.zshrc", ".zshrc"));
    let outside = copy("/etc/hosts", "/home/u/.dotflex/LOCAL/hosts");
    assert_eq!(recorded_operation(&r, &outside), copy("@l/hosts", "/etc/hosts"));
    let shell = OperationSchema::ShellString { cmd: "x".to_string(), effects: None };
    assert_eq!(recorded_operation(&r, &shell), shell);
}

#[test]
fn recording_a_binding_makes_or_extends_the_feature() {
    let mut registry = Features::new();
    assert!(record_binding(&mut registry, "zsh", &vec![copy("a", "b")]));
    assert!(registry.is_active("zsh"));
    assert_eq!(registry.get("zsh").unwrap().files().len(), 1);
    registry.mark_inactive("zsh");
    assert!(!record_binding(&mut registry, "zsh", &vec![copy("c", "d"), copy("e", "f")]));
    let zsh = registry.get("zsh").unwrap();
    assert!(!zsh.active());
    assert_eq!(
        zsh.schema(),
        &FeatureSchema::install(vec![copy("a", "b"), copy("c", "d"), copy("e", "f")])
    );
    assert_eq!(zsh.files().len(), 3);
    assert_eq!(registry.expose().len(), 1);
}

#[test]
fn rebinding_copies_the_installed_file_back() {
    let r = roots();
    let schema = FeatureSchema::install(vec![
        copy("features/zsh/.zshrc", ".zshrc"),
        OperationSchema::ShellString { cmd: "x".to_string(), effects: None },
        copy("features/zsh/env", ".config/zsh/env"),
        copy("features/zsh/other", ".zshrc"),
    ]);
    assert_eq!(
        rebind(&r, &schema, &p(".zshrc")),
        vec![
            copy("/home/u/.zshrc", "/home/u/.dotflex/REPO/features/zsh/.zshrc"),
            copy("/home/u/.zshrc", "/home/u/.dotflex/REPO/features/zsh/other"),
        ]
    );
    assert_eq!(
        rebind(&r, &schema, &p("/home/u/.config/zsh/env")),
        vec![copy("/home/u/.config/zsh/env", "/home/u/.dotflex/REPO/features/zsh/env")]
    );
    assert!(rebind(&r, &schema, &p(".bashrc")).is_empty());
}

#[test]
fn only_known_features_that_are_off_are_enabled() {
    let mut registry = Features::new();
    registry.insert(TrackedFeature::new("zsh".to_string(), true, FeatureSchema::new()));
    registry.insert(TrackedFeature::new("vim".to_string(), false, FeatureSchema::new()));
    registry.insert(TrackedFeature::new("git".to_string(), false, FeatureSchema::new()));
    assert_eq!(
        enable(&registry, &group(&["git", "zsh", "emacs", "vim", "git"])),
        group(&["git", "vim", "git"])
    );
    assert!(enable(&registry, &vec![]).is_empty());
}

#[test]
fn operations_are_resolved_for_the_executor() {
    let r = roots();
    let schema = FeatureSchema::install(vec![copy("features/zsh/.zshrc", ".zshrc")]);
    assert_eq!(
        resolved_operations(&r, &schema),
        vec![copy("/home/u/.dotflex/REPO/features/zsh/.zshrc", "/home/u/.zshrc")]
    );
}

#[test]
fn status_lines_are_aligned() {
    let mut registry = Features::new();
    assert_eq!(longest_feature_name(&registry), 0);
    registry.insert(TrackedFeature::new("zsh".to_string(), true, FeatureSchema::new()));
    registry.insert(TrackedFeature::new("neovim".to_string(), false, FeatureSchema::new()));
    registry.insert(TrackedFeature::new("gît".to_string(), false, FeatureSchema::new()));
    let width = longest_feature_name(&registry);
    assert_eq!(width, 6);
    assert_eq!(status_line(registry.get("zsh").unwrap(), width), "  zsh   : enabled");
    assert_eq!(status_line(registry.get("neovim").unwrap(), width), "  neovim: disabled");
    assert_eq!(status_line(registry.get("gît").unwrap(), width), "  gît   : disabled");
    assert_eq!(status_line(registry.get("neovim").unwrap(), 2), "  neovim: disabled");
}

#[test]
fn file_lines_show_both_forms_of_the_path() {
    let r = roots();
    let feature = TrackedFeature::new(
        "zsh".to_string(),
        true,
        FeatureSchema::install(vec![copy("features/zsh/.zshrc", ".zshrc")]),
    );
    assert_eq!(file_line(&r, &feature.files()[0]), "    .zshrc (/home/u/.zshrc)");
    let untracked = InstalledFile::new(p("features/zsh/extra"), None);
    assert_eq!(untracked.local_path(), None);
    assert_eq!(
        file_line(&r, &untracked),
        "    <no target path> (/home/u/<no target path>)"
    );
}

#[test]
fn installing_after_a_download() {
    let list = vec![
        TrackedFeature::new("a".to_string(), true, FeatureSchema::new()),
        TrackedFeature::new("b".to_string(), true, FeatureSchema::new()),
    ];
    assert_eq!(install_all(Some(&list), &vec![]), InstallStep::Execute(0));
    assert_eq!(install_all(Some(&list), &vec![true]), InstallStep::Execute(1));
    assert_eq!(install_all(Some(&list), &vec![true, false]), InstallStep::Finish(false));
    assert_eq!(install_all(Some(&list), &vec![true, true]), InstallStep::Finish(true));
    assert_eq!(install_all(None, &vec![]), InstallStep::Finish(true));
}
