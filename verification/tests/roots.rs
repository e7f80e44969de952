use dotflex::path::FilePath;
use dotflex::roots::{
    assure_config, assure_path_to, assure_target, assure_var, ConfigError, config_dir, config_path, local_dir, local_path, marked_root, repo_dir,
    repo_path, resolve, resolve_common, resolve_path_local, resolve_path_repo,
    resolve_path_target, target_dir, target_path, unresolve_path, unresolve_path_local,
    unresolve_path_repo, unresolve_path_target, Root, Roots,
};

fn p(text: &str) -> FilePath {
    FilePath::parse(text)
}

fn roots() -> Roots {
    Roots::new(p("/home/u/.dotflex"), p("/home/u")).unwrap()
}

#[test]
fn roots_must_be_rooted() {
    assert!(Roots::new(p("relative/config"), p("/home/u")).is_none());
    assert!(Roots::new(p("/home/u/.dotflex"), p("home")).is_none());
    assert!(Roots::new(p("/home/u/.dotflex"), p("/home/u")).is_some());
}

#[test]
fn directories_of_the_roots() {
    let r = roots();
    assert_eq!(config_dir(&r), &p("/home/u/.dotflex"));
    assert_eq!(target_dir(&r), &p("/home/u"));
    assert_eq!(repo_dir(&r), p("/home/u/.dotflex/REPO"));
    assert_eq!(local_dir(&r), p("/home/u/.dotflex/LOCAL"));
    assert_eq!(config_path(&r, &p("x/y")), p("/home/u/.dotflex/x/y"));
    assert_eq!(repo_path(&r, &p("features")), p("/home/u/.dotflex/REPO/features"));
    assert_eq!(local_path(&r, &p("features.yml")), p("/home/u/.dotflex/LOCAL/features.yml"));
    assert_eq!(target_path(&r, &p(".zshrc")), p("/home/u/.zshrc"));
    assert_eq!(target_path(&r, &p("/etc/hosts")), p("/etc/hosts"));
}

#[test]
fn markers_are_recognised() {
    assert_eq!(marked_root(&p("@r/a")), Some(Root::Repo));
    assert_eq!(marked_root(&p("@l/a")), Some(Root::Local));
    assert_eq!(marked_root(&p("@t")), Some(Root::Target));
    assert_eq!(marked_root(&p("@x/a")), None);
    assert_eq!(marked_root(&p("a/@r")), None);
    assert_eq!(marked_root(&p("/@r/a")), None);
    assert_eq!(marked_root(&p("")), None);
}

#[test]
fn resolve_common_needs_a_marker_or_a_root() {
    let r = roots();
    assert_eq!(resolve_common(&r, &p("/etc/hosts")), Some(p("/etc/hosts")));
    assert_eq!(
        resolve_common(&r, &p("@r/features/zsh/.zshrc")),
        Some(p("/home/u/.dotflex/REPO/features/zsh/.zshrc"))
    );
    assert_eq!(resolve_common(&r, &p("@l/state")), Some(p("/home/u/.dotflex/LOCAL/state")));
    assert_eq!(resolve_common(&r, &p("@t/.zshrc")), Some(p("/home/u/.zshrc")));
    assert_eq!(resolve_common(&r, &p("@t")), Some(p("/home/u")));
    assert_eq!(resolve_common(&r, &p("plain/relative")), None);
}

#[test]
fn resolve_takes_plain_paths_below_the_default() {
    let r = roots();
    assert_eq!(resolve_path_repo(&r, &p("a/b")), p("/home/u/.dotflex/REPO/a/b"));
    assert_eq!(resolve_path_target(&r, &p("a/b")), p("/home/u/a/b"));
    assert_eq!(resolve_path_local(&r, &p("a/b")), p("/home/u/.dotflex/LOCAL/a/b"));
    assert_eq!(resolve_path_target(&r, &p("@r/a")), p("/home/u/.dotflex/REPO/a"));
    assert_eq!(resolve_path_repo(&r, &p("/abs")), p("/abs"));
    assert_eq!(resolve(&r, Root::Local, &p("@t/x")), p("/home/u/x"));
}

#[test]
fn unresolve_picks_the_first_containing_root() {
    let r = roots();
    assert_eq!(unresolve_path(&r, &p("/home/u/.dotflex/REPO/a/b")), Some(p("@r/a/b")));
    assert_eq!(unresolve_path(&r, &p("/home/u/.dotflex/LOCAL/a")), Some(p("@l/a")));
    assert_eq!(unresolve_path(&r, &p("/home/u/.zshrc")), Some(p("@t/.zshrc")));
    assert_eq!(unresolve_path(&r, &p("/home/u/.dotflex/other")), Some(p("@t/.dotflex/other")));
    assert_eq!(unresolve_path(&r, &p("/etc/hosts")), Some(p("/etc/hosts")));
    assert_eq!(unresolve_path(&r, &p("/home/u")), Some(p("@t")));
    assert_eq!(unresolve_path(&r, &p("relative")), None);
    assert_eq!(unresolve_path(&r, &p("@r/a")), None);
}

#[test]
fn repository_wins_when_roots_coincide() {
    let r = Roots::new(p("/c"), p("/c/REPO")).unwrap();
    assert_eq!(unresolve_path(&r, &p("/c/REPO/x")), Some(p("@r/x")));
    let nested = Roots::new(p("/c"), p("/c/LOCAL/deep")).unwrap();
    assert_eq!(unresolve_path(&nested, &p("/c/LOCAL/deep/x")), Some(p("@l/deep/x")));
}

#[test]
fn unresolve_for_a_root_leaves_its_marker_out() {
    let r = roots();
    assert_eq!(unresolve_path_repo(&r, &p("/home/u/.dotflex/REPO/a")), p("a"));
    assert_eq!(unresolve_path_repo(&r, &p("/home/u/.zshrc")), p("@t/.zshrc"));
    assert_eq!(unresolve_path_target(&r, &p("/home/u/.zshrc")), p(".zshrc"));
    assert_eq!(unresolve_path_target(&r, &p("/home/u/.dotflex/REPO/a")), p("@r/a"));
    assert_eq!(unresolve_path_local(&r, &p("/home/u/.dotflex/LOCAL/s")), p("s"));
    assert_eq!(unresolve_path_local(&r, &p("/etc/hosts")), p("/etc/hosts"));
    assert_eq!(unresolve_path_repo(&r, &p("some/relative")), p("some/relative"));
    assert_eq!(unresolve_path_repo(&r, &p("@r/kept")), p("@r/kept"));
}

#[test]
fn resolve_after_unresolve_gives_the_path_back() {
    let r = roots();
    for text in [
        "/home/u/.dotflex/REPO/features/zsh/.zshrc",
        "/home/u/.dotflex/REPO",
        "/home/u/.dotflex/LOCAL/features.yml",
        "/home/u/.config/nvim/init.vim",
        "/etc/hosts",
        "/",
    ] {
        let path = p(text);
        let portable = unresolve_path(&r, &path).unwrap();
        for default in [Root::Repo, Root::Local, Root::Target] {
            assert_eq!(resolve(&r, default, &portable), path);
        }
    }
}

#[test]
fn unresolve_after_resolve_gives_the_marked_path_back() {
    let r = roots();
    for (text, root) in [
        ("@r/features/zsh/.zshrc", Root::Repo),
        ("@r", Root::Repo),
        ("@l/features.yml", Root::Local),
        ("@t/.zshrc", Root::Target),
        ("@t/.config/nvim", Root::Target),
    ] {
        let marked = p(text);
        let concrete = resolve(&r, root, &marked);
        assert_eq!(unresolve_path(&r, &concrete), Some(marked));
    }
}

#[test]
fn a_target_path_inside_the_repository_comes_back_with_the_repository_marker() {
    let r = roots();
    let marked = p("@t/.dotflex/REPO/x");
    let concrete = resolve(&r, Root::Target, &marked);
    assert_eq!(concrete, p("/home/u/.dotflex/REPO/x"));
    assert_eq!(unresolve_path(&r, &concrete), Some(p("@r/x")));
}

#[test]
fn the_directory_above_a_path() {
    assert_eq!(assure_path_to(&p("/a/b/c")), Some(p("/a/b")));
    assert_eq!(assure_path_to(&p("/a")), Some(p("/")));
    assert_eq!(assure_path_to(&p("a")), Some(p("")));
    assert_eq!(assure_path_to(&p("/")), None);
    assert_eq!(assure_path_to(&p("")), None);
}

#[test]
fn a_setting_decides_the_directory_of_a_root() {
    assert_eq!(assure_var(Some("/set"), Some("/home/u"), Some(".dotflex")), Ok(p("/set")));
    assert_eq!(assure_var(None, Some("/home/u"), Some(".dotflex")), Ok(p("/home/u/.dotflex")));
    assert_eq!(assure_var(None, Some("/home/u"), None), Ok(p("/home/u")));
    assert_eq!(assure_var(None, None, Some(".dotflex")), Err(ConfigError::NoHomeDirectory));
    assert_eq!(assure_var(Some("rel"), None, None), Ok(p("rel")));
    assert_eq!(assure_config(Some("/etc/dotflex")), Ok(p("/etc/dotflex")));
    assert_eq!(assure_target(Some("/srv/home")), Ok(p("/srv/home")));
}

#[test]
fn without_a_setting_the_home_directory_decides() {
    match (assure_target(None), assure_config(None)) {
        (Ok(home), Ok(config)) => assert_eq!(config, home.child(".dotflex")),
        (Err(a), Err(b)) => {
            assert_eq!(a, ConfigError::NoHomeDirectory);
            assert_eq!(b, ConfigError::NoHomeDirectory);
        }
        (a, b) => panic!("{:?} {:?}", a, b),
    }
}
