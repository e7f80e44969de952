use dotflex::path::FilePath;

fn names(parts: &[&str]) -> Vec<String> {
    parts.iter().map(|s| s.to_string()).collect()
}

#[test]
fn parse_splits_at_separators() {
    let p = FilePath::parse("/home/user/.zshrc");
    assert!(p.is_absolute());
    assert_eq!(p.parts(), &names(&["home", "user", ".zshrc"]));
}

#[test]
fn parse_drops_empty_and_dot_segments() {
    let p = FilePath::parse("a//b/./c/");
    assert!(!p.is_absolute());
    assert_eq!(p.parts(), &names(&["a", "b", "c"]));
    assert_eq!(FilePath::parse("./x"), FilePath::parse("x"));
}

#[test]
fn render_gives_the_text_back() {
    assert_eq!(FilePath::parse("/home/user/.zshrc").render(), "/home/user/.zshrc");
    assert_eq!(FilePath::parse("@r/features/zsh").render(), "@r/features/zsh");
    assert_eq!(FilePath::parse("/").render(), "/");
    assert_eq!(FilePath::parse("").render(), "");
}

#[test]
fn prefixes_and_remainders() {
    let path = FilePath::parse("/a/b/c");
    assert!(path.starts_with(&FilePath::parse("/a/b")));
    assert!(path.starts_with(&FilePath::parse("/")));
    assert!(path.starts_with(&path));
    assert!(!path.starts_with(&FilePath::parse("a/b")));
    assert!(!path.starts_with(&FilePath::parse("/a/c")));
    assert!(!path.starts_with(&FilePath::parse("/a/b/c/d")));
    assert_eq!(path.strip_prefix(&FilePath::parse("/a")), Some(FilePath::parse("b/c")));
    assert_eq!(path.strip_prefix(&path), Some(FilePath::parse("")));
    assert_eq!(path.strip_prefix(&FilePath::parse("/x")), None);
}

#[test]
fn joining_and_parents() {
    let base = FilePath::parse("/a/b");
    assert_eq!(base.join(&FilePath::parse("c/d")), FilePath::parse("/a/b/c/d"));
    assert_eq!(base.join(&FilePath::parse("/c")), FilePath::parse("/c"));
    assert_eq!(base.join(&FilePath::parse("")), base);
    assert_eq!(base.child("c"), FilePath::parse("/a/b/c"));
    assert_eq!(base.parent(), Some(FilePath::parse("/a")));
    assert_eq!(FilePath::parse("x").parent(), Some(FilePath::parse("")));
    assert_eq!(FilePath::parse("/").parent(), None);
    assert!(base.same(&FilePath::parse("/a//b/")));
    assert!(!base.same(&FilePath::parse("a/b")));
    assert_eq!(base.clone(), base);
    assert_eq!(FilePath::new(true, names(&["a", "b"])), base);
}

#[test]
fn parse_after_render_gives_the_path_back() {
    for text in ["/a/b", "a", "", "/", "@t/.config/nvim/init.vim", "../up/and/over"] {
        let path = FilePath::parse(text);
        assert_eq!(FilePath::parse(&path.render()), path);
    }
}
