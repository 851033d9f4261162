use nodejs_resolver::path::FsPath;

fn p(s: &str) -> FsPath {
    FsPath::root().join(s)
}

#[test]
fn join_folds_dot_and_dotdot() {
    assert_eq!(p("/a/b").join("./c/../d").display(), "/a/b/d");
    assert_eq!(p("/a/b").join("../../..").display(), "/");
    assert_eq!(p("/a").join("/x//y/").display(), "/x/y");
    assert_eq!(p("/a").join("").display(), "/a");
}

#[test]
fn parent_and_equality() {
    let a = p("/a/b");
    assert_eq!(a.parent().unwrap().display(), "/a");
    assert!(FsPath::root().parent().is_none());
    assert!(a.eq_path(&p("/a/./b")));
    assert!(!a.eq_path(&p("/a/c")));
}
