use nodejs_resolver::request::{
    get_module_name_from_request, get_path_from_request, parse_request, same_text,
    split_slash_from_request,
};

#[test]
fn test_split_slash_from_request() {
    assert_eq!(split_slash_from_request("a"), None);
    assert_eq!(split_slash_from_request("a/b"), Some(1));
    assert_eq!(split_slash_from_request("@a"), None);
    assert_eq!(split_slash_from_request("@a/b"), None);
    assert_eq!(split_slash_from_request("@a/b/c"), Some(4));
}

#[test]
fn test_get_module_name_from_request() {
    assert_eq!(get_module_name_from_request("a"), "a");
    assert_eq!(get_module_name_from_request("a/b"), "a");
    assert_eq!(get_module_name_from_request("@a"), "@a");
    assert_eq!(get_module_name_from_request("@a/b"), "@a/b");
    assert_eq!(get_module_name_from_request("@a/b/c"), "@a/b");
}

#[test]
fn test_get_path_from_request() {
    assert_eq!(get_path_from_request("a"), None);
    assert_eq!(get_path_from_request("a/b"), Some("/b".into()));
    assert_eq!(get_path_from_request("@a"), None);
    assert_eq!(get_path_from_request("@a/b"), None);
    assert_eq!(get_path_from_request("@a/b/c"), Some("/c".into()));
}

#[test]
fn name_and_subpath_rebuild_request() {
    for r in ["a", "a/b/c", "@s/n/x/y", "@s", "@s/n", "", "/x", "a//b"] {
        let name = get_module_name_from_request(r);
        match get_path_from_request(r) {
            Some(sub) => assert_eq!(format!("{name}{sub}"), r),
            None => assert_eq!(name, r),
        }
    }
}

#[test]
fn split_counts_characters_not_bytes() {
    assert_eq!(split_slash_from_request("é/b"), Some(1));
}

#[test]
fn parse_request_splits_query_and_fragment() {
    let r = parse_request("./a.js?x=1#frag");
    assert_eq!(r.target, "./a.js");
    assert_eq!(r.query, "?x=1");
    assert_eq!(r.fragment, "#frag");
    let r = parse_request("./a#b?c");
    assert_eq!(r.target, "./a");
    assert_eq!(r.query, "");
    assert_eq!(r.fragment, "#b?c");
    let r = parse_request("pkg");
    assert_eq!(r.target, "pkg");
    assert_eq!(r.query, "");
    assert_eq!(r.fragment, "");
}

#[test]
fn same_text_compares_characters() {
    assert!(same_text("abc", "abc"));
    assert!(!same_text("abc", "abd"));
    assert!(!same_text("abc", "ab"));
    assert!(same_text("", ""));
}
