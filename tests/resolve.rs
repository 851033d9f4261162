use nodejs_resolver::exports::{ExportEntry, ExportTarget, ExportsMap};
use nodejs_resolver::fs::{FileSystem, PkgInfo};
use nodejs_resolver::path::FsPath;
use nodejs_resolver::resolver::{ResolveOptions, Resolver};
use nodejs_resolver::state::{Context, Info, ResolveError, State};
use nodejs_resolver::request::parse_request;

fn p(s: &str) -> FsPath {
    FsPath::root().join(s)
}

fn strings(v: &[&str]) -> Vec<String> {
    v.iter().map(|s| s.to_string()).collect()
}

fn options() -> ResolveOptions {
    ResolveOptions {
        extensions: strings(&[".js", ".json"]),
        modules: strings(&["node_modules"]),
        condition_names: strings(&["require"]),
        main_files: strings(&["index"]),
        enforce_extension: false,
        resolve_to_context: false,
    }
}

fn fs(files: &[&str], dirs: &[&str], manifests: Vec<PkgInfo>, broken: &[&str]) -> FileSystem {
    FileSystem {
        files: files.iter().map(|s| p(s)).collect(),
        dirs: dirs.iter().map(|s| p(s)).collect(),
        manifests,
        broken: broken.iter().map(|s| p(s)).collect(),
    }
}

fn exports(pairs: &[(&str, &str)]) -> ExportsMap {
    ExportsMap {
        entries: pairs
            .iter()
            .map(|(k, t)| ExportEntry {
                key: k.to_string(),
                targets: vec![ExportTarget { condition: None, target: t.to_string() }],
            })
            .collect(),
    }
}

fn pkg(dir: &str, name: &str, main: Option<&str>, ex: Option<ExportsMap>) -> PkgInfo {
    PkgInfo { dir: p(dir), name: Some(name.to_string()), main: main.map(|m| m.to_string()), exports: ex }
}

fn resolved(st: &State) -> String {
    match st {
        State::Success(res) => res.path.display(),
        State::Failed(_) => "failed".to_string(),
        State::Resolving(_) => "resolving".to_string(),
        State::Error(ResolveError::NotExported { .. }) => "not exported".to_string(),
        State::Error(ResolveError::InvalidTarget { .. }) => "invalid target".to_string(),
        State::Error(ResolveError::BrokenManifest { manifest_dir }) => {
            format!("broken manifest at {}", manifest_dir.display())
        }
        State::Error(ResolveError::TooDeep) => "too deep".to_string(),
    }
}

#[test]
fn first_extension_wins() {
    let r = Resolver::new(options(), fs(&["/p/foo.js", "/p/foo.json"], &["/p"], vec![], &[]));
    assert_eq!(resolved(&r.resolve(&p("/p"), "./foo")), "/p/foo.js");
    let mut o = options();
    o.extensions = strings(&[".json", ".js"]);
    let r = Resolver::new(o, fs(&["/p/foo.js", "/p/foo.json"], &["/p"], vec![], &[]));
    assert_eq!(resolved(&r.resolve(&p("/p"), "./foo")), "/p/foo.json");
}

#[test]
fn literal_file_before_extensions() {
    let r = Resolver::new(options(), fs(&["/p/foo", "/p/foo.js"], &["/p"], vec![], &[]));
    assert_eq!(resolved(&r.resolve(&p("/p"), "./foo")), "/p/foo");
}

#[test]
fn enforced_extension_skips_bare_file() {
    let mut o = options();
    o.enforce_extension = true;
    let r = Resolver::new(o, fs(&["/p/foo"], &["/p"], vec![], &[]));
    assert_eq!(resolved(&r.resolve(&p("/p"), "./foo")), "failed");
    let info = Info { path: p("/p"), request: parse_request("./foo") };
    assert_eq!(resolved(&r.resolve_as_file(info)), "resolving");
}

#[test]
fn query_and_fragment_are_kept() {
    let r = Resolver::new(options(), fs(&["/p/foo.js"], &["/p"], vec![], &[]));
    match r.resolve(&p("/p"), "./foo?x=1#top") {
        State::Success(res) => {
            assert_eq!(res.path.display(), "/p/foo.js");
            assert_eq!(res.query, "?x=1");
            assert_eq!(res.fragment, "#top");
        }
        other => panic!("unexpected {}", resolved(&other)),
    }
}

fn exports_fs() -> FileSystem {
    fs(
        &["/p/node_modules/pkg/index.js", "/p/node_modules/pkg/missing", "/p/node_modules/pkg/missing.js"],
        &["/p", "/p/node_modules", "/p/node_modules/pkg"],
        vec![pkg("/p/node_modules/pkg", "pkg", None, Some(exports(&[(".", "./index.js")])))],
        &[],
    )
}

#[test]
fn exports_root_entry() {
    let r = Resolver::new(options(), exports_fs());
    assert_eq!(resolved(&r.resolve(&p("/p"), "pkg")), "/p/node_modules/pkg/index.js");
}

#[test]
fn exports_are_closed_world() {
    let r = Resolver::new(options(), exports_fs());
    assert_eq!(resolved(&r.resolve(&p("/p"), "pkg/missing")), "not exported");
}

#[test]
fn invalid_export_target_is_an_error() {
    let r = Resolver::new(
        options(),
        fs(
            &["/p/x.js"],
            &["/p", "/p/node_modules", "/p/node_modules/pkg"],
            vec![pkg("/p/node_modules/pkg", "pkg", None, Some(exports(&[(".", "../../x.js")])))],
            &[],
        ),
    );
    assert_eq!(resolved(&r.resolve(&p("/p"), "pkg")), "invalid target");
}

#[test]
fn self_reference_goes_through_exports() {
    let r = Resolver::new(
        options(),
        fs(
            &["/d/lib/util.js", "/d/src/a.js", "/d/util.js"],
            &["/d", "/d/lib", "/d/src"],
            vec![pkg("/d", "pkg", None, Some(exports(&[("./util", "./lib/util.js")])))],
            &[],
        ),
    );
    assert_eq!(resolved(&r.resolve(&p("/d/src"), "pkg/util")), "/d/lib/util.js");
    assert_eq!(resolved(&r.resolve(&p("/d"), "pkg/util")), "/d/lib/util.js");
}

#[test]
fn find_up_reaches_ancestor_modules() {
    let mut o = options();
    o.modules = strings(&["X"]);
    let r = Resolver::new(o, fs(&["/d/X/m.js"], &["/d", "/d/a", "/d/a/b", "/d/X"], vec![], &[]));
    assert_eq!(resolved(&r.resolve(&p("/d/a/b"), "m")), "/d/X/m.js");
    assert_eq!(resolved(&r.resolve(&p("/d/a/b"), "nothing")), "failed");
}

#[test]
fn nearer_module_directory_wins() {
    let r = Resolver::new(
        options(),
        fs(
            &["/d/node_modules/m.js", "/d/a/node_modules/m.js"],
            &["/d", "/d/a", "/d/node_modules", "/d/a/node_modules"],
            vec![],
            &[],
        ),
    );
    assert_eq!(resolved(&r.resolve(&p("/d/a"), "m")), "/d/a/node_modules/m.js");
}

#[test]
fn main_field_and_index_file() {
    let r = Resolver::new(
        options(),
        fs(
            &["/p/node_modules/m/lib/entry.js", "/p/sub/index.js"],
            &["/p", "/p/sub", "/p/node_modules", "/p/node_modules/m", "/p/node_modules/m/lib"],
            vec![pkg("/p/node_modules/m", "m", Some("lib/entry"), None)],
            &[],
        ),
    );
    assert_eq!(resolved(&r.resolve(&p("/p"), "m")), "/p/node_modules/m/lib/entry.js");
    assert_eq!(resolved(&r.resolve(&p("/p"), "./sub")), "/p/sub/index.js");
}

#[test]
fn resolve_to_context_accepts_directory() {
    let mut o = options();
    o.resolve_to_context = true;
    let r = Resolver::new(o, fs(&[], &["/p", "/p/sub"], vec![], &[]));
    assert_eq!(resolved(&r.resolve(&p("/p"), "./sub")), "/p/sub");
}

#[test]
fn broken_manifest_is_an_error() {
    let r = Resolver::new(options(), fs(&[], &["/p", "/p/q"], vec![], &["/p/q"]));
    assert_eq!(resolved(&r.resolve(&p("/p"), "./q")), "broken manifest at /p/q");
}

#[test]
fn exhausted_budget_is_an_error() {
    let r = Resolver::new(options(), fs(&["/p/foo.js"], &["/p"], vec![], &[]));
    let info = Info { path: p("/p"), request: parse_request("./foo") };
    assert_eq!(resolved(&r._resolve(info, Context { depth: 0 })), "too deep");
}

#[test]
fn append_ext_extends_last_component() {
    assert_eq!(Resolver::append_ext_for_path(&p("/a/b"), ".js").display(), "/a/b.js");
}

#[test]
fn exports_key_carries_query_and_fragment() {
    let r = Resolver::new(
        options(),
        fs(
            &["/p/node_modules/pkg/q.js", "/p/node_modules/pkg/sub.js"],
            &["/p", "/p/node_modules", "/p/node_modules/pkg"],
            vec![pkg(
                "/p/node_modules/pkg",
                "pkg",
                None,
                Some(exports(&[("./?v=1", "./q.js"), ("./sub#top", "./sub.js")])),
            )],
            &[],
        ),
    );
    assert_eq!(resolved(&r.resolve(&p("/p"), "pkg?v=1")), "/p/node_modules/pkg/q.js");
    assert_eq!(resolved(&r.resolve(&p("/p"), "pkg/sub#top")), "/p/node_modules/pkg/sub.js");
    assert_eq!(resolved(&r.resolve(&p("/p"), "pkg")), "not exported");
}

#[test]
fn find_up_past_root_manifest_to_package_directory() {
    let r = Resolver::new(
        options(),
        fs(
            &["/d/node_modules/pkg/index.js", "/d/a/node_modules/other.js"],
            &["/d", "/d/a", "/d/a/b", "/d/a/node_modules", "/d/node_modules", "/d/node_modules/pkg"],
            vec![pkg("/d", "app", None, None)],
            &[],
        ),
    );
    assert_eq!(resolved(&r.resolve(&p("/d/a/b"), "pkg")), "/d/node_modules/pkg/index.js");
    assert_eq!(resolved(&r.resolve(&p("/d/a/b"), "other")), "/d/a/node_modules/other.js");
}

#[test]
fn absolute_module_directory_with_enforced_extension() {
    let mut o = options();
    o.enforce_extension = true;
    o.modules = strings(&["/m"]);
    let r = Resolver::new(o, fs(&["/m/foo", "/p/m/foo.js"], &["/m", "/p", "/p/m"], vec![], &[]));
    assert_eq!(resolved(&r.resolve(&p("/p"), "foo")), "failed");
    let mut o = options();
    o.modules = strings(&["/m", "/n"]);
    let r = Resolver::new(o, fs(&["/n/foo.js"], &["/m", "/n", "/p"], vec![], &[]));
    assert_eq!(resolved(&r.resolve(&p("/p"), "foo")), "/n/foo.js");
}

#[test]
fn directory_main_entry_before_index() {
    let r = Resolver::new(
        options(),
        fs(
            &["/p/lib/start.js", "/p/lib/index.js", "/p/lib/main.js"],
            &["/p", "/p/lib"],
            vec![pkg("/p/lib", "lib", Some("./main"), None)],
            &[],
        ),
    );
    assert_eq!(resolved(&r.resolve(&p("/p"), "./lib")), "/p/lib/main.js");
}

#[test]
fn export_list_tries_targets_in_order() {
    let map = ExportsMap {
        entries: vec![ExportEntry {
            key: ".".to_string(),
            targets: vec![
                ExportTarget { condition: None, target: "./absent.js".to_string() },
                ExportTarget { condition: None, target: "./present.js".to_string() },
            ],
        }],
    };
    let r = Resolver::new(
        options(),
        fs(
            &["/p/node_modules/pkg/present.js"],
            &["/p", "/p/node_modules", "/p/node_modules/pkg"],
            vec![pkg("/p/node_modules/pkg", "pkg", None, Some(map))],
            &[],
        ),
    );
    assert_eq!(resolved(&r.resolve(&p("/p"), "pkg")), "/p/node_modules/pkg/present.js");
}

#[test]
fn error_in_storage_directory_stops_search() {
    let mut o = options();
    o.modules = strings(&["/x", "/y"]);
    let r = Resolver::new(o, fs(&["/y/foo.js"], &["/x", "/y", "/p"], vec![], &["/x"]));
    assert_eq!(resolved(&r.resolve(&p("/p"), "foo")), "broken manifest at /x");
}

#[test]
fn broken_manifest_names_governing_directory() {
    let r = Resolver::new(options(), fs(&[], &["/p", "/p/q"], vec![], &["/p"]));
    assert_eq!(resolved(&r.resolve(&p("/p"), "./q")), "broken manifest at /p");
}
