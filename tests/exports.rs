use nodejs_resolver::exports::{check_target, ExportEntry, ExportTarget, ExportsMap};

fn t(cond: Option<&str>, target: &str) -> ExportTarget {
    ExportTarget { condition: cond.map(|c| c.to_string()), target: target.to_string() }
}

#[test]
fn field_process_selects_active_conditions_in_order() {
    let m = ExportsMap {
        entries: vec![
            ExportEntry { key: ".".to_string(), targets: vec![t(Some("import"), "./a.mjs"), t(Some("require"), "./a.cjs"), t(None, "./a.js")] },
            ExportEntry { key: ".".to_string(), targets: vec![t(None, "./other.js")] },
        ],
    };
    let conds = vec!["require".to_string()];
    assert_eq!(m.field_process(".", &conds), Some(vec!["./a.cjs".to_string(), "./a.js".to_string()]));
    assert_eq!(m.field_process("./x", &conds), None);
}

#[test]
fn check_target_rules() {
    assert!(check_target("./lib/util.js"));
    assert!(check_target("./a..b"));
    assert!(!check_target("lib/util.js"));
    assert!(!check_target("./../x.js"));
    assert!(!check_target("./a/.."));
    assert!(!check_target("."));
}
