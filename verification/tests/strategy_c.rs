use ast_monitor::config::StrategyCRule;
use ast_monitor::model::{ModelItem, SourceFile, TraitDef};
use ast_monitor::strategies::analyze_strategy_c;

fn trait_decl(name: &str, methods: &[&str]) -> ModelItem {
    ModelItem::TraitDecl(TraitDef {
        name: name.to_string(),
        methods: methods.iter().map(|s| s.to_string()).collect(),
    })
}

fn file_of(items: Vec<ModelItem>) -> SourceFile {
    SourceFile { items }
}

fn rule(file: &str, traits: &[&str]) -> StrategyCRule {
    StrategyCRule { file: file.to_string(), traits: traits.iter().map(|s| s.to_string()).collect() }
}

#[test]
fn single_added_method_reported_once() {
    let old = file_of(vec![trait_decl("Shape", &["area"])]);
    let new = file_of(vec![trait_decl("Shape", &["area", "perimeter"])]);
    let reports = analyze_strategy_c(&old, &new, &rule("lib.rs", &["Shape"]));
    assert_eq!(
        reports,
        vec!["[STRATEGY_C] Method 'perimeter' was added to trait 'Shape' in 'lib.rs'.".to_string()]
    );
}

#[test]
fn removed_method_reported() {
    let old = file_of(vec![trait_decl("Shape", &["area", "perimeter"])]);
    let new = file_of(vec![trait_decl("Shape", &["area"])]);
    let reports = analyze_strategy_c(&old, &new, &rule("lib.rs", &["Shape"]));
    assert_eq!(
        reports,
        vec![
            "[STRATEGY_C] Method 'perimeter' was removed from trait 'Shape' in 'lib.rs'."
                .to_string(),
        ]
    );
}

#[test]
fn identical_trait_yields_no_report() {
    let old = file_of(vec![trait_decl("Shape", &["area", "perimeter"])]);
    let new = file_of(vec![trait_decl("Shape", &["perimeter", "area"])]);
    let reports = analyze_strategy_c(&old, &new, &rule("lib.rs", &["Shape"]));
    assert!(reports.is_empty());
}

#[test]
fn trait_present_in_only_one_version_yields_no_report() {
    let old = file_of(vec![trait_decl("OnlyOld", &["a"])]);
    let new = file_of(vec![trait_decl("OnlyNew", &["b"])]);
    let reports = analyze_strategy_c(&old, &new, &rule("lib.rs", &["OnlyOld", "OnlyNew"]));
    assert!(reports.is_empty());
}

#[test]
fn additions_reported_before_removals() {
    let old = file_of(vec![trait_decl("Port", &["send", "close"])]);
    let new = file_of(vec![trait_decl("Port", &["send", "open"])]);
    let reports = analyze_strategy_c(&old, &new, &rule("lib.rs", &["Port"]));
    assert_eq!(
        reports,
        vec![
            "[STRATEGY_C] Method 'open' was added to trait 'Port' in 'lib.rs'.".to_string(),
            "[STRATEGY_C] Method 'close' was removed from trait 'Port' in 'lib.rs'.".to_string(),
        ]
    );
}

#[test]
fn duplicate_method_names_reported_once() {
    let old = file_of(vec![trait_decl("T", &["a"])]);
    let new = file_of(vec![trait_decl("T", &["a", "b", "b"])]);
    let reports = analyze_strategy_c(&old, &new, &rule("lib.rs", &["T"]));
    assert_eq!(
        reports,
        vec!["[STRATEGY_C] Method 'b' was added to trait 'T' in 'lib.rs'.".to_string()]
    );
}

#[test]
fn trait_nested_in_other_item_is_found() {
    let old = file_of(vec![ModelItem::Other(vec![trait_decl("Inner", &["f"])])]);
    let new = file_of(vec![ModelItem::Other(vec![trait_decl("Inner", &["f", "g"])])]);
    let reports = analyze_strategy_c(&old, &new, &rule("lib.rs", &["Inner"]));
    assert_eq!(
        reports,
        vec!["[STRATEGY_C] Method 'g' was added to trait 'Inner' in 'lib.rs'.".to_string()]
    );
}

#[test]
fn traits_handled_in_rule_order() {
    let old = file_of(vec![trait_decl("A", &["x"]), trait_decl("B", &["y"])]);
    let new = file_of(vec![trait_decl("A", &["x", "x2"]), trait_decl("B", &["y", "y2"])]);
    let reports = analyze_strategy_c(&old, &new, &rule("lib.rs", &["B", "A"]));
    assert_eq!(
        reports,
        vec![
            "[STRATEGY_C] Method 'y2' was added to trait 'B' in 'lib.rs'.".to_string(),
            "[STRATEGY_C] Method 'x2' was added to trait 'A' in 'lib.rs'.".to_string(),
        ]
    );
}
