use ast_monitor::config::StrategyARule;
use ast_monitor::model::{FnDef, ModelItem, SourceFile};
use ast_monitor::strategies::analyze_strategy_a;

fn func(name: &str, canon: &str) -> ModelItem {
    ModelItem::Func(FnDef { name: name.to_string(), canon: canon.to_string() })
}

fn file_of(items: Vec<ModelItem>) -> SourceFile {
    SourceFile { items }
}

fn rule(file: &str, functions: &[&str]) -> StrategyARule {
    StrategyARule {
        file: file.to_string(),
        functions: functions.iter().map(|s| s.to_string()).collect(),
    }
}

#[test]
fn modified_function_reported() {
    let old = file_of(vec![func("parse", "fn parse() {\n    1\n}\n")]);
    let new = file_of(vec![func("parse", "fn parse() {\n    2\n}\n")]);
    let reports = analyze_strategy_a(&old, &new, &rule("lib.rs", &["parse"]));
    assert_eq!(
        reports,
        vec!["[STRATEGY_A] Function or method 'parse' in 'lib.rs' has been modified.".to_string()]
    );
}

#[test]
fn added_function_reported() {
    let old = file_of(vec![]);
    let new = file_of(vec![func("fresh", "fn fresh() {}\n")]);
    let reports = analyze_strategy_a(&old, &new, &rule("lib.rs", &["fresh"]));
    assert_eq!(
        reports,
        vec!["[STRATEGY_A] Function or method 'fresh' in 'lib.rs' has been added.".to_string()]
    );
}

#[test]
fn removed_function_reported() {
    let old = file_of(vec![func("gone", "fn gone() {}\n")]);
    let new = file_of(vec![]);
    let reports = analyze_strategy_a(&old, &new, &rule("lib.rs", &["gone"]));
    assert_eq!(
        reports,
        vec!["[STRATEGY_A] Function or method 'gone' in 'lib.rs' has been removed.".to_string()]
    );
}

#[test]
fn swapping_inputs_swaps_labels() {
    let with_f = file_of(vec![func("f", "fn f() {}\n")]);
    let without_f = file_of(vec![]);
    let r = rule("lib.rs", &["f"]);
    let forward = analyze_strategy_a(&with_f, &without_f, &r);
    let backward = analyze_strategy_a(&without_f, &with_f, &r);
    assert_eq!(
        forward,
        vec!["[STRATEGY_A] Function or method 'f' in 'lib.rs' has been removed.".to_string()]
    );
    assert_eq!(
        backward,
        vec!["[STRATEGY_A] Function or method 'f' in 'lib.rs' has been added.".to_string()]
    );
}

#[test]
fn identical_file_yields_no_report() {
    let old = file_of(vec![func("parse", "fn parse() {\n    1\n}\n")]);
    let new = file_of(vec![func("parse", "fn parse() {\n    1\n}\n")]);
    let reports = analyze_strategy_a(&old, &new, &rule("lib.rs", &["parse"]));
    assert!(reports.is_empty());
}

#[test]
fn absent_in_both_yields_no_report() {
    let old = file_of(vec![]);
    let new = file_of(vec![]);
    let reports = analyze_strategy_a(&old, &new, &rule("lib.rs", &["nobody"]));
    assert!(reports.is_empty());
}

#[test]
fn reports_follow_rule_order() {
    let old = file_of(vec![func("a", "A\n"), func("b", "B\n")]);
    let new = file_of(vec![func("a", "A2\n"), func("b", "B2\n")]);
    let reports = analyze_strategy_a(&old, &new, &rule("lib.rs", &["b", "a"]));
    assert_eq!(
        reports,
        vec![
            "[STRATEGY_A] Function or method 'b' in 'lib.rs' has been modified.".to_string(),
            "[STRATEGY_A] Function or method 'a' in 'lib.rs' has been modified.".to_string(),
        ]
    );
}

#[test]
fn method_in_impl_block_is_cataloged() {
    let old = file_of(vec![ModelItem::ImplBlock(vec![func("run", "fn run() {\n    1\n}\n")])]);
    let new = file_of(vec![ModelItem::ImplBlock(vec![func("run", "fn run() {\n    2\n}\n")])]);
    let reports = analyze_strategy_a(&old, &new, &rule("lib.rs", &["run"]));
    assert_eq!(
        reports,
        vec!["[STRATEGY_A] Function or method 'run' in 'lib.rs' has been modified.".to_string()]
    );
}

#[test]
fn impl_block_nested_in_other_item_is_found() {
    let nested_old =
        ModelItem::Other(vec![ModelItem::ImplBlock(vec![func("deep", "fn deep() {\n    1\n}\n")])]);
    let old = file_of(vec![nested_old]);
    let new = file_of(vec![]);
    let reports = analyze_strategy_a(&old, &new, &rule("lib.rs", &["deep"]));
    assert_eq!(
        reports,
        vec!["[STRATEGY_A] Function or method 'deep' in 'lib.rs' has been removed.".to_string()]
    );
}

#[test]
fn function_nested_in_other_item_is_not_cataloged() {
    let old = file_of(vec![ModelItem::Other(vec![func("inner", "fn inner() {}\n")])]);
    let new = file_of(vec![]);
    let reports = analyze_strategy_a(&old, &new, &rule("lib.rs", &["inner"]));
    assert!(reports.is_empty());
}

#[test]
fn duplicate_names_later_definition_wins() {
    let old = file_of(vec![func("m", "first\n"), func("m", "second\n")]);
    let new = file_of(vec![func("m", "second\n")]);
    let reports = analyze_strategy_a(&old, &new, &rule("lib.rs", &["m"]));
    assert!(reports.is_empty());

    let new_changed = file_of(vec![func("m", "third\n")]);
    let reports = analyze_strategy_a(&old, &new_changed, &rule("lib.rs", &["m"]));
    assert_eq!(
        reports,
        vec!["[STRATEGY_A] Function or method 'm' in 'lib.rs' has been modified.".to_string()]
    );
}

fn canon_of_first_fn(source: &str) -> (String, String) {
    let ast = syn::parse_file(source).unwrap();
    for item in &ast.items {
        if let syn::Item::Fn(f) = item {
            let name = f.sig.ident.to_string();
            let canon = prettyplease::unparse(&syn::File {
                shebang: None,
                frontmatter: None,
                attrs: vec![],
                items: vec![syn::Item::Fn(f.clone())],
            });
            return (name, canon);
        }
    }
    panic!("no function in source");
}

#[test]
fn whitespace_only_reformatting_yields_no_report() {
    let (old_name, old_canon) = canon_of_first_fn("fn f() { 1+2 }");
    let (new_name, new_canon) = canon_of_first_fn("fn f(){\n      1    +\n 2\n\n}");
    let old = file_of(vec![func(&old_name, &old_canon)]);
    let new = file_of(vec![func(&new_name, &new_canon)]);
    let reports = analyze_strategy_a(&old, &new, &rule("lib.rs", &["f"]));
    assert!(reports.is_empty());
}

#[test]
fn token_change_survives_pretty_printing() {
    let (old_name, old_canon) = canon_of_first_fn("fn f() { 1+2 }");
    let (new_name, new_canon) = canon_of_first_fn("fn f() { 1+3 }");
    let old = file_of(vec![func(&old_name, &old_canon)]);
    let new = file_of(vec![func(&new_name, &new_canon)]);
    let reports = analyze_strategy_a(&old, &new, &rule("lib.rs", &["f"]));
    assert_eq!(
        reports,
        vec!["[STRATEGY_A] Function or method 'f' in 'lib.rs' has been modified.".to_string()]
    );
}
