use ast_monitor::config::StrategyBRule;
use ast_monitor::strategies::analyze_strategy_b;

fn rule(file: &str, functions: &[&str]) -> StrategyBRule {
    StrategyBRule {
        file: file.to_string(),
        functions: functions.iter().map(|s| s.to_string()).collect(),
    }
}

#[test]
fn count_increase_reported_as_added() {
    let old_code = "helper();\nhelper();\n";
    let new_code = "helper();\nhelper();\nhelper();\n";
    let reports = analyze_strategy_b(old_code, new_code, &rule("lib.rs", &["helper"]));
    assert_eq!(
        reports,
        vec![
            "[STRATEGY_B] Call points to 'helper' may have been added in 'lib.rs' (occurrence changed from 2 to 3).".to_string(),
        ]
    );
}

#[test]
fn count_decrease_reported_as_removed() {
    let old_code = "helper(); helper(); helper();";
    let new_code = "helper();";
    let reports = analyze_strategy_b(old_code, new_code, &rule("lib.rs", &["helper"]));
    assert_eq!(
        reports,
        vec![
            "[STRATEGY_B] Call points to 'helper' may have been removed in 'lib.rs' (occurrence changed from 3 to 1).".to_string(),
        ]
    );
}

#[test]
fn equal_counts_yield_no_report_wherever_occurrences_sit() {
    let old_code = "helper();\nfn main() {\n    helper();\n}\n";
    let new_code = "fn main() {}\n// helper helper\n";
    let reports = analyze_strategy_b(old_code, new_code, &rule("lib.rs", &["helper"]));
    assert!(reports.is_empty());
}

#[test]
fn identical_text_yields_no_report() {
    let code = "alpha(); beta(); alpha();";
    let reports = analyze_strategy_b(code, code, &rule("lib.rs", &["alpha", "beta"]));
    assert!(reports.is_empty());
}

#[test]
fn occurrences_counted_without_overlap() {
    // "aaaa" holds two non-overlapping "aa", "aaaaaa" holds three.
    let reports = analyze_strategy_b("aaaa", "aaaaaa", &rule("lib.rs", &["aa"]));
    assert_eq!(
        reports,
        vec![
            "[STRATEGY_B] Call points to 'aa' may have been added in 'lib.rs' (occurrence changed from 2 to 3).".to_string(),
        ]
    );
}

#[test]
fn appearance_from_zero_reported() {
    let reports = analyze_strategy_b("nothing here", "probe()", &rule("lib.rs", &["probe"]));
    assert_eq!(
        reports,
        vec![
            "[STRATEGY_B] Call points to 'probe' may have been added in 'lib.rs' (occurrence changed from 0 to 1).".to_string(),
        ]
    );
}

#[test]
fn empty_target_counts_character_boundaries() {
    // An empty needle occurs len + 1 times, as str::matches counts it.
    assert_eq!("ab".matches("").count(), 3);
    assert_eq!("abc".matches("").count(), 4);
    let reports = analyze_strategy_b("ab", "abc", &rule("lib.rs", &[""]));
    assert_eq!(
        reports,
        vec![
            "[STRATEGY_B] Call points to '' may have been added in 'lib.rs' (occurrence changed from 3 to 4).".to_string(),
        ]
    );
}

#[test]
fn counts_match_str_matches_on_rust_source() {
    let old_code = "fn lookup() { lookup_table(); }\n";
    let new_code = "fn lookup() {}\n";
    let old_expected = old_code.matches("lookup").count();
    let new_expected = new_code.matches("lookup").count();
    assert_eq!(old_expected, 2);
    assert_eq!(new_expected, 1);
    let reports = analyze_strategy_b(old_code, new_code, &rule("lib.rs", &["lookup"]));
    assert_eq!(
        reports,
        vec![
            "[STRATEGY_B] Call points to 'lookup' may have been removed in 'lib.rs' (occurrence changed from 2 to 1).".to_string(),
        ]
    );
}

#[test]
fn two_digit_counts_rendered_in_decimal() {
    let old_code = "x x x x x x x x x x x x";
    let new_code = "x x x x x x x x x x x x x";
    let reports = analyze_strategy_b(old_code, new_code, &rule("lib.rs", &["x"]));
    assert_eq!(
        reports,
        vec![
            "[STRATEGY_B] Call points to 'x' may have been added in 'lib.rs' (occurrence changed from 12 to 13).".to_string(),
        ]
    );
}

#[test]
fn targets_reported_in_rule_order() {
    let old_code = "one two";
    let new_code = "one one two two";
    let reports = analyze_strategy_b(old_code, new_code, &rule("lib.rs", &["two", "one"]));
    assert_eq!(
        reports,
        vec![
            "[STRATEGY_B] Call points to 'two' may have been added in 'lib.rs' (occurrence changed from 1 to 2).".to_string(),
            "[STRATEGY_B] Call points to 'one' may have been added in 'lib.rs' (occurrence changed from 1 to 2).".to_string(),
        ]
    );
}
