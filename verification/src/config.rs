//! Rule configuration: each rule binds a file scope to one comparison
//! strategy and an ordered list of target names.

use vstd::prelude::*;

verus! {

/// A rule for the definition diff strategy: compare the canonical renderings
/// of the named functions or methods between the two versions of `file`.
#[derive(Debug)]
pub struct StrategyARule {
    pub file: String,
    pub functions: Vec<String>,
}

/// A rule for the occurrence diff strategy: compare the number of literal
/// textual occurrences of the named identifiers between the two versions
/// of `file`.
#[derive(Debug)]
pub struct StrategyBRule {
    pub file: String,
    pub functions: Vec<String>,
}

/// A rule for the trait shape diff strategy: compare the sets of declared
/// method names of the named traits between the two versions of `file`.
#[derive(Debug)]
pub struct StrategyCRule {
    pub file: String,
    pub traits: Vec<String>,
}

/// The whole rule set, one list of rules per strategy.
#[derive(Debug)]
pub struct MonitorConfig {
    pub strategy_a: Vec<StrategyARule>,
    pub strategy_b: Vec<StrategyBRule>,
    pub strategy_c: Vec<StrategyCRule>,
}

} // verus!
