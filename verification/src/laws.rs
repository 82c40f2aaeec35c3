//! Laws of the comparison engine, proved once and for all inputs: comparing
//! a version against itself is silent, the added/removed labels of the
//! definition diff swap with the inputs, equal canonical renderings and equal
//! occurrence counts draw no report, and a single method addition draws
//! exactly one trait shape report.

use crate::config::MonitorConfig;
use crate::model::SourceFile;
use crate::strategies::{
    a_added_report, a_removed_report, a_report_for, a_rules_reports, b_report_for,
    b_rules_reports, c_added_report, c_removed_report, c_rules_reports, c_trait_reports,
    engine_reports, missing_from, strategy_a_reports, strategy_b_reports, strategy_c_reports,
};
use crate::text::count_occ;
use vstd::prelude::*;

verus! {

/// The definition diff of a catalog against itself reports nothing, whatever
/// the targets.
pub proof fn lemma_strategy_a_self(
    cat: Map<Seq<char>, Seq<char>>,
    file: Seq<char>,
    targets: Seq<Seq<char>>,
)
    ensures
        strategy_a_reports(cat, cat, file, targets) == Seq::<Seq<char>>::empty(),
    decreases targets.len(),
{
    if targets.len() == 0 {
    } else {
        lemma_strategy_a_self(cat, file, targets.drop_last());
        assert(strategy_a_reports(cat, cat, file, targets) =~= Seq::<Seq<char>>::empty());
    }
}

/// The occurrence diff of a text against itself reports nothing, whatever
/// the targets.
pub proof fn lemma_strategy_b_self(text: Seq<char>, file: Seq<char>, targets: Seq<Seq<char>>)
    ensures
        strategy_b_reports(text, text, file, targets) == Seq::<Seq<char>>::empty(),
    decreases targets.len(),
{
    if targets.len() == 0 {
    } else {
        lemma_strategy_b_self(text, file, targets.drop_last());
        assert(strategy_b_reports(text, text, file, targets) =~= Seq::<Seq<char>>::empty());
    }
}

/// When every name of `l` also stands in `other`, nothing of `l` is missing
/// from `other`.
pub proof fn lemma_missing_from_subset(l: Seq<Seq<char>>, other: Seq<Seq<char>>)
    requires
        forall|x: Seq<char>| l.contains(x) ==> other.contains(x),
    ensures
        missing_from(l, other) == Seq::<Seq<char>>::empty(),
    decreases l.len(),
{
    if l.len() == 0 {
    } else {
        assert(l.contains(l.last()));
        assert forall|x: Seq<char>| l.drop_last().contains(x) implies other.contains(x) by {
            let i = choose|i: int| 0 <= i < l.drop_last().len() && l.drop_last()[i] == x;
            assert(l[i] == x);
            assert(l.contains(x));
        }
        lemma_missing_from_subset(l.drop_last(), other);
    }
}

/// The trait shape diff of a trait catalog against itself reports nothing,
/// whatever the targets.
pub proof fn lemma_strategy_c_self(
    cat: Map<Seq<char>, Seq<Seq<char>>>,
    file: Seq<char>,
    targets: Seq<Seq<char>>,
)
    ensures
        strategy_c_reports(cat, cat, file, targets) == Seq::<Seq<char>>::empty(),
    decreases targets.len(),
{
    if targets.len() == 0 {
    } else {
        lemma_strategy_c_self(cat, file, targets.drop_last());
        let tname = targets.last();
        if cat.contains_key(tname) {
            lemma_missing_from_subset(cat[tname], cat[tname]);
            assert(c_trait_reports(cat[tname], cat[tname], tname, file) =~= Seq::<
                Seq<char>,
            >::empty());
        }
        assert(strategy_c_reports(cat, cat, file, targets) =~= Seq::<Seq<char>>::empty());
    }
}

proof fn lemma_a_rules_self(
    rules: Seq<crate::config::StrategyARule>,
    file: Seq<char>,
    cat: Map<Seq<char>, Seq<char>>,
)
    ensures
        a_rules_reports(rules, file, cat, cat) == Seq::<Seq<char>>::empty(),
    decreases rules.len(),
{
    if rules.len() == 0 {
    } else {
        lemma_a_rules_self(rules.drop_last(), file, cat);
        lemma_strategy_a_self(cat, file, rules.last().functions.deep_view());
        assert(a_rules_reports(rules, file, cat, cat) =~= Seq::<Seq<char>>::empty());
    }
}

proof fn lemma_b_rules_self(
    rules: Seq<crate::config::StrategyBRule>,
    file: Seq<char>,
    text: Seq<char>,
)
    ensures
        b_rules_reports(rules, file, text, text) == Seq::<Seq<char>>::empty(),
    decreases rules.len(),
{
    if rules.len() == 0 {
    } else {
        lemma_b_rules_self(rules.drop_last(), file, text);
        lemma_strategy_b_self(text, file, rules.last().functions.deep_view());
        assert(b_rules_reports(rules, file, text, text) =~= Seq::<Seq<char>>::empty());
    }
}

proof fn lemma_c_rules_self(
    rules: Seq<crate::config::StrategyCRule>,
    file: Seq<char>,
    cat: Map<Seq<char>, Seq<Seq<char>>>,
)
    ensures
        c_rules_reports(rules, file, cat, cat) == Seq::<Seq<char>>::empty(),
    decreases rules.len(),
{
    if rules.len() == 0 {
    } else {
        lemma_c_rules_self(rules.drop_last(), file, cat);
        lemma_strategy_c_self(cat, file, rules.last().traits.deep_view());
        assert(c_rules_reports(rules, file, cat, cat) =~= Seq::<Seq<char>>::empty());
    }
}

/// Comparing a file against itself yields zero reports, for every rule set
/// and all three strategies at once.
pub proof fn lemma_identical_versions_silent(
    config: MonitorConfig,
    file: Seq<char>,
    tree: SourceFile,
    text: Seq<char>,
)
    ensures
        engine_reports(config, file, tree, tree, text, text) == Seq::<Seq<char>>::empty(),
{
    lemma_a_rules_self(config.strategy_a@, file, crate::model::fn_catalog(tree));
    lemma_b_rules_self(config.strategy_b@, file, text);
    lemma_c_rules_self(config.strategy_c@, file, crate::model::trait_catalog(tree));
    assert(engine_reports(config, file, tree, tree, text, text) =~= Seq::<Seq<char>>::empty());
}

/// A function present only in the old version is reported "removed"; only in
/// the new version, "added"; swapping the two inputs swaps the labels.
pub proof fn lemma_strategy_a_symmetry(
    oldc: Map<Seq<char>, Seq<char>>,
    newc: Map<Seq<char>, Seq<char>>,
    file: Seq<char>,
    name: Seq<char>,
)
    requires
        oldc.contains_key(name),
        !newc.contains_key(name),
    ensures
        a_report_for(oldc, newc, file, name) == Option::Some(a_removed_report(name, file)),
        a_report_for(newc, oldc, file, name) == Option::Some(a_added_report(name, file)),
{
}

/// A function whose canonical rendering is the same in both versions draws
/// no definition diff report. Reformatting a definition without changing its
/// tokens leaves its canonical rendering unchanged, so whitespace-only edits
/// are never reported.
pub proof fn lemma_strategy_a_same_canonical(
    oldc: Map<Seq<char>, Seq<char>>,
    newc: Map<Seq<char>, Seq<char>>,
    file: Seq<char>,
    name: Seq<char>,
)
    requires
        oldc.contains_key(name),
        newc.contains_key(name),
        oldc[name] == newc[name],
    ensures
        a_report_for(oldc, newc, file, name) == Option::<Seq<char>>::None,
{
}

/// A name that occurs equally often in both texts draws no occurrence diff
/// report, wherever in the file the occurrences sit.
pub proof fn lemma_strategy_b_equal_counts(
    old_text: Seq<char>,
    new_text: Seq<char>,
    file: Seq<char>,
    name: Seq<char>,
)
    requires
        count_occ(old_text, name) == count_occ(new_text, name),
    ensures
        b_report_for(old_text, new_text, file, name) == Option::<Seq<char>>::None,
{
}

/// Adding one method `m` to a trait, and changing nothing else about it,
/// draws exactly one report: `m` added, and no method removed.
pub proof fn lemma_strategy_c_single_addition(
    old_methods: Seq<Seq<char>>,
    m: Seq<char>,
    tname: Seq<char>,
    file: Seq<char>,
)
    requires
        !old_methods.contains(m),
    ensures
        c_trait_reports(old_methods, old_methods.push(m), tname, file) == seq![
            c_added_report(m, tname, file),
        ],
{
    let new_methods = old_methods.push(m);
    assert(new_methods.drop_last() =~= old_methods);
    assert(new_methods.last() == m);
    lemma_missing_from_subset(old_methods, old_methods);
    assert(missing_from(new_methods, old_methods) =~= seq![m]);
    assert forall|x: Seq<char>| old_methods.contains(x) implies new_methods.contains(x) by {
        let i = choose|i: int| 0 <= i < old_methods.len() && old_methods[i] == x;
        assert(new_methods[i] == x);
    }
    lemma_missing_from_subset(old_methods, new_methods);
    assert(missing_from(new_methods, old_methods).map_values(
        |x: Seq<char>| c_added_report(x, tname, file),
    ) =~= seq![c_added_report(m, tname, file)]);
    assert(missing_from(old_methods, new_methods).map_values(
        |x: Seq<char>| c_removed_report(x, tname, file),
    ) =~= Seq::<Seq<char>>::empty());
    assert(c_trait_reports(old_methods, new_methods, tname, file) =~= seq![
        c_added_report(m, tname, file),
    ]);
}

} // verus!
