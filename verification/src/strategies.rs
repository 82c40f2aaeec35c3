//! The three comparison strategies. Each takes the two versions of one file
//! (as models or as raw text) and one rule, and returns one report line per
//! detected change, in rule order.

use crate::config::{MonitorConfig, StrategyARule, StrategyBRule, StrategyCRule};
use crate::model::{
    build_fn_catalog, build_trait_catalog, fn_catalog, trait_catalog, SourceFile,
};
use crate::text::{count_occ, count_occurrences, dec_rep, decimal_string};
use vstd::prelude::*;
use vstd::string::StringExecFns;

verus! {

/// The report that a watched function or method changed its definition.
pub open spec fn a_modified_report(name: Seq<char>, file: Seq<char>) -> Seq<char> {
    "[STRATEGY_A] Function or method '"@ + name + "' in '"@ + file + "' has been modified."@
}

/// The report that a watched function or method appeared.
pub open spec fn a_added_report(name: Seq<char>, file: Seq<char>) -> Seq<char> {
    "[STRATEGY_A] Function or method '"@ + name + "' in '"@ + file + "' has been added."@
}

/// The report that a watched function or method disappeared.
pub open spec fn a_removed_report(name: Seq<char>, file: Seq<char>) -> Seq<char> {
    "[STRATEGY_A] Function or method '"@ + name + "' in '"@ + file + "' has been removed."@
}

/// The report that occurrences of a watched name went up.
pub open spec fn b_added_report(name: Seq<char>, file: Seq<char>, oldn: nat, newn: nat) -> Seq<
    char,
> {
    "[STRATEGY_B] Call points to '"@ + name + "' may have been added in '"@ + file
        + "' (occurrence changed from "@ + dec_rep(oldn) + " to "@ + dec_rep(newn) + ")."@
}

/// The report that occurrences of a watched name went down.
pub open spec fn b_removed_report(name: Seq<char>, file: Seq<char>, oldn: nat, newn: nat) -> Seq<
    char,
> {
    "[STRATEGY_B] Call points to '"@ + name + "' may have been removed in '"@ + file
        + "' (occurrence changed from "@ + dec_rep(oldn) + " to "@ + dec_rep(newn) + ")."@
}

/// The report that a watched trait gained a method.
pub open spec fn c_added_report(method: Seq<char>, tname: Seq<char>, file: Seq<char>) -> Seq<
    char,
> {
    "[STRATEGY_C] Method '"@ + method + "' was added to trait '"@ + tname + "' in '"@ + file
        + "'."@
}

/// The report that a watched trait lost a method.
pub open spec fn c_removed_report(method: Seq<char>, tname: Seq<char>, file: Seq<char>) -> Seq<
    char,
> {
    "[STRATEGY_C] Method '"@ + method + "' was removed from trait '"@ + tname + "' in '"@ + file
        + "'."@
}

fn a_modified_line(name: &String, file: &String) -> (r: String)
    ensures
        r@ == a_modified_report(name@, file@),
{
    let mut r = String::from_str("[STRATEGY_A] Function or method '");
    r.append(name.as_str());
    r.append("' in '");
    r.append(file.as_str());
    r.append("' has been modified.");
    r
}

fn a_added_line(name: &String, file: &String) -> (r: String)
    ensures
        r@ == a_added_report(name@, file@),
{
    let mut r = String::from_str("[STRATEGY_A] Function or method '");
    r.append(name.as_str());
    r.append("' in '");
    r.append(file.as_str());
    r.append("' has been added.");
    r
}

fn a_removed_line(name: &String, file: &String) -> (r: String)
    ensures
        r@ == a_removed_report(name@, file@),
{
    let mut r = String::from_str("[STRATEGY_A] Function or method '");
    r.append(name.as_str());
    r.append("' in '");
    r.append(file.as_str());
    r.append("' has been removed.");
    r
}

fn b_line(name: &String, file: &String, oldn: usize, newn: usize, added: bool) -> (r: String)
    ensures
        added ==> r@ == b_added_report(name@, file@, oldn as nat, newn as nat),
        !added ==> r@ == b_removed_report(name@, file@, oldn as nat, newn as nat),
{
    let mut r = String::from_str("[STRATEGY_B] Call points to '");
    r.append(name.as_str());
    if added {
        r.append("' may have been added in '");
    } else {
        r.append("' may have been removed in '");
    }
    r.append(file.as_str());
    r.append("' (occurrence changed from ");
    let os = decimal_string(oldn);
    r.append(os.as_str());
    r.append(" to ");
    let ns = decimal_string(newn);
    r.append(ns.as_str());
    r.append(").");
    r
}

fn c_added_line(method: &String, tname: &String, file: &String) -> (r: String)
    ensures
        r@ == c_added_report(method@, tname@, file@),
{
    let mut r = String::from_str("[STRATEGY_C] Method '");
    r.append(method.as_str());
    r.append("' was added to trait '");
    r.append(tname.as_str());
    r.append("' in '");
    r.append(file.as_str());
    r.append("'.");
    r
}

fn c_removed_line(method: &String, tname: &String, file: &String) -> (r: String)
    ensures
        r@ == c_removed_report(method@, tname@, file@),
{
    let mut r = String::from_str("[STRATEGY_C] Method '");
    r.append(method.as_str());
    r.append("' was removed from trait '");
    r.append(tname.as_str());
    r.append("' in '");
    r.append(file.as_str());
    r.append("'.");
    r
}

/// The report, if any, that the definition diff emits for one target name:
/// present in both catalogs with different canonical texts, "modified";
/// present only in the new one, "added"; only in the old one, "removed";
/// in neither, nothing.
pub open spec fn a_report_for(
    oldc: Map<Seq<char>, Seq<char>>,
    newc: Map<Seq<char>, Seq<char>>,
    file: Seq<char>,
    name: Seq<char>,
) -> Option<Seq<char>> {
    if oldc.contains_key(name) && newc.contains_key(name) {
        if oldc[name] != newc[name] {
            Option::Some(a_modified_report(name, file))
        } else {
            Option::None
        }
    } else if newc.contains_key(name) {
        Option::Some(a_added_report(name, file))
    } else if oldc.contains_key(name) {
        Option::Some(a_removed_report(name, file))
    } else {
        Option::None
    }
}

/// An optional report as a (zero- or one-element) report sequence.
pub open spec fn opt_reports(o: Option<Seq<char>>) -> Seq<Seq<char>> {
    match o {
        Option::Some(r) => seq![r],
        Option::None => Seq::empty(),
    }
}

/// All reports of the definition diff, one target after the other in rule
/// order.
pub open spec fn strategy_a_reports(
    oldc: Map<Seq<char>, Seq<char>>,
    newc: Map<Seq<char>, Seq<char>>,
    file: Seq<char>,
    targets: Seq<Seq<char>>,
) -> Seq<Seq<char>>
    decreases targets.len(),
{
    if targets.len() == 0 {
        Seq::empty()
    } else {
        strategy_a_reports(oldc, newc, file, targets.drop_last()) + opt_reports(
            a_report_for(oldc, newc, file, targets.last()),
        )
    }
}

proof fn lemma_push_deep_view(v0: Vec<String>, v1: Vec<String>, x: String)
    requires
        v1@ == v0@.push(x),
    ensures
        v1.deep_view() == v0.deep_view().push(x@),
{
    assert forall|j: int| 0 <= j < v1@.len() implies v1.deep_view()[j] == v0.deep_view().push(
        x@,
    )[j] by {
        if j < v0@.len() {
            assert(v1@[j] == v0@[j]);
        } else {
            assert(v1@[j] == x);
        }
    }
    assert(v1.deep_view() =~= v0.deep_view().push(x@));
}

proof fn lemma_append_deep_view(v0: Vec<String>, v1: Vec<String>, v2: Vec<String>)
    requires
        v2@ == v0@ + v1@,
    ensures
        v2.deep_view() == v0.deep_view() + v1.deep_view(),
{
    assert forall|j: int| 0 <= j < v2@.len() implies v2.deep_view()[j] == (v0.deep_view()
        + v1.deep_view())[j] by {
        if j < v0@.len() {
            assert(v2@[j] == v0@[j]);
        } else {
            assert(v2@[j] == v1@[j - v0@.len()]);
        }
    }
    assert(v2.deep_view() =~= v0.deep_view() + v1.deep_view());
}

/// Definition diff: builds the function catalog of each version and compares
/// the canonical renderings of each target name, in rule order. A name that
/// is not a valid identifier can never match a catalog entry, so it yields
/// no report.
pub fn analyze_strategy_a(old_ast: &SourceFile, new_ast: &SourceFile, rule: &StrategyARule) -> (reports: Vec<String>)
    ensures
        reports.deep_view() == strategy_a_reports(
            fn_catalog(*old_ast),
            fn_catalog(*new_ast),
            rule.file@,
            rule.functions.deep_view(),
        ),
{
    let old_cat = build_fn_catalog(old_ast);
    let new_cat = build_fn_catalog(new_ast);
    let mut reports: Vec<String> = Vec::new();
    let n = rule.functions.len();
    let mut i: usize = 0;
    proof {
        assert(rule.functions.deep_view().take(0) =~= Seq::<Seq<char>>::empty());
    }
    while i < n
        invariant
            i <= n,
            n == rule.functions@.len(),
            old_cat@ == fn_catalog(*old_ast),
            new_cat@ == fn_catalog(*new_ast),
            reports.deep_view() == strategy_a_reports(
                old_cat@,
                new_cat@,
                rule.file@,
                rule.functions.deep_view().take(i as int),
            ),
        decreases n - i,
    {
        let name = &rule.functions[i];
        proof {
            assert(rule.functions.deep_view().take(i + 1).drop_last()
                =~= rule.functions.deep_view().take(i as int));
            assert(rule.functions.deep_view()[i as int] == name@);
        }
        let ghost prev = reports;
        let ghost line = a_report_for(old_cat@, new_cat@, rule.file@, name@);
        match (old_cat.get(name), new_cat.get(name)) {
            (Option::Some(old_fn), Option::Some(new_fn)) => {
                if !(*old_fn == *new_fn) {
                    let s = a_modified_line(name, &rule.file);
                    reports.push(s);
                    proof {
                        lemma_push_deep_view(prev, reports, s);
                    }
                }
            },
            (Option::None, Option::Some(_)) => {
                let s = a_added_line(name, &rule.file);
                reports.push(s);
                proof {
                    lemma_push_deep_view(prev, reports, s);
                }
            },
            (Option::Some(_), Option::None) => {
                let s = a_removed_line(name, &rule.file);
                reports.push(s);
                proof {
                    lemma_push_deep_view(prev, reports, s);
                }
            },
            (Option::None, Option::None) => {},
        }
        proof {
            assert(reports.deep_view() =~= prev.deep_view() + opt_reports(line));
        }
        i = i + 1;
    }
    proof {
        assert(rule.functions.deep_view().take(n as int) =~= rule.functions.deep_view());
    }
    reports
}

/// The report, if any, that the occurrence diff emits for one target name:
/// more occurrences in the new text than in the old, "may have been added";
/// fewer, "may have been removed"; equally many, nothing.
pub open spec fn b_report_for(
    old_text: Seq<char>,
    new_text: Seq<char>,
    file: Seq<char>,
    name: Seq<char>,
) -> Option<Seq<char>> {
    let oldn = count_occ(old_text, name);
    let newn = count_occ(new_text, name);
    if newn > oldn {
        Option::Some(b_added_report(name, file, oldn, newn))
    } else if newn < oldn {
        Option::Some(b_removed_report(name, file, oldn, newn))
    } else {
        Option::None
    }
}

/// All reports of the occurrence diff, one target after the other in rule
/// order.
pub open spec fn strategy_b_reports(
    old_text: Seq<char>,
    new_text: Seq<char>,
    file: Seq<char>,
    targets: Seq<Seq<char>>,
) -> Seq<Seq<char>>
    decreases targets.len(),
{
    if targets.len() == 0 {
        Seq::empty()
    } else {
        strategy_b_reports(old_text, new_text, file, targets.drop_last()) + opt_reports(
            b_report_for(old_text, new_text, file, targets.last()),
        )
    }
}

/// Occurrence diff: counts the non-overlapping literal occurrences of each
/// target name in the raw text of both versions and reports every change of
/// count, in rule order. This is a syntax-unaware, approximate signal: an
/// occurrence may sit in a comment, a string, or an unrelated identifier.
pub fn analyze_strategy_b(old_code: &str, new_code: &str, rule: &StrategyBRule) -> (reports: Vec<
    String,
>)
    requires
        old_code@.len() < usize::MAX,
        new_code@.len() < usize::MAX,
    ensures
        reports.deep_view() == strategy_b_reports(
            old_code@,
            new_code@,
            rule.file@,
            rule.functions.deep_view(),
        ),
{
    let mut reports: Vec<String> = Vec::new();
    let n = rule.functions.len();
    let mut i: usize = 0;
    proof {
        assert(rule.functions.deep_view().take(0) =~= Seq::<Seq<char>>::empty());
    }
    while i < n
        invariant
            i <= n,
            n == rule.functions@.len(),
            old_code@.len() < usize::MAX,
            new_code@.len() < usize::MAX,
            reports.deep_view() == strategy_b_reports(
                old_code@,
                new_code@,
                rule.file@,
                rule.functions.deep_view().take(i as int),
            ),
        decreases n - i,
    {
        let name = &rule.functions[i];
        proof {
            assert(rule.functions.deep_view().take(i + 1).drop_last()
                =~= rule.functions.deep_view().take(i as int));
            assert(rule.functions.deep_view()[i as int] == name@);
        }
        let ghost prev = reports;
        let ghost line = b_report_for(old_code@, new_code@, rule.file@, name@);
        let old_count = count_occurrences(old_code, name.as_str());
        let new_count = count_occurrences(new_code, name.as_str());
        if new_count > old_count {
            let s = b_line(name, &rule.file, old_count, new_count, true);
            reports.push(s);
            proof {
                lemma_push_deep_view(prev, reports, s);
            }
        } else if new_count < old_count {
            let s = b_line(name, &rule.file, old_count, new_count, false);
            reports.push(s);
            proof {
                lemma_push_deep_view(prev, reports, s);
            }
        }
        proof {
            assert(reports.deep_view() =~= prev.deep_view() + opt_reports(line));
        }
        i = i + 1;
    }
    proof {
        assert(rule.functions.deep_view().take(n as int) =~= rule.functions.deep_view());
    }
    reports
}

/// The names of `l` that are missing from `other`: first occurrences only,
/// in the order they stand in `l`. This is the list form of the set
/// difference of the two method-name sets.
pub open spec fn missing_from(l: Seq<Seq<char>>, other: Seq<Seq<char>>) -> Seq<Seq<char>>
    decreases l.len(),
{
    if l.len() == 0 {
        Seq::empty()
    } else {
        let rest = missing_from(l.drop_last(), other);
        if !other.contains(l.last()) && !l.drop_last().contains(l.last()) {
            rest.push(l.last())
        } else {
            rest
        }
    }
}

/// The reports of the trait shape diff for one trait present in both
/// versions: one "added" report per method name only in the new version,
/// then one "removed" report per method name only in the old one.
pub open spec fn c_trait_reports(
    old_methods: Seq<Seq<char>>,
    new_methods: Seq<Seq<char>>,
    tname: Seq<char>,
    file: Seq<char>,
) -> Seq<Seq<char>> {
    missing_from(new_methods, old_methods).map_values(|m: Seq<char>| c_added_report(m, tname, file))
        + missing_from(old_methods, new_methods).map_values(
        |m: Seq<char>| c_removed_report(m, tname, file),
    )
}

/// The reports that the trait shape diff emits for one target trait name:
/// nothing unless the trait is declared in both versions; otherwise the
/// method-set difference reports. A trait added or removed as a whole is out
/// of this strategy's scope.
pub open spec fn c_reports_for(
    oldc: Map<Seq<char>, Seq<Seq<char>>>,
    newc: Map<Seq<char>, Seq<Seq<char>>>,
    file: Seq<char>,
    tname: Seq<char>,
) -> Seq<Seq<char>> {
    if oldc.contains_key(tname) && newc.contains_key(tname) {
        c_trait_reports(oldc[tname], newc[tname], tname, file)
    } else {
        Seq::empty()
    }
}

/// All reports of the trait shape diff, one target after the other in rule
/// order.
pub open spec fn strategy_c_reports(
    oldc: Map<Seq<char>, Seq<Seq<char>>>,
    newc: Map<Seq<char>, Seq<Seq<char>>>,
    file: Seq<char>,
    targets: Seq<Seq<char>>,
) -> Seq<Seq<char>>
    decreases targets.len(),
{
    if targets.len() == 0 {
        Seq::empty()
    } else {
        strategy_c_reports(oldc, newc, file, targets.drop_last()) + c_reports_for(
            oldc,
            newc,
            file,
            targets.last(),
        )
    }
}

/// Whether `s` stands among the first `upto` entries of `v`.
fn contains_prefix(v: &Vec<String>, upto: usize, s: &String) -> (b: bool)
    requires
        upto <= v@.len(),
    ensures
        b == v.deep_view().take(upto as int).contains(s@),
{
    let mut j: usize = 0;
    while j < upto
        invariant
            j <= upto,
            upto <= v@.len(),
            forall|k: int| 0 <= k < j ==> v.deep_view()[k] != s@,
        decreases upto - j,
    {
        if v[j] == *s {
            proof {
                assert(v.deep_view().take(upto as int)[j as int] == s@);
            }
            return true;
        }
        j = j + 1;
    }
    proof {
        assert forall|k: int| 0 <= k < upto implies v.deep_view().take(upto as int)[k] != s@ by {
            assert(v.deep_view()[k] != s@);
        }
    }
    false
}

/// Appends, for every method name of `from` that is missing from `against`,
/// the corresponding report to `reports`, in the order of `from`.
fn push_missing(
    from: &Vec<String>,
    against: &Vec<String>,
    tname: &String,
    file: &String,
    added: bool,
    reports: &mut Vec<String>,
)
    ensures
        added ==> final(reports).deep_view() == old(reports).deep_view() + missing_from(
            from.deep_view(),
            against.deep_view(),
        ).map_values(|m: Seq<char>| c_added_report(m, tname@, file@)),
        !added ==> final(reports).deep_view() == old(reports).deep_view() + missing_from(
            from.deep_view(),
            against.deep_view(),
        ).map_values(|m: Seq<char>| c_removed_report(m, tname@, file@)),
{
    let n = from.len();
    let mut j: usize = 0;
    proof {
        assert(from.deep_view().take(0) =~= Seq::<Seq<char>>::empty());
        assert(reports.deep_view() =~= old(reports).deep_view() + missing_from(
            from.deep_view().take(0),
            against.deep_view(),
        ).map_values(|m: Seq<char>| c_added_report(m, tname@, file@)));
        assert(reports.deep_view() =~= old(reports).deep_view() + missing_from(
            from.deep_view().take(0),
            against.deep_view(),
        ).map_values(|m: Seq<char>| c_removed_report(m, tname@, file@)));
    }
    while j < n
        invariant
            j <= n,
            n == from@.len(),
            added ==> reports.deep_view() == old(reports).deep_view() + missing_from(
                from.deep_view().take(j as int),
                against.deep_view(),
            ).map_values(|m: Seq<char>| c_added_report(m, tname@, file@)),
            !added ==> reports.deep_view() == old(reports).deep_view() + missing_from(
                from.deep_view().take(j as int),
                against.deep_view(),
            ).map_values(|m: Seq<char>| c_removed_report(m, tname@, file@)),
        decreases n - j,
    {
        let m = &from[j];
        proof {
            assert(from.deep_view().take(j + 1).drop_last() =~= from.deep_view().take(j as int));
            assert(from.deep_view()[j as int] == m@);
        }
        let against_len = against.len();
        let ghost prev = *reports;
        if !contains_prefix(against, against_len, m) && !contains_prefix(from, j, m) {
            proof {
                assert(against.deep_view().take(against@.len() as int) =~= against.deep_view());
            }
            let s = if added {
                c_added_line(m, tname, file)
            } else {
                c_removed_line(m, tname, file)
            };
            reports.push(s);
            proof {
                lemma_push_deep_view(prev, *reports, s);
                if added {
                    assert(missing_from(from.deep_view().take(j + 1), against.deep_view())
                        .map_values(|x: Seq<char>| c_added_report(x, tname@, file@)) =~= missing_from(
                        from.deep_view().take(j as int),
                        against.deep_view(),
                    ).map_values(|x: Seq<char>| c_added_report(x, tname@, file@)).push(s@));
                } else {
                    assert(missing_from(from.deep_view().take(j + 1), against.deep_view())
                        .map_values(|x: Seq<char>| c_removed_report(x, tname@, file@)) =~= missing_from(
                        from.deep_view().take(j as int),
                        against.deep_view(),
                    ).map_values(|x: Seq<char>| c_removed_report(x, tname@, file@)).push(s@));
                }
                assert(reports.deep_view() =~= prev.deep_view().push(s@));
            }
        } else {
            proof {
                assert(against.deep_view().take(against@.len() as int) =~= against.deep_view());
                assert(missing_from(from.deep_view().take(j + 1), against.deep_view())
                    == missing_from(from.deep_view().take(j as int), against.deep_view()));
            }
        }
        proof {
            if added {
                assert(reports.deep_view() =~= old(reports).deep_view() + missing_from(
                    from.deep_view().take(j + 1),
                    against.deep_view(),
                ).map_values(|m: Seq<char>| c_added_report(m, tname@, file@)));
            } else {
                assert(reports.deep_view() =~= old(reports).deep_view() + missing_from(
                    from.deep_view().take(j + 1),
                    against.deep_view(),
                ).map_values(|m: Seq<char>| c_removed_report(m, tname@, file@)));
            }
        }
        j = j + 1;
    }
    proof {
        assert(from.deep_view().take(n as int) =~= from.deep_view());
    }
}

/// Trait shape diff: builds the trait catalog of each version and, for every
/// target trait declared in both, reports each method name added to it and
/// each method name removed from it, in rule order, additions first.
pub fn analyze_strategy_c(old_ast: &SourceFile, new_ast: &SourceFile, rule: &StrategyCRule) -> (reports: Vec<String>)
    ensures
        reports.deep_view() == strategy_c_reports(
            trait_catalog(*old_ast),
            trait_catalog(*new_ast),
            rule.file@,
            rule.traits.deep_view(),
        ),
{
    let old_cat = build_trait_catalog(old_ast);
    let new_cat = build_trait_catalog(new_ast);
    let mut reports: Vec<String> = Vec::new();
    let n = rule.traits.len();
    let mut i: usize = 0;
    proof {
        assert(rule.traits.deep_view().take(0) =~= Seq::<Seq<char>>::empty());
    }
    while i < n
        invariant
            i <= n,
            n == rule.traits@.len(),
            old_cat@ == trait_catalog(*old_ast),
            new_cat@ == trait_catalog(*new_ast),
            reports.deep_view() == strategy_c_reports(
                old_cat@,
                new_cat@,
                rule.file@,
                rule.traits.deep_view().take(i as int),
            ),
        decreases n - i,
    {
        let tname = &rule.traits[i];
        proof {
            assert(rule.traits.deep_view().take(i + 1).drop_last() =~= rule.traits.deep_view().take(
                i as int,
            ));
            assert(rule.traits.deep_view()[i as int] == tname@);
        }
        let ghost prev = reports;
        match (old_cat.get(tname), new_cat.get(tname)) {
            (Option::Some(old_methods), Option::Some(new_methods)) => {
                push_missing(new_methods, old_methods, tname, &rule.file, true, &mut reports);
                let ghost mid = reports;
                push_missing(old_methods, new_methods, tname, &rule.file, false, &mut reports);
                proof {
                    assert(reports.deep_view() =~= prev.deep_view() + c_trait_reports(
                        old_methods.deep_view(),
                        new_methods.deep_view(),
                        tname@,
                        rule.file@,
                    ));
                }
            },
            _ => {
                proof {
                    assert(reports.deep_view() =~= prev.deep_view() + c_reports_for(
                        old_cat@,
                        new_cat@,
                        rule.file@,
                        tname@,
                    ));
                }
            },
        }
        proof {
            assert(reports.deep_view() =~= prev.deep_view() + c_reports_for(
                old_cat@,
                new_cat@,
                rule.file@,
                tname@,
            ));
        }
        i = i + 1;
    }
    proof {
        assert(rule.traits.deep_view().take(n as int) =~= rule.traits.deep_view());
    }
    reports
}

/// The definition diff reports of every rule scoped to `file`, in rule
/// order.
pub open spec fn a_rules_reports(
    rules: Seq<StrategyARule>,
    file: Seq<char>,
    oldc: Map<Seq<char>, Seq<char>>,
    newc: Map<Seq<char>, Seq<char>>,
) -> Seq<Seq<char>>
    decreases rules.len(),
{
    if rules.len() == 0 {
        Seq::empty()
    } else {
        a_rules_reports(rules.drop_last(), file, oldc, newc) + (if rules.last().file@ == file {
            strategy_a_reports(oldc, newc, file, rules.last().functions.deep_view())
        } else {
            Seq::empty()
        })
    }
}

/// The occurrence diff reports of every rule scoped to `file`, in rule
/// order.
pub open spec fn b_rules_reports(
    rules: Seq<StrategyBRule>,
    file: Seq<char>,
    old_text: Seq<char>,
    new_text: Seq<char>,
) -> Seq<Seq<char>>
    decreases rules.len(),
{
    if rules.len() == 0 {
        Seq::empty()
    } else {
        b_rules_reports(rules.drop_last(), file, old_text, new_text) + (if rules.last().file@
            == file {
            strategy_b_reports(old_text, new_text, file, rules.last().functions.deep_view())
        } else {
            Seq::empty()
        })
    }
}

/// The trait shape diff reports of every rule scoped to `file`, in rule
/// order.
pub open spec fn c_rules_reports(
    rules: Seq<StrategyCRule>,
    file: Seq<char>,
    oldc: Map<Seq<char>, Seq<Seq<char>>>,
    newc: Map<Seq<char>, Seq<Seq<char>>>,
) -> Seq<Seq<char>>
    decreases rules.len(),
{
    if rules.len() == 0 {
        Seq::empty()
    } else {
        c_rules_reports(rules.drop_last(), file, oldc, newc) + (if rules.last().file@ == file {
            strategy_c_reports(oldc, newc, file, rules.last().traits.deep_view())
        } else {
            Seq::empty()
        })
    }
}

/// Every report of one whole comparison: the definition diff reports of all
/// applicable rules, then the occurrence diff reports, then the trait shape
/// diff reports. A rule whose file scope differs from `file` is inert.
pub open spec fn engine_reports(
    config: MonitorConfig,
    file: Seq<char>,
    old_f: SourceFile,
    new_f: SourceFile,
    old_text: Seq<char>,
    new_text: Seq<char>,
) -> Seq<Seq<char>> {
    a_rules_reports(config.strategy_a@, file, fn_catalog(old_f), fn_catalog(new_f))
        + b_rules_reports(config.strategy_b@, file, old_text, new_text) + c_rules_reports(
        config.strategy_c@,
        file,
        trait_catalog(old_f),
        trait_catalog(new_f),
    )
}

/// Runs every rule of the configuration that is scoped to `file` against the
/// two versions, and concatenates the reports in strategy-then-rule-then-
/// target order.
pub fn apply_rules(
    config: &MonitorConfig,
    file: &String,
    old_ast: &SourceFile,
    new_ast: &SourceFile,
    old_code: &str,
    new_code: &str,
) -> (reports: Vec<String>)
    requires
        old_code@.len() < usize::MAX,
        new_code@.len() < usize::MAX,
    ensures
        reports.deep_view() == engine_reports(
            *config,
            file@,
            *old_ast,
            *new_ast,
            old_code@,
            new_code@,
        ),
{
    let mut reports: Vec<String> = Vec::new();
    let na = config.strategy_a.len();
    let mut i: usize = 0;
    proof {
        assert(config.strategy_a@.take(0) =~= Seq::<StrategyARule>::empty());
    }
    while i < na
        invariant
            i <= na,
            na == config.strategy_a@.len(),
            reports.deep_view() == a_rules_reports(
                config.strategy_a@.take(i as int),
                file@,
                fn_catalog(*old_ast),
                fn_catalog(*new_ast),
            ),
        decreases na - i,
    {
        proof {
            assert(config.strategy_a@.take(i + 1).drop_last() =~= config.strategy_a@.take(i as int));
            assert(config.strategy_a@.take(i + 1).last() == config.strategy_a@[i as int]);
        }
        let rule = &config.strategy_a[i];
        let ghost prev = reports;
        if rule.file == *file {
            let mut sub = analyze_strategy_a(old_ast, new_ast, rule);
            let ghost subg = sub;
            reports.append(&mut sub);
            proof {
                lemma_append_deep_view(prev, subg, reports);
            }
        } else {
            proof {
                assert(reports.deep_view() =~= prev.deep_view() + Seq::<Seq<char>>::empty());
            }
        }
        i = i + 1;
    }
    proof {
        assert(config.strategy_a@.take(na as int) =~= config.strategy_a@);
    }
    let ghost a_part = reports.deep_view();
    let nb = config.strategy_b.len();
    let mut i: usize = 0;
    proof {
        assert(config.strategy_b@.take(0) =~= Seq::<StrategyBRule>::empty());
        assert(reports.deep_view() =~= a_part + b_rules_reports(
            config.strategy_b@.take(0),
            file@,
            old_code@,
            new_code@,
        ));
    }
    while i < nb
        invariant
            i <= nb,
            nb == config.strategy_b@.len(),
            old_code@.len() < usize::MAX,
            new_code@.len() < usize::MAX,
            a_part == a_rules_reports(
                config.strategy_a@,
                file@,
                fn_catalog(*old_ast),
                fn_catalog(*new_ast),
            ),
            reports.deep_view() == a_part + b_rules_reports(
                config.strategy_b@.take(i as int),
                file@,
                old_code@,
                new_code@,
            ),
        decreases nb - i,
    {
        proof {
            assert(config.strategy_b@.take(i + 1).drop_last() =~= config.strategy_b@.take(i as int));
            assert(config.strategy_b@.take(i + 1).last() == config.strategy_b@[i as int]);
        }
        let rule = &config.strategy_b[i];
        let ghost prev = reports;
        if rule.file == *file {
            let mut sub = analyze_strategy_b(old_code, new_code, rule);
            let ghost subg = sub;
            reports.append(&mut sub);
            proof {
                lemma_append_deep_view(prev, subg, reports);
                assert(reports.deep_view() =~= a_part + (b_rules_reports(
                    config.strategy_b@.take(i as int),
                    file@,
                    old_code@,
                    new_code@,
                ) + subg.deep_view()));
            }
        } else {
            proof {
                assert(reports.deep_view() =~= a_part + (b_rules_reports(
                    config.strategy_b@.take(i as int),
                    file@,
                    old_code@,
                    new_code@,
                ) + Seq::<Seq<char>>::empty()));
            }
        }
        i = i + 1;
    }
    proof {
        assert(config.strategy_b@.take(nb as int) =~= config.strategy_b@);
    }
    let ghost ab_part = reports.deep_view();
    let nc = config.strategy_c.len();
    let mut i: usize = 0;
    proof {
        assert(config.strategy_c@.take(0) =~= Seq::<StrategyCRule>::empty());
        assert(reports.deep_view() =~= ab_part + c_rules_reports(
            config.strategy_c@.take(0),
            file@,
            trait_catalog(*old_ast),
            trait_catalog(*new_ast),
        ));
    }
    while i < nc
        invariant
            i <= nc,
            nc == config.strategy_c@.len(),
            ab_part == a_rules_reports(
                config.strategy_a@,
                file@,
                fn_catalog(*old_ast),
                fn_catalog(*new_ast),
            ) + b_rules_reports(config.strategy_b@, file@, old_code@, new_code@),
            reports.deep_view() == ab_part + c_rules_reports(
                config.strategy_c@.take(i as int),
                file@,
                trait_catalog(*old_ast),
                trait_catalog(*new_ast),
            ),
        decreases nc - i,
    {
        proof {
            assert(config.strategy_c@.take(i + 1).drop_last() =~= config.strategy_c@.take(i as int));
            assert(config.strategy_c@.take(i + 1).last() == config.strategy_c@[i as int]);
        }
        let rule = &config.strategy_c[i];
        let ghost prev = reports;
        if rule.file == *file {
            let mut sub = analyze_strategy_c(old_ast, new_ast, rule);
            let ghost subg = sub;
            reports.append(&mut sub);
            proof {
                lemma_append_deep_view(prev, subg, reports);
                assert(reports.deep_view() =~= ab_part + (c_rules_reports(
                    config.strategy_c@.take(i as int),
                    file@,
                    trait_catalog(*old_ast),
                    trait_catalog(*new_ast),
                ) + subg.deep_view()));
            }
        } else {
            proof {
                assert(reports.deep_view() =~= ab_part + (c_rules_reports(
                    config.strategy_c@.take(i as int),
                    file@,
                    trait_catalog(*old_ast),
                    trait_catalog(*new_ast),
                ) + Seq::<Seq<char>>::empty()));
            }
        }
        i = i + 1;
    }
    proof {
        assert(config.strategy_c@.take(nc as int) =~= config.strategy_c@);
        assert(reports.deep_view() =~= engine_reports(
            *config,
            file@,
            *old_ast,
            *new_ast,
            old_code@,
            new_code@,
        ));
    }
    reports
}

} // verus!
