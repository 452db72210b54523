//! What a run decides from its options: the effective filters, which
//! violations are shown, and the exit code.

use vstd::prelude::*;

use crate::config::{disables, Config};
use crate::rules::Category;
use crate::scanner::Violation;
use crate::severity::Severity;
use crate::text::str_eq;

verus! {

/// The minimum severity of a run: the higher of the configuration's and
/// the command line's.
pub fn effective_min_severity(config: Option<Severity>, cli: Option<Severity>) -> (r: Option<Severity>)
    ensures
        r == match (config, cli) {
            (Some(a), Some(b)) => Some(if a.rank() >= b.rank() { a } else { b }),
            (Some(a), None) => Some(a),
            (None, b) => b,
        },
{
    match (config, cli) {
        (Some(a), Some(b)) => Some(if a.at_least(b) { a } else { b }),
        (Some(a), None) => Some(a),
        (None, b) => b,
    }
}

/// The category filter of a run: the command line's when given, else the
/// configuration's.
pub fn effective_categories(config: Option<Vec<String>>, cli: Option<Vec<String>>) -> (r: Option<Vec<String>>)
    ensures
        r == if cli is Some { cli } else { config },
{
    match cli {
        Some(c) => Some(c),
        None => config,
    }
}

/// The texts of an optional list.
pub open spec fn opt_view(o: Option<Vec<String>>) -> Option<Seq<String>> {
    match o {
        Some(v) => Some(v@),
        None => None,
    }
}

/// Some entry of the list names category `c`.
pub open spec fn listed(cs: Seq<String>, c: Category) -> bool {
    exists|k: int| 0 <= k < cs.len() && #[trigger] cs[k]@ == c.spec_name()
}

/// The category passes the filter (no filter passes everything).
pub open spec fn in_categories(cats: Option<Seq<String>>, c: Category) -> bool {
    match cats {
        Some(cs) => listed(cs, c),
        None => true,
    }
}

/// A violation is shown: its category passes, its severity reaches the
/// minimum, and the configuration does not disable its rule.
pub open spec fn keeps(v: Violation, cats: Option<Seq<String>>, min: Option<Severity>, disable: Seq<String>) -> bool {
    &&& in_categories(cats, v.category)
    &&& match min {
        Some(m) => v.severity.rank() >= m.rank(),
        None => true,
    }
    &&& !disables(disable, v.rule_name@, v.rule_id@)
}

/// The shown violations, in order.
pub open spec fn kept(vs: Seq<Violation>, cats: Option<Seq<String>>, min: Option<Severity>, disable: Seq<String>) -> Seq<Violation>
    decreases vs.len(),
{
    if vs.len() == 0 {
        seq![]
    } else {
        kept(vs.drop_last(), cats, min, disable) + if keeps(vs.last(), cats, min, disable) {
            seq![vs.last()]
        } else {
            seq![]
        }
    }
}

fn category_listed(cats: &Vec<String>, c: Category) -> (r: bool)
    ensures
        r == listed(cats@, c),
{
    let name = c.as_str();
    let mut k: usize = 0;
    while k < cats.len()
        invariant
            k <= cats.len(),
            name@ == c.spec_name(),
            forall|m: int| 0 <= m < k ==> #[trigger] cats@[m]@ != c.spec_name(),
        decreases cats.len() - k,
    {
        if str_eq(cats[k].as_str(), name) {
            assert(cats@[k as int]@ == c.spec_name());
            return true;
        }
        k = k + 1;
    }
    false
}

/// True when the violation is shown.
pub fn keep_violation(v: &Violation, categories: &Option<Vec<String>>, min: Option<Severity>, config: &Config) -> (r: bool)
    ensures
        r == keeps(*v, opt_view(*categories), min, config.disable@),
{
    let cat_ok = match categories {
        Some(cats) => category_listed(cats, v.category),
        None => true,
    };
    let sev_ok = match min {
        Some(m) => v.severity.at_least(m),
        None => true,
    };
    cat_ok && sev_ok && !config.is_disabled(v.rule_name.as_str(), v.rule_id.as_str())
}

proof fn lemma_kept_split(vs: Seq<Violation>, i: int, cats: Option<Seq<String>>, min: Option<Severity>, disable: Seq<String>)
    requires
        0 <= i < vs.len(),
    ensures
        kept(vs.take(i + 1), cats, min, disable) == kept(vs.take(i), cats, min, disable) + if keeps(vs[i], cats, min, disable) {
            seq![vs[i]]
        } else {
            seq![]
        },
{
    assert(vs.take(i + 1).drop_last() =~= vs.take(i));
}

/// The shown violations are exactly those of the input that pass the
/// filters, in their input order: each shown one passes and comes from
/// the input, each input one that passes is shown, and filtering the
/// result again changes nothing.
pub proof fn lemma_filter_laws(vs: Seq<Violation>, cats: Option<Seq<String>>, min: Option<Severity>, disable: Seq<String>)
    ensures
        kept(vs, cats, min, disable) == vs.filter(|v: Violation| keeps(v, cats, min, disable)),
        forall|i: int|
            0 <= i < kept(vs, cats, min, disable).len() ==> keeps(#[trigger] kept(vs, cats, min, disable)[i], cats, min, disable)
                && vs.contains(kept(vs, cats, min, disable)[i]),
        forall|i: int|
            0 <= i < vs.len() && keeps(vs[i], cats, min, disable) ==> kept(vs, cats, min, disable).contains(
                #[trigger] vs[i],
            ),
        kept(kept(vs, cats, min, disable), cats, min, disable) == kept(vs, cats, min, disable),
    decreases vs.len(),
{
    reveal(Seq::filter);
    if vs.len() > 0 {
        let front = vs.drop_last();
        lemma_filter_laws(front, cats, min, disable);
        let kf = kept(front, cats, min, disable);
        let kv = kept(vs, cats, min, disable);
        let x = vs.last();
        assert(vs[vs.len() - 1] == x);
        assert forall|i: int|
            0 <= i < kv.len() implies keeps(#[trigger] kv[i], cats, min, disable) && vs.contains(kv[i]) by {
            if i < kf.len() {
                assert(kv[i] == kf[i]);
                let j = choose|j: int| 0 <= j < front.len() && front[j] == kf[i];
                assert(vs[j] == front[j]);
            } else {
                assert(kv[i] == x);
            }
        }
        assert forall|i: int| 0 <= i < vs.len() && keeps(vs[i], cats, min, disable) implies kv.contains(
            #[trigger] vs[i],
        ) by {
            if i < front.len() {
                assert(vs[i] == front[i]);
                let j = choose|j: int| 0 <= j < kf.len() && kf[j] == front[i];
                assert(kv[j] == kf[j]);
            } else {
                assert(kv[kv.len() - 1] == x);
            }
        }
        if keeps(x, cats, min, disable) {
            assert(kv.drop_last() =~= kf);
            assert(kv.last() == x);
        } else {
            assert(kv == kf);
        }
    }
}

/// No finding is actionable exactly when every finding is suppressed; the
/// count never exceeds the number of findings.
pub proof fn lemma_actionable_zero(vs: Seq<Violation>)
    ensures
        0 <= spec_actionable(vs) <= vs.len(),
        spec_actionable(vs) == 0 <==> forall|i: int| 0 <= i < vs.len() ==> (#[trigger] vs[i]).ignored,
    decreases vs.len(),
{
    if vs.len() > 0 {
        let front = vs.drop_last();
        lemma_actionable_zero(front);
        assert forall|i: int| 0 <= i < front.len() implies #[trigger] front[i] == vs[i] by {}
        if spec_actionable(vs) == 0 {
            assert forall|i: int| 0 <= i < vs.len() implies (#[trigger] vs[i]).ignored by {
                if i < front.len() {
                    assert(front[i] == vs[i]);
                }
            }
        }
        if forall|i: int| 0 <= i < vs.len() ==> (#[trigger] vs[i]).ignored {
            assert(vs[vs.len() - 1].ignored);
            assert forall|i: int| 0 <= i < front.len() implies (#[trigger] front[i]).ignored by {
                assert(vs[i].ignored);
            }
        }
    }
}

/// The violations that pass the category and severity filters and whose
/// rule the configuration does not disable, in order.
pub fn filter_violations(
    violations: Vec<Violation>,
    categories: &Option<Vec<String>>,
    min: Option<Severity>,
    config: &Config,
) -> (r: Vec<Violation>)
    ensures
        r@ == kept(violations@, opt_view(*categories), min, config.disable@),
{
    let ghost orig = violations@;
    let ghost cats = opt_view(*categories);
    let mut vs = violations;
    let mut i: usize = 0;
    let mut processed: usize = 0;
    assert(orig.take(0) =~= Seq::<Violation>::empty());
    assert(orig.len() == vs.len());
    assert(vs@ =~= kept(orig.take(0), cats, min, config.disable@) + orig.skip(0));
    while i < vs.len()
        invariant
            cats == opt_view(*categories),
            processed <= orig.len(),
            orig.len() <= usize::MAX,
            i == kept(orig.take(processed as int), cats, min, config.disable@).len(),
            vs@ == kept(orig.take(processed as int), cats, min, config.disable@) + orig.skip(processed as int),
            vs.len() == i + orig.len() - processed,
        decreases vs.len() - i,
    {
        proof {
            lemma_kept_split(orig, processed as int, cats, min, config.disable@);
            assert(vs@[i as int] == orig[processed as int]);
        }
        let ghost before = vs@;
        let ghost prev = kept(orig.take(processed as int), cats, min, config.disable@);
        proof {
            assert(orig.skip(processed as int).drop_first() =~= orig.skip(processed + 1));
            assert(orig.skip(processed as int)[0] == orig[processed as int]);
        }
        if keep_violation(&vs[i], categories, min, config) {
            assert(keeps(orig[processed as int], cats, min, config.disable@));
            assert(kept(orig.take(processed + 1), cats, min, config.disable@) =~= prev.push(orig[processed as int]));
            i = i + 1;
            processed = processed + 1;
            assert(vs@ =~= kept(orig.take(processed as int), cats, min, config.disable@) + orig.skip(processed as int));
        } else {
            assert(!keeps(orig[processed as int], cats, min, config.disable@));
            assert(kept(orig.take(processed + 1), cats, min, config.disable@) =~= prev);
            processed = processed + 1;
            vs.remove(i);
            assert(vs@ =~= before.remove(i as int));
            assert(before.remove(i as int) =~= prev + orig.skip(processed as int));
            assert(vs@ =~= kept(orig.take(processed as int), cats, min, config.disable@) + orig.skip(processed as int));
        }
    }
    assert(processed == orig.len());
    assert(orig.take(orig.len() as int) =~= orig);
    assert(vs@ =~= kept(orig, cats, min, config.disable@));
    vs
}

/// Number of violations not marked ignored.
pub open spec fn spec_actionable(vs: Seq<Violation>) -> int
    decreases vs.len(),
{
    if vs.len() == 0 {
        0
    } else {
        spec_actionable(vs.drop_last()) + if vs.last().ignored {
            0int
        } else {
            1int
        }
    }
}

/// Number of actionable findings: those not silenced by a suppression
/// comment.
pub fn actionable_count(violations: &[Violation]) -> (r: usize)
    ensures
        r == spec_actionable(violations@),
{
    let mut n: usize = 0;
    let mut i: usize = 0;
    assert(violations@.take(0) =~= Seq::<Violation>::empty());
    while i < violations.len()
        invariant
            i <= violations.len(),
            n == spec_actionable(violations@.take(i as int)),
            n <= i,
        decreases violations.len() - i,
    {
        proof {
            assert(violations@.take(i + 1).drop_last() =~= violations@.take(i as int));
        }
        if !violations[i].ignored {
            n = n + 1;
        }
        i = i + 1;
    }
    assert(violations@.take(violations@.len() as int) =~= violations@);
    n
}

/// The exit code of a run: 1 when `--deny-warnings` is set and some
/// finding is actionable, or when a path could not be scanned; 0
/// otherwise.
pub fn exit_code(deny_warnings: bool, actionable: usize, has_errors: bool) -> (r: i32)
    ensures
        r == if (deny_warnings && actionable > 0) || has_errors { 1i32 } else { 0i32 },
{
    if deny_warnings && actionable > 0 {
        1
    } else if has_errors {
        1
    } else {
        0
    }
}

/// The category filter keeps a violation exactly when some entry of the
/// list, wherever it stands, names its category: the order of the list
/// does not matter, and an entry anywhere suffices.
pub proof fn lemma_category_anywhere(cs: Seq<String>, c: Category, k: int)
    requires
        0 <= k < cs.len(),
        cs[k]@ == c.spec_name(),
    ensures
        in_categories(Some(cs), c),
        in_categories(Some(cs.reverse()), c),
        forall|v: Violation| v.category == c ==> #[trigger] keeps(v, Some(cs), None, Seq::<String>::empty()),
{
    assert(cs.reverse()[cs.len() - 1 - k] == cs[k]);
}

/// A category that no entry names is filtered out.
pub proof fn lemma_category_unlisted(cs: Seq<String>, c: Category)
    requires
        forall|k: int| 0 <= k < cs.len() ==> (#[trigger] cs[k])@ != c.spec_name(),
    ensures
        !in_categories(Some(cs), c),
{
}

} // verus!
