//! The text forms of a run's output: the rule list, the minimal
//! one-line-per-finding form, and the summary line.

use vstd::prelude::*;

use crate::rules::registry::RuleRegistry;
use crate::rules::{Category, RuleInfo};
use crate::scanner::Violation;
use crate::severity::Severity;
use crate::taint::analyzer::{decimal, spec_decimal};
use crate::text::{chars_of, push_str, string_push, to_owned_string};

verus! {

/// The lower-case name of a category as the rule list shows it.
pub open spec fn category_label(c: Category) -> Seq<char> {
    match c {
        Category::Security => "security"@,
        Category::BestPractice => "bestpractice"@,
        Category::Performance => "performance"@,
        Category::Accessibility => "accessibility"@,
        Category::Architecture => "architecture"@,
    }
}

fn category_label_exec(c: Category) -> (r: &'static str)
    ensures
        r@ == category_label(c),
{
    match c {
        Category::Security => "security",
        Category::BestPractice => "bestpractice",
        Category::Performance => "performance",
        Category::Accessibility => "accessibility",
        Category::Architecture => "architecture",
    }
}

/// `s` padded with spaces on the right to `w` characters.
pub open spec fn pad(s: Seq<char>, w: int) -> Seq<char> {
    if s.len() < w {
        s + Seq::new((w - s.len()) as nat, |_i: int| ' ')
    } else {
        s
    }
}

fn push_padded(out: &mut String, s: &str, w: usize)
    ensures
        final(out)@ == old(out)@ + pad(s@, w as int),
{
    push_str(out, s);
    let n = chars_of(s).len();
    let mut k = n;
    while k < w
        invariant
            n == s@.len(),
            n <= k <= w || (k == n && n >= w),
            out@ == old(out)@ + s@ + Seq::new((k - n) as nat, |_i: int| ' '),
        decreases w - k,
    {
        string_push(out, ' ');
        k = k + 1;
        assert(out@ =~= old(out)@ + s@ + Seq::new((k - n) as nat, |_i: int| ' '));
    }
    proof {
        if n < w {
            assert(out@ =~= old(out)@ + pad(s@, w as int));
        } else {
            assert(Seq::new((k - n) as nat, |_i: int| ' ') =~= Seq::<char>::empty());
            assert(out@ =~= old(out)@ + pad(s@, w as int));
        }
    }
}

/// One line of the rule list.
pub open spec fn list_line(i: RuleInfo) -> Seq<char> {
    "  "@ + pad(i.id@, 40) + " ["@ + pad(category_label(i.category), 7) + "] "@ + pad(i.severity.spec_name(), 5)
        + " "@ + i.description@ + "\n"@
}

pub open spec fn list_lines(infos: Seq<RuleInfo>) -> Seq<char>
    decreases infos.len(),
{
    if infos.len() == 0 {
        seq![]
    } else {
        list_lines(infos.drop_last()) + list_line(infos.last())
    }
}

/// The rule list: a header, one line per rule, and usage hints.
pub open spec fn list_text(infos: Seq<RuleInfo>) -> Seq<char> {
    "Available rules:\n\n"@ + list_lines(infos)
        + "\nUse --rules <rule1,rule2> to run specific rules.\nUse --category <cat1,cat2> to filter by category.\nUse --min-severity <level> to fail only on at least this severity.\n"@
}

/// The descriptions of the registered rules, in order.
pub fn rule_infos(registry: &RuleRegistry) -> (r: Vec<RuleInfo>)
    ensures
        r@.len() == registry@.len(),
        forall|i: int|
            0 <= i < r@.len() ==> (#[trigger] r@[i]).id@ == registry@[i].spec_id() && r@[i].name@
                == registry@[i].spec_name() && r@[i].severity == registry@[i].spec_severity()
                && r@[i].category == registry@[i].spec_category(),
{
    let rules = registry.get_all();
    let mut out: Vec<RuleInfo> = Vec::new();
    let mut i: usize = 0;
    while i < rules.len()
        invariant
            i <= rules.len(),
            rules@ == registry@,
            out@.len() == i,
            forall|m: int|
                0 <= m < i ==> (#[trigger] out@[m]).id@ == registry@[m].spec_id() && out@[m].name@
                    == registry@[m].spec_name() && out@[m].severity == registry@[m].spec_severity()
                    && out@[m].category == registry@[m].spec_category(),
        decreases rules.len() - i,
    {
        out.push(rules[i].info());
        i = i + 1;
    }
    out
}

/// The rule list, as `--list` prints it.
pub fn render_rule_list(infos: &[RuleInfo]) -> (r: String)
    ensures
        r@ == list_text(infos@),
{
    let mut out = to_owned_string("Available rules:\n\n");
    let ghost head = out@;
    let mut i: usize = 0;
    assert(infos@.take(0) =~= Seq::<RuleInfo>::empty());
    while i < infos.len()
        invariant
            i <= infos.len(),
            head == "Available rules:\n\n"@,
            out@ == head + list_lines(infos@.take(i as int)),
        decreases infos.len() - i,
    {
        let info = infos[i];
        let ghost before = out@;
        push_str(&mut out, "  ");
        push_padded(&mut out, info.id, 40);
        push_str(&mut out, " [");
        push_padded(&mut out, category_label_exec(info.category), 7);
        push_str(&mut out, "] ");
        push_padded(&mut out, info.severity.as_str(), 5);
        push_str(&mut out, " ");
        push_str(&mut out, info.description);
        push_str(&mut out, "\n");
        proof {
            let t = infos@.take(i + 1);
            assert(t.drop_last() =~= infos@.take(i as int));
            assert(t.last() == info);
            assert(out@ =~= before + list_line(info));
        }
        i = i + 1;
    }
    assert(infos@.take(infos@.len() as int) =~= infos@);
    push_str(&mut out, "\nUse --rules <rule1,rule2> to run specific rules.\nUse --category <cat1,cat2> to filter by category.\nUse --min-severity <level> to fail only on at least this severity.\n");
    out
}

/// One line of the minimal form: `file: severity: message`.
pub open spec fn minimal_line(v: Violation) -> Seq<char> {
    v.file@ + ": "@ + v.severity.spec_name() + ": "@ + v.message@ + "\n"@
}

pub open spec fn minimal_text(vs: Seq<Violation>) -> Seq<char>
    decreases vs.len(),
{
    if vs.len() == 0 {
        seq![]
    } else {
        minimal_text(vs.drop_last()) + minimal_line(vs.last())
    }
}

/// The minimal form: one line per finding.
pub fn render_minimal(violations: &[Violation]) -> (r: String)
    ensures
        r@ == minimal_text(violations@),
{
    let mut out = String::new();
    let mut i: usize = 0;
    assert(violations@.take(0) =~= Seq::<Violation>::empty());
    assert(out@ =~= minimal_text(violations@.take(0)));
    while i < violations.len()
        invariant
            i <= violations.len(),
            out@ == minimal_text(violations@.take(i as int)),
        decreases violations.len() - i,
    {
        let v = &violations[i];
        let ghost before = out@;
        push_str(&mut out, v.file.as_str());
        push_str(&mut out, ": ");
        push_str(&mut out, v.severity.as_str());
        push_str(&mut out, ": ");
        push_str(&mut out, v.message.as_str());
        push_str(&mut out, "\n");
        proof {
            let t = violations@.take(i + 1);
            assert(t.drop_last() =~= violations@.take(i as int));
            assert(out@ =~= before + minimal_line(violations@[i as int]));
        }
        i = i + 1;
    }
    assert(violations@.take(violations@.len() as int) =~= violations@);
    out
}

/// The closing line of the pretty form.
pub open spec fn summary_text(total: nat) -> Seq<char> {
    if total == 0 {
        "\u{1b}[32mNo violations found.\u{1b}[0m\n"@
    } else {
        "\n\u{1b}[1;33m"@ + spec_decimal(total) + " violation(s) found.\u{1b}[0m\n"@
    }
}

/// The closing line of the pretty form: a count, or the all-clear.
pub fn render_summary(total: usize) -> (r: String)
    ensures
        r@ == summary_text(total as nat),
{
    if total == 0 {
        return to_owned_string("\u{1b}[32mNo violations found.\u{1b}[0m\n");
    }
    let mut s = to_owned_string("\n\u{1b}[1;33m");
    let n = decimal(total);
    push_str(&mut s, n.as_str());
    push_str(&mut s, " violation(s) found.\u{1b}[0m\n");
    s
}

} // verus!
