//! Scanning one file: extract its blocks, run the enabled rules, and turn
//! every finding into a violation record, marked ignored when a
//! suppression comment names its rule.

use vstd::prelude::*;

use crate::context::ScanContext;
use crate::parser::{parse_sfc, sfc_blocks, sfc_extracted};
use crate::parser::template::{Span, TemplateError};
use crate::rules::registry::{all_rules, selected_rules, RegisteredRule, RuleRegistry};
use crate::rules::{finding_spans, Category};
use crate::severity::Severity;
use crate::suppression::{spec_ignored, violation_is_ignored};
use crate::taint::FlowPath;
use crate::text::to_owned_string;

verus! {

/// A file whose `<template>` block did not parse cleanly: its findings may
/// be incomplete, so it needs review.
#[derive(Debug)]
pub struct ParseIssue {
    pub file: String,
    pub errors: Vec<TemplateError>,
}

/// The result of scanning: the violations and the files that need review.
#[derive(Debug)]
pub struct ScanReport {
    pub violations: Vec<Violation>,
    pub parse_issues: Vec<ParseIssue>,
}

/// One finding of one rule in one file.
#[derive(Debug, Clone)]
pub struct Violation {
    pub file: String,
    /// The rule's message for this finding.
    pub message: String,
    /// The text attached to the finding's span.
    pub label: &'static str,
    /// Remediation advice.
    pub help: &'static str,
    /// Short rule name, e.g. `no-v-html`.
    pub rule_name: String,
    /// Stable rule id, e.g. `vue/security/no-v-html`.
    pub rule_id: String,
    pub severity: Severity,
    pub category: Category,
    /// Byte offset of the finding in the file.
    pub span_offset: usize,
    /// Byte length of the finding.
    pub span_length: usize,
    /// The finding sits under a suppression comment naming its rule (and
    /// suppression is not switched off).
    pub ignored: bool,
    /// Untrusted-data flows reaching the finding, when the rule asked the
    /// taint facts.
    pub flow: Option<Vec<FlowPath>>,
}

impl Violation {
    /// Byte offset of the finding; JSON, SARIF and pretty output share it.
    pub fn span_offset(&self) -> (r: usize)
        ensures
            r == self.span_offset,
    {
        self.span_offset
    }

    /// Byte length of the finding.
    pub fn span_len(&self) -> (r: usize)
        ensures
            r == self.span_length,
    {
        self.span_length
    }

    /// The finding's message.
    pub fn diagnostic_message(&self) -> (r: String)
        ensures
            r@ == self.message@,
    {
        self.message.clone()
    }
}

/// Knobs that change how a scan reads its input.
#[derive(Debug, Clone, Copy)]
pub struct ScanOptions {
    /// Treat every suppression comment as absent.
    pub no_ignores: bool,
}

impl Default for ScanOptions {
    fn default() -> (r: ScanOptions)
        ensures
            !r.no_ignores,
    {
        ScanOptions { no_ignores: false }
    }
}

/// The byte length of a finding's span.
pub open spec fn span_length_of(s: Span) -> int {
    if s.start <= s.end {
        s.end - s.start
    } else {
        0
    }
}

/// The violations a rule's findings become: each span, with its ignore
/// mark.
pub open spec fn rule_entries(r: RegisteredRule, spans: Seq<Span>, source: Seq<char>, no_ignores: bool) -> Seq<
    (RegisteredRule, Span, bool),
> {
    spans.map_values(
        |s: Span| (r, s, !no_ignores && spec_ignored(source, s.start as int, r.spec_name(), r.spec_id())),
    )
}

/// What scanning a file gives: for each rule in order, each of its
/// findings in order.
pub open spec fn expected(rules: Seq<RegisteredRule>, ctx: ScanContext, no_ignores: bool) -> Seq<
    (RegisteredRule, Span, bool),
>
    decreases rules.len(),
{
    if rules.len() == 0 {
        seq![]
    } else {
        expected(rules.drop_last(), ctx, no_ignores) + rule_entries(
            rules.last(),
            rules.last().hits(ctx),
            ctx.source@,
            no_ignores,
        )
    }
}

/// A violation record holds an expected entry.
pub open spec fn holds(v: Violation, e: (RegisteredRule, Span, bool), file: Seq<char>) -> bool {
    &&& v.file@ == file
    &&& v.rule_id@ == e.0.spec_id()
    &&& v.rule_name@ == e.0.spec_name()
    &&& v.severity == e.0.spec_severity()
    &&& v.category == e.0.spec_category()
    &&& v.span_offset == e.1.start
    &&& v.span_length == span_length_of(e.1)
    &&& v.ignored == e.2
}

/// The violation records are the expected entries, one for one, in order.
pub open spec fn scanned(vs: Seq<Violation>, es: Seq<(RegisteredRule, Span, bool)>, file: Seq<char>) -> bool {
    &&& vs.len() == es.len()
    &&& forall|i: int| 0 <= i < vs.len() ==> holds(#[trigger] vs[i], es[i], file)
}

/// Every expected entry belongs to one of the rules that ran, is one of
/// that rule's findings, and is marked ignored exactly when ignores are
/// honoured and a suppression comment names its rule.
pub proof fn lemma_expected_entries(rules: Seq<RegisteredRule>, ctx: ScanContext, no_ignores: bool)
    ensures
        forall|i: int|
            #![trigger expected(rules, ctx, no_ignores)[i]]
            0 <= i < expected(rules, ctx, no_ignores).len() ==> {
                let e = expected(rules, ctx, no_ignores)[i];
                &&& rules.contains(e.0)
                &&& e.0.hits(ctx).contains(e.1)
                &&& e.2 == (!no_ignores && spec_ignored(ctx.source@, e.1.start as int, e.0.spec_name(), e.0.spec_id()))
            },
    decreases rules.len(),
{
    if rules.len() > 0 {
        let front = rules.drop_last();
        lemma_expected_entries(front, ctx, no_ignores);
        let prev = expected(front, ctx, no_ignores);
        let r = rules.last();
        let spans = r.hits(ctx);
        let tail = rule_entries(r, spans, ctx.source@, no_ignores);
        assert(expected(rules, ctx, no_ignores) == prev + tail);
        assert forall|i: int|
            #![trigger expected(rules, ctx, no_ignores)[i]]
            0 <= i < expected(rules, ctx, no_ignores).len() implies {
                let e = expected(rules, ctx, no_ignores)[i];
                &&& rules.contains(e.0)
                &&& e.0.hits(ctx).contains(e.1)
                &&& e.2 == (!no_ignores && spec_ignored(ctx.source@, e.1.start as int, e.0.spec_name(), e.0.spec_id()))
            } by {
            if i < prev.len() {
                assert(expected(rules, ctx, no_ignores)[i] == prev[i]);
                let e = prev[i];
                let k = choose|k: int| 0 <= k < front.len() && front[k] == e.0;
                assert(rules[k] == e.0);
            } else {
                let k = i - prev.len();
                assert(expected(rules, ctx, no_ignores)[i] == tail[k]);
                assert(tail[k] == (r, spans[k], !no_ignores && spec_ignored(ctx.source@, spans[k].start as int, r.spec_name(), r.spec_id())));
                assert(rules[rules.len() - 1] == r);
                assert(spans[k] == spans[k]);
            }
        }
    }
}

/// `--no-ignores` changes no finding and no order; it only clears every
/// ignore mark.
pub proof fn lemma_no_ignores_clears_marks(rules: Seq<RegisteredRule>, ctx: ScanContext)
    ensures
        expected(rules, ctx, true).len() == expected(rules, ctx, false).len(),
        forall|i: int|
            0 <= i < expected(rules, ctx, true).len() ==> {
                let t = #[trigger] expected(rules, ctx, true)[i];
                let f = expected(rules, ctx, false)[i];
                &&& t.0 == f.0
                &&& t.1 == f.1
                &&& !t.2
            },
    decreases rules.len(),
{
    if rules.len() > 0 {
        let front = rules.drop_last();
        lemma_no_ignores_clears_marks(front, ctx);
        let r = rules.last();
        let spans = r.hits(ctx);
        let pt = expected(front, ctx, true);
        let pf = expected(front, ctx, false);
        let tt = rule_entries(r, spans, ctx.source@, true);
        let tf = rule_entries(r, spans, ctx.source@, false);
        assert(expected(rules, ctx, true) == pt + tt);
        assert(expected(rules, ctx, false) == pf + tf);
        assert forall|i: int|
            0 <= i < expected(rules, ctx, true).len() implies {
                let t = #[trigger] expected(rules, ctx, true)[i];
                let f = expected(rules, ctx, false)[i];
                &&& t.0 == f.0
                &&& t.1 == f.1
                &&& !t.2
            } by {
            if i < pt.len() {
                assert(expected(rules, ctx, true)[i] == pt[i]);
                assert(expected(rules, ctx, false)[i] == pf[i]);
            } else {
                let k = i - pt.len();
                assert(expected(rules, ctx, true)[i] == tt[k]);
                assert(expected(rules, ctx, false)[i] == tf[k]);
            }
        }
    }
}

/// Scanning is deterministic: two violation lists that both hold the
/// expected entries of one file agree, record by record, on every field
/// the scan decides (file, rule, severity, category, span, ignore mark).
pub proof fn lemma_scan_deterministic(
    a: Seq<Violation>,
    b: Seq<Violation>,
    es: Seq<(RegisteredRule, Span, bool)>,
    file: Seq<char>,
)
    requires
        scanned(a, es, file),
        scanned(b, es, file),
    ensures
        a.len() == b.len(),
        forall|i: int|
            0 <= i < a.len() ==> {
                &&& (#[trigger] a[i]).file@ == b[i].file@
                &&& a[i].rule_id@ == b[i].rule_id@
                &&& a[i].rule_name@ == b[i].rule_name@
                &&& a[i].severity == b[i].severity
                &&& a[i].category == b[i].category
                &&& a[i].span_offset == b[i].span_offset
                &&& a[i].span_length == b[i].span_length
                &&& a[i].ignored == b[i].ignored
            },
{
    assert forall|i: int| 0 <= i < a.len() implies {
        &&& (#[trigger] a[i]).file@ == b[i].file@
        &&& a[i].rule_id@ == b[i].rule_id@
        &&& a[i].rule_name@ == b[i].rule_name@
        &&& a[i].severity == b[i].severity
        &&& a[i].category == b[i].category
        &&& a[i].span_offset == b[i].span_offset
        &&& a[i].span_length == b[i].span_length
        &&& a[i].ignored == b[i].ignored
    } by {
        assert(holds(a[i], es[i], file));
        assert(holds(b[i], es[i], file));
    }
}

/// The rules that a scan with enable-list `enabled` runs.
pub open spec fn enabled_rules(rules: Seq<RegisteredRule>, enabled: Seq<String>) -> Seq<RegisteredRule> {
    if enabled.len() == 0 {
        rules
    } else {
        selected_rules(rules, enabled)
    }
}

/// The scanner: the rule set and the scan of one file.
pub struct Scanner {
    registry: RuleRegistry,
}

impl View for Scanner {
    type V = Seq<RegisteredRule>;

    closed spec fn view(&self) -> Seq<RegisteredRule> {
        self.registry@
    }
}

impl Scanner {
    /// A scanner with every rule registered.
    pub fn new() -> (r: Scanner)
        ensures
            r@ == all_rules(),
    {
        Scanner { registry: RuleRegistry::new() }
    }

    /// The rule set.
    pub fn registry(&self) -> (r: &RuleRegistry)
        ensures
            r@ == self@,
    {
        &self.registry
    }

    /// Run the enabled rules over an extracted file. `enabled` lists rules
    /// by short name or id; empty means every rule.
    pub fn scan_context(&self, ctx: &ScanContext, enabled: &[String], options: &ScanOptions) -> (r: ScanReport)
        requires
            vstd::utf8::encode_utf8(ctx.source@).len() <= usize::MAX,
        ensures
            r.violations@.len() == expected(enabled_rules(self@, enabled@), *ctx, options.no_ignores).len(),
            forall|i: int|
                0 <= i < r.violations@.len() ==> holds(
                    #[trigger] r.violations@[i],
                    expected(enabled_rules(self@, enabled@), *ctx, options.no_ignores)[i],
                    ctx.file_path@,
                ),
            ctx.template_errors@.len() == 0 ==> r.parse_issues@.len() == 0,
            ctx.template_errors@.len() > 0 ==> (r.parse_issues@.len() == 1 && r.parse_issues@[0].file@
                == ctx.file_path@ && r.parse_issues@[0].errors@ == ctx.template_errors@),
    {
        let rules = self.registry.get_enabled(enabled);
        let ghost rs = rules@;
        let mut violations: Vec<Violation> = Vec::new();
        let mut i: usize = 0;
        assert(rs.take(0) =~= Seq::<RegisteredRule>::empty());
        while i < rules.len()
            invariant
                i <= rules.len(),
                rs == rules@,
                rs == enabled_rules(self@, enabled@),
                vstd::utf8::encode_utf8(ctx.source@).len() <= usize::MAX,
                violations@.len() == expected(rs.take(i as int), *ctx, options.no_ignores).len(),
                forall|m: int|
                    0 <= m < violations@.len() ==> holds(
                        #[trigger] violations@[m],
                        expected(rs.take(i as int), *ctx, options.no_ignores)[m],
                        ctx.file_path@,
                    ),
            decreases rules.len() - i,
        {
            let rule = rules[i];
            let info = rule.info();
            let findings = rule.check(ctx);
            let ghost spans = finding_spans(findings@);
            let ghost prev = expected(rs.take(i as int), *ctx, options.no_ignores);
            let ghost base = violations@.len();
            let mut j: usize = 0;
            while j < findings.len()
                invariant
                    j <= findings.len(),
                    spans == finding_spans(findings@),
                    spans == rule.hits(*ctx),
                    info.id@ == rule.spec_id(),
                    info.name@ == rule.spec_name(),
                    info.severity == rule.spec_severity(),
                    info.category == rule.spec_category(),
                    vstd::utf8::encode_utf8(ctx.source@).len() <= usize::MAX,
                    violations@.len() == base + j,
                    base == prev.len(),
                    forall|m: int|
                        0 <= m < violations@.len() ==> holds(
                            #[trigger] violations@[m],
                            (prev + rule_entries(rule, spans, ctx.source@, options.no_ignores))[m],
                            ctx.file_path@,
                        ),
                decreases findings.len() - j,
            {
                let f = &findings[j];
                assert(spans[j as int] == f.span);
                let offset = f.span.start as usize;
                let length: usize = if f.span.start <= f.span.end {
                    (f.span.end - f.span.start) as usize
                } else {
                    0
                };
                let ignored = !options.no_ignores && violation_is_ignored(
                    ctx.source.as_str(),
                    offset,
                    info.name,
                    info.id,
                );
                let v = Violation {
                    file: ctx.file_path.clone(),
                    message: f.message.clone(),
                    label: f.label,
                    help: f.help,
                    rule_name: to_owned_string(info.name),
                    rule_id: to_owned_string(info.id),
                    severity: info.severity,
                    category: info.category,
                    span_offset: offset,
                    span_length: length,
                    ignored,
                    flow: f.flow.clone(),
                };
                violations.push(v);
                j = j + 1;
            }
            proof {
                let t = rs.take(i + 1);
                assert(t.drop_last() =~= rs.take(i as int));
                assert(t.last() == rule);
                assert(expected(t, *ctx, options.no_ignores) == prev + rule_entries(rule, spans, ctx.source@, options.no_ignores));
            }
            i = i + 1;
        }
        assert(rs.take(rs.len() as int) =~= rs);
        let mut parse_issues: Vec<ParseIssue> = Vec::new();
        if ctx.template_errors.len() > 0 {
            parse_issues.push(ParseIssue { file: ctx.file_path.clone(), errors: ctx.template_errors.clone() });
        }
        ScanReport { violations, parse_issues }
    }

    /// Scan one file given by its path and source text: the blocks are
    /// extracted and the enabled rules run over them. Every violation
    /// names the file, belongs to an enabled rule, and is marked ignored
    /// exactly when ignores are honoured and a suppression comment on its
    /// line or the line above names its rule.
    pub fn scan_source(&self, path: String, source: String, enabled: &[String], options: &ScanOptions) -> (r:
        ScanReport)
        requires
            vstd::utf8::encode_utf8(source@).len() <= u32::MAX,
        ensures
            // The rules ran on the blocks extracted from a fresh context for
            // this file.
            exists|fresh: ScanContext, ctx: ScanContext|
                #![trigger fresh.is_fresh(path@, source@), expected(enabled_rules(self@, enabled@), ctx, options.no_ignores)]
                fresh.is_fresh(path@, source@) && sfc_extracted(fresh, ctx) && scanned(
                    r.violations@,
                    expected(enabled_rules(self@, enabled@), ctx, options.no_ignores),
                    path@,
                ),
            forall|i: int|
                0 <= i < r.violations@.len() ==> {
                    let v = #[trigger] r.violations@[i];
                    &&& v.file@ == path@
                    &&& exists|k: int|
                        0 <= k < enabled_rules(self@, enabled@).len() && (#[trigger] enabled_rules(
                            self@,
                            enabled@,
                        )[k]).spec_id() == v.rule_id@ && enabled_rules(self@, enabled@)[k].spec_name()
                            == v.rule_name@
                    &&& v.ignored == (!options.no_ignores && spec_ignored(
                        source@,
                        v.span_offset as int,
                        v.rule_name@,
                        v.rule_id@,
                    ))
                },
            // A file without a `<template>` block has nothing to review; an
            // unterminated one makes the file need review.
            sfc_blocks(source@).0 is None && sfc_blocks(source@).3 is None ==> r.parse_issues@.len() == 0,
            sfc_blocks(source@).0 is None && sfc_blocks(source@).3 is Some ==> (r.parse_issues@.len() == 1
                && r.parse_issues@[0].file@ == path@),
    {
        let ghost p = path@;
        let ghost src = source@;
        let mut ctx = ScanContext::new(path, source);
        let ghost fresh = ctx;
        parse_sfc(&mut ctx);
        let r = self.scan_context(&ctx, enabled, options);
        proof {
            let rules = enabled_rules(self@, enabled@);
            let es = expected(rules, ctx, options.no_ignores);
            lemma_expected_entries(rules, ctx, options.no_ignores);
            assert(scanned(r.violations@, es, p));
            assert(fresh.is_fresh(p, src) && sfc_extracted(fresh, ctx));
            assert forall|i: int| 0 <= i < r.violations@.len() implies {
                let v = #[trigger] r.violations@[i];
                &&& v.file@ == p
                &&& exists|k: int|
                    0 <= k < rules.len() && (#[trigger] rules[k]).spec_id() == v.rule_id@ && rules[k].spec_name()
                        == v.rule_name@
                &&& v.ignored == (!options.no_ignores && spec_ignored(src, v.span_offset as int, v.rule_name@, v.rule_id@))
            } by {
                let v = r.violations@[i];
                let e = es[i];
                assert(holds(v, e, p));
                assert(rules.contains(e.0));
                let k = choose|k: int| 0 <= k < rules.len() && rules[k] == e.0;
                assert(rules[k].spec_id() == v.rule_id@);
            }
        }
        r
    }
}

} // verus!
