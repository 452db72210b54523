//! The rule set.
//!
//! Every rule is independent of the others, deterministic, and free of
//! global state, file-system and network access. Template rules are checked
//! element by element (see [`crate::visitor`]); script rules work on the
//! `<script>` block's syntax tree.

use vstd::prelude::*;

use crate::context::ScanContext;
use crate::parser::template::Span;
use crate::rule_id::RuleId;
use crate::severity::Severity;
use crate::taint::{FlowPath, TaintResult};
use crate::text::to_owned_string;

pub mod attrs;
pub mod no_async_setup_without_error_boundary;
pub mod no_button_without_type;
pub mod no_click_without_role_keyboard;
pub mod no_dangerous_url;
pub mod no_deep_watch_without_handler;
pub mod no_document_write;
pub mod no_dynamic_bind;
pub mod no_eval;
pub mod no_fetch_without_timeout;
pub mod no_form_without_label;
pub mod no_img_without_alt;
pub mod no_inline_styles;
pub mod no_inner_html;
pub mod no_large_list_without_virtualization;
pub mod no_mutation_of_props;
pub mod no_open_redirect;
pub mod no_postmessage_wildcard;
pub mod no_reactive_in_v_for;
pub mod no_side_effect_in_computed;
pub mod no_unsafe_iframe;
pub mod no_unsafe_localstorage;
pub mod no_v_html;
pub mod no_v_if_with_v_for;
pub mod no_watch_with_callback;
pub mod no_window_open_blank_noopener;
pub mod registry;
pub mod v_for_missing_key;

pub use registry::{RegisteredRule, RuleRegistry};

verus! {

/// How a rule reasons about its findings.
#[derive(Debug, Clone, Copy, PartialEq, Eq, Structural)]
pub enum RuleKind {
    /// The rule matches a syntactic pattern ("this pattern exists").
    Syntactic,
    /// The rule also asks the taint facts whether the pattern carries
    /// untrusted data, cutting false positives.
    Taint,
}

/// A category groups rules so whole areas can be selected at once
/// (`--category security`).
#[derive(Debug, Clone, Copy, PartialEq, Eq, Structural, Hash)]
pub enum Category {
    Security,
    BestPractice,
    Performance,
    Accessibility,
    Architecture,
}

impl Category {
    pub open spec fn spec_name(self) -> Seq<char> {
        match self {
            Category::Security => "security"@,
            Category::BestPractice => "best-practice"@,
            Category::Performance => "performance"@,
            Category::Accessibility => "accessibility"@,
            Category::Architecture => "architecture"@,
        }
    }

    /// The category's name as users type it.
    pub fn as_str(self) -> (r: &'static str)
        ensures
            r@ == self.spec_name(),
    {
        match self {
            Category::Security => "security",
            Category::BestPractice => "best-practice",
            Category::Performance => "performance",
            Category::Accessibility => "accessibility",
            Category::Architecture => "architecture",
        }
    }
}

/// A rule name given on the command line that no rule has.
#[derive(Debug)]
pub struct UnknownRuleError {
    pub name: String,
}

/// The fixed description of a rule.
#[derive(Debug, Clone, Copy)]
pub struct RuleInfo {
    /// Stable id, e.g. `vue/security/no-v-html`.
    pub id: &'static str,
    /// Short name, e.g. `no-v-html`.
    pub name: &'static str,
    pub description: &'static str,
    pub severity: Severity,
    pub category: Category,
    pub kind: RuleKind,
    /// The finding's message.
    pub message: &'static str,
    /// The text attached to the finding's span.
    pub label: &'static str,
    /// Remediation advice.
    pub help: &'static str,
}

/// One finding of a rule: where, what, and the taint flows that reach it
/// when the rule asked the taint facts.
#[derive(Debug)]
pub struct Finding {
    pub span: Span,
    pub message: String,
    pub label: &'static str,
    pub help: &'static str,
    /// Untrusted-data flows reaching this finding.
    pub flow: Option<Vec<FlowPath>>,
}

impl Finding {
    /// A finding of rule `info` at `span`, with the rule's own message.
    pub fn at(info: RuleInfo, span: Span) -> (r: Finding)
        ensures
            r.span == span,
            r.message@ == info.message@,
            r.help == info.help,
            r.label == info.label,
            r.flow is None,
    {
        Finding { span, message: to_owned_string(info.message), label: info.label, help: info.help, flow: None }
    }

    /// A finding with a taint flow attached, when there is one.
    pub fn with_flow(info: RuleInfo, span: Span, flow: Option<FlowPath>) -> (r: Finding)
        ensures
            r.span == span,
            r.message@ == info.message@,
            r.help == info.help,
            r.label == info.label,
            flow is None ==> r.flow is None,
            flow is Some ==> (r.flow matches Some(v) && v@.len() == 1),
            flow matches Some(p) ==> (r.flow matches Some(v) && v@[0] == p),
    {
        let mut f = Finding::at(info, span);
        match flow {
            Some(p) => {
                let mut v: Vec<FlowPath> = Vec::new();
                v.push(p);
                f.flow = Some(v);
            },
            None => {},
        }
        f
    }
}

/// The spans of a list of findings.
/// The flows a finding on a sink labelled `sink`, whose expression starts
/// at `at`, carries: none when that expression is not tainted, else the one
/// flow of its fact.
pub open spec fn carries_flow(taint: TaintResult, at: u32, sink: Seq<char>, fl: Option<Vec<FlowPath>>) -> bool {
    match fl {
        None => taint.flow_matches(at, sink, None),
        Some(v) => v@.len() == 1 && taint.flow_matches(at, sink, Some(v@[0])),
    }
}

pub open spec fn finding_spans(fs: Seq<Finding>) -> Seq<Span> {
    fs.map_values(|f: Finding| f.span)
}

pub proof fn lemma_finding_spans_push(fs: Seq<Finding>, f: Finding)
    ensures
        finding_spans(fs.push(f)) == finding_spans(fs).push(f.span),
{
    assert(finding_spans(fs.push(f)) =~= finding_spans(fs).push(f.span));
}

/// Every rule: its fixed description and its check.
pub trait Rule {
    fn info(&self) -> RuleInfo;

    /// Run the rule over one file; zero or more findings.
    fn check(&self, ctx: &ScanContext) -> Vec<Finding>;
}

} // verus!
