//! `document.write` / `document.writeln` are known XSS sinks.

use vstd::prelude::*;

use crate::context::ScanContext;
use crate::parser::estree::{is_type, node_type, Json};
use crate::parser::script::{callee_path, path_is2, spec_callee_path};
use crate::rules::{finding_spans, Category, Finding, Rule, RuleInfo, RuleKind};
use crate::severity::Severity;
use crate::visitor::script::{check_script, script_hits, ScriptCheck};

verus! {

pub struct NoDocumentWrite;

/// A call of `document.write` or `document.writeln`.
pub open spec fn hit(n: Json) -> bool {
    node_type(n) == "CallExpression"@ && (spec_callee_path(n) == seq!["document"@, "write"@]
        || spec_callee_path(n) == seq!["document"@, "writeln"@])
}

pub fn is_hit(n: &Json) -> (r: bool)
    ensures
        r == hit(*n),
{
    if !is_type(n, "CallExpression") {
        return false;
    }
    let path = callee_path(n);
    path_is2(&path, "document", "write") || path_is2(&path, "document", "writeln")
}

impl Rule for NoDocumentWrite {
    fn info(&self) -> (r: RuleInfo)
        ensures
            r.id@ == "vue/security/no-document-write"@,
            r.name@ == "no-document-write"@,
            r.severity == Severity::High,
            r.category == Category::Security,
    {
        RuleInfo {
            id: "vue/security/no-document-write",
            name: "no-document-write",
            description: "Disallow `document.write` / `document.writeln` calls",
            severity: Severity::High,
            category: Category::Security,
            kind: RuleKind::Syntactic,
            message: "`document.write` is a known XSS sink",
            label: "document.write call here",
            help: "`document.write` after page load is almost always an XSS risk. Use `appendChild`, `Element.innerHTML` (with sanitisation), or update via Vue reactivity instead.",
        }
    }

    fn check(&self, ctx: &ScanContext) -> (r: Vec<Finding>)
        ensures
            finding_spans(r@) == script_hits(ScriptCheck::DocumentWrite, *ctx),
    {
        check_script(ScriptCheck::DocumentWrite, ctx)
    }
}

} // verus!
