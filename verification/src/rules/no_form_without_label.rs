//! Form fields (`<input>`, `<select>`, `<textarea>`) without an accessible
//! label.
//!
//! A field counts as labelled when any of these holds:
//!
//! 1. it carries `aria-label` or `aria-labelledby` (static or bound),
//! 2. its `id` matches the `for` of some `<label>` in the template,
//! 3. it is wrapped inside a `<label>` element,
//! 4. it carries a bare `v-bind="attrs"` / dynamic `:[key]` binding that
//!    could supply a label (unprovable, accepted).
//!
//! `type="hidden"` inputs are skipped: they are not rendered.

use vstd::prelude::*;

use crate::context::ScanContext;
use crate::parser::template::{Attribute, Element, Span, TemplateNode};
use crate::rules::attrs::{has_attr, has_attr_exec, spec_static_value, static_value, AttrTest};
use crate::rules::{finding_spans, Category, Finding, Rule, RuleInfo, RuleKind};
use crate::severity::Severity;
use crate::text::str_is;
use crate::visitor::{check_template, template_hits, TemplateCheck};

verus! {

pub struct NoFormWithoutLabel;

pub open spec fn spec_is_field(name: Seq<char>) -> bool {
    name == "input"@ || name == "select"@ || name == "textarea"@
}

/// The values of the static `for` attributes of an element, in order.
pub open spec fn for_values(attrs: Seq<Attribute>) -> Seq<String>
    decreases attrs.len(),
{
    if attrs.len() == 0 {
        seq![]
    } else {
        for_values(attrs.drop_last()) + match attrs.last() {
            Attribute::Static(s) if s.key.name@ == "for"@ && s.value is Some => seq![s.value.unwrap().value],
            _ => seq![],
        }
    }
}

/// Every `for="..."` target of the `<label>` elements, in document order.
pub open spec fn label_targets(nodes: Seq<TemplateNode>) -> Seq<String>
    decreases nodes,
{
    if nodes.len() == 0 {
        seq![]
    } else {
        label_targets(nodes.drop_last()) + node_label_targets(nodes.last())
    }
}

pub open spec fn node_label_targets(n: TemplateNode) -> Seq<String>
    decreases n,
{
    match n {
        TemplateNode::Element(el) => (if el.name@ == "label"@ {
            for_values(el.attributes@)
        } else {
            seq![]
        }) + label_targets(el.children@),
        _ => seq![],
    }
}

pub open spec fn spec_has_label(el: Element, labelled: Seq<String>, in_label: bool) -> bool {
    ||| spec_static_value(el, "type"@) == Some("hidden"@)
    ||| has_attr(el, AttrTest::AriaLabel)
    ||| (spec_static_value(el, "id"@) matches Some(id) && exists|k: int|
        0 <= k < labelled.len() && (#[trigger] labelled[k])@ == id)
    ||| in_label
    ||| has_attr(el, AttrTest::Spread)
}

pub open spec fn hit(el: Element, labelled: Seq<String>, in_label: bool) -> Option<Span> {
    if spec_is_field(el.name@) && !spec_has_label(el, labelled, in_label) {
        Some(el.span)
    } else {
        None
    }
}

fn contains_string(v: &Vec<String>, s: &String) -> (r: bool)
    ensures
        r == exists|k: int| 0 <= k < v.len() && (#[trigger] v@[k])@ == s@,
{
    let mut i: usize = 0;
    while i < v.len()
        invariant
            i <= v.len(),
            forall|k: int| 0 <= k < i ==> (#[trigger] v@[k])@ != s@,
        decreases v.len() - i,
    {
        if v[i] == *s {
            return true;
        }
        i = i + 1;
    }
    false
}

fn has_label(el: &Element, labelled: &Vec<String>, in_label: bool) -> (r: bool)
    ensures
        r == spec_has_label(*el, labelled@, in_label),
{
    if let Some(t) = static_value(el, "type") {
        if str_is(t, "hidden") {
            return true;
        }
    }
    if has_attr_exec(el, AttrTest::AriaLabel) {
        return true;
    }
    if let Some(id) = static_value(el, "id") {
        if contains_string(labelled, id) {
            return true;
        }
    }
    if in_label {
        return true;
    }
    has_attr_exec(el, AttrTest::Spread)
}

pub fn hit_finding(el: &Element, labelled: &Vec<String>, in_label: bool) -> (r: Option<Finding>)
    ensures
        match r {
            Some(f) => hit(*el, labelled@, in_label) == Some(f.span),
            None => hit(*el, labelled@, in_label) is None,
        },
{
    let field = str_is(&el.name, "input") || str_is(&el.name, "select") || str_is(&el.name, "textarea");
    if field && !has_label(el, labelled, in_label) {
        Some(Finding::at(NoFormWithoutLabel.info(), el.span))
    } else {
        None
    }
}

fn push_for_values(attrs: &Vec<Attribute>, out: &mut Vec<String>)
    ensures
        final(out)@ == old(out)@ + for_values(attrs@),
{
    let mut i: usize = 0;
    assert(attrs@.take(0) =~= Seq::<Attribute>::empty());
    while i < attrs.len()
        invariant
            i <= attrs.len(),
            out@ == old(out)@ + for_values(attrs@.take(i as int)),
        decreases attrs.len() - i,
    {
        proof {
            assert(attrs@.take(i + 1).drop_last() =~= attrs@.take(i as int));
            assert(attrs@.take(i + 1).last() == attrs@[i as int]);
        }
        let ghost before = out@;
        if let Attribute::Static(s) = &attrs[i] {
            if str_is(&s.key.name, "for") {
                if let Some(v) = &s.value {
                    out.push(v.value.clone());
                }
            }
        }
        proof {
            assert(out@ =~= old(out)@ + for_values(attrs@.take(i + 1)));
        }
        i = i + 1;
    }
    assert(attrs@.take(attrs.len() as int) =~= attrs@);
}

/// Collect the `for` targets of every `<label>` under `nodes`.
pub fn collect_label_targets(nodes: &Vec<TemplateNode>, out: &mut Vec<String>)
    ensures
        final(out)@ == old(out)@ + label_targets(nodes@),
    decreases nodes@,
{
    let mut i: usize = 0;
    assert(nodes@.take(0) =~= Seq::<TemplateNode>::empty());
    while i < nodes.len()
        invariant
            i <= nodes.len(),
            out@ == old(out)@ + label_targets(nodes@.take(i as int)),
        decreases nodes.len() - i,
    {
        proof {
            assert(nodes@.take(i + 1).drop_last() =~= nodes@.take(i as int));
            assert(nodes@.take(i + 1).last() == nodes@[i as int]);
        }
        let ghost before = out@;
        match &nodes[i] {
            TemplateNode::Element(el) => {
                if str_is(&el.name, "label") {
                    push_for_values(&el.attributes, out);
                }
                let ghost mid = out@;
                proof {
                    assert(decreases_to!(nodes@ => nodes@[i as int]));
                }
                collect_label_targets(&el.children, out);
                proof {
                    assert(out@ =~= before + node_label_targets(nodes@[i as int]));
                }
            },
            _ => {
                assert(out@ =~= before + node_label_targets(nodes@[i as int]));
            },
        }
        proof {
            assert(out@ =~= old(out)@ + label_targets(nodes@.take(i + 1)));
        }
        i = i + 1;
    }
    assert(nodes@.take(nodes.len() as int) =~= nodes@);
}

impl Rule for NoFormWithoutLabel {
    fn info(&self) -> (r: RuleInfo)
        ensures
            r.id@ == "vue/accessibility/no-form-without-label"@,
            r.name@ == "no-form-without-label"@,
            r.severity == Severity::Medium,
            r.category == Category::Accessibility,
    {
        RuleInfo {
            id: "vue/accessibility/no-form-without-label",
            name: "no-form-without-label",
            description: "Require an associated `<label>` or `aria-label` on form fields",
            severity: Severity::Medium,
            category: Category::Accessibility,
            kind: RuleKind::Syntactic,
            message: "Form field without an associated `<label>` or `aria-label`",
            label: "form field without a label",
            help: "Associate a `<label for=\"field-id\">` with the field, wrap it in a `<label>`, or add `aria-label=\"...\"`. Screen readers announce a field by its label; an unlabelled input is announced only as its type.",
        }
    }

    fn check(&self, ctx: &ScanContext) -> (r: Vec<Finding>)
        ensures
            finding_spans(r@) == template_hits(TemplateCheck::FormWithoutLabel, *ctx),
    {
        check_template(TemplateCheck::FormWithoutLabel, ctx)
    }
}

} // verus!
