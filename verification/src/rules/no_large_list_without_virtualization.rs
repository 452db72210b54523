//! Heuristic: `v-for` over a collection whose name implies a large or
//! remote dataset, outside any virtual-scroll wrapper.
//!
//! The rule fires only when both hold:
//!
//! 1. the `v-for` source is a bare identifier from a curated list of
//!    collection names that typically come from a backend (`users`,
//!    `messages`, `rows`, `logs`, ...), and
//! 2. neither the element nor any ancestor is a virtual-scroll wrapper (its
//!    name contains `virtual` or `scroller`).

use vstd::prelude::*;

use crate::context::ScanContext;
use crate::parser::template::{Attribute, DirectiveValue, Element, Span};
use crate::rules::no_dangerous_url::{strip_back, strip_back_exec, strip_front, strip_front_exec};
use crate::rules::{finding_spans, Category, Finding, Rule, RuleInfo, RuleKind};
use crate::severity::Severity;
use crate::text::{
    chars_eq, chars_of, contains_in, find_first, first_occ, is_ascii_alnum, lower_range,
    spec_ascii_lower_seq, spec_contains_in, spec_is_ascii_alnum,
};
use crate::visitor::{check_template, template_hits, TemplateCheck};

verus! {

pub struct NoLargeListWithoutVirtualization;

/// The expression of the first `v-for` that has one.
pub open spec fn spec_for_value(attrs: Seq<Attribute>) -> Option<Seq<char>>
    decreases attrs.len(),
{
    if attrs.len() == 0 {
        None
    } else {
        match attrs[0] {
            Attribute::ForDirective(d) if d.value matches Some(DirectiveValue::Expression(_)) => match d.value {
                Some(DirectiveValue::Expression(e)) => Some(e.raw@),
                _ => None,
            },
            _ => spec_for_value(attrs.drop_first()),
        }
    }
}

/// The second piece of `s` split at `pat` (what `split(pat).nth(1)`
/// yields): the text between the first and the second occurrence.
pub open spec fn split_second(s: Seq<char>, pat: Seq<char>) -> Option<Seq<char>> {
    match first_occ(s, pat, 0) {
        None => None,
        Some(p) => {
            let after = p + pat.len();
            match first_occ(s, pat, after) {
                Some(q) => Some(s.subrange(after, q)),
                None => Some(s.subrange(after, s.len() as int)),
            }
        },
    }
}

pub open spec fn ident_char(c: char) -> bool {
    spec_is_ascii_alnum(c) || c == '_' || c == '$'
}

/// A non-empty run of identifier characters.
pub open spec fn is_ident(t: Seq<char>) -> bool {
    t.len() > 0 && forall|k: int| 0 <= k < t.len() ==> ident_char(#[trigger] t[k])
}

/// The iterated collection of the element's `v-for` when it is a bare
/// identifier, e.g. `item in users` gives `users`.
pub open spec fn spec_v_for_source(el: Element) -> Option<Seq<char>> {
    match spec_for_value(el.attributes@) {
        None => None,
        Some(v) => {
            let rhs = match split_second(v, " in "@) {
                Some(r) => Some(r),
                None => split_second(v, " of "@),
            };
            match rhs {
                None => None,
                Some(r) => {
                    let t = strip_back(strip_front(r, true), true);
                    if is_ident(t) {
                        Some(t)
                    } else {
                        None
                    }
                },
            }
        },
    }
}

/// Collection names that plausibly hold large or remote datasets.
pub open spec fn is_large_name(n: Seq<char>) -> bool {
    n == "users"@ || n == "messages"@ || n == "logs"@ || n == "rows"@ || n == "transactions"@
        || n == "notifications"@ || n == "comments"@ || n == "posts"@ || n == "feeds"@ || n
        == "results"@ || n == "tickets"@ || n == "orders"@ || n == "events"@ || n == "records"@
        || n == "articles"@ || n == "files"@
}

/// An element named like a virtual-scroll wrapper (`RecycleScroller`,
/// `el-virtual-list`, `v-virtual-scroll`, ...).
pub open spec fn spec_is_virtual(el: Element) -> bool {
    let l = spec_ascii_lower_seq(el.name@);
    spec_contains_in(l, 0, l.len() as int, "virtual"@) || spec_contains_in(l, 0, l.len() as int, "scroller"@)
}

pub open spec fn hit(el: Element, in_virtual: bool) -> Option<Span> {
    if !in_virtual && !spec_is_virtual(el) && (spec_v_for_source(el) matches Some(s) && is_large_name(
        spec_ascii_lower_seq(s),
    )) {
        Some(el.span)
    } else {
        None
    }
}

fn for_value<'a>(el: &'a Element) -> (r: Option<&'a String>)
    ensures
        match r {
            Some(v) => spec_for_value(el.attributes@) == Some(v@),
            None => spec_for_value(el.attributes@) is None,
        },
{
    let mut i: usize = 0;
    assert(el.attributes@.skip(0) =~= el.attributes@);
    while i < el.attributes.len()
        invariant
            i <= el.attributes.len(),
            spec_for_value(el.attributes@) == spec_for_value(el.attributes@.skip(i as int)),
        decreases el.attributes.len() - i,
    {
        proof {
            let rest = el.attributes@.skip(i as int);
            assert(rest.drop_first() =~= el.attributes@.skip(i + 1));
            assert(rest[0] == el.attributes@[i as int]);
        }
        if let Attribute::ForDirective(d) = &el.attributes[i] {
            if let Some(DirectiveValue::Expression(e)) = &d.value {
                return Some(&e.raw);
            }
        }
        i = i + 1;
    }
    proof {
        assert(el.attributes@.skip(i as int) =~= Seq::<Attribute>::empty());
    }
    None
}

/// `split_second` on `cs`, as a character range.
fn split_second_exec(cs: &Vec<char>, pat: &Vec<char>) -> (r: Option<(usize, usize)>)
    ensures
        match r {
            Some((a, b)) => a <= b <= cs.len() && split_second(cs@, pat@) == Some(
                cs@.subrange(a as int, b as int),
            ),
            None => split_second(cs@, pat@) is None,
        },
{
    let p = match find_first(cs, 0, pat) {
        Some(p) => p,
        None => {
            return None;
        },
    };
    let pl = pat.len();
    assert(p + pl <= cs.len());
    let after = p + pl;
    match find_first(cs, after, pat) {
        Some(q) => Some((after, q)),
        None => Some((after, cs.len())),
    }
}

/// The iterated collection of a `v-for` when it is a bare identifier.
pub fn v_for_source(el: &Element) -> (r: Option<Vec<char>>)
    ensures
        match r {
            Some(s) => spec_v_for_source(*el) == Some(s@),
            None => spec_v_for_source(*el) is None,
        },
{
    let value = match for_value(el) {
        Some(v) => v,
        None => {
            return None;
        },
    };
    let cs = chars_of(value.as_str());
    let pin = chars_of(" in ");
    let pof = chars_of(" of ");
    let ghost v = value@;
    let (a, b) = match split_second_exec(&cs, &pin) {
        Some(r) => r,
        None => match split_second_exec(&cs, &pof) {
            Some(r) => r,
            None => {
                return None;
            },
        },
    };
    let ghost r = cs@.subrange(a as int, b as int);
    assert(r == (match split_second(v, " in "@) {
        Some(x) => x,
        None => split_second(v, " of "@).unwrap(),
    }));
    let c = strip_front_exec(&cs, a, b, true);
    let d = strip_back_exec(&cs, c, b, true);
    proof {
        assert(cs@.subrange(a as int, b as int).subrange((c - a) as int, (b - a) as int) =~= cs@.subrange(c as int, b as int));
    }
    let ghost t = cs@.subrange(c as int, d as int);
    assert(cs@.subrange(c as int, b as int) == strip_front(r, true));
    assert(t == strip_back(strip_front(r, true), true));
    assert(spec_for_value(el.attributes@) == Some(v));
    assert(v == cs@);
    if c == d {
        return None;
    }
    assert(t.len() > 0);
    assert(spec_v_for_source(*el) == (if is_ident(t) {
        Some(t)
    } else {
        None::<Seq<char>>
    }));
    let mut k = c;
    while k < d
        invariant
            c <= k <= d <= cs.len(),
            t.len() > 0,
            spec_v_for_source(*el) == (if is_ident(t) {
                Some(t)
            } else {
                None::<Seq<char>>
            }),
            forall|m: int| 0 <= m < k - c ==> ident_char(#[trigger] t[m]),
            t == cs@.subrange(c as int, d as int),
        decreases d - k,
    {
        let ch = cs[k];
        assert(t[k - c] == ch);
        if !(is_ascii_alnum(ch) || ch == '_' || ch == '$') {
            return None;
        }
        k = k + 1;
    }
    assert(spec_v_for_source(*el) == Some(t));
    let mut out: Vec<char> = Vec::new();
    let mut i = c;
    while i < d
        invariant
            c <= i <= d <= cs.len(),
            spec_v_for_source(*el) == Some(t),
            t == cs@.subrange(c as int, d as int),
            out@ == cs@.subrange(c as int, i as int),
        decreases d - i,
    {
        out.push(cs[i]);
        i = i + 1;
        assert(out@ =~= cs@.subrange(c as int, i as int));
    }
    Some(out)
}

fn is_large(name: &Vec<char>) -> (r: bool)
    ensures
        r == is_large_name(spec_ascii_lower_seq(name@)),
{
    let l = lower_range(name, 0, name.len());
    assert(name@.subrange(0, name@.len() as int) =~= name@);
    chars_eq(&l, &chars_of("users")) || chars_eq(&l, &chars_of("messages")) || chars_eq(&l, &chars_of("logs"))
        || chars_eq(&l, &chars_of("rows")) || chars_eq(&l, &chars_of("transactions")) || chars_eq(
        &l,
        &chars_of("notifications"),
    ) || chars_eq(&l, &chars_of("comments")) || chars_eq(&l, &chars_of("posts")) || chars_eq(
        &l,
        &chars_of("feeds"),
    ) || chars_eq(&l, &chars_of("results")) || chars_eq(&l, &chars_of("tickets")) || chars_eq(
        &l,
        &chars_of("orders"),
    ) || chars_eq(&l, &chars_of("events")) || chars_eq(&l, &chars_of("records")) || chars_eq(
        &l,
        &chars_of("articles"),
    ) || chars_eq(&l, &chars_of("files"))
}

/// True for an element named like a virtual-scroll wrapper.
pub fn is_virtual_scroll_wrapper(el: &Element) -> (r: bool)
    ensures
        r == spec_is_virtual(*el),
{
    let cs = chars_of(el.name.as_str());
    let l = lower_range(&cs, 0, cs.len());
    assert(cs@.subrange(0, cs@.len() as int) =~= cs@);
    contains_in(&l, 0, l.len(), &chars_of("virtual")) || contains_in(&l, 0, l.len(), &chars_of("scroller"))
}

pub fn hit_finding(el: &Element, in_virtual: bool) -> (r: Option<Finding>)
    ensures
        match r {
            Some(f) => hit(*el, in_virtual) == Some(f.span),
            None => hit(*el, in_virtual) is None,
        },
{
    if in_virtual || is_virtual_scroll_wrapper(el) {
        return None;
    }
    match v_for_source(el) {
        Some(s) => {
            if is_large(&s) {
                Some(Finding::at(NoLargeListWithoutVirtualization.info(), el.span))
            } else {
                None
            }
        },
        None => None,
    }
}

impl Rule for NoLargeListWithoutVirtualization {
    fn info(&self) -> (r: RuleInfo)
        ensures
            r.id@ == "vue/performance/no-large-list-without-virtualization"@,
            r.name@ == "no-large-list-without-virtualization"@,
            r.severity == Severity::Low,
            r.category == Category::Performance,
    {
        RuleInfo {
            id: "vue/performance/no-large-list-without-virtualization",
            name: "no-large-list-without-virtualization",
            description: "Heuristic: `v-for` over a large-looking collection without a virtual-scroll wrapper",
            severity: Severity::Low,
            category: Category::Performance,
            kind: RuleKind::Syntactic,
            message: "`v-for` over a likely-large collection without a virtual-scroll wrapper",
            label: "`v-for` here",
            help: "Rendering every row of a large collection at once freezes the main thread. Wrap the list in a virtual-scroll component (RecycleScroller, el-virtual-list, vue-virtual-scroller, ...) or paginate. Heuristic: if this collection is provably small, silence with `vuer-ignore[no-large-list-without-virtualization]`.",
        }
    }

    fn check(&self, ctx: &ScanContext) -> (r: Vec<Finding>)
        ensures
            finding_spans(r@) == template_hits(TemplateCheck::LargeList, *ctx),
    {
        check_template(TemplateCheck::LargeList, ctx)
    }
}

} // verus!
