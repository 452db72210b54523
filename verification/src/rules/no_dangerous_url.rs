//! `javascript:`, `data:text/html` and `vbscript:` URLs execute code in the
//! page's origin.

use vstd::prelude::*;

use crate::context::ScanContext;
use crate::parser::template::{Attribute, Directive, DirectiveValue, Span};
use crate::rules::attrs::{is_bind, spec_is_bind, spec_static_arg_is, static_arg_is};
use crate::rules::{finding_spans, Category, Finding, Rule, RuleInfo, RuleKind};
use crate::severity::Severity;
use crate::text::{ascii_lower, chars_of, is_whitespace, push_str, spec_ascii_lower, spec_is_whitespace};
use crate::visitor::{check_template, template_hits, TemplateCheck};

verus! {

pub struct NoDangerousUrl;

/// The characters stripped: whitespace (`ws`), or the double quote.
pub open spec fn strippable(ws: bool, c: char) -> bool {
    if ws {
        spec_is_whitespace(c)
    } else {
        c == '"'
    }
}

/// `s` without leading strippable characters.
pub open spec fn strip_front(s: Seq<char>, ws: bool) -> Seq<char>
    decreases s.len(),
{
    if s.len() > 0 && strippable(ws, s[0]) {
        strip_front(s.drop_first(), ws)
    } else {
        s
    }
}

/// `s` without trailing strippable characters.
pub open spec fn strip_back(s: Seq<char>, ws: bool) -> Seq<char>
    decreases s.len(),
{
    if s.len() > 0 && strippable(ws, s.last()) {
        strip_back(s.drop_last(), ws)
    } else {
        s
    }
}

/// The value as the scheme test reads it: whitespace trimmed, then every
/// leading and every trailing `"` removed.
pub open spec fn normalized(v: Seq<char>) -> Seq<char> {
    strip_back(strip_front(strip_back(strip_front(v, true), true), false), false)
}

/// `t` starts with `p` once `t` is lower-cased (ASCII).
pub open spec fn starts_with_lower(t: Seq<char>, p: Seq<char>) -> bool {
    p.len() <= t.len() && forall|k: int| 0 <= k < p.len() ==> spec_ascii_lower(#[trigger] t[k]) == p[k]
}

/// The first dangerous scheme (in the order `javascript:`,
/// `data:text/html`, `vbscript:`) the value starts with.
pub open spec fn dangerous_scheme(v: Seq<char>) -> Option<Seq<char>> {
    let t = normalized(v);
    if starts_with_lower(t, "javascript:"@) {
        Some("javascript:"@)
    } else if starts_with_lower(t, "data:text/html"@) {
        Some("data:text/html"@)
    } else if starts_with_lower(t, "vbscript:"@) {
        Some("vbscript:"@)
    } else {
        None
    }
}

/// A binding of `href` or `src`.
pub open spec fn spec_is_href_or_src(d: Directive) -> bool {
    spec_is_bind(d) && (spec_static_arg_is(d, "href"@) || spec_static_arg_is(d, "src"@))
}

fn is_href_or_src(d: &Directive) -> (r: bool)
    ensures
        r == spec_is_href_or_src(*d),
{
    is_bind(d) && (static_arg_is(d, "href") || static_arg_is(d, "src"))
}

/// The text a dangerous URL is looked for in: a static attribute's value,
/// or the expression of an `href` / `src` binding.
pub open spec fn url_value(a: Attribute) -> Option<Seq<char>> {
    match a {
        Attribute::Static(s) => match s.value {
            Some(v) => Some(v.value@),
            None => None,
        },
        Attribute::Directive(d) => if spec_is_href_or_src(d) {
            match d.value {
                Some(DirectiveValue::Expression(e)) => Some(e.raw@),
                _ => None,
            }
        } else {
            None
        },
        Attribute::OnDirective(d) => if spec_is_href_or_src(d) {
            match d.value {
                Some(DirectiveValue::Expression(e)) => Some(e.raw@),
                _ => None,
            }
        } else {
            None
        },
        _ => None,
    }
}

pub open spec fn hit(a: Attribute) -> Option<Span> {
    match url_value(a) {
        Some(v) => if dangerous_scheme(v) is Some {
            Some(a.spec_span())
        } else {
            None
        },
        None => None,
    }
}

pub fn strip_front_exec(s: &Vec<char>, from: usize, to: usize, ws: bool) -> (r: usize)
    requires
        from <= to <= s.len(),
    ensures
        from <= r <= to,
        s@.subrange(r as int, to as int) == strip_front(
            s@.subrange(from as int, to as int),
            ws,
        ),
    decreases to - from,
{
    let ghost sub = s@.subrange(from as int, to as int);
    if from < to {
        let c = s[from];
        let hit = if ws { is_whitespace(c) } else { c == '"' };
        assert(sub[0] == c);
        if hit {
            assert(sub.drop_first() =~= s@.subrange(from + 1, to as int));
            return strip_front_exec(s, from + 1, to, ws);
        }
    }
    from
}

pub fn strip_back_exec(s: &Vec<char>, from: usize, to: usize, ws: bool) -> (r: usize)
    requires
        from <= to <= s.len(),
    ensures
        from <= r <= to,
        s@.subrange(from as int, r as int) == strip_back(
            s@.subrange(from as int, to as int),
            ws,
        ),
    decreases to - from,
{
    let ghost sub = s@.subrange(from as int, to as int);
    if from < to {
        let c = s[to - 1];
        let hit = if ws { is_whitespace(c) } else { c == '"' };
        assert(sub.last() == c);
        if hit {
            assert(sub.drop_last() =~= s@.subrange(from as int, to - 1));
            return strip_back_exec(s, from, to - 1, ws);
        }
    }
    to
}

fn starts_with_lower_exec(s: &Vec<char>, from: usize, to: usize, p: &str) -> (r: bool)
    requires
        from <= to <= s.len(),
    ensures
        r == starts_with_lower(s@.subrange(from as int, to as int), p@),
{
    let pc = chars_of(p);
    if pc.len() > to - from {
        return false;
    }
    let mut k: usize = 0;
    while k < pc.len()
        invariant
            pc@ == p@,
            k <= pc.len(),
            from + pc.len() <= to <= s.len(),
            forall|m: int| 0 <= m < k ==> spec_ascii_lower(#[trigger] s@.subrange(from as int, to as int)[m]) == pc@[m],
        decreases pc.len() - k,
    {
        assert(s@.subrange(from as int, to as int)[k as int] == s@[from + k]);
        if ascii_lower(s[from + k]) != pc[k] {
            return false;
        }
        k = k + 1;
    }
    true
}

/// The dangerous scheme the value starts with, if any.
pub fn find_dangerous_scheme(value: &String) -> (r: Option<&'static str>)
    ensures
        match r {
            Some(s) => dangerous_scheme(value@) == Some(s@),
            None => dangerous_scheme(value@) is None,
        },
{
    let cs = chars_of(value.as_str());
    let n = cs.len();
    assert(cs@.subrange(0, n as int) =~= value@);
    let a = strip_front_exec(&cs, 0, n, true);
    let b = strip_back_exec(&cs, a, n, true);
    let c = strip_front_exec(&cs, a, b, false);
    let d = strip_back_exec(&cs, c, b, false);
    proof {
        assert(cs@.subrange(a as int, n as int).subrange(0, (b - a) as int) =~= cs@.subrange(a as int, b as int));
    }
    assert(cs@.subrange(c as int, d as int) == normalized(value@)) by {
        assert(cs@.subrange(a as int, b as int) =~= cs@.subrange(a as int, b as int));
    }
    if starts_with_lower_exec(&cs, c, d, "javascript:") {
        Some("javascript:")
    } else if starts_with_lower_exec(&cs, c, d, "data:text/html") {
        Some("data:text/html")
    } else if starts_with_lower_exec(&cs, c, d, "vbscript:") {
        Some("vbscript:")
    } else {
        None
    }
}

pub fn hit_finding(a: &Attribute) -> (r: Option<Finding>)
    ensures
        match r {
            Some(f) => hit(*a) == Some(f.span),
            None => hit(*a) is None,
        },
{
    let value: Option<&String> = match a {
        Attribute::Static(s) => match &s.value {
            Some(v) => Some(&v.value),
            None => None,
        },
        Attribute::Directive(d) | Attribute::OnDirective(d) => {
            if is_href_or_src(d) {
                match &d.value {
                    Some(DirectiveValue::Expression(e)) => Some(&e.raw),
                    _ => None,
                }
            } else {
                None
            }
        },
        _ => None,
    };
    let v = match value {
        Some(v) => v,
        None => {
            return None;
        },
    };
    let scheme = match find_dangerous_scheme(v) {
        Some(s) => s,
        None => {
            return None;
        },
    };
    let mut f = Finding::at(NoDangerousUrl.info(), a.span());
    let mut message = "URL with dangerous scheme `".to_string();
    push_str(&mut message, scheme);
    push_str(&mut message, "` is a known XSS vector");
    f.message = message;
    Some(f)
}

impl Rule for NoDangerousUrl {
    fn info(&self) -> (r: RuleInfo)
        ensures
            r.id@ == "vue/security/no-dangerous-url"@,
            r.name@ == "no-dangerous-url"@,
            r.severity == Severity::Critical,
            r.category == Category::Security,
    {
        RuleInfo {
            id: "vue/security/no-dangerous-url",
            name: "no-dangerous-url",
            description: "Disallow `javascript:`, `data:text/html`, and `vbscript:` URLs in templates",
            severity: Severity::Critical,
            category: Category::Security,
            kind: RuleKind::Syntactic,
            message: "URL with dangerous scheme is a known XSS vector",
            label: "dangerous URL scheme here",
            help: "`javascript:`, `data:text/html`, and `vbscript:` URLs execute code in the caller's origin. Avoid them entirely; for navigation use real `https?://` URLs or a router.",
        }
    }

    fn check(&self, ctx: &ScanContext) -> (r: Vec<Finding>)
        ensures
            finding_spans(r@) == template_hits(TemplateCheck::DangerousUrl, *ctx),
    {
        check_template(TemplateCheck::DangerousUrl, ctx)
    }
}

/// The dangerous schemes are exactly `javascript:`, `data:text/html` and
/// `vbscript:`, tested in that order on the trimmed value read in ASCII
/// lower case: a value starting with one of them is reported with the
/// first that matches, and a value starting with none is not reported.
pub proof fn lemma_dangerous_schemes(v: Seq<char>)
    ensures
        starts_with_lower(normalized(v), "javascript:"@) ==> dangerous_scheme(v) == Some("javascript:"@),
        !starts_with_lower(normalized(v), "javascript:"@) && starts_with_lower(normalized(v), "data:text/html"@)
            ==> dangerous_scheme(v) == Some("data:text/html"@),
        !starts_with_lower(normalized(v), "javascript:"@) && !starts_with_lower(normalized(v), "data:text/html"@)
            && starts_with_lower(normalized(v), "vbscript:"@) ==> dangerous_scheme(v) == Some("vbscript:"@),
        !starts_with_lower(normalized(v), "javascript:"@) && !starts_with_lower(normalized(v), "data:text/html"@)
            && !starts_with_lower(normalized(v), "vbscript:"@) ==> dangerous_scheme(v) is None,
        dangerous_scheme(v) matches Some(s) ==> starts_with_lower(normalized(v), s),
{
}

} // verus!
