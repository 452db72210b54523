//! Attribute predicates shared by the template rules.

use vstd::prelude::*;

use crate::parser::template::{Attribute, Directive, DirectiveArgument, DirectiveValue, Element};
use crate::text::str_is;

verus! {

/// `v-bind`, its long name `bind`, or the `:` shorthand.
pub open spec fn spec_is_bind(d: Directive) -> bool {
    d.name.name@ == "v-bind"@ || d.name.name@ == "bind"@ || d.name.name@ == ":"@
}

pub fn is_bind(d: &Directive) -> (r: bool)
    ensures
        r == spec_is_bind(*d),
{
    str_is(&d.name.name, "v-bind") || str_is(&d.name.name, "bind") || str_is(&d.name.name, ":")
}

/// The directive's argument is the static name `name`.
pub open spec fn spec_static_arg_is(d: Directive, name: Seq<char>) -> bool {
    d.argument matches Some(DirectiveArgument::Static(id)) && id.name@ == name
}

pub fn static_arg_is(d: &Directive, name: &str) -> (r: bool)
    ensures
        r == spec_static_arg_is(*d, name@),
{
    match &d.argument {
        Some(DirectiveArgument::Static(id)) => str_is(&id.name, name),
        _ => false,
    }
}

/// The directive's argument is dynamic (`:[key]`).
pub open spec fn spec_dynamic_arg(d: Directive) -> bool {
    d.argument matches Some(DirectiveArgument::Dynamic(_))
}

pub fn dynamic_arg(d: &Directive) -> (r: bool)
    ensures
        r == spec_dynamic_arg(*d),
{
    match &d.argument {
        Some(DirectiveArgument::Dynamic(_)) => true,
        _ => false,
    }
}

/// The directive of a non-static attribute, whatever its shape.
pub open spec fn spec_directive_of(a: Attribute) -> Option<Directive> {
    match a {
        Attribute::Static(_) => None,
        Attribute::Directive(d) => Some(d),
        Attribute::OnDirective(d) => Some(d),
        Attribute::SlotDirective(d) => Some(d),
        Attribute::ForDirective(d) => Some(d),
    }
}

/// A static attribute named `name`.
pub open spec fn spec_static_named(a: Attribute, name: Seq<char>) -> bool {
    a matches Attribute::Static(s) && s.key.name@ == name
}

pub fn static_named(a: &Attribute, name: &str) -> (r: bool)
    ensures
        r == spec_static_named(*a, name@),
{
    match a {
        Attribute::Static(s) => str_is(&s.key.name, name),
        _ => false,
    }
}

/// The value of the element's first static attribute named `name`.
pub open spec fn spec_static_value(el: Element, name: Seq<char>) -> Option<Seq<char>> {
    first_static_value(el.attributes@, name)
}

pub open spec fn first_static_value(attrs: Seq<Attribute>, name: Seq<char>) -> Option<Seq<char>>
    decreases attrs.len(),
{
    if attrs.len() == 0 {
        None
    } else {
        match attrs[0] {
            Attribute::Static(s) if s.key.name@ == name && s.value is Some => Some(
                s.value.unwrap().value@,
            ),
            _ => first_static_value(attrs.drop_first(), name),
        }
    }
}

/// The value of the first static attribute named `name` that has a value.
pub fn static_value<'a>(el: &'a Element, name: &str) -> (r: Option<&'a String>)
    ensures
        match r {
            Some(v) => spec_static_value(*el, name@) == Some(v@),
            None => spec_static_value(*el, name@) is None,
        },
{
    let mut i: usize = 0;
    assert(el.attributes@.skip(0) =~= el.attributes@);
    while i < el.attributes.len()
        invariant
            i <= el.attributes.len(),
            spec_static_value(*el, name@) == first_static_value(el.attributes@.skip(i as int), name@),
        decreases el.attributes.len() - i,
    {
        proof {
            let rest = el.attributes@.skip(i as int);
            assert(rest.drop_first() =~= el.attributes@.skip(i + 1));
            assert(rest[0] == el.attributes@[i as int]);
        }
        if let Attribute::Static(s) = &el.attributes[i] {
            if str_is(&s.key.name, name) {
                if let Some(v) = &s.value {
                    return Some(&v.value);
                }
            }
        }
        i = i + 1;
    }
    proof {
        assert(el.attributes@.skip(i as int) =~= Seq::<Attribute>::empty());
    }
    None
}


/// Attribute tests the element rules ask "does any attribute ...".
#[derive(Debug, Clone, Copy, PartialEq, Eq, Structural)]
pub enum AttrTest {
    /// static `sandbox`
    Sandbox,
    /// a `v-for`
    For,
    /// any directive with the static argument `key` (`:key`, `v-bind:key`)
    Key,
    /// static `alt`, or a binding that is or may be `alt`
    Alt,
    /// static `type`, or a binding that is or may be `type`
    Type,
    /// `@click` / `v-on:click`
    Click,
    /// `@keydown` / `@keyup` / `@keypress` (or the `v-on:` forms)
    Keyboard,
    /// static `role`, or a binding of `role`
    Role,
    /// `v-if`, `v-else-if` or `v-else`
    Conditional,
    /// `aria-label` / `aria-labelledby`, static or bound
    AriaLabel,
    /// a `v-bind` without a static argument (`v-bind="attrs"`, `:[key]`)
    Spread,
}

/// A binding whose argument is `name`, is dynamic, or is absent (a bare
/// spread): any of these may set `name`.
pub open spec fn may_bind(d: Directive, name: Seq<char>) -> bool {
    spec_is_bind(d) && (spec_static_arg_is(d, name) || spec_dynamic_arg(d) || d.argument is None)
}

/// The static event name of a `v-on`-family directive.
pub open spec fn spec_is_event(d: Directive, event: Seq<char>) -> bool {
    spec_static_arg_is(d, event)
}

pub open spec fn spec_is_keyboard_event(d: Directive) -> bool {
    spec_static_arg_is(d, "keydown"@) || spec_static_arg_is(d, "keyup"@) || spec_static_arg_is(
        d,
        "keypress"@,
    )
}

pub open spec fn spec_is_aria_arg(d: Directive) -> bool {
    spec_static_arg_is(d, "aria-label"@) || spec_static_arg_is(d, "aria-labelledby"@)
}

pub open spec fn attr_test(t: AttrTest, a: Attribute) -> bool {
    match t {
        AttrTest::Sandbox => spec_static_named(a, "sandbox"@),
        AttrTest::For => a is ForDirective,
        AttrTest::Key => a matches Attribute::Directive(d) && spec_static_arg_is(d, "key"@),
        AttrTest::Alt => match a {
            Attribute::Static(s) => s.key.name@ == "alt"@,
            Attribute::ForDirective(_) => false,
            _ => may_bind(spec_directive_of(a).unwrap(), "alt"@),
        },
        AttrTest::Type => match a {
            Attribute::Static(s) => s.key.name@ == "type"@,
            Attribute::ForDirective(_) => false,
            _ => may_bind(spec_directive_of(a).unwrap(), "type"@),
        },
        AttrTest::Click => match a {
            Attribute::OnDirective(d) => spec_is_event(d, "click"@),
            Attribute::Directive(d) => d.name.name@ == "v-on"@ && spec_is_event(d, "click"@),
            _ => false,
        },
        AttrTest::Keyboard => match a {
            Attribute::OnDirective(d) => spec_is_keyboard_event(d),
            Attribute::Directive(d) => d.name.name@ == "v-on"@ && spec_is_keyboard_event(d),
            _ => false,
        },
        AttrTest::Role => match a {
            Attribute::Static(s) => s.key.name@ == "role"@,
            Attribute::ForDirective(_) => false,
            _ => spec_is_bind(spec_directive_of(a).unwrap()) && spec_static_arg_is(
                spec_directive_of(a).unwrap(),
                "role"@,
            ),
        },
        AttrTest::Conditional => a matches Attribute::Directive(d) && (d.name.name@ == "v-if"@
            || d.name.name@ == "v-else-if"@ || d.name.name@ == "v-else"@),
        AttrTest::AriaLabel => match a {
            Attribute::Static(s) => s.key.name@ == "aria-label"@ || s.key.name@ == "aria-labelledby"@,
            Attribute::ForDirective(_) => false,
            _ => spec_is_bind(spec_directive_of(a).unwrap()) && spec_is_aria_arg(
                spec_directive_of(a).unwrap(),
            ),
        },
        AttrTest::Spread => a matches Attribute::Directive(d) && spec_is_bind(d) && !(
        d.argument matches Some(DirectiveArgument::Static(_))),
    }
}

fn may_bind_exec(d: &Directive, name: &str) -> (r: bool)
    ensures
        r == may_bind(*d, name@),
{
    is_bind(d) && (static_arg_is(d, name) || dynamic_arg(d) || d.argument.is_none())
}

fn is_keyboard_event(d: &Directive) -> (r: bool)
    ensures
        r == spec_is_keyboard_event(*d),
{
    static_arg_is(d, "keydown") || static_arg_is(d, "keyup") || static_arg_is(d, "keypress")
}

fn is_aria_arg(d: &Directive) -> (r: bool)
    ensures
        r == spec_is_aria_arg(*d),
{
    static_arg_is(d, "aria-label") || static_arg_is(d, "aria-labelledby")
}

pub fn attr_test_exec(t: AttrTest, a: &Attribute) -> (r: bool)
    ensures
        r == attr_test(t, *a),
{
    match t {
        AttrTest::Sandbox => static_named(a, "sandbox"),
        AttrTest::For => match a {
            Attribute::ForDirective(_) => true,
            _ => false,
        },
        AttrTest::Key => match a {
            Attribute::Directive(d) => static_arg_is(d, "key"),
            _ => false,
        },
        AttrTest::Alt => match a {
            Attribute::Static(s) => str_is(&s.key.name, "alt"),
            Attribute::ForDirective(_) => false,
            Attribute::Directive(d) | Attribute::OnDirective(d) | Attribute::SlotDirective(d) => may_bind_exec(d, "alt"),
        },
        AttrTest::Type => match a {
            Attribute::Static(s) => str_is(&s.key.name, "type"),
            Attribute::ForDirective(_) => false,
            Attribute::Directive(d) | Attribute::OnDirective(d) | Attribute::SlotDirective(d) => may_bind_exec(d, "type"),
        },
        AttrTest::Click => match a {
            Attribute::OnDirective(d) => static_arg_is(d, "click"),
            Attribute::Directive(d) => str_is(&d.name.name, "v-on") && static_arg_is(d, "click"),
            _ => false,
        },
        AttrTest::Keyboard => match a {
            Attribute::OnDirective(d) => is_keyboard_event(d),
            Attribute::Directive(d) => str_is(&d.name.name, "v-on") && is_keyboard_event(d),
            _ => false,
        },
        AttrTest::Role => match a {
            Attribute::Static(s) => str_is(&s.key.name, "role"),
            Attribute::ForDirective(_) => false,
            Attribute::Directive(d) | Attribute::OnDirective(d) | Attribute::SlotDirective(d) => is_bind(d) && static_arg_is(d, "role"),
        },
        AttrTest::Conditional => match a {
            Attribute::Directive(d) => str_is(&d.name.name, "v-if") || str_is(&d.name.name, "v-else-if")
                || str_is(&d.name.name, "v-else"),
            _ => false,
        },
        AttrTest::AriaLabel => match a {
            Attribute::Static(s) => str_is(&s.key.name, "aria-label") || str_is(&s.key.name, "aria-labelledby"),
            Attribute::ForDirective(_) => false,
            Attribute::Directive(d) | Attribute::OnDirective(d) | Attribute::SlotDirective(d) => is_bind(d) && is_aria_arg(d),
        },
        AttrTest::Spread => match a {
            Attribute::Directive(d) => is_bind(d) && !(match &d.argument {
                Some(DirectiveArgument::Static(_)) => true,
                _ => false,
            }),
            _ => false,
        },
    }
}

/// Some attribute of the element passes test `t`.
pub open spec fn has_attr(el: Element, t: AttrTest) -> bool {
    exists|k: int| 0 <= k < el.attributes.len() && #[trigger] attr_test(t, el.attributes@[k])
}

pub fn has_attr_exec(el: &Element, t: AttrTest) -> (r: bool)
    ensures
        r == has_attr(*el, t),
{
    let mut i: usize = 0;
    while i < el.attributes.len()
        invariant
            i <= el.attributes.len(),
            forall|k: int| 0 <= k < i ==> !attr_test(t, #[trigger] el.attributes@[k]),
        decreases el.attributes.len() - i,
    {
        if attr_test_exec(t, &el.attributes[i]) {
            return true;
        }
        i = i + 1;
    }
    false
}

} // verus!
