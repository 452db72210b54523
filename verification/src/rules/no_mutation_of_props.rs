//! Writes to props declared with `defineProps`.
//!
//! Props flow one way: the parent owns them. A write in the child
//! diverges it from the parent and is lost on the next re-render. The
//! rule follows, in document order, the `const` declarations of the
//! script:
//!
//! * `const props = defineProps(...)` (or `withDefaults(defineProps(...),
//!   ...)`) names the props object; a later `props.x = ...`,
//!   `props['x'] = ...`, `props.x++` is reported;
//! * `const { a, b } = defineProps(...)` names destructured props; a later
//!   `a = ...` or `a++` is reported.
//!
//! Only plain `=` assignments and `++` / `--` updates count. The contents
//! of `let` and `var` declarations are not searched, and Options API
//! `this.x = ...` writes are out of scope.

use vstd::prelude::*;

use crate::context::ScanContext;
use crate::parser::estree::{get, get_field, get_items, get_str, is_type, items_of, node_type, str_of, Json};
use crate::parser::script::{
    call_arg, call_args, callee_path, get_ident_name, ident_name, ident_name_of_property, is_computed,
    is_static_member, node_span, path_is1, script_span, spec_callee_path,
};
use crate::parser::template::Span;
use crate::rules::{finding_spans, lemma_finding_spans_push, Category, Finding, Rule, RuleInfo, RuleKind};
use crate::severity::Severity;
use crate::text::{str_eq, str_is};
use crate::visitor::opt_seq;

verus! {

pub struct NoMutationOfProps;

/// What the declarations seen so far bind: the name of the whole props
/// object (the last one bound), and the destructured prop names.
pub type PropsBinding = (Option<Seq<char>>, Seq<Seq<char>>);

/// `defineProps(...)`, or `withDefaults(defineProps(...), ...)`.
pub open spec fn is_props_call(e: Json) -> bool {
    node_type(e) == "CallExpression"@ && (spec_callee_path(e) == seq!["defineProps"@] || (spec_callee_path(e)
        == seq!["withDefaults"@] && call_args(e).len() > 0 && node_type(call_args(e)[0]) == "CallExpression"@
        && spec_callee_path(call_args(e)[0]) == seq!["defineProps"@]))
}

/// The identifier a binding pattern binds: an identifier, or the left side
/// of a default-value pattern.
pub open spec fn binding_name(p: Json) -> Option<Seq<char>>
    decreases p,
{
    if ident_name(p) is Some {
        ident_name(p)
    } else if node_type(p) == "AssignmentPattern"@ {
        match get(p, "left"@) {
            Some(l) => {
                proof {
                    crate::parser::estree::lemma_get_smaller(p, "left"@);
                }
                binding_name(l)
            },
            None => None,
        }
    } else {
        None
    }
}

/// The name a property of an object pattern binds.
pub open spec fn prop_binding(p: Json) -> Option<Seq<char>> {
    if node_type(p) == "Property"@ {
        match get(p, "value"@) {
            Some(v) => binding_name(v),
            None => None,
        }
    } else {
        None
    }
}

/// The names bound by the properties of an object pattern, in order.
pub open spec fn pattern_names(props: Seq<Json>) -> Seq<Seq<char>>
    decreases props.len(),
{
    if props.len() == 0 {
        seq![]
    } else {
        pattern_names(props.drop_last()) + match prop_binding(props.last()) {
            Some(n) => seq![n],
            None => seq![],
        }
    }
}

/// The bindings after one declarator.
pub open spec fn record_decl(d: Json, st: PropsBinding) -> PropsBinding {
    match get(d, "init"@) {
        Some(init) => if is_props_call(init) {
            let id = match get(d, "id"@) {
                Some(i) => i,
                None => Json::Null,
            };
            let whole = if binding_name(id) is Some {
                binding_name(id)
            } else {
                st.0
            };
            let names = if node_type(id) == "ObjectPattern"@ {
                st.1 + pattern_names(items_of(get(id, "properties"@)))
            } else {
                st.1
            };
            (whole, names)
        } else {
            st
        },
        None => st,
    }
}

/// The bindings after the declarators, in order.
pub open spec fn record_decls(ds: Seq<Json>, st: PropsBinding) -> PropsBinding
    decreases ds.len(),
{
    if ds.len() == 0 {
        st
    } else {
        record_decl(ds.last(), record_decls(ds.drop_last(), st))
    }
}

/// `o` is the props object.
pub open spec fn is_props_object(o: Option<Json>, st: PropsBinding) -> bool {
    match o {
        Some(e) => ident_name(e) is Some && st.0 == ident_name(e),
        None => false,
    }
}

/// `t` is a prop: a destructured prop name, or a member of the props
/// object (`__proto__` excluded from plain assignments).
pub open spec fn is_prop_target(t: Json, st: PropsBinding, assignment: bool) -> bool {
    ||| (ident_name(t) matches Some(x) && st.1.contains(x))
    ||| (node_type(t) == "MemberExpression"@ && is_props_object(get(t, "object"@), st) && (get(
        t,
        "computed"@,
    ) == Some(Json::Bool(true)) || (is_static_member(t) && !(assignment && ident_name_of_property(t)
        == Some("__proto__"@)))))
}

/// A write to a prop: `target = value` or an update of the target.
pub open spec fn write_hit(n: Json, st: PropsBinding) -> bool {
    ||| (node_type(n) == "AssignmentExpression"@ && str_of(get(n, "operator"@)) == Some("="@) && (get(
        n,
        "left"@,
    ) matches Some(t) && is_prop_target(t, st, true)))
    ||| (node_type(n) == "UpdateExpression"@ && (get(n, "argument"@) matches Some(t) && is_prop_target(
        t,
        st,
        false,
    )))
}

/// The declaration is a `const` one.
pub open spec fn is_const_decl(n: Json) -> bool {
    node_type(n) == "VariableDeclaration"@ && str_of(get(n, "kind"@)) == Some("const"@)
}

/// The bindings after `j` and the writes found in it, in document order,
/// starting from bindings `st`.
pub open spec fn props_walk(j: Json, st: PropsBinding, off: int) -> (PropsBinding, Seq<Span>)
    decreases j, 0int,
{
    match j {
        Json::Obj(fields) => if node_type(j) == "VariableDeclaration"@ {
            if is_const_decl(j) {
                fields_walk(fields@, record_decls(items_of(get(j, "declarations"@)), st), off)
            } else {
                (st, seq![])
            }
        } else {
            let here = if write_hit(j, st) {
                opt_seq(script_span(off, j))
            } else {
                seq![]
            };
            let inner = fields_walk(fields@, st, off);
            (inner.0, here + inner.1)
        },
        Json::Arr(items) => items_walk(items@, st, off),
        _ => (st, seq![]),
    }
}

pub open spec fn items_walk(items: Seq<Json>, st: PropsBinding, off: int) -> (PropsBinding, Seq<Span>)
    decreases items, 1int,
{
    if items.len() == 0 {
        (st, seq![])
    } else {
        let front = items_walk(items.drop_last(), st, off);
        let last = props_walk(items.last(), front.0, off);
        (last.0, front.1 + last.1)
    }
}

pub open spec fn fields_walk(fields: Seq<(String, Json)>, st: PropsBinding, off: int) -> (PropsBinding, Seq<Span>)
    decreases fields, 1int,
{
    if fields.len() == 0 {
        (st, seq![])
    } else {
        let front = fields_walk(fields.drop_last(), st, off);
        let last = props_walk(fields.last().1, front.0, off);
        (last.0, front.1 + last.1)
    }
}

/// The findings of the rule on a file.
pub open spec fn props_hits(ctx: ScanContext) -> Seq<Span> {
    match ctx.script_ast {
        Some(tree) => props_walk(tree, (None, seq![]), ctx.script_offset as int).1,
        None => seq![],
    }
}

/// The bindings seen so far, as the walk keeps them.
pub struct PropsFinder {
    pub whole: Option<String>,
    pub names: Vec<String>,
}

impl PropsFinder {
    pub open spec fn binding(&self) -> PropsBinding {
        (
            match self.whole {
                Some(w) => Some(w@),
                None => None,
            },
            self.names@.map_values(|s: String| s@),
        )
    }
}

fn props_call(e: &Json) -> (r: bool)
    ensures
        r == is_props_call(*e),
{
    if !is_type(e, "CallExpression") {
        return false;
    }
    let path = callee_path(e);
    if path_is1(&path, "defineProps") {
        return true;
    }
    if !path_is1(&path, "withDefaults") {
        return false;
    }
    match call_arg(e, 0) {
        Some(inner) => {
            if !is_type(inner, "CallExpression") {
                return false;
            }
            let inner_path = callee_path(inner);
            path_is1(&inner_path, "defineProps")
        },
        None => false,
    }
}

fn get_binding_name(p: &Json) -> (r: Option<&String>)
    ensures
        match r {
            Some(s) => binding_name(*p) == Some(s@),
            None => binding_name(*p) is None,
        },
    decreases *p,
{
    match get_ident_name(p) {
        Some(n) => {
            return Some(n);
        },
        None => {},
    }
    if !is_type(p, "AssignmentPattern") {
        return None;
    }
    match get_field(p, "left") {
        Some(l) => {
            proof {
                crate::parser::estree::lemma_get_smaller(*p, "left"@);
            }
            get_binding_name(l)
        },
        None => None,
    }
}

fn push_pattern_names(props: &Vec<Json>, names: &mut Vec<String>)
    ensures
        final(names)@.map_values(|s: String| s@) == old(names)@.map_values(|s: String| s@) + pattern_names(props@),
{
    let mut i: usize = 0;
    assert(props@.take(0) =~= Seq::<Json>::empty());
    while i < props.len()
        invariant
            i <= props.len(),
            names@.map_values(|s: String| s@) == old(names)@.map_values(|s: String| s@) + pattern_names(
                props@.take(i as int),
            ),
        decreases props.len() - i,
    {
        let p = &props[i];
        let ghost before = names@.map_values(|s: String| s@);
        proof {
            let t = props@.take(i + 1);
            assert(t.drop_last() =~= props@.take(i as int));
            assert(t.last() == props@[i as int]);
        }
        if is_type(p, "Property") {
            match get_field(p, "value") {
                Some(v) => match get_binding_name(v) {
                    Some(n) => {
                        names.push(n.clone());
                        assert(names@.map_values(|s: String| s@) =~= before + seq![n@]);
                    },
                    None => {},
                },
                None => {},
            }
        }
        assert(names@.map_values(|s: String| s@) =~= old(names)@.map_values(|s: String| s@) + pattern_names(
            props@.take(i + 1),
        ));
        i = i + 1;
    }
    assert(props@.take(props.len() as int) =~= props@);
}

impl PropsFinder {
    /// Record the bindings of one declarator.
    fn record(&mut self, d: &Json)
        ensures
            final(self).binding() == record_decl(*d, old(self).binding()),
    {
        let init = match get_field(d, "init") {
            Some(i) => i,
            None => {
                return;
            },
        };
        if !props_call(init) {
            return;
        }
        let ghost id = match get(*d, "id"@) {
            Some(i) => i,
            None => Json::Null,
        };
        match get_field(d, "id") {
            Some(id_node) => {
                match get_binding_name(id_node) {
                    Some(n) => {
                        self.whole = Some(n.clone());
                    },
                    None => {},
                }
                if is_type(id_node, "ObjectPattern") {
                    match get_items(id_node, "properties") {
                        Some(props) => {
                            push_pattern_names(props, &mut self.names);
                        },
                        None => {
                            assert(pattern_names(items_of(get(id, "properties"@))) =~= Seq::<Seq<char>>::empty());
                            assert(self.names@.map_values(|s: String| s@) =~= old(self).binding().1 + pattern_names(
                                items_of(get(id, "properties"@)),
                            ));
                        },
                    }
                }
            },
            None => {
                assert(binding_name(Json::Null) is None);
            },
        }
    }

    /// Record the bindings of every declarator, in order.
    fn record_all(&mut self, ds: &Vec<Json>)
        ensures
            final(self).binding() == record_decls(ds@, old(self).binding()),
    {
        let mut i: usize = 0;
        assert(ds@.take(0) =~= Seq::<Json>::empty());
        while i < ds.len()
            invariant
                i <= ds.len(),
                self.binding() == record_decls(ds@.take(i as int), old(self).binding()),
            decreases ds.len() - i,
        {
            proof {
                let t = ds@.take(i + 1);
                assert(t.drop_last() =~= ds@.take(i as int));
                assert(t.last() == ds@[i as int]);
            }
            self.record(&ds[i]);
            i = i + 1;
        }
        assert(ds@.take(ds.len() as int) =~= ds@);
    }

    /// `x` is a destructured prop name.
    fn names_contain(&self, x: &String) -> (r: bool)
        ensures
            r == self.binding().1.contains(x@),
    {
        let mut k: usize = 0;
        while k < self.names.len()
            invariant
                k <= self.names.len(),
                forall|m: int| 0 <= m < k ==> (#[trigger] self.names@[m])@ != x@,
            decreases self.names.len() - k,
        {
            if str_eq(self.names[k].as_str(), x.as_str()) {
                assert(self.binding().1[k as int] == x@);
                return true;
            }
            k = k + 1;
        }
        proof {
            if self.binding().1.contains(x@) {
                let m = choose|m: int| 0 <= m < self.binding().1.len() && self.binding().1[m] == x@;
                assert(self.names@[m]@ == x@);
            }
        }
        false
    }

    fn props_object(&self, o: Option<&Json>) -> (r: bool)
        ensures
            r == is_props_object(
                match o {
                    Some(e) => Some(*e),
                    None => None,
                },
                self.binding(),
            ),
    {
        match o {
            Some(e) => match get_ident_name(e) {
                Some(n) => match &self.whole {
                    Some(w) => str_eq(w.as_str(), n.as_str()),
                    None => false,
                },
                None => false,
            },
            None => false,
        }
    }

    fn prop_target(&self, t: &Json, assignment: bool) -> (r: bool)
        ensures
            r == is_prop_target(*t, self.binding(), assignment),
    {
        match get_ident_name(t) {
            Some(x) => {
                if self.names_contain(x) {
                    return true;
                }
            },
            None => {},
        }
        if !is_type(t, "MemberExpression") {
            return false;
        }
        if !self.props_object(get_field(t, "object")) {
            return false;
        }
        if is_computed(t) {
            return true;
        }
        match get_field(t, "property") {
            Some(p) => match get_ident_name(p) {
                Some(name) => !(assignment && str_is(name, "__proto__")),
                None => false,
            },
            None => false,
        }
    }

    fn is_write(&self, n: &Json) -> (r: bool)
        ensures
            r == write_hit(*n, self.binding()),
    {
        proof {
            reveal_strlit("AssignmentExpression");
            reveal_strlit("UpdateExpression");
            assert("AssignmentExpression"@.len() != "UpdateExpression"@.len());
        }
        if is_type(n, "AssignmentExpression") {
            let op_is_assign = match get_str(n, "operator") {
                Some(op) => str_is(op, "="),
                None => false,
            };
            if !op_is_assign {
                return false;
            }
            match get_field(n, "left") {
                Some(t) => self.prop_target(t, true),
                None => false,
            }
        } else if is_type(n, "UpdateExpression") {
            match get_field(n, "argument") {
                Some(t) => self.prop_target(t, false),
                None => false,
            }
        } else {
            false
        }
    }
}

fn const_decl(n: &Json) -> (r: bool)
    ensures
        r == is_const_decl(*n),
{
    is_type(n, "VariableDeclaration") && match get_str(n, "kind") {
        Some(k) => str_is(k, "const"),
        None => false,
    }
}

/// Walk `j` in document order with the bindings in `st`, appending a
/// finding for each write to a prop.
pub fn walk_props(j: &Json, st: &mut PropsFinder, off: usize, info: RuleInfo, out: &mut Vec<Finding>)
    ensures
        final(st).binding() == props_walk(*j, old(st).binding(), off as int).0,
        finding_spans(final(out)@) == finding_spans(old(out)@) + props_walk(*j, old(st).binding(), off as int).1,
    decreases *j,
{
    match j {
        Json::Obj(fields) => {
            let ghost start = st.binding();
            let ghost before = finding_spans(out@);
            if is_type(j, "VariableDeclaration") {
                if !const_decl(j) {
                    assert(finding_spans(out@) =~= before + Seq::<Span>::empty());
                    return;
                }
                match get_items(j, "declarations") {
                    Some(ds) => st.record_all(ds),
                    None => {
                        assert(record_decls(items_of(get(*j, "declarations"@)), start) == start);
                    },
                }
            } else {
                if st.is_write(j) {
                    match node_span(off, j) {
                        Some(span) => {
                            let f = Finding::at(info, span);
                            proof {
                                lemma_finding_spans_push(out@, f);
                            }
                            out.push(f);
                        },
                        None => {},
                    }
                }
            }
            let ghost entry = st.binding();
            let ghost mid = finding_spans(out@);
            let mut i: usize = 0;
            assert(fields@.take(0) =~= Seq::<(String, Json)>::empty());
            while i < fields.len()
                invariant
                    i <= fields.len(),
                    *j == Json::Obj(*fields),
                    st.binding() == fields_walk(fields@.take(i as int), entry, off as int).0,
                    finding_spans(out@) == mid + fields_walk(fields@.take(i as int), entry, off as int).1,
                decreases fields.len() - i,
            {
                proof {
                    let t = fields@.take(i + 1);
                    assert(t.drop_last() =~= fields@.take(i as int));
                    assert(t.last() == fields@[i as int]);
                    assert(decreases_to!(fields@ => fields@[i as int]));
                    assert(decreases_to!(*j => (*j)->Obj_0));
                    assert(decreases_to!(*fields => fields@));
                    assert(decreases_to!(*j => fields@[i as int].1));
                }
                let ghost prev = finding_spans(out@);
                walk_props(&fields[i].1, st, off, info, out);
                proof {
                    let t = fields@.take(i + 1);
                    let front = fields_walk(fields@.take(i as int), entry, off as int);
                    let last = props_walk(fields@[i as int].1, front.0, off as int);
                    assert(fields_walk(t, entry, off as int) == (last.0, front.1 + last.1));
                    assert(finding_spans(out@) =~= mid + (front.1 + last.1));
                }
                i = i + 1;
            }
            assert(fields@.take(fields.len() as int) =~= fields@);
            proof {
                if node_type(*j) != "VariableDeclaration"@ {
                    let here = if write_hit(*j, start) {
                        opt_seq(script_span(off as int, *j))
                    } else {
                        Seq::<Span>::empty()
                    };
                    assert(mid == before + here);
                    assert(finding_spans(out@) =~= before + (here + fields_walk(fields@, start, off as int).1));
                } else {
                    assert(mid == before);
                }
            }
        },
        Json::Arr(items) => {
            let ghost start = st.binding();
            let ghost before = finding_spans(out@);
            let mut i: usize = 0;
            assert(items@.take(0) =~= Seq::<Json>::empty());
            while i < items.len()
                invariant
                    i <= items.len(),
                    *j == Json::Arr(*items),
                    st.binding() == items_walk(items@.take(i as int), start, off as int).0,
                    finding_spans(out@) == before + items_walk(items@.take(i as int), start, off as int).1,
                decreases items.len() - i,
            {
                proof {
                    let t = items@.take(i + 1);
                    assert(t.drop_last() =~= items@.take(i as int));
                    assert(t.last() == items@[i as int]);
                    assert(decreases_to!(items@ => items@[i as int]));
                    assert(decreases_to!(*j => (*j)->Arr_0));
                    assert(decreases_to!(*items => items@));
                    assert(decreases_to!(*j => items@[i as int]));
                }
                walk_props(&items[i], st, off, info, out);
                proof {
                    let t = items@.take(i + 1);
                    let front = items_walk(items@.take(i as int), start, off as int);
                    let last = props_walk(items@[i as int], front.0, off as int);
                    assert(items_walk(t, start, off as int) == (last.0, front.1 + last.1));
                    assert(finding_spans(out@) =~= before + (front.1 + last.1));
                }
                i = i + 1;
            }
            assert(items@.take(items.len() as int) =~= items@);
        },
        _ => {
            assert(finding_spans(out@) =~= finding_spans(old(out)@) + Seq::<Span>::empty());
        },
    }
}

impl Rule for NoMutationOfProps {
    fn info(&self) -> (r: RuleInfo)
        ensures
            r.id@ == "vue/architecture/no-mutation-of-props"@,
            r.name@ == "no-mutation-of-props"@,
            r.severity == Severity::Medium,
            r.category == Category::Architecture,
    {
        RuleInfo {
            id: "vue/architecture/no-mutation-of-props",
            name: "no-mutation-of-props",
            description: "Disallow writes to props declared with `defineProps`",
            severity: Severity::Medium,
            category: Category::Architecture,
            kind: RuleKind::Syntactic,
            message: "Mutation of a `defineProps` prop breaks one-way data flow",
            label: "props write here",
            help: "Props are owned by the parent; writing `props.x = ...` (or to a destructured prop) diverges the child from the parent and the change is lost on the next re-render. `emit` an event and let the parent update its own state.",
        }
    }

    fn check(&self, ctx: &ScanContext) -> (r: Vec<Finding>)
        ensures
            finding_spans(r@) == props_hits(*ctx),
    {
        let mut out: Vec<Finding> = Vec::new();
        assert(finding_spans(out@) =~= Seq::<Span>::empty());
        match &ctx.script_ast {
            Some(tree) => {
                let mut st = PropsFinder { whole: None, names: Vec::new() };
                assert(st.binding().1 =~= Seq::<Seq<char>>::empty());
                walk_props(tree, &mut st, ctx.script_offset, self.info(), &mut out);
            },
            None => {},
        }
        out
    }
}

} // verus!
