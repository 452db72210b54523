//! Vue template AST.
//!
//! The data model is close to the shape produced by `vue-eslint-parser`, so
//! rules reason about the structure of the template rather than substrings.
//! Every node carries a [`Span`] of absolute byte offsets into the whole
//! `.vue` source. Strings are owned so the tree can outlive the input.
//!
//! The spec functions at the end state what it means for a node to be
//! *anchored* in its source: each leaf's span, sliced out of the source,
//! gives back exactly the text the node stores.

use vstd::prelude::*;

verus! {

/// A half-open range `[start, end)` of absolute byte offsets.
#[derive(Debug, Clone, Copy, PartialEq, Eq, Structural)]
pub struct Span {
    pub start: u32,
    pub end: u32,
}

impl Span {
    pub fn new(start: u32, end: u32) -> (r: Span)
        ensures
            r.start == start,
            r.end == end,
    {
        Span { start, end }
    }
}

#[derive(Debug)]
pub struct TemplateRoot {
    pub children: Vec<TemplateNode>,
    pub span: Span,
}

#[derive(Debug)]
pub enum TemplateNode {
    Element(Element),
    Text(TextNode),
    Interpolation(Interpolation),
    Comment(CommentNode),
    /// A `<![CDATA[...]]>` section; the node's text excludes the delimiters.
    CData(TextNode),
}

impl TemplateNode {
    pub open spec fn spec_span(&self) -> Span {
        match self {
            TemplateNode::Element(e) => e.span,
            TemplateNode::Text(t) => t.span,
            TemplateNode::Interpolation(i) => i.span,
            TemplateNode::Comment(c) => c.span,
            TemplateNode::CData(t) => t.span,
        }
    }

    pub fn span(&self) -> (r: Span)
        ensures
            r == self.spec_span(),
    {
        match self {
            TemplateNode::Element(e) => e.span,
            TemplateNode::Text(t) => t.span,
            TemplateNode::Interpolation(i) => i.span,
            TemplateNode::Comment(c) => c.span,
            TemplateNode::CData(t) => t.span,
        }
    }
}

#[derive(Debug)]
pub struct Element {
    pub name: String,
    pub raw_name: String,
    pub attributes: Vec<Attribute>,
    pub children: Vec<TemplateNode>,
    pub self_closing: bool,
    pub span: Span,
}

#[derive(Debug, Clone)]
pub enum Attribute {
    /// `class="foo"`, `id="bar"`, `disabled`, ...
    Static(StaticAttribute),
    /// `v-if`, `v-show`, `v-bind` (and `:` shorthand), `v-model`, ...
    Directive(Directive),
    /// `@click="..."`, shorthand for `v-on:`
    OnDirective(Directive),
    /// `#header` / `v-slot`, shorthand for slots
    SlotDirective(Directive),
    /// `v-for="(item, index) in items"`
    ForDirective(Directive),
}

impl Attribute {
    pub open spec fn spec_span(&self) -> Span {
        match self {
            Attribute::Static(a) => a.span,
            Attribute::Directive(d) => d.span,
            Attribute::OnDirective(d) => d.span,
            Attribute::SlotDirective(d) => d.span,
            Attribute::ForDirective(d) => d.span,
        }
    }

    pub fn span(&self) -> (r: Span)
        ensures
            r == self.spec_span(),
    {
        match self {
            Attribute::Static(a) => a.span,
            Attribute::Directive(d) => d.span,
            Attribute::OnDirective(d) => d.span,
            Attribute::SlotDirective(d) => d.span,
            Attribute::ForDirective(d) => d.span,
        }
    }
}

#[derive(Debug, Clone)]
pub struct StaticAttribute {
    pub key: Identifier,
    pub value: Option<Literal>,
    pub span: Span,
}

#[derive(Debug, Clone)]
pub struct Directive {
    /// `v-if`, `v-bind`, `:`, `@`, `#`, `v-for`, `v-html`, ...
    pub name: Identifier,
    /// `src` in `:src`, `click` in `@click`; `None` for parameter-less
    /// directives such as `v-if` or `v-html`.
    pub argument: Option<DirectiveArgument>,
    /// `native`, `prevent`, `stop`, ...
    pub modifiers: Vec<Identifier>,
    /// The value on the right side of `=`, if any.
    pub value: Option<DirectiveValue>,
    pub span: Span,
}

#[derive(Debug, Clone)]
pub enum DirectiveArgument {
    /// `v-bind:[dynamic]` / `v-on:[event]`
    Dynamic(Expression),
    /// `v-bind:src`, `v-on:click`
    Static(Identifier),
}

#[derive(Debug, Clone)]
pub enum DirectiveValue {
    Expression(Expression),
    /// A directive with an explicitly empty value.
    Empty,
}

#[derive(Debug, Clone)]
pub struct Expression {
    pub raw: String,
    pub span: Span,
}

#[derive(Debug, Clone)]
pub struct Identifier {
    pub name: String,
    /// The name as written in the source.
    pub raw_name: String,
    pub span: Span,
}

#[derive(Debug, Clone)]
pub struct Literal {
    pub value: String,
    pub span: Span,
}

#[derive(Debug, Clone)]
pub struct TextNode {
    pub text: String,
    pub span: Span,
}

#[derive(Debug, Clone)]
pub struct Interpolation {
    pub expression: Expression,
    pub span: Span,
}

#[derive(Debug, Clone)]
pub struct CommentNode {
    pub value: String,
    pub span: Span,
}

// ---------------------------------------------------------------------
// Anchoring: how spans relate to the source they were parsed from.
// ---------------------------------------------------------------------

/// Absolute byte offset of character index `i` of `src`, for a source whose
/// first byte sits at `base` in the `.vue` file.
pub open spec fn pos(src: Seq<char>, base: u32, i: int) -> int {
    base + vstd::utf8::encode_utf8(src.take(i)).len()
}

/// The span covers exactly the characters `text` of `src`.
pub open spec fn spans_slice(src: Seq<char>, base: u32, span: Span, text: Seq<char>) -> bool {
    exists|i: int, j: int|
        #![trigger pos(src, base, i), pos(src, base, j)]
        0 <= i <= j <= src.len() && span.start == pos(src, base, i) && span.end == pos(
            src,
            base,
            j,
        ) && text == src.subrange(i, j)
}

/// The span covers `open` delimiter characters, then `text`, then `close`
/// delimiter characters.
pub open spec fn spans_wrapped(
    src: Seq<char>,
    base: u32,
    span: Span,
    text: Seq<char>,
    open: int,
    close: int,
) -> bool {
    exists|i: int, j: int|
        #![trigger pos(src, base, i), pos(src, base, j)]
        0 <= i && i + open <= j - close && j <= src.len() && span.start == pos(src, base, i)
            && span.end == pos(src, base, j) && text == src.subrange(i + open, j - close)
}

/// The span covers the delimiter `open`, then `text`, then the delimiter
/// `close`, all cut from `src`.
pub open spec fn spans_delimited(
    src: Seq<char>,
    base: u32,
    span: Span,
    text: Seq<char>,
    open: Seq<char>,
    close: Seq<char>,
) -> bool {
    exists|i: int, j: int|
        #![trigger pos(src, base, i), pos(src, base, j)]
        0 <= i && i + open.len() <= j - close.len() && j <= src.len() && span.start == pos(src, base, i)
            && span.end == pos(src, base, j) && text == src.subrange(i + open.len(), j - close.len())
            && src.subrange(i, i + open.len()) == open && src.subrange(j - close.len(), j) == close
}

/// The span covers a stretch of `src` that starts with `prefix`.
pub open spec fn spans_opening(src: Seq<char>, base: u32, span: Span, prefix: Seq<char>) -> bool {
    exists|i: int, j: int|
        #![trigger pos(src, base, i), pos(src, base, j)]
        0 <= i && i + prefix.len() <= j <= src.len() && span.start == pos(src, base, i) && span.end == pos(
            src,
            base,
            j,
        ) && src.subrange(i, i + prefix.len()) == prefix
}

/// The nodes lie inside `outer`, in order, without overlapping.
pub open spec fn children_within(outer: Span, nodes: Seq<TemplateNode>) -> bool {
    &&& forall|k: int|
        0 <= k < nodes.len() ==> outer.start <= (#[trigger] nodes[k]).spec_span().start <= nodes[k].spec_span().end
            <= outer.end
    &&& forall|k: int, l: int|
        0 <= k < l < nodes.len() ==> (#[trigger] nodes[k]).spec_span().end <= (#[trigger] nodes[l]).spec_span().start
}

/// An attribute value: the span covers `text`, either bare or between a
/// matching pair of quotes.
pub open spec fn spans_value(src: Seq<char>, base: u32, span: Span, text: Seq<char>) -> bool {
    spans_slice(src, base, span, text) || (spans_wrapped(src, base, span, text, 1, 1))
}

pub open spec fn ident_ok(src: Seq<char>, base: u32, id: Identifier) -> bool {
    id.name@ == id.raw_name@ && spans_slice(src, base, id.span, id.raw_name@)
}

pub open spec fn expr_ok(src: Seq<char>, base: u32, e: Expression) -> bool {
    spans_slice(src, base, e.span, e.raw@)
}

pub open spec fn directive_ok(src: Seq<char>, base: u32, d: Directive) -> bool {
    &&& ident_ok(src, base, d.name)
    &&& match d.argument {
        Some(DirectiveArgument::Static(id)) => ident_ok(src, base, id),
        Some(DirectiveArgument::Dynamic(e)) => expr_ok(src, base, e),
        None => true,
    }
    &&& forall|k: int| 0 <= k < d.modifiers.len() ==> ident_ok(src, base, #[trigger] d.modifiers@[k])
    &&& match d.value {
        Some(DirectiveValue::Expression(e)) => spans_value(src, base, e.span, e.raw@),
        _ => true,
    }
}

pub open spec fn attr_ok(src: Seq<char>, base: u32, a: Attribute) -> bool {
    a.spec_span().start <= a.spec_span().end && match a {
        Attribute::Static(s) => ident_ok(src, base, s.key) && match s.value {
            Some(l) => spans_value(src, base, l.span, l.value@),
            None => true,
        },
        Attribute::Directive(d) => directive_ok(src, base, d),
        Attribute::OnDirective(d) => directive_ok(src, base, d),
        Attribute::SlotDirective(d) => directive_ok(src, base, d),
        Attribute::ForDirective(d) => directive_ok(src, base, d),
    }
}

/// Every leaf in the node is anchored in `src`: identifiers, expressions,
/// text, comment and CDATA contents all slice back to their stored text,
/// with the delimiters that enclose them. An element's span starts with
/// `<` and its tag name, and its children lie inside it, in order.
pub open spec fn node_ok(src: Seq<char>, base: u32, n: TemplateNode) -> bool
    decreases n,
{
    match n {
        TemplateNode::Element(el) => {
            &&& el.span.start <= el.span.end
            &&& spans_opening(src, base, el.span, seq!['<'] + el.raw_name@)
            &&& children_within(el.span, el.children@)
            &&& forall|k: int| 0 <= k < el.attributes.len() ==> attr_ok(src, base, #[trigger] el.attributes@[k])
            &&& forall|k: int| 0 <= k < el.children.len() ==> node_ok(src, base, #[trigger] el.children@[k])
        },
        TemplateNode::Text(t) => spans_slice(src, base, t.span, t.text@),
        TemplateNode::Interpolation(i) => expr_ok(src, base, i.expression) && spans_delimited(
            src,
            base,
            i.span,
            i.expression.raw@,
            "{{"@,
            "}}"@,
        ),
        TemplateNode::Comment(c) => spans_delimited(src, base, c.span, c.value@, "<!--"@, "-->"@),
        TemplateNode::CData(t) => spans_delimited(src, base, t.span, t.text@, "<![CDATA["@, "]]>"@),
    }
}

pub open spec fn element_ok(src: Seq<char>, base: u32, el: Element) -> bool {
    node_ok(src, base, TemplateNode::Element(el))
}

pub open spec fn nodes_ok(src: Seq<char>, base: u32, nodes: Seq<TemplateNode>) -> bool {
    forall|k: int| 0 <= k < nodes.len() ==> node_ok(src, base, #[trigger] nodes[k])
}

pub proof fn lemma_slice(src: Seq<char>, base: u32, span: Span, text: Seq<char>, i: int, j: int)
    requires
        0 <= i <= j <= src.len(),
        span.start == pos(src, base, i),
        span.end == pos(src, base, j),
        text == src.subrange(i, j),
    ensures
        spans_slice(src, base, span, text),
{
}

pub proof fn lemma_wrapped(
    src: Seq<char>,
    base: u32,
    span: Span,
    text: Seq<char>,
    open: int,
    close: int,
    i: int,
    j: int,
)
    requires
        0 <= i,
        i + open <= j - close,
        j <= src.len(),
        span.start == pos(src, base, i),
        span.end == pos(src, base, j),
        text == src.subrange(i + open, j - close),
    ensures
        spans_wrapped(src, base, span, text, open, close),
{
}

pub proof fn lemma_delimited(
    src: Seq<char>,
    base: u32,
    span: Span,
    text: Seq<char>,
    open: Seq<char>,
    close: Seq<char>,
    i: int,
    j: int,
)
    requires
        0 <= i,
        i + open.len() <= j - close.len(),
        j <= src.len(),
        span.start == pos(src, base, i),
        span.end == pos(src, base, j),
        text == src.subrange(i + open.len(), j - close.len()),
        src.subrange(i, i + open.len()) == open,
        src.subrange(j - close.len(), j) == close,
    ensures
        spans_delimited(src, base, span, text, open, close),
{
}

pub proof fn lemma_opening(src: Seq<char>, base: u32, span: Span, prefix: Seq<char>, i: int, j: int)
    requires
        0 <= i,
        i + prefix.len() <= j <= src.len(),
        span.start == pos(src, base, i),
        span.end == pos(src, base, j),
        src.subrange(i, i + prefix.len()) == prefix,
    ensures
        spans_opening(src, base, span, prefix),
{
}

// ---------------------------------------------------------------------
// Lifting: anchoring in a slice of a larger source is anchoring in the
// larger source, once the slice's own offset is the base.
// ---------------------------------------------------------------------

pub proof fn lemma_pos_lift(src: Seq<char>, i: int, j: int, b: u32, k: int)
    requires
        0 <= i <= j <= src.len(),
        0 <= k <= j - i,
        b as int == pos(src, 0, i),
    ensures
        pos(src.subrange(i, j), b, k) == pos(src, 0, i + k),
{
    let sub = src.subrange(i, j);
    assert(src.take(i + k) =~= src.take(i) + sub.take(k));
    crate::text::lemma_encode_concat(src.take(i), sub.take(k));
}

pub proof fn lemma_slice_lift(src: Seq<char>, i: int, j: int, b: u32, span: Span, text: Seq<char>)
    requires
        0 <= i <= j <= src.len(),
        b as int == pos(src, 0, i),
        spans_slice(src.subrange(i, j), b, span, text),
    ensures
        spans_slice(src, 0, span, text),
{
    let sub = src.subrange(i, j);
    let (p, q) = choose|p: int, q: int|
        #![trigger pos(sub, b, p), pos(sub, b, q)]
        0 <= p <= q <= sub.len() && span.start == pos(sub, b, p) && span.end == pos(sub, b, q)
            && text == sub.subrange(p, q);
    lemma_pos_lift(src, i, j, b, p);
    lemma_pos_lift(src, i, j, b, q);
    assert(sub.subrange(p, q) =~= src.subrange(i + p, i + q));
    lemma_slice(src, 0, span, text, i + p, i + q);
}

pub proof fn lemma_wrapped_lift(
    src: Seq<char>,
    i: int,
    j: int,
    b: u32,
    span: Span,
    text: Seq<char>,
    open: int,
    close: int,
)
    requires
        0 <= i <= j <= src.len(),
        0 <= open,
        0 <= close,
        b as int == pos(src, 0, i),
        spans_wrapped(src.subrange(i, j), b, span, text, open, close),
    ensures
        spans_wrapped(src, 0, span, text, open, close),
{
    let sub = src.subrange(i, j);
    let (p, q) = choose|p: int, q: int|
        #![trigger pos(sub, b, p), pos(sub, b, q)]
        0 <= p && p + open <= q - close && q <= sub.len() && span.start == pos(sub, b, p)
            && span.end == pos(sub, b, q) && text == sub.subrange(p + open, q - close);
    lemma_pos_lift(src, i, j, b, p);
    lemma_pos_lift(src, i, j, b, q);
    assert(sub.subrange(p + open, q - close) =~= src.subrange(i + p + open, i + q - close));
    lemma_wrapped(src, 0, span, text, open, close, i + p, i + q);
}

pub proof fn lemma_delimited_lift(
    src: Seq<char>,
    i: int,
    j: int,
    b: u32,
    span: Span,
    text: Seq<char>,
    open: Seq<char>,
    close: Seq<char>,
)
    requires
        0 <= i <= j <= src.len(),
        b as int == pos(src, 0, i),
        spans_delimited(src.subrange(i, j), b, span, text, open, close),
    ensures
        spans_delimited(src, 0, span, text, open, close),
{
    let sub = src.subrange(i, j);
    let (p, q) = choose|p: int, q: int|
        #![trigger pos(sub, b, p), pos(sub, b, q)]
        0 <= p && p + open.len() <= q - close.len() && q <= sub.len() && span.start == pos(sub, b, p)
            && span.end == pos(sub, b, q) && text == sub.subrange(p + open.len(), q - close.len())
            && sub.subrange(p, p + open.len()) == open && sub.subrange(q - close.len(), q) == close;
    lemma_pos_lift(src, i, j, b, p);
    lemma_pos_lift(src, i, j, b, q);
    assert(sub.subrange(p + open.len(), q - close.len()) =~= src.subrange(
        i + p + open.len(),
        i + q - close.len(),
    ));
    assert(sub.subrange(p, p + open.len()) =~= src.subrange(i + p, i + p + open.len()));
    assert(sub.subrange(q - close.len(), q) =~= src.subrange(i + q - close.len(), i + q));
    lemma_delimited(src, 0, span, text, open, close, i + p, i + q);
}

pub proof fn lemma_opening_lift(src: Seq<char>, i: int, j: int, b: u32, span: Span, prefix: Seq<char>)
    requires
        0 <= i <= j <= src.len(),
        b as int == pos(src, 0, i),
        spans_opening(src.subrange(i, j), b, span, prefix),
    ensures
        spans_opening(src, 0, span, prefix),
{
    let sub = src.subrange(i, j);
    let (p, q) = choose|p: int, q: int|
        #![trigger pos(sub, b, p), pos(sub, b, q)]
        0 <= p && p + prefix.len() <= q <= sub.len() && span.start == pos(sub, b, p) && span.end == pos(
            sub,
            b,
            q,
        ) && sub.subrange(p, p + prefix.len()) == prefix;
    lemma_pos_lift(src, i, j, b, p);
    lemma_pos_lift(src, i, j, b, q);
    assert(sub.subrange(p, p + prefix.len()) =~= src.subrange(i + p, i + p + prefix.len()));
    lemma_opening(src, 0, span, prefix, i + p, i + q);
}

pub proof fn lemma_value_lift(src: Seq<char>, i: int, j: int, b: u32, span: Span, text: Seq<char>)
    requires
        0 <= i <= j <= src.len(),
        b as int == pos(src, 0, i),
        spans_value(src.subrange(i, j), b, span, text),
    ensures
        spans_value(src, 0, span, text),
{
    if spans_slice(src.subrange(i, j), b, span, text) {
        lemma_slice_lift(src, i, j, b, span, text);
    } else {
        lemma_wrapped_lift(src, i, j, b, span, text, 1, 1);
    }
}

pub proof fn lemma_directive_lift(src: Seq<char>, i: int, j: int, b: u32, d: Directive)
    requires
        0 <= i <= j <= src.len(),
        b as int == pos(src, 0, i),
        directive_ok(src.subrange(i, j), b, d),
    ensures
        directive_ok(src, 0, d),
{
    lemma_slice_lift(src, i, j, b, d.name.span, d.name.raw_name@);
    match d.argument {
        Some(DirectiveArgument::Static(id)) => {
            lemma_slice_lift(src, i, j, b, id.span, id.raw_name@);
        },
        Some(DirectiveArgument::Dynamic(e)) => {
            lemma_slice_lift(src, i, j, b, e.span, e.raw@);
        },
        None => {},
    }
    assert forall|k: int| 0 <= k < d.modifiers.len() implies ident_ok(src, 0, #[trigger] d.modifiers@[k]) by {
        lemma_slice_lift(src, i, j, b, d.modifiers@[k].span, d.modifiers@[k].raw_name@);
    }
    match d.value {
        Some(DirectiveValue::Expression(e)) => {
            lemma_value_lift(src, i, j, b, e.span, e.raw@);
        },
        _ => {},
    }
}

pub proof fn lemma_attr_lift(src: Seq<char>, i: int, j: int, b: u32, a: Attribute)
    requires
        0 <= i <= j <= src.len(),
        b as int == pos(src, 0, i),
        attr_ok(src.subrange(i, j), b, a),
    ensures
        attr_ok(src, 0, a),
{
    match a {
        Attribute::Static(s) => {
            lemma_slice_lift(src, i, j, b, s.key.span, s.key.raw_name@);
            match s.value {
                Some(l) => {
                    lemma_value_lift(src, i, j, b, l.span, l.value@);
                },
                None => {},
            }
        },
        Attribute::Directive(d) => lemma_directive_lift(src, i, j, b, d),
        Attribute::OnDirective(d) => lemma_directive_lift(src, i, j, b, d),
        Attribute::SlotDirective(d) => lemma_directive_lift(src, i, j, b, d),
        Attribute::ForDirective(d) => lemma_directive_lift(src, i, j, b, d),
    }
}

pub proof fn lemma_node_lift(src: Seq<char>, i: int, j: int, b: u32, n: TemplateNode)
    requires
        0 <= i <= j <= src.len(),
        b as int == pos(src, 0, i),
        node_ok(src.subrange(i, j), b, n),
    ensures
        node_ok(src, 0, n),
    decreases n,
{
    match n {
        TemplateNode::Element(el) => {
            assert forall|k: int| 0 <= k < el.attributes.len() implies attr_ok(src, 0, #[trigger] el.attributes@[k]) by {
                lemma_attr_lift(src, i, j, b, el.attributes@[k]);
            }
            assert forall|k: int| 0 <= k < el.children.len() implies node_ok(src, 0, #[trigger] el.children@[k]) by {
                lemma_node_lift(src, i, j, b, el.children@[k]);
            }
            lemma_opening_lift(src, i, j, b, el.span, seq!['<'] + el.raw_name@);
        },
        TemplateNode::Text(t) => lemma_slice_lift(src, i, j, b, t.span, t.text@),
        TemplateNode::Interpolation(it) => {
            lemma_slice_lift(src, i, j, b, it.expression.span, it.expression.raw@);
            lemma_delimited_lift(src, i, j, b, it.span, it.expression.raw@, "{{"@, "}}"@);
        },
        TemplateNode::Comment(c) => lemma_delimited_lift(src, i, j, b, c.span, c.value@, "<!--"@, "-->"@),
        TemplateNode::CData(t) => lemma_delimited_lift(src, i, j, b, t.span, t.text@, "<![CDATA["@, "]]>"@),
    }
}

/// Nodes anchored in a slice of `src` whose base is the slice's own byte
/// offset are anchored in `src` itself with base 0: spans are absolute.
pub proof fn lemma_nodes_lift(src: Seq<char>, i: int, j: int, b: u32, nodes: Seq<TemplateNode>)
    requires
        0 <= i <= j <= src.len(),
        b as int == pos(src, 0, i),
        nodes_ok(src.subrange(i, j), b, nodes),
    ensures
        nodes_ok(src, 0, nodes),
{
    assert forall|k: int| 0 <= k < nodes.len() implies node_ok(src, 0, #[trigger] nodes[k]) by {
        lemma_node_lift(src, i, j, b, nodes[k]);
    }
}

} // verus!
