//! Vue template parsing.
//!
//! Entry point: [`parse_template`], which wraps the recursive-descent
//! parser in [`parser`].

pub mod ast;
pub mod parser;

pub use ast::{
    Attribute, CommentNode, Directive, DirectiveArgument, DirectiveValue, Element, Expression,
    Identifier, Interpolation, Literal, Span, StaticAttribute, TemplateNode, TemplateRoot, TextNode,
};
pub use parser::{TemplateError, TemplateParser};

use vstd::prelude::*;

verus! {

/// Parse a Vue template into a [`TemplateRoot`], with every span shifted by
/// `base` (the template's offset in the `.vue` file).
///
/// Every node of the result is anchored in `source`: cutting the source at
/// a leaf's span (shifted back by `base`) gives exactly the leaf's text.
/// Every attribute has the variant its name introduces, a void element is
/// self-closing, and a self-closing element has no children.
pub fn parse_template(source: &str, base: u32) -> (r: (TemplateRoot, Vec<TemplateError>))
    requires
        base as int + vstd::utf8::encode_utf8(source@).len() <= u32::MAX,
    ensures
        ast::nodes_ok(source@, base, r.0.children@),
        parser::nodes_shape(r.0.children@),
        r.0.span.start == base,
        // The nodes lie inside the root, in order, without overlapping.
        ast::children_within(r.0.span, r.0.children@),
        r.0.span.end as int == base + vstd::utf8::encode_utf8(source@).len(),
        // A template with anything but whitespace yields a node or an
        // error.
        (exists|k: int| 0 <= k < source@.len() && !crate::text::spec_is_whitespace(#[trigger] source@[k]))
            ==> r.0.children.len() > 0 || r.1.len() > 0,
        // Without errors, every character but whitespace lies inside a
        // node.
        r.1.len() == 0 ==> forall|k: int|
            0 <= k < source@.len() && !crate::text::spec_is_whitespace(#[trigger] source@[k]) ==> parser::covered(
                r.0.children@,
                source@,
                base,
                k,
            ),
        // Every error says what went wrong and points into the template.
        parser::errors_ok(r.1@, source@, base),
        forall|k: int|
            0 <= k < r.1.len() ==> base <= (#[trigger] r.1@[k]).span.start <= base + vstd::utf8::encode_utf8(
                source@,
            ).len(),
{
    let p = TemplateParser::new(source, base);
    proof {
        assert(source@.take(source@.len() as int) =~= source@);
    }
    p.parse()
}

} // verus!
