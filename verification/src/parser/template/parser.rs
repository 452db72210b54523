//! Recursive-descent parser for Vue templates.
//!
//! The parser produces a [`TemplateRoot`] from a template string and a base
//! offset (the byte offset of the template's first character in the `.vue`
//! source), so every span is absolute.
//!
//! * The lexer is character by character; no pattern search.
//! * Errors are recovered where possible so one bad node does not blank the
//!   rest of the template; they are collected as [`TemplateError`]s.
//! * Every recovery path makes progress, so the parser always terminates,
//!   and no input makes it panic.
//! * Every leaf of the produced tree is anchored: its span, cut out of the
//!   source, gives back exactly the text the leaf stores (see
//!   [`super::ast::node_ok`]).

use vstd::prelude::*;

use super::ast::{
    attr_ok, children_within, element_ok, expr_ok, ident_ok, lemma_delimited, lemma_opening, lemma_slice,
    node_ok, nodes_ok, pos, spans_delimited, spans_opening, spans_slice, Attribute, CommentNode, Directive, DirectiveArgument,
    DirectiveValue, Element, Expression, Identifier, Interpolation, Literal, Span,
    StaticAttribute, TemplateNode, TemplateRoot, TextNode,
};
use crate::text::{
    chars_of, is_ascii_alnum, is_ascii_alpha, is_name_char, is_whitespace, lemma_encode_prefix_mono,
    lemma_encode_prefix_step, lemma_chars_le_bytes, lemma_next_index, next_index, spec_is_ascii_alnum,
    spec_is_ascii_alpha, spec_is_name_char, spec_is_whitespace, str_is, string_of_range, width_of_char,
};

verus! {

/// A recoverable parse error.
#[derive(Debug, Clone, Copy)]
pub struct TemplateError {
    pub message: &'static str,
    pub span: Span,
}

/// The nodes lie between offsets `lo` and `hi`, in order, without
/// overlapping.
pub open spec fn nodes_in_range(nodes: Seq<TemplateNode>, lo: int, hi: int) -> bool {
    &&& forall|k: int|
        0 <= k < nodes.len() ==> lo <= (#[trigger] nodes[k]).spec_span().start <= nodes[k].spec_span().end <= hi
    &&& forall|k: int, l: int|
        0 <= k < l < nodes.len() ==> (#[trigger] nodes[k]).spec_span().end <= (#[trigger] nodes[l]).spec_span().start
}

/// Offsets grow with character indices.
pub open spec fn pos_monotone(src: Seq<char>, base: u32) -> bool {
    forall|a: int, b: int| 0 <= a <= b <= src.len() ==> #[trigger] pos(src, base, a) <= #[trigger] pos(src, base, b)
}

proof fn lemma_pos_monotone(src: Seq<char>, base: u32)
    ensures
        pos_monotone(src, base),
{
    assert forall|a: int, b: int| 0 <= a <= b <= src.len() implies #[trigger] pos(src, base, a) <= #[trigger] pos(
        src,
        base,
        b,
    ) by {
        lemma_encode_prefix_mono(src, a, b);
    }
}

/// The modifiers' texts, each after a dot: `.stop.prevent`.
pub open spec fn dotted_mods(mods: Seq<Identifier>) -> Seq<char>
    decreases mods.len(),
{
    if mods.len() == 0 {
        seq![]
    } else {
        dotted_mods(mods.drop_last()) + seq!['.'] + mods.last().raw_name@
    }
}

/// The directive of an attribute, for every variant but plain attributes.
pub open spec fn attr_directive(a: Attribute) -> Option<Directive> {
    match a {
        Attribute::Static(_) => None,
        Attribute::Directive(d) => Some(d),
        Attribute::OnDirective(d) => Some(d),
        Attribute::SlotDirective(d) => Some(d),
        Attribute::ForDirective(d) => Some(d),
    }
}

/// An argument ends at character `h` (a dynamic one with its `]`).
pub open spec fn arg_end_ok(src: Seq<char>, base: u32, a: DirectiveArgument, h: int) -> bool {
    match a {
        DirectiveArgument::Static(id) => id.span.end == pos(src, base, h),
        DirectiveArgument::Dynamic(e) => 1 <= h <= src.len() && e.span.end == pos(src, base, h - 1) && src[h - 1]
            == ']',
    }
}

/// The directive's name, or its argument when it has one, ends at
/// character `h`; a dynamic argument's `]` comes last.
pub open spec fn head_ends_at(src: Seq<char>, base: u32, d: Directive, h: int) -> bool {
    match d.argument {
        None => d.name.span.end == pos(src, base, h),
        Some(DirectiveArgument::Static(id)) => id.span.end == pos(src, base, h),
        Some(DirectiveArgument::Dynamic(e)) => 1 <= h <= src.len() && e.span.end == pos(src, base, h - 1)
            && src[h - 1] == ']',
    }
}

/// After the head, ending at character `h`, come the modifiers, each after
/// a dot, with no dot left over; the value follows an `=` and runs to
/// `end`, where the attribute ends.
pub open spec fn directive_tail(src: Seq<char>, base: u32, d: Directive, h: int, end: int) -> bool {
    let m = h + dotted_mods(d.modifiers@).len();
    &&& head_ends_at(src, base, d, h)
    &&& 0 <= h <= m <= end <= src.len()
    &&& src.subrange(h, m) == dotted_mods(d.modifiers@)
    &&& char_at(src, m) != Some('.')
    &&& match d.value {
        None => char_at(src, m) != Some('=') && end == m,
        Some(DirectiveValue::Expression(e)) => char_at(src, m) == Some('=') && e.span.start == pos(
            src,
            base,
            m + 1,
        ) && e.span.end == pos(src, base, end),
        _ => false,
    }
}

/// Character `k` lies inside one of the nodes.
pub open spec fn covered(nodes: Seq<TemplateNode>, src: Seq<char>, base: u32, k: int) -> bool {
    exists|c: int|
        0 <= c < nodes.len() && (#[trigger] nodes[c]).spec_span().start <= pos(src, base, k) < nodes[c].spec_span().end
}

/// Character `k` lies inside one of the attributes.
pub open spec fn attrs_cover(attrs: Seq<Attribute>, src: Seq<char>, base: u32, k: int) -> bool {
    exists|c: int|
        0 <= c < attrs.len() && (#[trigger] attrs[c]).spec_span().start <= pos(src, base, k) < attrs[c].spec_span().end
}

/// An element's text: after its tag name, the attributes cover everything
/// but whitespace up to the `>` that ends the opening tag at `a - 1`; the
/// content runs from `a` to the `</` at `b`, and when no error was found
/// in it (the error count stayed at `errs`) the children cover everything
/// in it but whitespace.
pub open spec fn element_content(
    src: Seq<char>,
    base: u32,
    el: Element,
    name_end: int,
    a: int,
    b: int,
    errs: int,
    errs_after: int,
) -> bool {
    &&& name_end < a <= b
    &&& b + 1 < src.len()
    &&& src[a - 1] == '>'
    &&& src[b] == '<' && src[b + 1] == '/'
    &&& forall|k: int|
        name_end <= k < a - 1 && !spec_is_whitespace(#[trigger] src[k]) ==> attrs_cover(el.attributes@, src, base, k)
    &&& errs_after == errs ==> forall|k: int|
        a <= k < b && !spec_is_whitespace(#[trigger] src[k]) ==> covered(el.children@, src, base, k)
}

proof fn lemma_attr_cover_push(
    attrs: Seq<Attribute>,
    x: Attribute,
    src: Seq<char>,
    base: u32,
    lo: int,
    mid: int,
    hi: int,
)
    requires
        0 <= lo <= mid <= hi <= src.len(),
        forall|k: int| lo <= k < mid && !spec_is_whitespace(#[trigger] src[k]) ==> attrs_cover(attrs, src, base, k),
        x.spec_span().start == pos(src, base, mid),
        x.spec_span().end == pos(src, base, hi),
    ensures
        forall|k: int| lo <= k < hi && !spec_is_whitespace(#[trigger] src[k]) ==> attrs_cover(attrs.push(x), src, base, k),
{
    let all = attrs.push(x);
    assert forall|k: int| lo <= k < hi && !spec_is_whitespace(#[trigger] src[k]) implies attrs_cover(all, src, base, k) by {
        if k < mid {
            let c = choose|c: int|
                0 <= c < attrs.len() && (#[trigger] attrs[c]).spec_span().start <= pos(src, base, k) < attrs[c].spec_span().end;
            assert(all[c] == attrs[c]);
        } else {
            lemma_encode_prefix_mono(src, mid, k);
            lemma_pos_strict(src, base, k, hi);
            assert(all[attrs.len() as int] == x);
        }
    }
}

/// A node that covers characters `mid..hi` extends a covering of
/// `lo..mid` to `lo..hi`.
proof fn lemma_cover_push(
    nodes: Seq<TemplateNode>,
    n: TemplateNode,
    src: Seq<char>,
    base: u32,
    lo: int,
    mid: int,
    hi: int,
)
    requires
        0 <= lo <= mid <= hi <= src.len(),
        forall|k: int| lo <= k < mid && !spec_is_whitespace(#[trigger] src[k]) ==> covered(nodes, src, base, k),
        n.spec_span().start == pos(src, base, mid),
        n.spec_span().end == pos(src, base, hi),
    ensures
        forall|k: int| lo <= k < hi && !spec_is_whitespace(#[trigger] src[k]) ==> covered(nodes.push(n), src, base, k),
{
    let all = nodes.push(n);
    assert forall|k: int| lo <= k < hi && !spec_is_whitespace(#[trigger] src[k]) implies covered(all, src, base, k) by {
        if k < mid {
            let c = choose|c: int|
                0 <= c < nodes.len() && (#[trigger] nodes[c]).spec_span().start <= pos(src, base, k) < nodes[c].spec_span().end;
            assert(all[c] == nodes[c]);
        } else {
            lemma_encode_prefix_mono(src, mid, k);
            lemma_pos_strict(src, base, k, hi);
            assert(all[nodes.len() as int] == n);
        }
    }
}

/// Offsets grow strictly with character indices.
proof fn lemma_pos_strict(src: Seq<char>, base: u32, a: int, b: int)
    requires
        0 <= a < b <= src.len(),
    ensures
        pos(src, base, a) < pos(src, base, b),
{
    lemma_encode_prefix_step(src, a);
    lemma_encode_prefix_mono(src, a + 1, b);
}

/// The span runs from character `from` to character `to` of the source.
pub open spec fn consumed(span: Span, src: Seq<char>, base: u32, from: int, to: int) -> bool {
    span.start == pos(src, base, from) && span.end == pos(src, base, to)
}

/// Some character before `i` is `c`.
pub open spec fn opened_before(src: Seq<char>, i: int, c: char) -> bool {
    exists|j: int| 0 <= j < i && #[trigger] src[j] == c
}

/// A quote before `i` is not closed before `i`.
pub open spec fn unclosed_quote(src: Seq<char>, i: int) -> bool {
    exists|q: int|
        0 <= q < i && (#[trigger] src[q] == '"' || src[q] == '\'') && forall|k: int| q < k < i ==> #[trigger] src[k] != src[q]
}

/// What the source shows at character `i` for an error with message
/// `msg` to be reported there: a closing tag, the `<` of an element left
/// open, the opening delimiter of an unterminated interpolation, CDATA
/// section or comment, the end of the text, or a character that cannot
/// start a name.
pub open spec fn error_justified(msg: Seq<char>, src: Seq<char>, i: int) -> bool {
    if msg == "Unexpected closing tag"@ || msg == "Mismatched closing tag"@ {
        char_at(src, i) == Some('<') && char_at(src, i + 1) == Some('/')
    } else if msg == "Unterminated element"@ || msg == "Unterminated element (expected </tag>)"@ {
        char_at(src, i) == Some('<')
    } else if msg == "Unterminated `{{` interpolation"@ {
        char_at(src, i) == Some('{') && char_at(src, i + 1) == Some('{')
    } else if msg == "Unterminated CDATA section"@ {
        char_at(src, i) == Some('<') && char_at(src, i + 1) == Some('!') && char_at(src, i + 2) == Some('[')
    } else if msg == "Unterminated comment"@ {
        char_at(src, i) == Some('<') && char_at(src, i + 1) == Some('!') && char_at(src, i + 2) == Some('-')
            && char_at(src, i + 3) == Some('-')
    } else if msg == "Expected `]` in dynamic directive argument"@ {
        char_at(src, i) != Some(']') && opened_before(src, i, '[')
    } else if msg == "Unterminated quoted attribute value"@ {
        i == src.len() && unclosed_quote(src, i)
    } else if msg == "Unexpected end of input"@ {
        i == src.len() && i >= 1 && src[i - 1] == ':'
    } else if msg == "Expected attribute name"@ {
        char_at(src, i) matches Some(c) && !spec_is_name_char(c)
    } else if msg == "Expected tag name"@ {
        !(char_at(src, i) matches Some(c) && spec_is_name_char(c)) && opened_before(src, i, '<')
    } else if msg == "Expected identifier"@ {
        !(char_at(src, i) matches Some(c) && spec_is_name_char(c)) && i >= 1 && src[i - 1] == '.'
    } else {
        false
    }
}

/// An error says what went wrong and points at a character boundary of
/// the source.
pub open spec fn error_placed(e: TemplateError, src: Seq<char>, base: u32) -> bool {
    &&& e.message@.len() > 0
    &&& e.span.start == e.span.end
    &&& exists|i: int| #![trigger pos(src, base, i)] 0 <= i <= src.len() && e.span.start == pos(src, base, i)
}

/// An error says what went wrong and points at the character boundary
/// where the source shows it.
pub open spec fn error_ok(e: TemplateError, src: Seq<char>, base: u32) -> bool {
    &&& e.message@.len() > 0
    &&& e.span.start == e.span.end
    &&& exists|i: int|
        #![trigger pos(src, base, i)]
        0 <= i <= src.len() && e.span.start == pos(src, base, i) && error_justified(e.message@, src, i)
}

/// Every error of the list is well formed.
pub open spec fn errors_ok(errors: Seq<TemplateError>, src: Seq<char>, base: u32) -> bool {
    forall|k: int| 0 <= k < errors.len() ==> error_ok(#[trigger] errors[k], src, base)
}

/// Every error of the list points into the source.
pub open spec fn errors_placed(errors: Seq<TemplateError>, src: Seq<char>, base: u32) -> bool {
    forall|k: int| 0 <= k < errors.len() ==> error_placed(#[trigger] errors[k], src, base)
}

/// What each error message asks of the source.
proof fn lemma_error_messages(src: Seq<char>, i: int)
    ensures
        error_justified("Unexpected closing tag"@, src, i) == (char_at(src, i) == Some('<') && char_at(src, i + 1)
            == Some('/')),
        error_justified("Mismatched closing tag"@, src, i) == (char_at(src, i) == Some('<') && char_at(src, i + 1)
            == Some('/')),
        error_justified("Unterminated element"@, src, i) == (char_at(src, i) == Some('<')),
        error_justified("Unterminated element (expected </tag>)"@, src, i) == (char_at(src, i) == Some('<')),
        error_justified("Unterminated `{{` interpolation"@, src, i) == (char_at(src, i) == Some('{') && char_at(
            src,
            i + 1,
        ) == Some('{')),
        error_justified("Unterminated CDATA section"@, src, i) == (char_at(src, i) == Some('<') && char_at(src, i + 1)
            == Some('!') && char_at(src, i + 2) == Some('[')),
        error_justified("Unterminated comment"@, src, i) == (char_at(src, i) == Some('<') && char_at(src, i + 1)
            == Some('!') && char_at(src, i + 2) == Some('-') && char_at(src, i + 3) == Some('-')),
        error_justified("Expected `]` in dynamic directive argument"@, src, i) == (char_at(src, i) != Some(']')
            && opened_before(src, i, '[')),
        error_justified("Unterminated quoted attribute value"@, src, i) == (i == src.len() && unclosed_quote(src, i)),
        error_justified("Unexpected end of input"@, src, i) == (i == src.len() && i >= 1 && src[i - 1] == ':'),
        error_justified("Expected attribute name"@, src, i) == (char_at(src, i) matches Some(c) && !spec_is_name_char(c)),
        error_justified("Expected tag name"@, src, i) == (!(char_at(src, i) matches Some(c) && spec_is_name_char(c))
            && opened_before(src, i, '<')),
        error_justified("Expected identifier"@, src, i) == (!(char_at(src, i) matches Some(c) && spec_is_name_char(c))
            && i >= 1 && src[i - 1] == '.'),
{
    reveal_strlit("Unexpected closing tag");
    reveal_strlit("Mismatched closing tag");
    reveal_strlit("Unterminated element");
    reveal_strlit("Unterminated element (expected </tag>)");
    reveal_strlit("Unterminated `{{` interpolation");
    reveal_strlit("Unterminated CDATA section");
    reveal_strlit("Unterminated comment");
    reveal_strlit("Expected `]` in dynamic directive argument");
    reveal_strlit("Unterminated quoted attribute value");
    reveal_strlit("Unexpected end of input");
    reveal_strlit("Expected attribute name");
    reveal_strlit("Expected tag name");
    reveal_strlit("Expected identifier");
    assert("Unexpected closing tag"@.len() == 22);
    assert("Mismatched closing tag"@.len() == 22);
    assert("Unterminated element"@.len() == 20);
    assert("Unterminated element (expected </tag>)"@.len() == 38);
    assert("Unterminated `{{` interpolation"@.len() == 31);
    assert("Unterminated CDATA section"@.len() == 26);
    assert("Unterminated comment"@.len() == 20);
    assert("Expected `]` in dynamic directive argument"@.len() == 42);
    assert("Unterminated quoted attribute value"@.len() == 35);
    assert("Unexpected end of input"@.len() == 23);
    assert("Expected attribute name"@.len() == 23);
    assert("Expected tag name"@.len() == 17);
    assert("Expected identifier"@.len() == 19);
    assert("Unexpected closing tag"@[0] != "Mismatched closing tag"@[0]);
    assert("Unterminated element"@[13] != "Unterminated comment"@[13]);
    assert("Unexpected end of input"@[0] != "Expected attribute name"@[0]);
}

/// A failed parse carries a well-formed error.
pub open spec fn err_ok<T>(r: Result<T, TemplateError>, src: Seq<char>, base: u32) -> bool {
    r matches Err(e) ==> error_ok(e, src, base)
}

/// A well-formed error lies within the source's byte range.
pub proof fn lemma_error_in_range(e: TemplateError, src: Seq<char>, base: u32)
    requires
        error_ok(e, src, base),
    ensures
        base <= e.span.start <= pos(src, base, src.len() as int),
{
    let i = choose|i: int|
        #![trigger pos(src, base, i)]
        0 <= i <= src.len() && e.span.start == pos(src, base, i) && error_justified(e.message@, src, i);
    lemma_encode_prefix_mono(src, i, src.len() as int);
}

/// Errors well formed in a slice of `src` whose base is the slice's own
/// byte offset point into `src` itself with base 0.
pub proof fn lemma_errors_lift(src: Seq<char>, i: int, j: int, b: u32, errs: Seq<TemplateError>)
    requires
        0 <= i <= j <= src.len(),
        b as int == pos(src, 0, i),
        errors_ok(errs, src.subrange(i, j), b),
    ensures
        errors_placed(errs, src, 0),
{
    let sub = src.subrange(i, j);
    assert forall|k: int| 0 <= k < errs.len() implies error_placed(#[trigger] errs[k], src, 0) by {
        let e = errs[k];
        assert(error_ok(e, sub, b));
        let p = choose|p: int|
            #![trigger pos(sub, b, p)]
            0 <= p <= sub.len() && e.span.start == pos(sub, b, p) && error_justified(e.message@, sub, p);
        super::ast::lemma_pos_lift(src, i, j, b, p);
        assert(e.span.start == pos(src, 0, i + p));
    }
}

pub open spec fn char_at(s: Seq<char>, i: int) -> Option<char> {
    if 0 <= i < s.len() {
        Some(s[i])
    } else {
        None
    }
}

pub struct TemplateParser {
    chars: Vec<char>,
    /// `offs[i]` is the absolute byte offset of character `i`; one extra
    /// entry for the end of the source.
    offs: Vec<u32>,
    base: u32,
    cursor: usize,
    errors: Vec<TemplateError>,
    /// True while parsing the children of a `v-pre` element: everything
    /// below it is raw text.
    in_pre: bool,
}

impl TemplateParser {
    /// The characters being parsed.
    pub closed spec fn src(&self) -> Seq<char> {
        self.chars@
    }

    /// The absolute offset of the first character.
    pub closed spec fn base_offset(&self) -> u32 {
        self.base
    }

    /// Where in the source the parser stands.
    pub closed spec fn position(&self) -> int {
        self.cursor as int
    }

    pub closed spec fn wf(&self) -> bool {
        &&& self.offs.len() == self.chars.len() + 1
        &&& self.cursor <= self.chars.len()
        &&& self.chars.len() <= u32::MAX
        &&& forall|i: int| 0 <= i <= self.chars.len() ==> #[trigger] self.offs@[i] as int == pos(self.chars@, self.base, i)
        &&& errors_ok(self.errors@, self.chars@, self.base)
    }

    closed spec fn steps(old: &Self, new: &Self) -> bool {
        &&& new.wf()
        &&& new.chars@ == old.chars@
        &&& new.base == old.base
        &&& old.cursor <= new.cursor
        &&& old.errors.len() <= new.errors.len()
        &&& new.in_pre == old.in_pre
    }

    closed spec fn at_spec(&self, k: int, c: char) -> bool {
        char_at(self.chars@, self.cursor + k) == Some(c)
    }

    closed spec fn at_close_spec(&self) -> bool {
        self.at_spec(0, '<') && self.at_spec(1, '/')
    }

    closed spec fn at_comment_spec(&self) -> bool {
        self.at_spec(0, '<') && self.at_spec(1, '!') && self.at_spec(2, '-') && self.at_spec(3, '-')
    }

    closed spec fn at_cdata_spec(&self) -> bool {
        &&& self.at_spec(0, '<')
        &&& self.at_spec(1, '!')
        &&& self.at_spec(2, '[')
        &&& self.at_spec(3, 'C')
        &&& self.at_spec(4, 'D')
        &&& self.at_spec(5, 'A')
        &&& self.at_spec(6, 'T')
        &&& self.at_spec(7, 'A')
        &&& self.at_spec(8, '[')
    }

    closed spec fn at_element_spec(&self) -> bool {
        self.at_spec(0, '<') && match char_at(self.chars@, self.cursor + 1) {
            Some(c) => spec_is_ascii_alpha(c),
            None => false,
        }
    }

    /// A parser over `source`, whose first byte is at absolute offset `base`.
    pub fn new(source: &str, base: u32) -> (r: TemplateParser)
        requires
            base as int + vstd::utf8::encode_utf8(source@).len() <= u32::MAX,
        ensures
            r.wf(),
            r.src() == source@,
            r.base_offset() == base,
            r.position() == 0,
    {
        let chars = chars_of(source);
        let mut offs: Vec<u32> = Vec::new();
        let mut acc: u32 = base;
        let mut i: usize = 0;
        let ghost s = chars@;
        proof {
            assert(s.take(0) =~= Seq::<char>::empty());
            assert(vstd::utf8::encode_utf8(s.take(0)) =~= Seq::<u8>::empty());
            assert(s.take(s.len() as int) =~= s);
            lemma_chars_le_bytes(s, s.len() as int);
        }
        while i < chars.len()
            invariant
                s == chars@,
                s == source@,
                i <= chars.len(),
                offs.len() == i,
                acc as int == pos(s, base, i as int),
                base as int + vstd::utf8::encode_utf8(s).len() <= u32::MAX,
                forall|k: int| 0 <= k < i ==> #[trigger] offs@[k] as int == pos(s, base, k),
                i <= vstd::utf8::encode_utf8(s.take(i as int)).len(),
            decreases chars.len() - i,
        {
            offs.push(acc);
            let w = width_of_char(chars[i]);
            proof {
                lemma_encode_prefix_step(s, i as int);
                lemma_encode_prefix_mono(s, i + 1, s.len() as int);
                assert(s.take(s.len() as int) =~= s);
            }
            acc = acc + w;
            i = i + 1;
        }
        offs.push(acc);
        proof {
            assert(s.take(s.len() as int) =~= s);
        }
        TemplateParser { chars, offs, base, cursor: 0, errors: Vec::new(), in_pre: false }
    }

    fn eof(&self) -> (r: bool)
        requires
            self.wf(),
        ensures
            r == (self.cursor >= self.chars.len()),
    {
        self.cursor >= self.chars.len()
    }

    fn peek(&self) -> (r: Option<char>)
        requires
            self.wf(),
        ensures
            r == char_at(self.chars@, self.cursor as int),
    {
        if self.cursor < self.chars.len() {
            Some(self.chars[self.cursor])
        } else {
            None
        }
    }

    fn peek_at(&self, k: usize) -> (r: Option<char>)
        requires
            self.wf(),
        ensures
            r == char_at(self.chars@, self.cursor + k),
    {
        if k < self.chars.len() - self.cursor {
            Some(self.chars[self.cursor + k])
        } else {
            None
        }
    }

    fn at(&self, k: usize, c: char) -> (r: bool)
        requires
            self.wf(),
        ensures
            r == self.at_spec(k as int, c),
    {
        match self.peek_at(k) {
            Some(d) => d == c,
            None => false,
        }
    }

    fn at_close(&self) -> (r: bool)
        requires
            self.wf(),
        ensures
            r == self.at_close_spec(),
    {
        self.at(0, '<') && self.at(1, '/')
    }

    fn at_comment(&self) -> (r: bool)
        requires
            self.wf(),
        ensures
            r == self.at_comment_spec(),
    {
        self.at(0, '<') && self.at(1, '!') && self.at(2, '-') && self.at(3, '-')
    }

    fn at_cdata(&self) -> (r: bool)
        requires
            self.wf(),
        ensures
            r == self.at_cdata_spec(),
    {
        self.at(0, '<') && self.at(1, '!') && self.at(2, '[') && self.at(3, 'C') && self.at(4, 'D')
            && self.at(5, 'A') && self.at(6, 'T') && self.at(7, 'A') && self.at(8, '[')
    }

    fn bump(&mut self)
        requires
            old(self).wf(),
        ensures
            Self::steps(old(self), final(self)),
            final(self).cursor == if old(self).cursor < old(self).chars.len() {
                old(self).cursor + 1
            } else {
                old(self).cursor as int
            },
    {
        if self.cursor < self.chars.len() {
            self.cursor = self.cursor + 1;
        }
    }

    fn abs(&self, i: usize) -> (r: u32)
        requires
            self.wf(),
            i <= self.chars.len(),
        ensures
            r as int == pos(self.chars@, self.base, i as int),
    {
        self.offs[i]
    }

    fn error(&self, message: &'static str) -> (r: TemplateError)
        requires
            self.wf(),
            message@.len() > 0,
            error_justified(message@, self.chars@, self.cursor as int),
        ensures
            r.message == message,
            r.span.start == r.span.end,
            r.span.start as int == pos(self.chars@, self.base, self.cursor as int),
            error_ok(r, self.chars@, self.base),
    {
        let at = self.abs(self.cursor);
        TemplateError { message, span: Span::new(at, at) }
    }

    fn error_at(&self, at: u32, message: &'static str) -> (r: TemplateError)
        requires
            message@.len() > 0,
            exists|i: int|
                #![trigger pos(self.chars@, self.base, i)]
                0 <= i <= self.chars.len() && at == pos(self.chars@, self.base, i) && error_justified(
                    message@,
                    self.chars@,
                    i,
                ),
        ensures
            r.message == message,
            r.span.start == at && r.span.end == at,
            error_ok(r, self.chars@, self.base),
    {
        TemplateError { message, span: Span::new(at, at) }
    }

    fn slice(&self, from: usize, to: usize) -> (r: String)
        requires
            self.wf(),
            from <= to <= self.chars.len(),
        ensures
            r@ == self.chars@.subrange(from as int, to as int),
    {
        string_of_range(&self.chars, from, to)
    }

    /// Parse the source into a `TemplateRoot`. Recoverable errors are
    /// returned beside the root, which still holds every node recognised.
    pub fn parse(self) -> (r: (TemplateRoot, Vec<TemplateError>))
        requires
            self.wf(),
        ensures
            nodes_ok(self.src(), self.base_offset(), r.0.children@),
            nodes_shape(r.0.children@),
            // The root spans the whole source.
            r.0.span.start == self.base_offset(),
            r.0.span.end as int == pos(self.src(), self.base_offset(), self.src().len() as int),
            // A template with anything but whitespace yields a node or an
            // error: it is never silently empty.
            (exists|k: int| self.position() <= k < self.src().len() && !spec_is_whitespace(#[trigger] self.src()[k]))
                ==> r.0.children.len() > 0 || r.1.len() > 0,
            // The nodes lie inside the root, in order.
            children_within(r.0.span, r.0.children@),
            // Without errors, every character but whitespace lies inside a
            // node: nothing is dropped.
            r.1.len() == 0 ==> forall|k: int|
                self.position() <= k < self.src().len() && !spec_is_whitespace(#[trigger] self.src()[k]) ==> covered(
                    r.0.children@,
                    self.src(),
                    self.base_offset(),
                    k,
                ),
            // Every error says what went wrong and points into the source.
            errors_ok(r.1@, self.src(), self.base_offset()),
            forall|k: int|
                0 <= k < r.1.len() ==> self.base_offset() <= (#[trigger] r.1@[k]).span.start <= pos(
                    self.src(),
                    self.base_offset(),
                    self.src().len() as int,
                ),
    {
        let ghost src = self.chars@;
        let ghost base = self.base;
        let ghost c_init = self.cursor as int;
        let mut p = self;
        let mut children: Vec<TemplateNode> = Vec::new();
        let start = p.abs(0);
        proof {
            assert(src.take(0) =~= Seq::<char>::empty());
            assert(vstd::utf8::encode_utf8(src.take(0)) =~= Seq::<u8>::empty());
            lemma_pos_monotone(src, base);
            assert(pos(src, base, 0) == base);
        }
        loop
            invariant
                p.wf(),
                p.chars@ == src,
                p.base == base,
                start == base,
                nodes_ok(src, base, children@),
                nodes_shape(children@),
                children.len() > 0 || p.errors.len() > 0 || forall|k: int|
                    c_init <= k < p.cursor ==> spec_is_whitespace(#[trigger] src[k]),
                0 <= c_init <= p.cursor,
                pos_monotone(src, base),
                nodes_in_range(children@, base as int, pos(src, base, p.cursor as int)),
                p.errors.len() == 0 ==> forall|k: int|
                    c_init <= k < p.cursor && !spec_is_whitespace(#[trigger] src[k]) ==> covered(children@, src, base, k),
            ensures
                p.wf(),
                p.chars@ == src,
                p.base == base,
                nodes_ok(src, base, children@),
                nodes_shape(children@),
                p.cursor == p.chars.len(),
                children.len() > 0 || p.errors.len() > 0 || forall|k: int|
                    c_init <= k < p.cursor ==> spec_is_whitespace(#[trigger] src[k]),
                c_init <= p.cursor,
                nodes_in_range(children@, base as int, pos(src, base, p.cursor as int)),
                p.errors.len() == 0 ==> forall|k: int|
                    c_init <= k < p.cursor && !spec_is_whitespace(#[trigger] src[k]) ==> covered(children@, src, base, k),
            decreases p.chars.len() - p.cursor,
        {
            let ghost c0 = p.cursor;
            p.skip_whitespace();
            proof {
                if !(children.len() > 0 || p.errors.len() > 0) {
                    assert forall|k: int| c_init <= k < p.cursor implies spec_is_whitespace(#[trigger] src[k]) by {
                        if k >= c0 {
                            assert(p.chars@[k] == src[k]);
                        }
                    }
                }
                if p.errors.len() == 0 {
                    assert forall|k: int| c_init <= k < p.cursor && !spec_is_whitespace(#[trigger] src[k]) implies covered(
                        children@,
                        src,
                        base,
                        k,
                    ) by {
                        if k >= c0 {
                            assert(p.chars@[k] == src[k]);
                        }
                    }
                }
            }
            if p.eof() {
                break;
            }
            let before = p.cursor;
            let ghost kids = children@;
            if p.at_comment() {
                match p.parse_comment() {
                    Ok(c) => {
                        children.push(TemplateNode::Comment(c));
                        proof {
                            if p.errors.len() == 0 {
                                lemma_cover_push(kids, TemplateNode::Comment(c), src, base, c_init, before as int, p.cursor as int);
                            }
                        }
                    },
                    Err(e) => {
                        p.errors.push(e);
                    },
                }
                continue;
            }
            if p.at_close() {
                // A stray closing tag at root level. Record it, consume it,
                // keep scanning.
                proof {
                    reveal_strlit("Unexpected closing tag");
                    lemma_error_messages(p.chars@, p.cursor as int);
                }
                let e = p.error("Unexpected closing tag");
                p.errors.push(e);
                p.skip_stray_closing_tag();
                continue;
            }
            match p.parse_node() {
                Ok(node) => {
                    children.push(node);
                    proof {
                        if p.errors.len() == 0 {
                            lemma_cover_push(kids, node, src, base, c_init, before as int, p.cursor as int);
                        }
                    }
                },
                Err(e) => {
                    p.errors.push(e);
                    p.recover_to_next_sibling();
                },
            }
            assert(p.cursor > before);
        }
        let span = Span::new(start, p.abs(p.cursor));
        proof {
            assert forall|k: int| 0 <= k < p.errors.len() implies base <= (#[trigger] p.errors@[k]).span.start <= pos(
                src,
                base,
                src.len() as int,
            ) by {
                lemma_error_in_range(p.errors@[k], src, base);
            }
        }
        (TemplateRoot { children, span }, p.errors)
    }

    fn parse_node(&mut self) -> (r: Result<TemplateNode, TemplateError>)
        requires
            old(self).wf(),
            old(self).cursor < old(self).chars.len(),
            !old(self).at_close_spec(),
        ensures
            err_ok(r, old(self).chars@, old(self).base),
            Self::steps(old(self), final(self)),
            final(self).cursor > old(self).cursor,
            r matches Ok(n) ==> node_ok(old(self).chars@, old(self).base, n),
            r matches Ok(n) ==> node_shape(n),
            r matches Ok(n) ==> consumed(
                n.spec_span(),
                old(self).chars@,
                old(self).base,
                old(self).cursor as int,
                final(self).cursor as int,
            ),
        decreases old(self).chars.len() - old(self).cursor, 1nat,
    {
        if self.at(0, '<') {
            if self.at_comment() {
                return match self.parse_comment() {
                    Ok(c) => Ok(TemplateNode::Comment(c)),
                    Err(e) => Err(e),
                };
            }
            if self.at_cdata() {
                return match self.parse_cdata() {
                    Ok(c) => Ok(TemplateNode::CData(c)),
                    Err(e) => Err(e),
                };
            }
            if self.is_start_of_element() {
                return match self.parse_element() {
                    Ok(el) => Ok(TemplateNode::Element(el)),
                    Err(e) => Err(e),
                };
            }
        }
        if self.at(0, '{') && self.at(1, '{') {
            return match self.parse_interpolation() {
                Ok(i) => Ok(TemplateNode::Interpolation(i)),
                Err(e) => Err(e),
            };
        }
        Ok(TemplateNode::Text(self.parse_text()))
    }

    fn is_start_of_element(&self) -> (r: bool)
        requires
            self.wf(),
        ensures
            r == self.at_element_spec(),
    {
        if !self.at(0, '<') {
            return false;
        }
        match self.peek_at(1) {
            Some(next) => is_ascii_alpha(next),
            None => false,
        }
    }

    fn parse_element(&mut self) -> (r: Result<Element, TemplateError>)
        requires
            old(self).wf(),
            old(self).at_element_spec(),
        ensures
            err_ok(r, old(self).chars@, old(self).base),
            Self::steps(old(self), final(self)),
            final(self).cursor > old(self).cursor,
            r matches Ok(el) ==> element_ok(old(self).chars@, old(self).base, el),
            // The tag name follows the `<`; a void element is self-closing,
            // and a self-closing element has no children.
            r matches Ok(el) ==> {
                &&& el.name@.len() > 0
                &&& el.name@ == old(self).chars@.subrange(
                    old(self).cursor + 1,
                    old(self).cursor + 1 + el.name@.len(),
                )
                &&& el.raw_name@ == el.name@
                &&& spec_is_void_element(el.name@) ==> el.self_closing
                &&& el.self_closing ==> el.children.len() == 0
            },
            r matches Ok(el) ==> node_shape(TemplateNode::Element(el)),
            r matches Ok(el) ==> consumed(
                el.span,
                old(self).chars@,
                old(self).base,
                old(self).cursor as int,
                final(self).cursor as int,
            ),
            // Its attributes cover its opening tag, and without errors its
            // children cover its content: nothing is dropped.
            r matches Ok(el) ==> (!el.self_closing ==> exists|a: int, b: int|
                #[trigger] element_content(
                    old(self).chars@,
                    old(self).base,
                    el,
                    old(self).cursor + 1 + el.name@.len(),
                    a,
                    b,
                    old(self).errors.len() as int,
                    final(self).errors.len() as int,
                )),
            // Below a `v-pre` element everything is raw text.
            r matches Ok(el) ==> ((old(self).in_pre || exists|k: int|
                0 <= k < el.attributes.len() && is_v_pre(#[trigger] el.attributes@[k])) ==> forall|k: int|
                0 <= k < el.children.len() ==> (#[trigger] el.children@[k]) is Text),
        decreases old(self).chars.len() - old(self).cursor, 0nat,
    {
        let ghost src = self.chars@;
        let ghost base = self.base;
        let entry = self.cursor;
        let open_start = self.abs(self.cursor);
        proof {
            lemma_pos_monotone(src, base);
        }
        self.bump();
        let name = self.parse_tag_name()?;
        let raw_name = name.clone();
        let mut attributes: Vec<Attribute> = Vec::new();
        let mut self_closing = false;
        loop
            invariant_except_break
                forall|k: int|
                    entry + 1 + name@.len() <= k < self.cursor && !spec_is_whitespace(#[trigger] src[k]) ==> attrs_cover(
                        attributes@,
                        src,
                        base,
                        k,
                    ),
            invariant
                self.wf(),
                self.errors.len() >= old(self).errors.len(),
                self.chars@ == src,
                self.in_pre == old(self).in_pre,
                src == old(self).chars@,
                base == old(self).base,
                self.base == base,
                self.cursor > entry,
                entry == old(self).cursor,
                open_start as int == pos(src, base, entry as int),
                char_at(src, entry as int) == Some('<'),
                name@ == src.subrange(entry + 1, entry + 1 + name@.len()),
                name@.len() > 0,
                self.cursor >= entry + 1 + name@.len(),
                pos_monotone(src, base),
                forall|k: int| 0 <= k < attributes.len() ==> attr_ok(src, base, #[trigger] attributes@[k]),
                forall|k: int|
                    0 <= k < attributes.len() ==> attribute_shape(
                        attribute_name(#[trigger] attributes@[k]),
                        attributes@[k],
                    ),
            ensures
                self.wf(),
                self.errors.len() >= old(self).errors.len(),
                self.chars@ == src,
                self.in_pre == old(self).in_pre,
                src == old(self).chars@,
                base == old(self).base,
                self.base == base,
                self.cursor > entry,
                entry == old(self).cursor,
                open_start as int == pos(src, base, entry as int),
                char_at(src, entry as int) == Some('<'),
                name@ == src.subrange(entry + 1, entry + 1 + name@.len()),
                name@.len() > 0,
                self.cursor >= entry + 1 + name@.len(),
                pos_monotone(src, base),
                forall|k: int| 0 <= k < attributes.len() ==> attr_ok(src, base, #[trigger] attributes@[k]),
                forall|k: int|
                    0 <= k < attributes.len() ==> attribute_shape(
                        attribute_name(#[trigger] attributes@[k]),
                        attributes@[k],
                    ),
                !self_closing ==> (entry + 1 + name@.len() < self.cursor && src[self.cursor - 1] == '>' && forall|k: int|
                    entry + 1 + name@.len() <= k < self.cursor - 1 && !spec_is_whitespace(#[trigger] src[k]) ==> attrs_cover(
                        attributes@,
                        src,
                        base,
                        k,
                    )),
            decreases self.chars.len() - self.cursor,
        {
            let ghost c0 = self.cursor as int;
            self.skip_whitespace();
            proof {
                assert forall|k: int|
                    entry + 1 + name@.len() <= k < self.cursor && !spec_is_whitespace(#[trigger] src[k]) implies attrs_cover(
                    attributes@,
                    src,
                    base,
                    k,
                ) by {
                    if k >= c0 {
                        assert(self.chars@[k] == src[k]);
                    }
                }
            }
            match self.peek() {
                Some('/') => {
                    self.bump();
                    self_closing = true;
                    if self.at(0, '>') {
                        self.bump();
                    }
                    break;
                },
                Some('>') => {
                    self.bump();
                    break;
                },
                None => {
                    proof {
                        reveal_strlit("Unterminated element");
                        lemma_error_messages(self.chars@, entry as int);
                    }
                    return Err(self.error_at(open_start, "Unterminated element"));
                },
                Some(_) => {
                    let ghost before_attrs = attributes@;
                    let ghost c1 = self.cursor as int;
                    let attr = self.parse_attribute()?;
                    attributes.push(attr);
                    proof {
                        lemma_attr_cover_push(
                            before_attrs,
                            attr,
                            src,
                            base,
                            entry + 1 + name@.len(),
                            c1,
                            self.cursor as int,
                        );
                    }
                },
            }
        }
        let ghost content_from = self.cursor as int;

        // HTML void elements (`<img>`, `<br>`, `<input>`, ...) are implicitly
        // self-closing.
        if !self_closing && is_void_element(&name) {
            self_closing = true;
        }

        // `v-pre` turns the whole subtree into raw text.
        let prev_pre = self.in_pre;
        if has_v_pre(&attributes) {
            self.in_pre = true;
        }

        let mut children: Vec<TemplateNode> = Vec::new();
        // True when the element was closed by its own `</name>`; a
        // mismatched closing tag is left for the parent.
        let mut closed = false;
        let ghost mut close_at: int = 0;
        if !self_closing {
            loop
                invariant
                    self.wf(),
                    self.errors.len() >= old(self).errors.len(),
                    self.chars@ == src,
                    self.in_pre == (prev_pre || exists|k: int| 0 <= k < attributes.len() && is_v_pre(#[trigger] attributes@[k])),
                    src == old(self).chars@,
                    base == old(self).base,
                    self.base == base,
                    self.cursor > entry,
                    entry == old(self).cursor,
                    open_start as int == pos(src, base, entry as int),
                    char_at(src, entry as int) == Some('<'),
                    entry < src.len(),
                    nodes_ok(src, base, children@),
                    nodes_shape(children@),
                    self.cursor >= entry + 1 + name@.len(),
                    pos_monotone(src, base),
                    nodes_in_range(children@, open_start as int, pos(src, base, self.cursor as int)),
                    prev_pre == old(self).in_pre,
                    self.in_pre == (prev_pre || exists|k: int|
                        0 <= k < attributes.len() && is_v_pre(#[trigger] attributes@[k])),
                    self.in_pre ==> forall|k: int| 0 <= k < children.len() ==> (#[trigger] children@[k]) is Text,
                    0 <= content_from <= self.cursor,
                    entry + 1 + name@.len() < content_from,
                    src[content_from - 1] == '>',
                    forall|k: int|
                        entry + 1 + name@.len() <= k < content_from - 1 && !spec_is_whitespace(#[trigger] src[k]) ==> attrs_cover(
                            attributes@,
                            src,
                            base,
                            k,
                        ),
                    self.errors.len() == old(self).errors.len() ==> forall|k: int|
                        content_from <= k < self.cursor && !spec_is_whitespace(#[trigger] src[k]) ==> covered(
                            children@,
                            src,
                            base,
                            k,
                        ),
                ensures
                    self.wf(),
                    self.errors.len() >= old(self).errors.len(),
                    self.chars@ == src,
                    self.in_pre == (prev_pre || exists|k: int| 0 <= k < attributes.len() && is_v_pre(#[trigger] attributes@[k])),
                    src == old(self).chars@,
                    base == old(self).base,
                    self.base == base,
                    self.cursor > entry,
                    entry == old(self).cursor,
                    open_start as int == pos(src, base, entry as int),
                    char_at(src, entry as int) == Some('<'),
                    entry < src.len(),
                    nodes_ok(src, base, children@),
                    nodes_shape(children@),
                    self.cursor >= entry + 1 + name@.len(),
                    pos_monotone(src, base),
                    nodes_in_range(children@, open_start as int, pos(src, base, self.cursor as int)),
                    prev_pre == old(self).in_pre,
                    self.in_pre == (prev_pre || exists|k: int|
                        0 <= k < attributes.len() && is_v_pre(#[trigger] attributes@[k])),
                    self.in_pre ==> forall|k: int| 0 <= k < children.len() ==> (#[trigger] children@[k]) is Text,
                    0 <= content_from <= self.cursor,
                    entry + 1 + name@.len() < content_from,
                    src[content_from - 1] == '>',
                    forall|k: int|
                        entry + 1 + name@.len() <= k < content_from - 1 && !spec_is_whitespace(#[trigger] src[k]) ==> attrs_cover(
                            attributes@,
                            src,
                            base,
                            k,
                        ),
                    self.errors.len() == old(self).errors.len() ==> forall|k: int|
                        content_from <= k < self.cursor && !spec_is_whitespace(#[trigger] src[k]) ==> covered(
                            children@,
                            src,
                            base,
                            k,
                        ),
                    self.at_close_spec(),
                decreases self.chars.len() - self.cursor,
            {
                let ghost c0 = self.cursor as int;
                self.skip_whitespace();
                proof {
                    if self.errors.len() == old(self).errors.len() {
                        assert forall|k: int|
                            content_from <= k < self.cursor && !spec_is_whitespace(#[trigger] src[k]) implies covered(
                            children@,
                            src,
                            base,
                            k,
                        ) by {
                            if k >= c0 {
                                assert(self.chars@[k] == src[k]);
                            }
                        }
                    }
                }
                if self.eof() {
                    self.in_pre = prev_pre;
                    proof {
                        reveal_strlit("Unterminated element (expected </tag>)");
                        lemma_error_messages(self.chars@, entry as int);
                    }
                    return Err(self.error_at(open_start, "Unterminated element (expected </tag>)"));
                }
                let before = self.cursor;
                if self.at_close() {
                    match self.peek_tag_name() {
                        Some(n) => {
                            if n == name {
                                closed = true;
                                break;
                            } else {
                                proof {
                                    reveal_strlit("Mismatched closing tag");
                                    lemma_error_messages(self.chars@, self.cursor as int);
                                }
                                let e = self.error("Mismatched closing tag");
                                self.errors.push(e);
                                break;
                            }
                        },
                        None => {
                            proof {
                                reveal_strlit("Unexpected closing tag");
                                lemma_error_messages(self.chars@, self.cursor as int);
                            }
                            let e = self.error("Unexpected closing tag");
                            self.errors.push(e);
                            self.skip_stray_closing_tag();
                            continue;
                        },
                    }
                }
                if self.in_pre {
                    // Raw text down to this element's own closing tag.
                    let raw_start = self.cursor;
                    let ghost errs_raw = self.errors.len() as int;
                    self.bump();
                    while !self.eof()
                        invariant
                            self.wf(),
                            self.errors.len() >= old(self).errors.len(),
                            self.chars@ == src,
                            self.in_pre == (prev_pre || exists|k: int| 0 <= k < attributes.len() && is_v_pre(#[trigger] attributes@[k])),
                            src == old(self).chars@,
                            base == old(self).base,
                            self.base == base,
                            self.cursor > raw_start,
                            raw_start == before,
                            self.errors.len() >= errs_raw >= old(self).errors.len(),
                            errs_raw == old(self).errors.len() ==> forall|k: int|
                                content_from <= k < raw_start && !spec_is_whitespace(#[trigger] src[k]) ==> covered(
                                    children@,
                                    src,
                                    base,
                                    k,
                                ),
                        decreases self.chars.len() - self.cursor,
                    {
                        if self.at_close() {
                            let stop = match self.peek_tag_name() {
                                Some(n) => n == name,
                                None => false,
                            };
                            if stop {
                                break;
                            }
                        }
                        self.bump();
                    }
                    let text = self.slice(raw_start, self.cursor);
                    let span = Span::new(self.abs(raw_start), self.abs(self.cursor));
                    proof {
                        lemma_slice(src, base, span, text@, raw_start as int, self.cursor as int);
                    }
                    let node = TemplateNode::Text(TextNode { text, span });
                    assert(node_ok(src, base, node));
                    let ghost kids = children@;
                    children.push(node);
                    proof {
                        if self.errors.len() == old(self).errors.len() {
                            lemma_cover_push(kids, node, src, base, content_from, raw_start as int, self.cursor as int);
                        }
                    }
                    continue;
                }
                let ghost kids = children@;
                match self.parse_node() {
                    Ok(node) => {
                        children.push(node);
                        proof {
                            if self.errors.len() == old(self).errors.len() {
                                lemma_cover_push(kids, node, src, base, content_from, before as int, self.cursor as int);
                            }
                        }
                    },
                    Err(e) => {
                        self.errors.push(e);
                        self.recover_to_next_sibling();
                    },
                }
            }
            proof {
                close_at = self.cursor as int;
            }
            self.skip_whitespace();
            if closed {
                self.bump();
                self.bump();
                let _ = self.parse_tag_name();
                self.skip_whitespace();
                if self.at(0, '>') {
                    self.bump();
                }
            }
        }
        self.in_pre = prev_pre;
        let span = Span::new(open_start, self.abs(self.cursor));
        proof {
            lemma_encode_prefix_mono(src, entry as int, self.cursor as int);
            assert(src[entry as int] == '<');
            assert(src.subrange(entry as int, entry + 1 + name@.len()) =~= seq!['<'] + raw_name@);
            lemma_opening(src, base, span, seq!['<'] + raw_name@, entry as int, self.cursor as int);
            assert(children_within(span, children@));
        }
        let el = Element { name, raw_name, attributes, children, self_closing, span };
        proof {
            if !self_closing {
                assert(element_content(
                    src,
                    base,
                    el,
                    entry + 1 + name@.len(),
                    content_from,
                    close_at,
                    old(self).errors.len() as int,
                    self.errors.len() as int,
                ));
            }
        }
        assert(element_ok(src, base, el));
        assert(node_shape(TemplateNode::Element(el)));
        Ok(el)
    }

    #[verifier::spinoff_prover]
    #[verifier::rlimit(40)]
    fn parse_attribute(&mut self) -> (r: Result<Attribute, TemplateError>)
        requires
            old(self).cursor < old(self).chars.len(),
            old(self).wf(),
        ensures
            err_ok(r, old(self).chars@, old(self).base),
            Self::steps(old(self), final(self)),
            r is Ok ==> final(self).cursor > old(self).cursor,
            r matches Ok(a) ==> attr_ok(old(self).chars@, old(self).base, a),
            // The name is the source text at the start; it decides the
            // variant and what argument is read.
            r matches Ok(a) ==> {
                let name = attribute_name(a);
                let at = old(self).cursor + name.len();
                &&& name.len() > 0
                &&& name == old(self).chars@.subrange(old(self).cursor as int, at)
                &&& attribute_shape(name, a)
                &&& argument_shape(name, char_at(old(self).chars@, at), attribute_argument(a))
            },
            // No name, no attribute.
            attr_name_fails(old(self).chars@, old(self).cursor as int) ==> r is Err,
            // A directive keeps every modifier and its value, and ends where
            // they do.
            r matches Ok(a) ==> (attr_directive(a) matches Some(d) ==> exists|h: int|
                directive_tail(old(self).chars@, old(self).base, d, h, final(self).cursor as int)),
            r matches Ok(a) ==> consumed(
                a.spec_span(),
                old(self).chars@,
                old(self).base,
                old(self).cursor as int,
                final(self).cursor as int,
            ),
            // A plain attribute without modifiers is read exactly when its
            // value, if any, is: an unquoted value always, a quoted one when
            // it is closed.
            forall|end: int|
                #![trigger attr_name_ends(old(self).chars@, old(self).cursor as int, end)]
                plain_name_start(old(self).chars@, old(self).cursor as int) && attr_name_ends(
                    old(self).chars@,
                    old(self).cursor as int,
                    end,
                ) && old(self).chars@.subrange(old(self).cursor as int, end) != "slot"@ && char_at(
                    old(self).chars@,
                    end,
                ) != Some('.') ==> (r is Ok <==> (char_at(old(self).chars@, end) == Some('=') ==> value_closes(
                    old(self).chars@,
                    end + 1,
                ))),
    {
        let ghost src = self.chars@;
        let ghost base = self.base;
        let name_start = self.cursor;
        let attr_start = self.abs(self.cursor);
        let name = self.parse_attribute_name()?;
        let name_end = self.cursor;
        let raw_name = name.clone();
        let mut argument: Option<DirectiveArgument> = None;
        let mut modifiers: Vec<Identifier> = Vec::new();
        let mut value: Option<DirectiveValue> = None;

        let kind = if str_is(&name, "v-for") {
            AttributeKind::For
        } else if str_is(&name, "v-slot") || str_is(&name, "slot") {
            AttributeKind::Slot
        } else if name_end - name_start >= 2 && self.chars[name_start] == 'v' && self.chars[name_start
            + 1] == '-' {
            // The built-ins (`v-if`, `v-show`, `v-model`, `v-bind`, `v-on`,
            // `v-html`, ...) and user-registered directives.
            AttributeKind::Directive
        } else if str_is(&name, "@") {
            AttributeKind::On
        } else if str_is(&name, ":") {
            AttributeKind::Bind
        } else if str_is(&name, "#") {
            AttributeKind::Slot
        } else {
            AttributeKind::Static
        };
        assert(kind == kind_of_name(name@));
        let ghost next = char_at(src, name_end as int);
        proof {
            reveal_strlit("v-for");
            reveal_strlit("v-slot");
            reveal_strlit("slot");
            reveal_strlit("@");
            reveal_strlit(":");
            reveal_strlit("#");
        }
        let ghost plain = plain_name_start(src, name_start as int) && name@ != "slot"@ && next != Some('.');
        proof {
            assert forall|end: int| attr_name_ends(src, name_start as int, end) implies end == name_end by {
                lemma_attr_name_end_unique(src, name_start as int, end, name_end as int);
            }
            if plain {
                assert(name@[0] == src[name_start as int]);
                if name@.len() >= 2 {
                    assert(name@[1] == src[name_start + 1]);
                }
                assert(kind == AttributeKind::Static);
            }
        }

        assert(self.cursor == name_end);
        match kind {
            AttributeKind::Bind | AttributeKind::On => {
                // `:foo`, `:[foo]`, `@click`, `@[event]`
                assert(name@ == "@"@ || name@ == ":"@);
                if self.at(0, '[') {
                    argument = Some(self.parse_dynamic_argument()?);
                } else if self.at_ident_start() {
                    argument = Some(self.parse_static_argument()?);
                }
                assert(argument_shape(name@, next, argument));
            },
            AttributeKind::Slot => {
                // `#header`, `v-slot:header`, `#[name]`
                assert(name@ == "v-slot"@ || name@ == "slot"@ || name@ == "#"@);
                assert(name@ != "v-for"@ && name@ != "@"@ && name@ != ":"@) by {
                    assert("#"@[0] == '#' && "@"@[0] == '@' && ":"@[0] == ':');
                    assert("v-for"@.len() == 5 && "v-slot"@.len() == 6 && "slot"@.len() == 4);
                    if name@ == "#"@ {
                        assert(name@[0] == '#');
                    }
                }
                if self.at(0, ':') {
                    self.bump();
                    argument = Some(self.parse_directive_argument()?);
                    assert(next == Some(':'));
                } else if self.at(0, '[') {
                    argument = Some(self.parse_dynamic_argument()?);
                    assert(argument matches Some(DirectiveArgument::Dynamic(_)));
                } else if self.at_ident_start() {
                    argument = Some(self.parse_static_argument()?);
                    assert(starts_ident(next));
                    assert(argument matches Some(DirectiveArgument::Static(_)));
                }
                assert(argument_shape(name@, next, argument));
            },
            AttributeKind::Directive => {
                // `v-bind:foo`, `v-on:click`; parameter-less like `v-if`.
                assert(is_v_name(name@) && name@ != "v-for"@ && name@ != "v-slot"@);
                if self.at(0, ':') {
                    self.bump();
                    argument = Some(self.parse_directive_argument()?);
                }
                assert(argument_shape(name@, next, argument));
            },
            _ => {
                assert(argument_shape(name@, next, argument));
            },
        }
        assert(argument_shape(name@, next, argument));

        let ghost h = self.cursor as int;
        proof {
            assert(argument matches Some(a) ==> arg_end_ok(src, base, a, h));
            assert(argument is None ==> h == name_end);
            assert(src.subrange(h, h) =~= dotted_mods(modifiers@));
        }
        loop
            invariant
                self.wf(),
                self.errors.len() >= old(self).errors.len(),
                self.chars@ == src,
                self.in_pre == old(self).in_pre,
                src == old(self).chars@,
                base == old(self).base,
                self.base == base,
                self.cursor >= name_end,
                name_end > name_start,
                name_start == old(self).cursor,
                name@ == src.subrange(name_start as int, name_end as int),
                raw_name@ == name@,
                kind == kind_of_name(name@),
                next == char_at(src, name_end as int),
                argument_shape(name@, next, argument),
                forall|k: int| 0 <= k < modifiers.len() ==> ident_ok(src, base, #[trigger] modifiers@[k]),
                plain == (plain_name_start(src, name_start as int) && name@ != "slot"@ && next != Some('.')),
                forall|end: int| attr_name_ends(src, name_start as int, end) ==> end == name_end,
                plain ==> kind == AttributeKind::Static,
                plain ==> modifiers.len() == 0 && self.cursor == name_end,
                argument matches Some(a) ==> arg_end_ok(src, base, a, h),
                argument is None ==> h == name_end,
                self.cursor == h + dotted_mods(modifiers@).len(),
                0 <= h,
                self.cursor <= src.len(),
                src.subrange(h, self.cursor as int) == dotted_mods(modifiers@),
            ensures
                self.wf(),
                self.errors.len() >= old(self).errors.len(),
                self.chars@ == src,
                self.in_pre == old(self).in_pre,
                src == old(self).chars@,
                base == old(self).base,
                self.base == base,
                self.cursor >= name_end,
                name_end > name_start,
                name_start == old(self).cursor,
                name@ == src.subrange(name_start as int, name_end as int),
                raw_name@ == name@,
                kind == kind_of_name(name@),
                next == char_at(src, name_end as int),
                argument_shape(name@, next, argument),
                forall|k: int| 0 <= k < modifiers.len() ==> ident_ok(src, base, #[trigger] modifiers@[k]),
                plain == (plain_name_start(src, name_start as int) && name@ != "slot"@ && next != Some('.')),
                forall|end: int| attr_name_ends(src, name_start as int, end) ==> end == name_end,
                plain ==> kind == AttributeKind::Static,
                plain ==> modifiers.len() == 0 && self.cursor == name_end,
                argument matches Some(a) ==> arg_end_ok(src, base, a, h),
                argument is None ==> h == name_end,
                self.cursor == h + dotted_mods(modifiers@).len(),
                0 <= h,
                self.cursor <= src.len(),
                src.subrange(h, self.cursor as int) == dotted_mods(modifiers@),
                char_at(src, self.cursor as int) != Some('.'),
            decreases self.chars.len() - self.cursor,
        {
            if !self.at(0, '.') {
                break;
            }
            let ghost dot_at = self.cursor as int;
            let ghost before_mods = modifiers@;
            self.bump();
            let mod_start = self.cursor;
            assert(mod_start == dot_at + 1 && h <= dot_at);
            let mod_name = self.parse_simple_ident()?;
            let mod_raw = mod_name.clone();
            let span = Span::new(self.abs(mod_start), self.abs(self.cursor));
            proof {
                lemma_slice(src, base, span, mod_raw@, mod_start as int, self.cursor as int);
            }
            modifiers.push(Identifier { name: mod_name, raw_name: mod_raw, span });
            proof {
                assert(modifiers@.drop_last() =~= before_mods);
                assert(src[dot_at] == '.');
                let cur = self.cursor as int;
                let whole = src.subrange(h, cur);
                let parts = src.subrange(h, dot_at) + seq!['.'] + src.subrange(mod_start as int, cur);
                assert(whole.len() == parts.len());
                assert forall|t: int| 0 <= t < whole.len() implies whole[t] == parts[t] by {
                    if t < dot_at - h {
                        assert(parts[t] == src.subrange(h, dot_at)[t]);
                    } else if t == dot_at - h {
                        assert(parts[t] == '.');
                    } else {
                        assert(parts[t] == src.subrange(mod_start as int, cur)[t - (dot_at - h) - 1]);
                    }
                }
                assert(whole =~= parts);
            }
        }
        let ghost m = self.cursor as int;
        assert(char_at(src, m) != Some('.'));

        if self.at(0, '=') {
            self.bump();
            let value_start = self.abs(self.cursor);
            let raw = self.parse_attribute_value()?;
            let value_end = self.abs(self.cursor);
            value = Some(
                DirectiveValue::Expression(Expression { raw, span: Span::new(value_start, value_end) }),
            );
        }
        assert(value is None ==> char_at(src, m) != Some('=') && self.cursor == m);
        assert(value matches Some(DirectiveValue::Expression(e)) ==> char_at(src, m) == Some('=') && e.span.start
            == pos(src, base, m + 1) && e.span.end == pos(src, base, self.cursor as int));

        let attr_end = self.abs(self.cursor);
        let span = Span::new(attr_start, attr_end);
        proof {
            lemma_encode_prefix_mono(src, name_start as int, self.cursor as int);
        }
        let name_span = Span::new(attr_start, self.abs(name_end));
        proof {
            lemma_slice(src, base, name_span, raw_name@, name_start as int, name_end as int);
        }
        let attr = match kind {
            AttributeKind::Static => {
                let key = Identifier { name, raw_name, span: name_span };
                let value_literal = match value {
                    Some(DirectiveValue::Expression(e)) => Some(Literal { value: e.raw, span: e.span }),
                    _ => None,
                };
                Attribute::Static(StaticAttribute { key, value: value_literal, span })
            },
            _ => {
                let directive = Directive {
                    name: Identifier { name, raw_name, span: name_span },
                    argument,
                    modifiers,
                    value,
                    span,
                };
                proof {
                    assert(head_ends_at(src, base, directive, h));
                    assert(directive_tail(src, base, directive, h, self.cursor as int));
                }
                match kind {
                    AttributeKind::On => Attribute::OnDirective(directive),
                    AttributeKind::Slot => Attribute::SlotDirective(directive),
                    AttributeKind::For => Attribute::ForDirective(directive),
                    _ => Attribute::Directive(directive),
                }
            },
        };
        Ok(attr)
    }

    fn at_ident_start(&self) -> (r: bool)
        requires
            self.wf(),
        ensures
            r == (char_at(self.chars@, self.cursor as int) matches Some(ch) && (spec_is_ascii_alpha(ch) || ch
                == '_')),
    {
        match self.peek() {
            Some(ch) => is_ascii_alpha(ch) || ch == '_',
            None => false,
        }
    }

    /// A static directive argument such as `src` in `:src`.
    fn parse_static_argument(&mut self) -> (r: Result<DirectiveArgument, TemplateError>)
        requires
            old(self).cursor < old(self).chars.len() || (old(self).cursor >= 1 && old(self).chars@[old(self).cursor - 1] == ':'),
            old(self).wf(),
        ensures
            err_ok(r, old(self).chars@, old(self).base),
            Self::steps(old(self), final(self)),
            r matches Ok(a) ==> a matches DirectiveArgument::Static(id) && ident_ok(
                old(self).chars@,
                old(self).base,
                id,
            ),
            r is Err <==> attr_name_fails(old(self).chars@, old(self).cursor as int),
            r matches Ok(a) ==> a matches DirectiveArgument::Static(id) && id.span.end == pos(
                old(self).chars@,
                old(self).base,
                final(self).cursor as int,
            ),
            r matches Ok(a) ==> a matches DirectiveArgument::Static(id) && id.name@ == old(self).chars@.subrange(
                old(self).cursor as int,
                final(self).cursor as int,
            ) && attr_name_ends(old(self).chars@, old(self).cursor as int, final(self).cursor as int),
    {
        let ghost src = self.chars@;
        let ghost base = self.base;
        let start = self.cursor;
        let arg_name = self.parse_attribute_name()?;
        let arg_raw = arg_name.clone();
        let span = Span::new(self.abs(start), self.abs(self.cursor));
        proof {
            lemma_slice(src, base, span, arg_raw@, start as int, self.cursor as int);
        }
        Ok(DirectiveArgument::Static(Identifier { name: arg_name, raw_name: arg_raw, span }))
    }

    fn parse_directive_argument(&mut self) -> (r: Result<DirectiveArgument, TemplateError>)
        requires
            old(self).cursor < old(self).chars.len() || (old(self).cursor >= 1 && old(self).chars@[old(self).cursor - 1] == ':'),
            old(self).wf(),
        ensures
            err_ok(r, old(self).chars@, old(self).base),
            Self::steps(old(self), final(self)),
            r matches Ok(a) ==> match a {
                DirectiveArgument::Static(id) => ident_ok(old(self).chars@, old(self).base, id),
                DirectiveArgument::Dynamic(e) => expr_ok(old(self).chars@, old(self).base, e),
            },
            // `[` opens a dynamic argument; anything else is read as a name.
            old(self).at_spec(0, '[') ==> (r matches Ok(a) ==> a is Dynamic),
            !old(self).at_spec(0, '[') ==> (r is Err <==> attr_name_fails(
                old(self).chars@,
                old(self).cursor as int,
            )),
            !old(self).at_spec(0, '[') ==> (r matches Ok(a) ==> a is Static),
            r matches Ok(a) ==> arg_end_ok(old(self).chars@, old(self).base, a, final(self).cursor as int),
    {
        if self.at(0, '[') {
            self.parse_dynamic_argument()
        } else {
            self.parse_static_argument()
        }
    }

    fn parse_dynamic_argument(&mut self) -> (r: Result<DirectiveArgument, TemplateError>)
        requires
            old(self).wf(),
            old(self).at_spec(0, '['),
        ensures
            err_ok(r, old(self).chars@, old(self).base),
            Self::steps(old(self), final(self)),
            final(self).cursor > old(self).cursor,
            r matches Ok(a) ==> a matches DirectiveArgument::Dynamic(e) && expr_ok(
                old(self).chars@,
                old(self).base,
                e,
            ),
            r matches Ok(a) ==> arg_end_ok(old(self).chars@, old(self).base, a, final(self).cursor as int),
    {
        let ghost src = self.chars@;
        let ghost base = self.base;
        self.bump();
        let value_start_byte = self.cursor;
        let value_start = self.abs(self.cursor);
        // Track bracket nesting (`v-bind:[arr[0]]`) and skip quoted strings
        // so a `]` inside either does not end the argument.
        let mut depth: u32 = 0;
        loop
            invariant
                self.wf(),
                self.errors.len() >= old(self).errors.len(),
                self.chars@ == src,
                self.in_pre == old(self).in_pre,
                src == old(self).chars@,
                base == old(self).base,
                self.base == base,
                self.cursor >= value_start_byte,
                value_start_byte >= 1,
            decreases self.chars.len() - self.cursor,
        {
            let ch = match self.peek() {
                Some(c) => c,
                None => break,
            };
            if ch == ']' && depth == 0 {
                break;
            }
            if ch == '\'' || ch == '"' {
                self.skip_quoted(ch);
                continue;
            }
            if ch == '[' {
                depth = depth.saturating_add(1);
            } else if ch == ']' {
                depth = depth.saturating_sub(1);
            }
            self.bump();
        }
        let raw = self.slice(value_start_byte, self.cursor);
        let value_end = self.abs(self.cursor);
        if self.at(0, ']') {
            self.bump();
        } else {
            proof {
                reveal_strlit("Expected `]` in dynamic directive argument");
                lemma_error_messages(self.chars@, self.cursor as int);
            }
            return Err(self.error("Expected `]` in dynamic directive argument"));
        }
        let span = Span::new(value_start, value_end);
        proof {
            lemma_slice(src, base, span, raw@, value_start_byte as int, value_end_index(self.cursor));
            assert(src[self.cursor - 1] == ']');
        }
        Ok(DirectiveArgument::Dynamic(Expression { raw, span }))
    }

    fn parse_attribute_value(&mut self) -> (r: Result<String, TemplateError>)
        requires
            old(self).wf(),
        ensures
            err_ok(r, old(self).chars@, old(self).base),
            Self::steps(old(self), final(self)),
            r matches Ok(raw) ==> {
                ||| raw@ == old(self).chars@.subrange(old(self).cursor as int, final(self).cursor as int)
                ||| (old(self).cursor + 1 <= final(self).cursor - 1 && raw@ == old(self).chars@.subrange(
                    old(self).cursor + 1,
                    final(self).cursor - 1,
                ))
            },
            // A quoted value runs to its closing quote, and fails without
            // one.
            old(self).at_spec(0, '"') ==> (r is Ok <==> next_index(old(self).chars@, old(self).cursor + 1, '"')
                < old(self).chars.len()),
            old(self).at_spec(0, '\'') ==> (r is Ok <==> next_index(
                old(self).chars@,
                old(self).cursor + 1,
                '\'',
            ) < old(self).chars.len()),
            old(self).at_spec(0, '"') || old(self).at_spec(0, '\'') ==> (r matches Ok(raw) ==> raw@
                == old(self).chars@.subrange(old(self).cursor + 1, final(self).cursor - 1)),
            // A bare value runs to whitespace, `>`, `/`, `<` or the end.
            !(old(self).at_spec(0, '"') || old(self).at_spec(0, '\'')) ==> (r matches Ok(raw) && raw@
                == old(self).chars@.subrange(old(self).cursor as int, final(self).cursor as int)
                && (forall|k: int|
                old(self).cursor <= k < final(self).cursor ==> !ends_bare_value(#[trigger] old(self).chars@[k]))
                && (final(self).cursor == old(self).chars.len() || ends_bare_value(
                old(self).chars@[final(self).cursor as int],
            ))),
    {
        if self.at(0, '"') {
            self.parse_quoted('"')
        } else if self.at(0, '\'') {
            self.parse_quoted('\'')
        } else {
            let start = self.cursor;
            while self.cursor < self.chars.len() && !(is_whitespace(self.chars[self.cursor])
                || self.chars[self.cursor] == '>' || self.chars[self.cursor] == '/'
                || self.chars[self.cursor] == '<')
                invariant
                    self.wf(),
                    self.errors.len() >= old(self).errors.len(),
                    self.chars@ == old(self).chars@,
                    self.in_pre == old(self).in_pre,
                    self.base == old(self).base,
                    self.cursor >= start,
                    start == old(self).cursor,
                    forall|k: int| start <= k < self.cursor ==> !ends_bare_value(#[trigger] self.chars@[k]),
                decreases self.chars.len() - self.cursor,
            {
                self.bump();
            }
            Ok(self.slice(start, self.cursor))
        }
    }

    fn parse_quoted(&mut self, quote: char) -> (r: Result<String, TemplateError>)
        requires
            quote == '"' || quote == '\'',
            old(self).wf(),
            old(self).at_spec(0, quote),
        ensures
            err_ok(r, old(self).chars@, old(self).base),
            Self::steps(old(self), final(self)),
            r matches Ok(raw) ==> old(self).cursor + 1 <= final(self).cursor - 1 && raw@
                == old(self).chars@.subrange(old(self).cursor + 1, final(self).cursor - 1),
            // The value runs to the next `quote`; without one it fails at
            // the end of the text.
            r is Ok <==> next_index(old(self).chars@, old(self).cursor + 1, quote) < old(self).chars.len(),
            r is Ok ==> final(self).cursor == next_index(old(self).chars@, old(self).cursor + 1, quote) + 1,
            r is Err ==> final(self).cursor == old(self).chars.len(),
    {
        let entry = self.cursor;
        self.bump();
        let value_start = self.cursor;
        while self.cursor < self.chars.len() && self.chars[self.cursor] != quote
            invariant
                self.wf(),
                self.errors.len() >= old(self).errors.len(),
                self.chars@ == old(self).chars@,
                self.in_pre == old(self).in_pre,
                self.base == old(self).base,
                self.cursor >= value_start,
                value_start == entry + 1,
                entry == old(self).cursor,
                forall|k: int| value_start <= k < self.cursor ==> self.chars@[k] != quote,
            decreases self.chars.len() - self.cursor,
        {
            self.bump();
        }
        proof {
            lemma_next_index(self.chars@, value_start as int, quote, self.cursor as int);
        }
        if self.cursor < self.chars.len() {
            let raw = self.slice(value_start, self.cursor);
            self.bump();
            return Ok(raw);
        }
        proof {
            reveal_strlit("Unterminated quoted attribute value");
            lemma_error_messages(self.chars@, self.cursor as int);
        }
        Err(self.error("Unterminated quoted attribute value"))
    }

    /// Consume the longest run of ASCII alphanumerics, `-` and `_` (it
    /// may be empty).
    fn take_name_chars(&mut self)
        requires
            old(self).wf(),
        ensures
            Self::steps(old(self), final(self)),
            forall|k: int| old(self).cursor <= k < final(self).cursor ==> spec_is_name_char(#[trigger] final(self).chars@[k]),
            final(self).cursor == final(self).chars.len() || !spec_is_name_char(
                final(self).chars@[final(self).cursor as int],
            ),
    {
        while self.cursor < self.chars.len() && is_name_char(self.chars[self.cursor])
            invariant
                self.wf(),
                self.errors.len() >= old(self).errors.len(),
                self.chars@ == old(self).chars@,
                self.in_pre == old(self).in_pre,
                self.base == old(self).base,
                self.cursor >= old(self).cursor,
                forall|k: int| old(self).cursor <= k < self.cursor ==> spec_is_name_char(#[trigger] self.chars@[k]),
            decreases self.chars.len() - self.cursor,
        {
            self.bump();
        }
    }

    fn parse_attribute_name(&mut self) -> (r: Result<String, TemplateError>)
        requires
            old(self).cursor < old(self).chars.len() || (old(self).cursor >= 1 && old(self).chars@[old(self).cursor - 1] == ':'),
            old(self).wf(),
        ensures
            err_ok(r, old(self).chars@, old(self).base),
            Self::steps(old(self), final(self)),
            r is Err <==> attr_name_fails(old(self).chars@, old(self).cursor as int),
            r is Err ==> final(self).cursor == old(self).cursor,
            r matches Ok(name) ==> final(self).cursor > old(self).cursor && name@ == old(self).chars@.subrange(
                old(self).cursor as int,
                final(self).cursor as int,
            ) && attr_name_ends(old(self).chars@, old(self).cursor as int, final(self).cursor as int),
    {
        let start = self.cursor;
        let first = match self.peek() {
            Some(c) => c,
            None => {
                proof {
                    reveal_strlit("Unexpected end of input");
                    lemma_error_messages(self.chars@, self.cursor as int);
                }
                return Err(self.error("Unexpected end of input"));
            },
        };
        if first == ':' || first == '@' || first == '#' {
            self.bump();
            return Ok(self.slice(start, self.cursor));
        }
        if first == 'v' && self.at(1, '-') {
            // Consume `v-bind` / `v-on` / `v-html` / `v-for` ... but stop at
            // the first `:` so the caller handles `v-bind:foo`.
            self.bump();
            self.bump();
            while self.cursor < self.chars.len() && (is_ascii_alnum(self.chars[self.cursor])
                || self.chars[self.cursor] == '-')
                invariant
                    self.wf(),
                    self.errors.len() >= old(self).errors.len(),
                    self.chars@ == old(self).chars@,
                    self.in_pre == old(self).in_pre,
                    self.base == old(self).base,
                    self.cursor >= start + 2,
                    start == old(self).cursor,
                    forall|k: int| start + 2 <= k < self.cursor ==> is_directive_name_char(#[trigger] self.chars@[k]),
                decreases self.chars.len() - self.cursor,
            {
                self.bump();
            }
            return Ok(self.slice(start, self.cursor));
        }
        self.take_name_chars();
        if start == self.cursor {
            proof {
                reveal_strlit("Expected attribute name");
                lemma_error_messages(self.chars@, self.cursor as int);
            }
            return Err(self.error("Expected attribute name"));
        }
        Ok(self.slice(start, self.cursor))
    }

    fn parse_tag_name(&mut self) -> (r: Result<String, TemplateError>)
        requires
            opened_before(old(self).chars@, old(self).cursor as int, '<'),
            old(self).wf(),
        ensures
            err_ok(r, old(self).chars@, old(self).base),
            Self::steps(old(self), final(self)),
            r is Err <==> !(char_at(old(self).chars@, old(self).cursor as int) matches Some(c)
                && spec_is_name_char(c)),
            r is Err ==> final(self).cursor == old(self).cursor,
            r is Ok ==> name_run(old(self).chars@, old(self).cursor as int, final(self).cursor as int),
            r is Ok ==> final(self).cursor > old(self).cursor,
            r matches Ok(name) ==> name@ == old(self).chars@.subrange(
                old(self).cursor as int,
                final(self).cursor as int,
            ),
    {
        let start = self.cursor;
        self.take_name_chars();
        if start == self.cursor {
            proof {
                reveal_strlit("Expected tag name");
                lemma_error_messages(self.chars@, self.cursor as int);
            }
            return Err(self.error("Expected tag name"));
        }
        Ok(self.slice(start, self.cursor))
    }

    fn parse_simple_ident(&mut self) -> (r: Result<String, TemplateError>)
        requires
            old(self).cursor >= 1 && old(self).chars@[old(self).cursor - 1] == '.',
            old(self).wf(),
        ensures
            err_ok(r, old(self).chars@, old(self).base),
            Self::steps(old(self), final(self)),
            r is Err <==> !(char_at(old(self).chars@, old(self).cursor as int) matches Some(c)
                && spec_is_name_char(c)),
            r is Err ==> final(self).cursor == old(self).cursor,
            r is Ok ==> name_run(old(self).chars@, old(self).cursor as int, final(self).cursor as int),
            r matches Ok(name) ==> name@ == old(self).chars@.subrange(
                old(self).cursor as int,
                final(self).cursor as int,
            ),
    {
        let start = self.cursor;
        self.take_name_chars();
        if start == self.cursor {
            proof {
                reveal_strlit("Expected identifier");
                lemma_error_messages(self.chars@, self.cursor as int);
            }
            return Err(self.error("Expected identifier"));
        }
        Ok(self.slice(start, self.cursor))
    }

    fn parse_text(&mut self) -> (r: TextNode)
        requires
            old(self).wf(),
            old(self).cursor < old(self).chars.len(),
            !old(self).at_comment_spec(),
            !old(self).at_cdata_spec(),
            !old(self).at_close_spec(),
            !old(self).at_element_spec(),
            !(old(self).at_spec(0, '{') && old(self).at_spec(1, '{')),
        ensures
            Self::steps(old(self), final(self)),
            final(self).cursor > old(self).cursor,
            spans_slice(old(self).chars@, old(self).base, r.span, r.text@),
            consumed(r.span, old(self).chars@, old(self).base, old(self).cursor as int, final(self).cursor as int),
    {
        let ghost src = self.chars@;
        let ghost base = self.base;
        let start = self.cursor;
        loop
            invariant
                self.wf(),
                self.errors.len() >= old(self).errors.len(),
                self.chars@ == src,
                self.in_pre == old(self).in_pre,
                src == old(self).chars@,
                base == old(self).base,
                self.base == base,
                self.cursor >= start,
                start == old(self).cursor,
                self.cursor == start ==> (!self.at_comment_spec() && !self.at_cdata_spec()
                    && !self.at_close_spec() && !self.at_element_spec() && !(self.at_spec(0, '{')
                    && self.at_spec(1, '{'))),
                start < self.chars.len(),
            ensures
                self.wf(),
                self.errors.len() >= old(self).errors.len(),
                self.chars@ == src,
                self.in_pre == old(self).in_pre,
                src == old(self).chars@,
                base == old(self).base,
                self.base == base,
                self.cursor > start,
                start == old(self).cursor,
            decreases self.chars.len() - self.cursor,
        {
            let ch = match self.peek() {
                Some(c) => c,
                None => break,
            };
            if ch == '<' {
                let tag_like = self.at_comment() || self.at_cdata() || self.at_close()
                    || match self.peek_at(1) {
                    Some(c) => is_ascii_alpha(c),
                    None => false,
                };
                if tag_like {
                    break;
                }
                // A `<` that cannot start a tag is plain text; consuming it
                // guarantees progress.
            }
            if ch == '{' && self.at(1, '{') {
                break;
            }
            self.bump();
        }
        let text = self.slice(start, self.cursor);
        let span = Span::new(self.abs(start), self.abs(self.cursor));
        proof {
            lemma_slice(src, base, span, text@, start as int, self.cursor as int);
        }
        TextNode { text, span }
    }

    fn parse_interpolation(&mut self) -> (r: Result<Interpolation, TemplateError>)
        requires
            old(self).wf(),
            old(self).at_spec(0, '{'),
            old(self).at_spec(1, '{'),
        ensures
            err_ok(r, old(self).chars@, old(self).base),
            Self::steps(old(self), final(self)),
            final(self).cursor > old(self).cursor,
            r matches Ok(i) ==> expr_ok(old(self).chars@, old(self).base, i.expression),
            r matches Ok(i) ==> spans_delimited(old(self).chars@, old(self).base, i.span, i.expression.raw@, "{{"@, "}}"@),
            r matches Ok(i) ==> consumed(
                i.span,
                old(self).chars@,
                old(self).base,
                old(self).cursor as int,
                final(self).cursor as int,
            ),
    {
        let ghost src = self.chars@;
        let ghost base = self.base;
        let interp_start = self.abs(self.cursor);
        let entry = self.cursor;
        self.bump();
        self.bump();
        let value_start = self.cursor;
        // Track brace nesting and skip quoted strings so a nested `}` or a
        // `}}` inside a string does not end the interpolation early.
        let mut depth: u32 = 0;
        loop
            invariant
                self.wf(),
                self.errors.len() >= old(self).errors.len(),
                self.chars@ == src,
                self.in_pre == old(self).in_pre,
                src == old(self).chars@,
                base == old(self).base,
                self.base == base,
                self.cursor >= value_start,
                value_start == old(self).cursor + 2,
            decreases self.chars.len() - self.cursor,
        {
            let ch = match self.peek() {
                Some(c) => c,
                None => break,
            };
            if ch == '}' && self.at(1, '}') && depth == 0 {
                break;
            }
            if ch == '<' && self.at_close() && depth == 0 {
                // An interpolation cannot span a closing tag.
                break;
            }
            if ch == '\'' || ch == '"' || ch == '`' {
                self.skip_quoted(ch);
                continue;
            }
            if ch == '{' {
                depth = depth.saturating_add(1);
            } else if ch == '}' && depth > 0 {
                depth = depth - 1;
            }
            self.bump();
        }
        let raw = self.slice(value_start, self.cursor);
        let expr_end_index = self.cursor;
        let expression_end = self.abs(self.cursor);
        if self.at(0, '}') && self.at(1, '}') {
            self.bump();
            self.bump();
            proof {
                reveal_strlit("{{");
                reveal_strlit("}}");
                assert(src[entry as int] == '{' && src[entry + 1] == '{');
                assert(src[expr_end_index as int] == '}' && src[expr_end_index + 1] == '}');
                assert(src.subrange(entry as int, entry + 2) =~= "{{"@);
                assert(src.subrange(self.cursor - 2, self.cursor as int) =~= "}}"@);
            }
        } else {
            proof {
                reveal_strlit("Unterminated `{{` interpolation");
                lemma_error_messages(self.chars@, entry as int);
            }
            return Err(self.error_at(interp_start, "Unterminated `{{` interpolation"));
        }
        let span = Span::new(interp_start, self.abs(self.cursor));
        let expr_span = Span::new(self.abs(value_start), expression_end);
        proof {
            lemma_slice(src, base, expr_span, raw@, value_start as int, expr_end_index as int);
            lemma_delimited(src, base, span, raw@, "{{"@, "}}"@, entry as int, self.cursor as int);
        }
        Ok(Interpolation { expression: Expression { raw, span: expr_span }, span })
    }

    fn parse_cdata(&mut self) -> (r: Result<TextNode, TemplateError>)
        requires
            old(self).wf(),
            old(self).at_cdata_spec(),
        ensures
            err_ok(r, old(self).chars@, old(self).base),
            Self::steps(old(self), final(self)),
            final(self).cursor > old(self).cursor,
            r matches Ok(t) ==> spans_delimited(old(self).chars@, old(self).base, t.span, t.text@, "<![CDATA["@, "]]>"@),
            r matches Ok(t) ==> consumed(
                t.span,
                old(self).chars@,
                old(self).base,
                old(self).cursor as int,
                final(self).cursor as int,
            ),
    {
        let ghost src = self.chars@;
        let ghost base = self.base;
        let entry = self.cursor;
        let start = self.abs(self.cursor);
        let mut k: usize = 0;
        while k < 9
            invariant
                self.wf(),
                self.errors.len() >= old(self).errors.len(),
                self.chars@ == src,
                self.in_pre == old(self).in_pre,
                src == old(self).chars@,
                base == old(self).base,
                self.base == base,
                k <= 9,
                self.cursor == entry + k,
                entry == old(self).cursor,
                old(self).at_cdata_spec(),
                entry + 9 <= src.len(),
                start as int == pos(src, base, entry as int),
            decreases 9 - k,
        {
            self.bump();
            k = k + 1;
        }
        let value_start = self.cursor;
        while !self.eof()
            invariant
                self.wf(),
                self.errors.len() >= old(self).errors.len(),
                self.chars@ == src,
                self.in_pre == old(self).in_pre,
                src == old(self).chars@,
                base == old(self).base,
                self.base == base,
                self.cursor >= value_start,
                value_start == entry + 9,
                entry == old(self).cursor,
                start as int == pos(src, base, entry as int),
                old(self).at_cdata_spec(),
            decreases self.chars.len() - self.cursor,
        {
            if self.at(0, ']') && self.at(1, ']') && self.at(2, '>') {
                let text = self.slice(value_start, self.cursor);
                self.bump();
                self.bump();
                self.bump();
                let span = Span::new(start, self.abs(self.cursor));
                proof {
                    reveal_strlit("<![CDATA[");
                    reveal_strlit("]]>");
                    assert(src[entry as int] == '<' && src[entry + 1] == '!' && src[entry + 2] == '[' && src[entry + 3] == 'C'
                        && src[entry + 4] == 'D' && src[entry + 5] == 'A' && src[entry + 6] == 'T' && src[entry + 7] == 'A'
                        && src[entry + 8] == '[');
                    assert(src.subrange(entry as int, entry + 9) =~= "<![CDATA["@);
                    assert(src.subrange(self.cursor - 3, self.cursor as int) =~= "]]>"@);
                    lemma_delimited(src, base, span, text@, "<![CDATA["@, "]]>"@, entry as int, self.cursor as int);
                }
                return Ok(TextNode { text, span });
            }
            self.bump();
        }
        proof {
            reveal_strlit("Unterminated CDATA section");
            lemma_error_messages(self.chars@, entry as int);
        }
        Err(self.error_at(start, "Unterminated CDATA section"))
    }

    fn parse_comment(&mut self) -> (r: Result<CommentNode, TemplateError>)
        requires
            old(self).wf(),
            old(self).at_comment_spec(),
        ensures
            err_ok(r, old(self).chars@, old(self).base),
            Self::steps(old(self), final(self)),
            final(self).cursor > old(self).cursor,
            r matches Ok(c) ==> spans_delimited(old(self).chars@, old(self).base, c.span, c.value@, "<!--"@, "-->"@),
            r matches Ok(c) ==> consumed(
                c.span,
                old(self).chars@,
                old(self).base,
                old(self).cursor as int,
                final(self).cursor as int,
            ),
    {
        let ghost src = self.chars@;
        let ghost base = self.base;
        let entry = self.cursor;
        let start = self.abs(self.cursor);
        self.bump();
        self.bump();
        self.bump();
        self.bump();
        let value_start = self.cursor;
        while !self.eof()
            invariant
                self.wf(),
                self.errors.len() >= old(self).errors.len(),
                self.chars@ == src,
                self.in_pre == old(self).in_pre,
                src == old(self).chars@,
                base == old(self).base,
                self.base == base,
                self.cursor >= value_start,
                value_start == entry + 4,
                entry == old(self).cursor,
                start as int == pos(src, base, entry as int),
                old(self).at_comment_spec(),
            decreases self.chars.len() - self.cursor,
        {
            if self.at(0, '-') && self.at(1, '-') && self.at(2, '>') {
                let value = self.slice(value_start, self.cursor);
                self.bump();
                self.bump();
                self.bump();
                let span = Span::new(start, self.abs(self.cursor));
                proof {
                    reveal_strlit("<!--");
                    reveal_strlit("-->");
                    assert(src[entry as int] == '<' && src[entry + 1] == '!' && src[entry + 2] == '-' && src[entry + 3] == '-');
                    assert(src.subrange(entry as int, entry + 4) =~= "<!--"@);
                    assert(src.subrange(self.cursor - 3, self.cursor as int) =~= "-->"@);
                    lemma_delimited(src, base, span, value@, "<!--"@, "-->"@, entry as int, self.cursor as int);
                }
                return Ok(CommentNode { value, span });
            }
            self.bump();
        }
        proof {
            reveal_strlit("Unterminated comment");
            lemma_error_messages(self.chars@, entry as int);
        }
        Err(self.error_at(start, "Unterminated comment"))
    }

    /// Consume a quoted string (single, double or backtick) without
    /// interpreting escapes, so a `}}` or `]` inside it ends nothing.
    fn skip_quoted(&mut self, quote: char)
        requires
            old(self).wf(),
            old(self).cursor < old(self).chars.len(),
        ensures
            Self::steps(old(self), final(self)),
            final(self).cursor > old(self).cursor,
    {
        self.bump();
        loop
            invariant
                self.wf(),
                self.errors.len() >= old(self).errors.len(),
                self.chars@ == old(self).chars@,
                self.in_pre == old(self).in_pre,
                self.base == old(self).base,
                self.cursor > old(self).cursor,
            decreases self.chars.len() - self.cursor,
        {
            let ch = match self.peek() {
                Some(c) => c,
                None => break,
            };
            if ch == '\\' {
                self.bump();
                if !self.eof() {
                    self.bump();
                }
                continue;
            }
            if ch == quote {
                self.bump();
                break;
            }
            self.bump();
        }
    }

    fn skip_whitespace(&mut self)
        requires
            old(self).wf(),
        ensures
            Self::steps(old(self), final(self)),
            forall|k: int|
                old(self).cursor <= k < final(self).cursor ==> spec_is_whitespace(#[trigger] final(self).chars@[k]),
            final(self).cursor == final(self).chars.len() || !spec_is_whitespace(
                final(self).chars@[final(self).cursor as int],
            ),
    {
        while self.cursor < self.chars.len() && is_whitespace(self.chars[self.cursor])
            invariant
                self.wf(),
                self.errors.len() >= old(self).errors.len(),
                self.chars@ == old(self).chars@,
                self.in_pre == old(self).in_pre,
                self.base == old(self).base,
                self.cursor >= old(self).cursor,
                forall|k: int| old(self).cursor <= k < self.cursor ==> spec_is_whitespace(#[trigger] self.chars@[k]),
            decreases self.chars.len() - self.cursor,
        {
            self.bump();
        }
    }

    /// The name of the closing tag at the cursor, without consuming it:
    /// the name characters after `</`, when there is at least one.
    fn peek_tag_name(&self) -> (r: Option<String>)
        requires
            self.wf(),
        ensures
            r matches Some(t) ==> self.at_close_spec() && t@.len() > 0 && exists|end: int|
                #![trigger self.chars@.subrange(self.cursor + 2, end)]
                self.cursor + 2 <= end <= self.chars@.len() && t@ == self.chars@.subrange(self.cursor + 2, end)
                    && (forall|k: int| self.cursor + 2 <= k < end ==> spec_is_name_char(#[trigger] self.chars@[k]))
                    && (end == self.chars@.len() || !spec_is_name_char(self.chars@[end])),
            r is None ==> !self.at_close_spec() || self.cursor + 2 >= self.chars@.len() || !spec_is_name_char(
                self.chars@[self.cursor + 2],
            ),
    {
        if !self.at_close() {
            return None;
        }
        let start = self.cursor + 2;
        let mut end = start;
        while end < self.chars.len()
            invariant
                self.wf(),
                start <= end <= self.chars.len(),
                start == self.cursor + 2,
                forall|k: int| start <= k < end ==> spec_is_name_char(#[trigger] self.chars@[k]),
            ensures
                start <= end <= self.chars.len(),
                forall|k: int| start <= k < end ==> spec_is_name_char(#[trigger] self.chars@[k]),
                end == self.chars.len() || !spec_is_name_char(self.chars@[end as int]),
            decreases self.chars.len() - end,
        {
            if is_name_char(self.chars[end]) {
                end = end + 1;
            } else {
                break;
            }
        }
        if end == start {
            return None;
        }
        Some(self.slice(start, end))
    }

    /// Consume a stray `</...>` tag, always making progress.
    fn skip_stray_closing_tag(&mut self)
        requires
            old(self).wf(),
            old(self).at_close_spec(),
        ensures
            Self::steps(old(self), final(self)),
            final(self).cursor > old(self).cursor,
    {
        self.bump();
        self.bump();
        let _ = self.parse_tag_name();
        self.skip_whitespace();
        if self.at(0, '>') {
            self.bump();
        }
    }

    /// Skip forward to the next sibling: an element opening tag, a closing
    /// tag, or the end. Comments and CDATA are skipped whole.
    fn recover_to_next_sibling(&mut self)
        requires
            old(self).wf(),
        ensures
            Self::steps(old(self), final(self)),
            final(self).cursor == final(self).chars.len() || sibling_starts(
                final(self).chars@,
                final(self).cursor as int,
            ),
    {
        while !self.eof()
            invariant
                self.wf(),
                self.errors.len() >= old(self).errors.len(),
                self.chars@ == old(self).chars@,
                self.in_pre == old(self).in_pre,
                self.base == old(self).base,
                self.cursor >= old(self).cursor,
            ensures
                self.wf(),
                self.errors.len() >= old(self).errors.len(),
                self.chars@ == old(self).chars@,
                self.in_pre == old(self).in_pre,
                self.base == old(self).base,
                self.cursor >= old(self).cursor,
                self.cursor == self.chars.len() || sibling_starts(self.chars@, self.cursor as int),
            decreases self.chars.len() - self.cursor,
        {
            if self.at_comment() {
                let _ = self.parse_comment();
                continue;
            }
            if self.at_cdata() {
                let _ = self.parse_cdata();
                continue;
            }
            if self.at(0, '<') {
                let next_ok = match self.peek_at(1) {
                    Some(c) => is_ascii_alpha(c) || c == '/',
                    None => false,
                };
                if next_ok {
                    break;
                }
            }
            self.bump();
        }
    }
}

spec fn value_end_index(i: usize) -> int {
    (i - 1) as int
}

#[derive(Debug, Clone, Copy, PartialEq, Eq, Structural)]
enum AttributeKind {
    Static,
    Directive,
    Bind,
    On,
    Slot,
    For,
}

/// The name an attribute was read under: the key of a static attribute,
/// the name of a directive.
pub open spec fn attribute_name(a: Attribute) -> Seq<char> {
    match a {
        Attribute::Static(s) => s.key.name@,
        Attribute::Directive(d) => d.name.name@,
        Attribute::OnDirective(d) => d.name.name@,
        Attribute::SlotDirective(d) => d.name.name@,
        Attribute::ForDirective(d) => d.name.name@,
    }
}

/// `v-` followed by the directive's name.
pub open spec fn is_v_name(name: Seq<char>) -> bool {
    name.len() >= 2 && name[0] == 'v' && name[1] == '-'
}

/// The variant an attribute gets from its name: `v-for` a loop; `v-slot`,
/// `slot` and `#` a slot; any other `v-` name, and `:`, a directive; `@`
/// an event handler; anything else a static attribute.
pub open spec fn attribute_shape(name: Seq<char>, a: Attribute) -> bool {
    if name == "v-for"@ {
        a is ForDirective
    } else if name == "v-slot"@ || name == "slot"@ {
        a is SlotDirective
    } else if is_v_name(name) {
        a is Directive
    } else if name == "@"@ {
        a is OnDirective
    } else if name == ":"@ {
        a is Directive
    } else if name == "#"@ {
        a is SlotDirective
    } else {
        a is Static
    }
}

/// A character that starts a static directive argument.
pub open spec fn starts_ident(c: Option<char>) -> bool {
    c matches Some(ch) && (spec_is_ascii_alpha(ch) || ch == '_')
}

/// The argument a directive reads right after its name, from what
/// follows the name (`next` and the character after it): `[` opens a
/// dynamic argument and a name a static one after `:`, `@` and `#`; a `:`
/// then an argument of either kind after `v-` names and `#`.
pub open spec fn argument_shape(name: Seq<char>, next: Option<char>, arg: Option<DirectiveArgument>) -> bool {
    if name == "v-for"@ {
        arg is None
    } else if name == "@"@ || name == ":"@ {
        if next == Some('[') {
            arg matches Some(DirectiveArgument::Dynamic(_))
        } else if starts_ident(next) {
            arg matches Some(DirectiveArgument::Static(_))
        } else {
            arg is None
        }
    } else if name == "v-slot"@ || name == "slot"@ || name == "#"@ {
        if next == Some(':') {
            arg is Some
        } else if next == Some('[') {
            arg matches Some(DirectiveArgument::Dynamic(_))
        } else if starts_ident(next) {
            arg matches Some(DirectiveArgument::Static(_))
        } else {
            arg is None
        }
    } else if is_v_name(name) {
        if next == Some(':') {
            arg is Some
        } else {
            arg is None
        }
    } else {
        true
    }
}

/// The argument of a directive; none for a static attribute.
pub open spec fn attribute_argument(a: Attribute) -> Option<DirectiveArgument> {
    match a {
        Attribute::Static(_) => None,
        Attribute::Directive(d) => d.argument,
        Attribute::OnDirective(d) => d.argument,
        Attribute::SlotDirective(d) => d.argument,
        Attribute::ForDirective(d) => d.argument,
    }
}

/// The kind of attribute a name introduces.
spec fn kind_of_name(name: Seq<char>) -> AttributeKind {
    if name == "v-for"@ {
        AttributeKind::For
    } else if name == "v-slot"@ || name == "slot"@ {
        AttributeKind::Slot
    } else if is_v_name(name) {
        AttributeKind::Directive
    } else if name == "@"@ {
        AttributeKind::On
    } else if name == ":"@ {
        AttributeKind::Bind
    } else if name == "#"@ {
        AttributeKind::Slot
    } else {
        AttributeKind::Static
    }
}

/// The tree keeps the reading rules: every attribute has the variant its
/// name introduces, a void element is self-closing, and a self-closing
/// element has no children.
pub open spec fn node_shape(n: TemplateNode) -> bool
    decreases n,
{
    match n {
        TemplateNode::Element(el) => {
            &&& forall|k: int|
                0 <= k < el.attributes.len() ==> attribute_shape(
                    attribute_name(#[trigger] el.attributes@[k]),
                    el.attributes@[k],
                )
            &&& spec_is_void_element(el.name@) ==> el.self_closing
            &&& el.self_closing ==> el.children.len() == 0
            &&& forall|k: int| 0 <= k < el.children.len() ==> node_shape(#[trigger] el.children@[k])
        },
        _ => true,
    }
}

pub open spec fn nodes_shape(nodes: Seq<TemplateNode>) -> bool {
    forall|k: int| 0 <= k < nodes.len() ==> node_shape(#[trigger] nodes[k])
}

/// `cs[i..end]` is a maximal run of name characters, not empty.
pub open spec fn name_run(cs: Seq<char>, i: int, end: int) -> bool {
    &&& 0 <= i < end <= cs.len()
    &&& forall|k: int| i <= k < end ==> spec_is_name_char(#[trigger] cs[k])
    &&& end == cs.len() || !spec_is_name_char(cs[end])
}

/// A character of a `v-` directive's name after the `v-`.
pub open spec fn is_directive_name_char(c: char) -> bool {
    spec_is_ascii_alnum(c) || c == '-'
}

/// `:`, `@` or `#`: a one-character attribute name.
pub open spec fn is_shorthand_char(c: char) -> bool {
    c == ':' || c == '@' || c == '#'
}

/// No attribute name starts at `i`: the text ends, or its character is
/// neither a shorthand, nor the start of `v-`, nor a name character.
pub open spec fn attr_name_fails(cs: Seq<char>, i: int) -> bool {
    match char_at(cs, i) {
        None => true,
        Some(c) => !is_shorthand_char(c) && !(c == 'v' && char_at(cs, i + 1) == Some('-'))
            && !spec_is_name_char(c),
    }
}

/// The attribute name starting at `i` ends at `end`: one shorthand
/// character; `v-` and the longest run of letters, digits and `-`; or the
/// longest run of name characters.
pub open spec fn attr_name_ends(cs: Seq<char>, i: int, end: int) -> bool {
    &&& 0 <= i < cs.len()
    &&& if is_shorthand_char(cs[i]) {
        end == i + 1
    } else if cs[i] == 'v' && char_at(cs, i + 1) == Some('-') {
        &&& i + 2 <= end <= cs.len()
        &&& forall|k: int| i + 2 <= k < end ==> is_directive_name_char(#[trigger] cs[k])
        &&& end == cs.len() || !is_directive_name_char(cs[end])
    } else {
        name_run(cs, i, end)
    }
}

/// An opening or closing tag starts at `i`: `<` then a letter or `/`.
pub open spec fn sibling_starts(cs: Seq<char>, i: int) -> bool {
    &&& char_at(cs, i) == Some('<')
    &&& char_at(cs, i + 1) matches Some(c) && (spec_is_ascii_alpha(c) || c == '/')
}

/// The attribute value starting at `i` can be read: it is not quoted, or
/// its closing quote follows.
pub open spec fn value_closes(cs: Seq<char>, i: int) -> bool {
    match char_at(cs, i) {
        Some(q) => (q == '"' || q == '\'') ==> next_index(cs, i + 1, q) < cs.len(),
        None => true,
    }
}

/// A character that ends an unquoted attribute value.
pub open spec fn ends_bare_value(c: char) -> bool {
    spec_is_whitespace(c) || c == '>' || c == '/' || c == '<'
}

/// A plain attribute starts at `i`: a name character that does not begin
/// `v-`.
pub open spec fn plain_name_start(cs: Seq<char>, i: int) -> bool {
    char_at(cs, i) matches Some(c) && spec_is_name_char(c) && !(c == 'v' && char_at(cs, i + 1) == Some(
        '-',
    ))
}

/// Two ends of one attribute name agree.
proof fn lemma_attr_name_end_unique(cs: Seq<char>, i: int, a: int, b: int)
    requires
        attr_name_ends(cs, i, a),
        attr_name_ends(cs, i, b),
    ensures
        a == b,
{
    if a < b {
        if !is_shorthand_char(cs[i]) {
            assert(cs[a] == cs[a]);
        }
    } else if b < a {
        if !is_shorthand_char(cs[i]) {
            assert(cs[b] == cs[b]);
        }
    }
}

/// A `v-pre` directive.
pub open spec fn is_v_pre(a: Attribute) -> bool {
    a matches Attribute::Directive(d) && d.name.name@ == "v-pre"@
}

/// True when the attribute list holds `v-pre`: its subtree is raw text.
fn has_v_pre(attributes: &Vec<Attribute>) -> (r: bool)
    ensures
        r == exists|k: int| 0 <= k < attributes@.len() && is_v_pre(#[trigger] attributes@[k]),
{
    let mut i: usize = 0;
    while i < attributes.len()
        invariant
            i <= attributes.len(),
            forall|k: int| 0 <= k < i ==> !is_v_pre(#[trigger] attributes@[k]),
        decreases attributes.len() - i,
    {
        if let Attribute::Directive(d) = &attributes[i] {
            if str_is(&d.name.name, "v-pre") {
                assert(is_v_pre(attributes@[i as int]));
                return true;
            }
        }
        i = i + 1;
    }
    false
}

/// The HTML void elements, which never have a closing tag.
pub open spec fn spec_is_void_element(name: Seq<char>) -> bool {
    name == "area"@ || name == "base"@ || name == "br"@ || name == "col"@ || name == "embed"@
        || name == "hr"@ || name == "img"@ || name == "input"@ || name == "link"@ || name
        == "meta"@ || name == "param"@ || name == "source"@ || name == "track"@ || name == "wbr"@
}

/// HTML void elements are implicitly self-closing.
pub fn is_void_element(name: &String) -> (r: bool)
    ensures
        r == spec_is_void_element(name@),
{
    str_is(name, "area") || str_is(name, "base") || str_is(name, "br") || str_is(name, "col")
        || str_is(name, "embed") || str_is(name, "hr") || str_is(name, "img") || str_is(
        name,
        "input",
    ) || str_is(name, "link") || str_is(name, "meta") || str_is(name, "param") || str_is(
        name,
        "source",
    ) || str_is(name, "track") || str_is(name, "wbr")
}

/// The HTML void elements `area`, `base`, `br`, `col`, `embed`, `hr`, `img`,
/// `input`, `link`, `meta`, `param`, `source`, `track` and `wbr` never
/// contain children: in a tree of the shape the parser produces, an element
/// of one of these names is self-closing and has no children, whether or
/// not its tag was written with `/>`, and what follows it in the source
/// becomes its sibling.
pub proof fn lemma_void_elements_close(n: TemplateNode)
    requires
        node_shape(n),
    ensures
        n matches TemplateNode::Element(el) ==> ((el.name@ == "area"@ || el.name@ == "base"@ || el.name@
            == "br"@ || el.name@ == "col"@ || el.name@ == "embed"@ || el.name@ == "hr"@ || el.name@
            == "img"@ || el.name@ == "input"@ || el.name@ == "link"@ || el.name@ == "meta"@
            || el.name@ == "param"@ || el.name@ == "source"@ || el.name@ == "track"@ || el.name@
            == "wbr"@) ==> el.self_closing && el.children.len() == 0),
{
}

} // verus!
