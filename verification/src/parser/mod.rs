//! Single-file component parsing.
//!
//! Stage 1 splits the source into `<template>`, `<script>` and `<style>`
//! blocks; stage 2 parses the template with the native parser in
//! [`template`]. The block extractor is a single-pass, nesting-aware
//! scanner that knows about:
//!
//! * `<template v-if>` / `<template v-for>` elements *inside* the template
//!   block: nesting of same-name tags is counted, so the block ends at the
//!   *matching* `</template>`;
//! * `<script>` / `<style>` elements inside the template block, which are
//!   content, never SFC blocks;
//! * comments whose text contains a `</template>`-like string, skipped
//!   whole;
//! * self-closing `<template/>` elements, which add no nesting depth.
//!
//! Known limitation: a `>` or a `</template>`-shaped string inside a quoted
//! attribute value of a template-level tag is still matched naively; the
//! template parser that runs afterwards re-reads the content properly.

use vstd::prelude::*;

use crate::context::{ScanContext, ScriptLang};
use crate::parser::script::parse_script;
use crate::taint::analyzer::analyze;
use crate::parser::template::ast::{children_within, lemma_nodes_lift, nodes_ok, pos};
use crate::parser::template::parser::{errors_placed, lemma_errors_lift, nodes_shape};
use crate::parser::template::{parse_template, Span, TemplateError, TemplateRoot};
use crate::text::{
    byte_pos, chars_of, contains_in, find_char, find_seq, index_text, is_ascii_alnum, is_ascii_alpha,
    is_whitespace, lemma_encode_concat, lemma_encode_prefix_mono, next_index, next_seq, spec_contains_in,
    spec_is_ascii_alnum, spec_is_ascii_alpha, spec_is_whitespace, spec_starts_with_at, starts_with_at,
    string_of_range,
};

pub mod estree;
pub mod script;
pub mod template;

verus! {

/// The kinds of top-level block of a single-file component.
#[derive(Debug, Clone, Copy, PartialEq, Eq, Structural)]
pub enum BlockKind {
    Template,
    Script,
    // Style blocks are extracted so their content is available to future
    // rules; CSS analysis itself is out of scope.
    Style,
}

/// A block found by the extractor, as character ranges of the source.
#[derive(Debug, Clone, Copy)]
pub struct BlockMatch {
    /// The attributes of the opening tag: from the end of the name to the
    /// `>`.
    pub attrs_from: usize,
    pub attrs_to: usize,
    /// First non-whitespace character of the content.
    pub content_from: usize,
    /// One past the last non-whitespace character of the content.
    pub content_to: usize,
}

spec fn block_ok(n: nat, b: BlockMatch) -> bool {
    b.attrs_from <= b.attrs_to <= n && b.content_from <= b.content_to <= n
}

/// `t` is a slice of `src`, without whitespace at either end.
pub open spec fn trimmed_slice(src: Seq<char>, t: Seq<char>, a: int, b: int) -> bool {
    &&& 0 <= a <= b <= src.len()
    &&& t == src.subrange(a, b)
    &&& (t.len() > 0 ==> !spec_is_whitespace(t[0]) && !spec_is_whitespace(t.last()))
}

/// The tag name of a block kind.
pub open spec fn kind_name(kind: BlockKind) -> Seq<char> {
    match kind {
        BlockKind::Template => "template"@,
        BlockKind::Script => "script"@,
        BlockKind::Style => "style"@,
    }
}

fn kind_tag(kind: BlockKind) -> (r: &'static str)
    ensures
        r@ == kind_name(kind),
        r@.len() <= 8,
{
    proof {
        reveal_strlit("template");
        reveal_strlit("script");
        reveal_strlit("style");
    }
    match kind {
        BlockKind::Template => "template",
        BlockKind::Script => "script",
        BlockKind::Style => "style",
    }
}

/// The trimmed text of a block.
pub open spec fn block_text(src: Seq<char>, b: BlockMatch) -> Seq<char> {
    src.subrange(b.content_from as int, b.content_to as int)
}

/// The language a `<script>` block declares in its attributes `cs[from..to]`.
pub open spec fn lang_of(cs: Seq<char>, from: int, to: int) -> ScriptLang {
    if spec_contains_in(cs, from, to, "lang=\"ts\""@) || spec_contains_in(cs, from, to, "lang='ts'"@)
        || spec_contains_in(cs, from, to, "lang=\"typescript\""@) || spec_contains_in(
        cs,
        from,
        to,
        "lang='typescript'"@,
    ) {
        ScriptLang::TypeScript
    } else {
        ScriptLang::JavaScript
    }
}

/// Find the blocks of a single-file component, in one pass over its
/// characters.
fn scan_blocks(s: &Vec<char>) -> (r: (Option<BlockMatch>, Option<BlockMatch>, Vec<BlockMatch>, Option<(usize, usize)>))
    requires
        s.len() <= u32::MAX,
    ensures
        (r.0, r.1, r.2@, r.3) == sfc_blocks(s@),
        r.0 matches Some(b) ==> block_ok(s.len() as nat, b),
        r.1 matches Some(b) ==> block_ok(s.len() as nat, b),
        forall|k: int| 0 <= k < r.2.len() ==> block_ok(s.len() as nat, #[trigger] r.2@[k]),
        r.3 matches Some((lt, gt)) ==> lt < gt < s.len(),
{
    let n = s.len();
    let mut template_block: Option<BlockMatch> = None;
    let mut script_block: Option<BlockMatch> = None;
    let mut style_blocks: Vec<BlockMatch> = Vec::new();
    let mut unterminated: Option<(usize, usize)> = None;
    let comment_open = chars_of("<!--");
    let mut cursor: usize = 0;
    while cursor < n
        invariant_except_break
            unterminated is None,
            sfc_blocks(s@) == sfc_scan(s@, cursor as int, template_block, script_block, style_blocks@),
        invariant
            n == s.len(),
            n <= u32::MAX,
            comment_open@ == "<!--"@,
            template_block matches Some(b) ==> block_ok(n as nat, b),
            script_block matches Some(b) ==> block_ok(n as nat, b),
            forall|k: int| 0 <= k < style_blocks.len() ==> block_ok(n as nat, #[trigger] style_blocks@[k]),
            unterminated matches Some((lt, gt)) ==> lt < gt < n,
        ensures
            sfc_blocks(s@) == (template_block, script_block, style_blocks@, unterminated),
        decreases n - cursor,
    {
        let ghost t0 = template_block;
        let ghost s0 = script_block;
        let ghost st0 = style_blocks@;
        let ghost c0 = cursor as int;
        let lt = match find_char(s, cursor, '<') {
            Some(p) => p,
            None => break,
        };
        proof {
            lemma_opener_bounds(s@, lt as int, 0);
            lemma_skips_advance(s@, lt as int);
        }
        if starts_with_at(s, lt, &comment_open) {
            cursor = skip_comment(s, lt);
            assert(sfc_scan(s@, c0, t0, s0, st0) == sfc_scan(s@, cursor as int, t0, s0, st0));
            continue;
        }
        let (kind, open_end) = match match_block_opener(s, lt) {
            Some(m) => m,
            None => {
                cursor = skip_tag(s, lt);
                assert(sfc_scan(s@, c0, t0, s0, st0) == sfc_scan(s@, cursor as int, t0, s0, st0));
                continue;
            },
        };
        assert(opener_from(s@, lt as int, 0) == Some((kind, open_end as int)));
        let name_end = lt + 1 + chars_of(kind_tag(kind)).len();
        let content_start = open_end + 1;
        match scan_block_end(s, content_start, kind) {
            Some(close_start) => {
                let (a, b) = trim_range(s, content_start, close_start);
                cursor = close_tag_end(s, close_start, kind);
                let block = BlockMatch {
                    attrs_from: name_end,
                    attrs_to: open_end,
                    content_from: a,
                    content_to: b,
                };
                assert(block == block_of(s@, lt as int, kind, open_end as int, close_start as int));
                assert(block_end(s@, open_end + 1, kind, 1) == Some(close_start as int));
                assert(cursor == close_end(s@, close_start as int, kind));
                match kind {
                    BlockKind::Template => {
                        if template_block.is_none() {
                            template_block = Some(block);
                        }
                    },
                    BlockKind::Script => {
                        if script_block.is_none() {
                            script_block = Some(block);
                        }
                    },
                    BlockKind::Style => {
                        style_blocks.push(block);
                    },
                }
            },
            None => {
                if kind == BlockKind::Template {
                    unterminated = Some((lt, open_end));
                }
                break;
            },
        }
    }
    (template_block, script_block, style_blocks, unterminated)
}

/// What extracting the blocks of `before.source` leaves in the context:
/// the source and path are kept, the `<style>` blocks appended, the first
/// `<script>` and `<template>` blocks read with their offsets and trees.
pub open spec fn sfc_extracted(before: ScanContext, after: ScanContext) -> bool {
    &&& after.source@ == before.source@
    &&& after.file_path@ == before.file_path@
    // Every `<style>` block, in order, after those already there.
    &&& after.style_blocks.len() == before.style_blocks.len() + sfc_blocks(before.source@).2.len()
    &&& forall|k: int|
        0 <= k < before.style_blocks.len() ==> #[trigger] after.style_blocks@[k] == before.style_blocks@[k]
    &&& forall|k: int|
        0 <= k < sfc_blocks(before.source@).2.len() ==> #[trigger] after.style_blocks@[before.style_blocks.len() + k]@ == block_text(before.source@, sfc_blocks(before.source@).2[k])
    // The first `<script>` block: its text, where it starts, its
    // language and whether it is `<script setup>`.
    &&& match sfc_blocks(before.source@).1 {
        Some(b) => {
            &&& after.script matches Some(t) && t@ == block_text(before.source@, b)
            &&& after.script_offset == byte_pos(before.source@, b.content_from as int)
            &&& after.lang == lang_of(before.source@, b.attrs_from as int, b.attrs_to as int)
            &&& after.script_setup == spec_contains_in(
                before.source@,
                b.attrs_from as int,
                b.attrs_to as int,
                "setup"@,
            )
            &&& after.script_ast is Some
        },
        None => {
            &&& after.script == before.script
            &&& after.script_offset == before.script_offset
            &&& after.lang == before.lang
            &&& after.script_setup == before.script_setup
            &&& after.script_ast == before.script_ast
        },
    }
    // The first `<template>` block: its text and where it starts; its
    // tree's spans are offsets into the source.
    &&& match sfc_blocks(before.source@).0 {
        Some(b) => {
            &&& after.template matches Some(t) && t@ == block_text(before.source@, b)
            &&& after.template_offset == byte_pos(before.source@, b.content_from as int)
            // The template parser's errors, each pointing into the source.
            &&& errors_placed(after.template_errors@, before.source@, 0)
            &&& after.template_ast matches Some(root) && nodes_ok(
                before.source@,
                0,
                root.children@,
            ) && nodes_shape(root.children@) && children_within(root.span, root.children@)
        },
        None => {
            &&& after.template_offset == before.template_offset
            &&& match sfc_blocks(before.source@).3 {
                // An unterminated `<template>`: its trimmed rest, when
                // not empty, is parsed, and an error spans its opening
                // tag.
                Some((lt, gt)) => {
                    let a = trim_from(before.source@, gt + 1, before.source@.len() as int);
                    let b = trim_to(before.source@, a, before.source@.len() as int);
                    &&& after.template_errors.len() > 0
                    &&& after.template_errors@.last() == TemplateError {
                        message: "Unterminated <template> block",
                        span: Span {
                            start: byte_pos(before.source@, lt as int) as u32,
                            end: byte_pos(before.source@, gt as int) as u32,
                        },
                    }
                    &&& if a < b {
                        &&& after.template matches Some(t) && t@ == before.source@.subrange(a, b)
                        &&& after.template_ast matches Some(root) && nodes_ok(
                            before.source@,
                            0,
                            root.children@,
                        ) && nodes_shape(root.children@) && children_within(root.span, root.children@)
                    } else {
                        &&& after.template == before.template
                        &&& after.template_ast == before.template_ast
                    }
                },
                None => {
                    &&& after.template == before.template
                    &&& after.template_ast == before.template_ast
                    &&& after.template_errors == before.template_errors
                },
            }
        },
    }
}

/// Split `ctx.source` into its blocks and parse the template.
///
/// The first `<template>` and the first `<script>` block win; every
/// `<style>` block is kept. Block contents are trimmed. An unterminated
/// `<template>` block is still parsed (so rules see a partial tree) and an
/// error records it, so the file degrades to "needs review".
#[verifier::spinoff_prover]
#[verifier::rlimit(40)]
pub fn parse_sfc(ctx: &mut ScanContext)
    requires
        vstd::utf8::encode_utf8(old(ctx).source@).len() <= u32::MAX,
    ensures
        sfc_extracted(*old(ctx), *final(ctx)),
{
    let text = index_text(ctx.source.as_str());
    let ghost src = text.chars@;
    let n = text.chars.len();
    proof {
        crate::text::lemma_chars_le_bytes(src, src.len() as int);
        assert(src.take(src.len() as int) =~= src);
    }
    let (template_block, script_block, style_blocks, unterminated) = scan_blocks(&text.chars);

    if let Some((lt, open_end)) = unterminated {
        // Unterminated `<template>`: parse whatever content exists so rules
        // still see a partial tree, and record an error.
        let (a, b) = trim_range(&text.chars, open_end + 1, n);
        if a < b {
            let content = string_of_range(&text.chars, a, b);
            let base = text.offs[a] as u32;
            proof {
                lemma_sub_bytes(src, a as int, b as int);
            }
            let (root, errors) = parse_template(content.as_str(), base);
            proof {
                lemma_nodes_lift(src, a as int, b as int, base, root.children@);
            }
            let mut errors = errors;
            ctx.template = Some(content);
            ctx.template_ast = Some(root);
            ctx.template_errors.append(&mut errors);
        }
        let e = TemplateError {
            message: "Unterminated <template> block",
            span: Span::new(text.offs[lt] as u32, text.offs[open_end] as u32),
        };
        ctx.template_errors.push(e);
    }

    // A `.vue` file may carry several `<style>` blocks; keep every one.
    let mut styles: Vec<String> = Vec::new();
    let mut k: usize = 0;
    while k < style_blocks.len()
        invariant
            k <= style_blocks.len(),
            text.chars@ == src,
            n == src.len(),
            forall|m: int| 0 <= m < style_blocks.len() ==> block_ok(n as nat, #[trigger] style_blocks@[m]),
            styles.len() == k,
            forall|m: int| 0 <= m < k ==> #[trigger] styles@[m]@ == block_text(src, style_blocks@[m]),
        decreases style_blocks.len() - k,
    {
        let block = style_blocks[k];
        let s = string_of_range(&text.chars, block.content_from, block.content_to);
        styles.push(s);
        k = k + 1;
    }
    ctx.style_blocks.append(&mut styles);

    if let Some(block) = template_block {
        let a = block.content_from;
        let b = block.content_to;
        let content = string_of_range(&text.chars, a, b);
        let base = text.offs[a] as u32;
        proof {
            lemma_sub_bytes(src, a as int, b as int);
        }
        let (root, errors) = parse_template(content.as_str(), base);
        proof {
            lemma_nodes_lift(src, a as int, b as int, base, root.children@);
            lemma_errors_lift(src, a as int, b as int, base, errors@);
        }
        ctx.template_offset = text.offs[a];
        ctx.template = Some(content);
        ctx.template_ast = Some(root);
        ctx.template_errors = errors;
    }

    if let Some(block) = script_block {
        let lang = detect_lang(&text.chars, block.attrs_from, block.attrs_to);
        ctx.lang = lang;
        ctx.script_setup = contains_in(&text.chars, block.attrs_from, block.attrs_to, &chars_of("setup"));
        let a = block.content_from;
        ctx.script_offset = text.offs[a];
        let content = string_of_range(&text.chars, a, block.content_to);
        ctx.script_ast = Some(parse_script(content.as_str(), lang));
        ctx.script = Some(content);
    }

    // The taint facts are computed once per file, so every rule sees the
    // same ones.
    let taint = analyze(ctx);
    ctx.taint = taint;
}


// ---------------------------------------------------------------------
// The block extractor, as a function of the source text.
// ---------------------------------------------------------------------

/// Index just past the `-->` ending the comment at `lt`; the end of the
/// text when it is unterminated.
pub open spec fn comment_end(cs: Seq<char>, lt: int) -> int {
    if cs.len() - lt < 4 {
        cs.len() as int
    } else {
        let p = next_seq(cs, lt + 4, "-->"@);
        if p < cs.len() {
            p + 3
        } else {
            cs.len() as int
        }
    }
}

/// Index just past the first `>` at or after `lt`; the end of the text
/// when there is none.
pub open spec fn tag_end(cs: Seq<char>, lt: int) -> int {
    let p = next_index(cs, lt, '>');
    if p < cs.len() {
        p + 1
    } else {
        cs.len() as int
    }
}

/// A character that ends a block's tag name.
pub open spec fn ends_name(c: char) -> bool {
    spec_is_whitespace(c) || c == '>' || c == '/'
}

/// The block kinds, in the order the opener is tried.
pub open spec fn kind_of(i: int) -> BlockKind {
    if i == 0 {
        BlockKind::Template
    } else if i == 1 {
        BlockKind::Script
    } else {
        BlockKind::Style
    }
}

/// Trying kind `kind` at `lt`: `None` when `lt` opens no such block (the
/// next kind is tried), `Some(r)` when the search ends with `r` (the kind
/// and the `>` of the opening tag, or nothing when no `>` follows).
pub open spec fn opener_try(cs: Seq<char>, lt: int, kind: BlockKind) -> Option<Option<(BlockKind, int)>> {
    let tag = kind_name(kind);
    if cs.len() - lt <= tag.len() + 1 {
        None
    } else if !spec_starts_with_at(cs, lt + 1, tag) {
        None
    } else if !ends_name(cs[lt + 1 + tag.len()]) {
        None
    } else {
        let p = next_index(cs, lt + 1 + tag.len(), '>');
        Some(
            if p < cs.len() {
                Some((kind, p))
            } else {
                None
            },
        )
    }
}

/// The block opener at `lt`, trying the kinds from the `i`-th on.
pub open spec fn opener_from(cs: Seq<char>, lt: int, i: int) -> Option<(BlockKind, int)>
    decreases 3 - i,
{
    if i >= 3 {
        None
    } else {
        match opener_try(cs, lt, kind_of(i)) {
            Some(r) => r,
            None => opener_from(cs, lt, i + 1),
        }
    }
}

/// `<name` of a block kind.
pub open spec fn open_pat(kind: BlockKind) -> Seq<char> {
    seq!['<'] + kind_name(kind)
}

/// `</name` of a block kind.
pub open spec fn close_pat(kind: BlockKind) -> Seq<char> {
    seq!['<', '/'] + kind_name(kind)
}

/// `pat` starts at `lt` as a whole tag name: the next character does not
/// continue the name.
pub open spec fn tag_at(cs: Seq<char>, lt: int, pat: Seq<char>) -> bool {
    spec_starts_with_at(cs, lt, pat) && (lt + pat.len() >= cs.len() || !(spec_is_ascii_alnum(
        cs[lt + pat.len()],
    ) || cs[lt + pat.len()] == '-' || cs[lt + pat.len()] == '_'))
}

/// The tag whose name ends at `from` is self-closing: the first `>` after
/// it follows a `/`.
pub open spec fn self_closing_at(cs: Seq<char>, from: int) -> bool {
    let p = next_index(cs, from, '>');
    p < cs.len() && p > from && cs[p - 1] == '/'
}

/// A character that can follow `<` in a tag, a closing tag or a comment.
pub open spec fn opens_tag_char(c: char) -> bool {
    spec_is_ascii_alpha(c) || c == '/' || c == '!'
}

pub proof fn lemma_next_index_bounds(cs: Seq<char>, from: int, c: char)
    requires
        0 <= from <= cs.len(),
    ensures
        from <= next_index(cs, from, c) <= cs.len(),
    decreases cs.len() - from,
{
    if from < cs.len() && cs[from] != c {
        lemma_next_index_bounds(cs, from + 1, c);
    }
}

pub proof fn lemma_next_seq_bounds(cs: Seq<char>, from: int, pat: Seq<char>)
    requires
        0 <= from <= cs.len(),
    ensures
        from <= next_seq(cs, from, pat) <= cs.len(),
        next_seq(cs, from, pat) < cs.len() ==> spec_starts_with_at(cs, next_seq(cs, from, pat), pat),
    decreases cs.len() - from,
{
    if from < cs.len() && !spec_starts_with_at(cs, from, pat) {
        lemma_next_seq_bounds(cs, from + 1, pat);
    }
}

/// The skips move forward.
pub proof fn lemma_skips_advance(cs: Seq<char>, lt: int)
    requires
        0 <= lt < cs.len(),
    ensures
        lt < comment_end(cs, lt) <= cs.len(),
        lt < tag_end(cs, lt) <= cs.len(),
{
    lemma_next_index_bounds(cs, lt, '>');
    if cs.len() - lt >= 4 {
        lemma_next_seq_bounds(cs, lt + 4, "-->"@);
        reveal_strlit("-->");
    }
}

/// Where the block of `kind` whose content starts at or before `j` ends:
/// the index of its closing `</name`, with `depth` same-name elements
/// open; `None` when it is unterminated. A `<script>` or `<style>` block
/// is raw text and ends at the first closing tag. A `<template>` block
/// skips comments, counts nested `<template>` elements (a self-closing
/// one adds nothing), skips other tags, and reads a `<` that opens no tag
/// as text.
pub open spec fn block_end(cs: Seq<char>, j: int, kind: BlockKind, depth: nat) -> Option<int>
    decreases cs.len() - j,
{
    if j < 0 || j >= cs.len() {
        None
    } else {
        let lt = next_index(cs, j, '<');
        proof {
            lemma_next_index_bounds(cs, j, '<');
        }
        if lt >= cs.len() {
            None
        } else if kind != BlockKind::Template {
            if tag_at(cs, lt, close_pat(kind)) {
                Some(lt)
            } else {
                block_end(cs, lt + 1, kind, depth)
            }
        } else if spec_starts_with_at(cs, lt, "<!--"@) {
            proof {
                lemma_skips_advance(cs, lt);
            }
            block_end(cs, comment_end(cs, lt), kind, depth)
        } else if tag_at(cs, lt, close_pat(kind)) {
            if depth <= 1 {
                Some(lt)
            } else {
                block_end(cs, lt + close_pat(kind).len(), kind, (depth - 1) as nat)
            }
        } else if tag_at(cs, lt, open_pat(kind)) {
            let after = lt + open_pat(kind).len();
            block_end(
                cs,
                after,
                kind,
                if self_closing_at(cs, after) {
                    depth
                } else {
                    depth + 1
                },
            )
        } else if lt + 1 < cs.len() && opens_tag_char(cs[lt + 1]) {
            proof {
                lemma_skips_advance(cs, lt);
            }
            block_end(cs, tag_end(cs, lt), kind, depth)
        } else {
            block_end(cs, lt + 1, kind, depth)
        }
    }
}

/// A block ends at or after where its scan starts.
pub proof fn lemma_block_end_bounds(cs: Seq<char>, j: int, kind: BlockKind, depth: nat)
    ensures
        block_end(cs, j, kind, depth) matches Some(p) ==> 0 <= j <= p < cs.len(),
    decreases cs.len() - j,
{
    if 0 <= j < cs.len() {
        let lt = next_index(cs, j, '<');
        lemma_next_index_bounds(cs, j, '<');
        if lt < cs.len() {
            lemma_skips_advance(cs, lt);
            if kind != BlockKind::Template {
                lemma_block_end_bounds(cs, lt + 1, kind, depth);
            } else if spec_starts_with_at(cs, lt, "<!--"@) {
                lemma_block_end_bounds(cs, comment_end(cs, lt), kind, depth);
            } else if tag_at(cs, lt, close_pat(kind)) {
                if depth > 1 {
                    lemma_block_end_bounds(cs, lt + close_pat(kind).len(), kind, (depth - 1) as nat);
                }
            } else if tag_at(cs, lt, open_pat(kind)) {
                let after = lt + open_pat(kind).len();
                lemma_block_end_bounds(cs, after, kind, depth);
                lemma_block_end_bounds(cs, after, kind, depth + 1);
            } else if lt + 1 < cs.len() && opens_tag_char(cs[lt + 1]) {
                lemma_block_end_bounds(cs, tag_end(cs, lt), kind, depth);
            } else {
                lemma_block_end_bounds(cs, lt + 1, kind, depth);
            }
        }
    }
}

/// Index just past the `>` of the closing tag at `close_start`.
pub open spec fn close_end(cs: Seq<char>, close_start: int, kind: BlockKind) -> int {
    let n = kind_name(kind).len();
    if n + 2 > cs.len() - close_start {
        cs.len() as int
    } else {
        let p = next_index(cs, close_start + 2 + n, '>');
        if p < cs.len() {
            p + 1
        } else {
            cs.len() as int
        }
    }
}

/// A closing tag ends after its start.
pub proof fn lemma_close_end_advances(cs: Seq<char>, close_start: int, kind: BlockKind)
    requires
        0 <= close_start < cs.len(),
    ensures
        close_start < close_end(cs, close_start, kind) <= cs.len(),
{
    let n = kind_name(kind).len();
    if n + 2 <= cs.len() - close_start {
        lemma_next_index_bounds(cs, close_start + 2 + n, '>');
    }
}

/// An opener's `>` lies after its name, inside the text.
pub proof fn lemma_opener_bounds(cs: Seq<char>, lt: int, i: int)
    requires
        0 <= lt < cs.len(),
    ensures
        opener_from(cs, lt, i) matches Some((kind, gt)) ==> lt + 1 + kind_name(kind).len() <= gt
            < cs.len() && spec_starts_with_at(cs, lt + 1, kind_name(kind)),
    decreases 3 - i,
{
    if i < 3 {
        let kind = kind_of(i);
        let tag = kind_name(kind);
        if cs.len() - lt > tag.len() + 1 {
            lemma_next_index_bounds(cs, lt + 1 + tag.len(), '>');
        }
        lemma_opener_bounds(cs, lt, i + 1);
    }
}

/// The block opened at `lt` (a tag of `kind` whose `>` is at `gt`) and
/// closed by the tag at `close`: its attribute text and its trimmed
/// content.
pub open spec fn block_of(cs: Seq<char>, lt: int, kind: BlockKind, gt: int, close: int) -> BlockMatch {
    let a = trim_from(cs, gt + 1, close);
    BlockMatch {
        attrs_from: (lt + 1 + kind_name(kind).len()) as usize,
        attrs_to: gt as usize,
        content_from: a as usize,
        content_to: trim_to(cs, a, close) as usize,
    }
}

/// What the extractor has found: the first `<template>` block, the first
/// `<script>` block, every `<style>` block in order, and, when a
/// `<template>` block is left unterminated, the `<` and the `>` of its
/// opening tag.
pub type SfcBlocks = (Option<BlockMatch>, Option<BlockMatch>, Seq<BlockMatch>, Option<(usize, usize)>);

/// The blocks found scanning from `cursor`, after `template`, `script` and
/// `styles` were found before it. Comments and tags that open no block
/// are skipped; the scan stops at the first unterminated block.
pub open spec fn sfc_scan(
    cs: Seq<char>,
    cursor: int,
    template: Option<BlockMatch>,
    script: Option<BlockMatch>,
    styles: Seq<BlockMatch>,
) -> SfcBlocks
    decreases cs.len() - cursor,
{
    if cursor < 0 || cursor >= cs.len() {
        (template, script, styles, None)
    } else {
        let lt = next_index(cs, cursor, '<');
        proof {
            lemma_next_index_bounds(cs, cursor, '<');
        }
        if lt >= cs.len() {
            (template, script, styles, None)
        } else if spec_starts_with_at(cs, lt, "<!--"@) {
            proof {
                lemma_skips_advance(cs, lt);
            }
            sfc_scan(cs, comment_end(cs, lt), template, script, styles)
        } else {
            proof {
                lemma_skips_advance(cs, lt);
                lemma_opener_bounds(cs, lt, 0);
            }
            match opener_from(cs, lt, 0) {
                None => sfc_scan(cs, tag_end(cs, lt), template, script, styles),
                Some((kind, gt)) => {
                    proof {
                        lemma_block_end_bounds(cs, gt + 1, kind, 1);
                    }
                    match block_end(cs, gt + 1, kind, 1) {
                        None => (
                            template,
                            script,
                            styles,
                            if kind == BlockKind::Template {
                                Some((lt as usize, gt as usize))
                            } else {
                                None
                            },
                        ),
                        Some(close) => {
                            proof {
                                lemma_close_end_advances(cs, close, kind);
                            }
                            let b = block_of(cs, lt, kind, gt, close);
                            let next = close_end(cs, close, kind);
                            match kind {
                                BlockKind::Template => sfc_scan(
                                    cs,
                                    next,
                                    if template is None {
                                        Some(b)
                                    } else {
                                        template
                                    },
                                    script,
                                    styles,
                                ),
                                BlockKind::Script => sfc_scan(
                                    cs,
                                    next,
                                    template,
                                    if script is None {
                                        Some(b)
                                    } else {
                                        script
                                    },
                                    styles,
                                ),
                                BlockKind::Style => sfc_scan(cs, next, template, script, styles.push(b)),
                            }
                        },
                    }
                },
            }
        }
    }
}

/// Once a `<template>` or a `<script>` block is found, later blocks of its
/// kind never replace it, and the `<style>` blocks found so far stay, in
/// order, at the front of those found in the end.
pub proof fn lemma_scan_keeps_first(
    cs: Seq<char>,
    cursor: int,
    template: Option<BlockMatch>,
    script: Option<BlockMatch>,
    styles: Seq<BlockMatch>,
)
    ensures
        template is Some ==> sfc_scan(cs, cursor, template, script, styles).0 == template,
        script is Some ==> sfc_scan(cs, cursor, template, script, styles).1 == script,
        sfc_scan(cs, cursor, template, script, styles).2.len() >= styles.len(),
        sfc_scan(cs, cursor, template, script, styles).2.take(styles.len() as int) == styles,
    decreases cs.len() - cursor,
{
    if 0 <= cursor < cs.len() {
        let lt = next_index(cs, cursor, '<');
        lemma_next_index_bounds(cs, cursor, '<');
        if lt < cs.len() {
            lemma_skips_advance(cs, lt);
            lemma_opener_bounds(cs, lt, 0);
            if spec_starts_with_at(cs, lt, "<!--"@) {
                lemma_scan_keeps_first(cs, comment_end(cs, lt), template, script, styles);
            } else {
                match opener_from(cs, lt, 0) {
                    None => {
                        lemma_scan_keeps_first(cs, tag_end(cs, lt), template, script, styles);
                    },
                    Some((kind, gt)) => {
                        lemma_block_end_bounds(cs, gt + 1, kind, 1);
                        match block_end(cs, gt + 1, kind, 1) {
                            None => {
                                assert(styles.take(styles.len() as int) =~= styles);
                            },
                            Some(close) => {
                                lemma_close_end_advances(cs, close, kind);
                                let b = block_of(cs, lt, kind, gt, close);
                                let next = close_end(cs, close, kind);
                                match kind {
                                    BlockKind::Template => {
                                        lemma_scan_keeps_first(
                                            cs,
                                            next,
                                            if template is None {
                                                Some(b)
                                            } else {
                                                template
                                            },
                                            script,
                                            styles,
                                        );
                                    },
                                    BlockKind::Script => {
                                        lemma_scan_keeps_first(
                                            cs,
                                            next,
                                            template,
                                            if script is None {
                                                Some(b)
                                            } else {
                                                script
                                            },
                                            styles,
                                        );
                                    },
                                    BlockKind::Style => {
                                        let more = styles.push(b);
                                        lemma_scan_keeps_first(cs, next, template, script, more);
                                        let fin = sfc_scan(cs, next, template, script, more).2;
                                        assert(fin.take(styles.len() as int) =~= more.take(
                                            more.len() as int,
                                        ).take(styles.len() as int));
                                        assert(more.take(more.len() as int) =~= more);
                                        assert(more.take(styles.len() as int) =~= styles);
                                    },
                                }
                            },
                        }
                    },
                }
            }
        } else {
            assert(styles.take(styles.len() as int) =~= styles);
        }
    } else {
        assert(styles.take(styles.len() as int) =~= styles);
    }
}

/// The blocks of a single-file component's source.
pub open spec fn sfc_blocks(cs: Seq<char>) -> SfcBlocks {
    sfc_scan(cs, 0, None, None, Seq::empty())
}

/// The first index of `[a, to)` that is not whitespace (or `to`).
pub open spec fn trim_from(cs: Seq<char>, a: int, to: int) -> int
    decreases to - a,
{
    if a < to && 0 <= a < cs.len() && spec_is_whitespace(cs[a]) {
        trim_from(cs, a + 1, to)
    } else {
        a
    }
}

/// One past the last index of `[a, b)` that is not whitespace (or `a`).
pub open spec fn trim_to(cs: Seq<char>, a: int, b: int) -> int
    decreases b - a,
{
    if b > a && 0 < b <= cs.len() && spec_is_whitespace(cs[b - 1]) {
        trim_to(cs, a, b - 1)
    } else {
        b
    }
}

/// The bytes of a slice are the difference of the prefix byte offsets.
proof fn lemma_sub_bytes(src: Seq<char>, a: int, b: int)
    requires
        0 <= a <= b <= src.len(),
    ensures
        byte_pos(src, a) + vstd::utf8::encode_utf8(src.subrange(a, b)).len() == byte_pos(src, b),
        byte_pos(src, b) <= byte_pos(src, src.len() as int),
{
    assert(src.take(b) =~= src.take(a) + src.subrange(a, b));
    lemma_encode_concat(src.take(a), src.subrange(a, b));
    lemma_encode_prefix_mono(src, b, src.len() as int);
}

/// The range `[from, to)` without whitespace at either end: the first
/// non-whitespace character (or `to`), and one past the last.
fn trim_range(s: &Vec<char>, from: usize, to: usize) -> (r: (usize, usize))
    requires
        from <= to <= s.len(),
    ensures
        from <= r.0 <= r.1 <= to,
        forall|k: int| from <= k < r.0 ==> spec_is_whitespace(#[trigger] s@[k]),
        forall|k: int| r.1 <= k < to ==> spec_is_whitespace(#[trigger] s@[k]),
        r.0 < r.1 ==> !spec_is_whitespace(s@[r.0 as int]) && !spec_is_whitespace(s@[r.1 - 1]),
        trimmed_slice(s@, s@.subrange(r.0 as int, r.1 as int), r.0 as int, r.1 as int),
        r.0 == trim_from(s@, from as int, to as int),
        r.1 == trim_to(s@, r.0 as int, to as int),
{
    let mut a = from;
    while a < to && is_whitespace(s[a])
        invariant
            from <= a <= to <= s.len(),
            forall|k: int| from <= k < a ==> spec_is_whitespace(#[trigger] s@[k]),
            trim_from(s@, from as int, to as int) == trim_from(s@, a as int, to as int),
        decreases to - a,
    {
        a = a + 1;
    }
    let mut b = to;
    while b > a && is_whitespace(s[b - 1])
        invariant
            a <= b <= to <= s.len(),
            forall|k: int| b <= k < to ==> spec_is_whitespace(#[trigger] s@[k]),
            trim_to(s@, a as int, to as int) == trim_to(s@, a as int, b as int),
        decreases b - a,
    {
        b = b - 1;
    }
    proof {
        let t = s@.subrange(a as int, b as int);
        if t.len() > 0 {
            assert(t[0] == s@[a as int]);
            assert(t.last() == s@[b - 1]);
        }
    }
    (a, b)
}

/// Find a top-level `<template>` / `<script>` / `<style>` opener at `lt`:
/// its kind and the index of the `>` ending the opening tag.
fn match_block_opener(s: &Vec<char>, lt: usize) -> (r: Option<(BlockKind, usize)>)
    requires
        lt < s.len(),
    ensures
        match opener_from(s@, lt as int, 0) {
            Some((kind, gt)) => r == Some((kind, gt as usize)),
            None => r is None,
        },
        r matches Some((kind, gt)) ==> spec_starts_with_at(s@, lt + 1, kind_name(kind)) && lt + 1
            + kind_name(kind).len() <= gt < s.len() && s@[gt as int] == '>',
{
    let mut i: usize = 0;
    while i < 3
        invariant
            i <= 3,
            lt < s.len(),
            opener_from(s@, lt as int, 0) == opener_from(s@, lt as int, i as int),
        decreases 3 - i,
    {
        let kind = if i == 0 {
            BlockKind::Template
        } else if i == 1 {
            BlockKind::Script
        } else {
            BlockKind::Style
        };
        assert(kind == kind_of(i as int));
        assert(opener_from(s@, lt as int, i as int) == match opener_try(s@, lt as int, kind) {
            Some(r) => r,
            None => opener_from(s@, lt as int, i + 1),
        });
        i = i + 1;
        let tag = chars_of(kind_tag(kind));
        if s.len() - lt <= tag.len() + 1 {
            continue;
        }
        let name_end = lt + 1 + tag.len();
        if !starts_with_at(s, lt + 1, &tag) {
            continue;
        }
        // The character after the name must end it: whitespace, `>`, `/`.
        let c = s[name_end];
        if !(is_whitespace(c) || c == '>' || c == '/') {
            continue;
        }
        // The `>` ending the opening tag (naive about quoted values).
        match find_char(s, name_end, '>') {
            Some(p) => {
                return Some((kind, p));
            },
            None => {
                return None;
            },
        }
    }
    None
}

/// True when `s[lt..]` starts with `pat` as a complete tag name: the next
/// character does not extend the name.
fn is_tag(s: &Vec<char>, lt: usize, pat: &Vec<char>) -> (r: bool)
    ensures
        r == tag_at(s@, lt as int, pat@),
{
    if !starts_with_at(s, lt, pat) {
        return false;
    }
    let pl = pat.len();
    assert(lt + pl <= s.len());
    let after = lt + pl;
    if after < s.len() {
        let c = s[after];
        !(is_ascii_alnum(c) || c == '-' || c == '_')
    } else {
        true
    }
}

/// True when the tag whose name ends at `from` is self-closing (`.../>`):
/// the first `>` after `from` follows a `/`.
fn is_self_closing(s: &Vec<char>, from: usize) -> (r: bool)
    ensures
        r == self_closing_at(s@, from as int),
{
    match find_char(s, from, '>') {
        Some(p) => p > from && s[p - 1] == '/',
        None => false,
    }
}

/// Scan from `from` for the closing tag that ends the block of `kind`.
/// A `<script>` or `<style>` block is raw text: it ends at the first
/// `</script` / `</style`, whatever comes before. A `<template>` block
/// counts nested `<template>` elements and skips comments and tags; a `<`
/// that opens no tag (as in `a < b`) is plain text. The index of the
/// matching `</tag`, or `None` when the block is unterminated.
fn scan_block_end(s: &Vec<char>, from: usize, kind: BlockKind) -> (r: Option<usize>)
    requires
        from <= s.len(),
        s.len() <= u32::MAX,
    ensures
        match block_end(s@, from as int, kind, 1) {
            Some(p) => r == Some(p as usize),
            None => r is None,
        },
        r matches Some(q) ==> block_end(s@, from as int, kind, 1) == Some(q as int),
        r matches Some(p) ==> from <= p < s.len(),
{
    let tag = chars_of(kind_tag(kind));
    let mut opener: Vec<char> = Vec::new();
    opener.push('<');
    let mut closer: Vec<char> = Vec::new();
    closer.push('<');
    closer.push('/');
    let mut t: usize = 0;
    while t < tag.len()
        invariant
            t <= tag.len(),
            opener@ == seq!['<'] + tag@.take(t as int),
            closer@ == seq!['<', '/'] + tag@.take(t as int),
            tag@.len() <= 8,
        decreases tag.len() - t,
    {
        opener.push(tag[t]);
        closer.push(tag[t]);
        proof {
            assert(tag@.take(t + 1) =~= tag@.take(t as int).push(tag@[t as int]));
        }
        t = t + 1;
    }
    proof {
        assert(tag@.take(t as int) =~= tag@);
    }
    let comment_open = chars_of("<!--");
    let mut depth: u64 = 1;
    let mut j = from;
    proof {
        lemma_block_end_bounds(s@, from as int, kind, 1);
    }
    while j < s.len()
        invariant
            from <= j <= s.len(),
            s.len() <= u32::MAX,
            1 <= depth <= j - from + 1,
            opener@ == open_pat(kind),
            closer@ == close_pat(kind),
            comment_open@ == "<!--"@,
            block_end(s@, from as int, kind, 1) == block_end(s@, j as int, kind, depth as nat),
            block_end(s@, from as int, kind, 1) matches Some(p) ==> from <= p < s.len(),
        decreases s.len() - j,
    {
        proof {
            lemma_block_end_bounds(s@, j as int, kind, depth as nat);
        }
        let lt = match find_char(s, j, '<') {
            Some(p) => p,
            None => {
                return None;
            },
        };
        let raw_text = match kind {
            BlockKind::Template => false,
            _ => true,
        };
        if raw_text {
            if is_tag(s, lt, &closer) {
                return Some(lt);
            }
            j = lt + 1;
            continue;
        }
        if starts_with_at(s, lt, &comment_open) {
            j = skip_comment(s, lt);
            continue;
        }
        if is_tag(s, lt, &closer) {
            depth = depth - 1;
            if depth == 0 {
                return Some(lt);
            }
            j = lt + closer.len();
            continue;
        }
        if is_tag(s, lt, &opener) {
            let after_name = lt + opener.len();
            if !is_self_closing(s, after_name) {
                depth = depth + 1;
            }
            j = after_name;
            continue;
        }
        if lt + 1 < s.len() && opens_tag(s[lt + 1]) {
            j = skip_tag(s, lt);
        } else {
            j = lt + 1;
        }
    }
    None
}

/// A character that can follow `<` in a tag, a closing tag or a comment.
fn opens_tag(c: char) -> (r: bool)
    ensures
        r == opens_tag_char(c),
{
    is_ascii_alpha(c) || c == '/' || c == '!'
}

/// Index just past the `>` of the closing `</tag ...>` at `close_start`.
fn close_tag_end(s: &Vec<char>, close_start: usize, kind: BlockKind) -> (r: usize)
    requires
        close_start < s.len(),
    ensures
        r == close_end(s@, close_start as int, kind),
        close_start < r <= s.len(),
{
    let len = chars_of(kind_tag(kind)).len();
    if len + 2 > s.len() - close_start {
        return s.len();
    }
    let after_name = close_start + 2 + len;
    match find_char(s, after_name, '>') {
        Some(p) => p + 1,
        None => s.len(),
    }
}

/// Index just past the `-->` ending the comment at `lt`; an unterminated
/// comment runs to the end.
fn skip_comment(s: &Vec<char>, lt: usize) -> (r: usize)
    requires
        lt < s.len(),
    ensures
        r == comment_end(s@, lt as int),
        lt < r <= s.len(),
{
    let close = chars_of("-->");
    proof {
        reveal_strlit("-->");
        lemma_skips_advance(s@, lt as int);
    }
    if 4 > s.len() - lt {
        return s.len();
    }
    match find_seq(s, lt + 4, &close) {
        Some(p) => p + close.len(),
        None => s.len(),
    }
}

/// Index just past the `>` ending the tag at `lt` (naive about `>` inside
/// quoted values).
fn skip_tag(s: &Vec<char>, lt: usize) -> (r: usize)
    requires
        lt < s.len(),
    ensures
        r == tag_end(s@, lt as int),
        lt < r <= s.len(),
{
    match find_char(s, lt, '>') {
        Some(p) => p + 1,
        None => s.len(),
    }
}

/// The language of a `<script>` block from the text of its attributes,
/// `s[from..to]`.
fn detect_lang(s: &Vec<char>, from: usize, to: usize) -> (r: ScriptLang)
    requires
        from <= to <= s.len(),
    ensures
        r == lang_of(s@, from as int, to as int),
        r == ScriptLang::TypeScript <==> (spec_contains_in(s@, from as int, to as int, "lang=\"ts\""@)
            || spec_contains_in(s@, from as int, to as int, "lang='ts'"@) || spec_contains_in(
            s@,
            from as int,
            to as int,
            "lang=\"typescript\""@,
        ) || spec_contains_in(s@, from as int, to as int, "lang='typescript'"@)),
        r != ScriptLang::Unknown,
{
    if contains_in(s, from, to, &chars_of("lang=\"ts\"")) || contains_in(
        s,
        from,
        to,
        &chars_of("lang='ts'"),
    ) || contains_in(s, from, to, &chars_of("lang=\"typescript\"")) || contains_in(
        s,
        from,
        to,
        &chars_of("lang='typescript'"),
    ) {
        ScriptLang::TypeScript
    } else {
        ScriptLang::JavaScript
    }
}

/// Parse a template that lives outside an SFC (e.g. in tests).
pub fn parse_template_only(source: &str) -> (r: (TemplateRoot, Vec<TemplateError>))
    requires
        vstd::utf8::encode_utf8(source@).len() <= u32::MAX,
    ensures
        nodes_ok(source@, 0, r.0.children@),
        nodes_shape(r.0.children@),
{
    parse_template(source, 0)
}

} // verus!
