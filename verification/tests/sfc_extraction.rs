//! Which blocks the extractor keeps, and what it records of them.

use vuer::context::{ScanContext, ScriptLang};
use vuer::parser::parse_sfc;
use vuer::parser::template::{parse_template, Attribute, DirectiveArgument, TemplateNode};
use vuer::scanner::{ScanOptions, Scanner};

fn parse(source: &str) -> ScanContext {
  let mut ctx = ScanContext::new("fixture.vue".to_string(), source.to_string());
  parse_sfc(&mut ctx);
  ctx
}

#[test]
fn first_template_and_first_script_win() {
  let ctx = parse(
    "<template><p>a</p></template><template><b></b></template>\
     <script>one()</script><script>two()</script>",
  );
  assert_eq!(ctx.template.as_deref(), Some("<p>a</p>"));
  assert_eq!(ctx.script.as_deref(), Some("one()"));
  assert_eq!(ctx.template_offset, 10);
  assert!(ctx.template_errors.is_empty());
}

#[test]
fn unterminated_template_records_its_opening_tag() {
  let ctx = parse("<template>\n  <div>");
  let last = ctx.template_errors.last().expect("an error");
  assert_eq!(last.message, "Unterminated <template> block");
  assert_eq!(last.span.start, 0);
  assert_eq!(last.span.end, 9);
  assert_eq!(ctx.template.as_deref(), Some("<div>"));
  assert!(ctx.template_ast.is_some());
}

#[test]
fn unterminated_empty_template_keeps_no_content() {
  let ctx = parse("<p>x</p>\n<template>   \n");
  assert_eq!(ctx.template, None);
  assert!(ctx.template_ast.is_none());
  assert_eq!(ctx.template_errors.len(), 1);
  assert_eq!(ctx.template_errors[0].span.start, 9);
  assert_eq!(ctx.template_errors[0].span.end, 18);
}

#[test]
fn unterminated_script_block_is_dropped_silently() {
  let ctx = parse("<template><p></p></template><script>let a = 1");
  assert_eq!(ctx.template.as_deref(), Some("<p></p>"));
  assert_eq!(ctx.script, None);
  assert!(ctx.template_errors.is_empty());
  assert_eq!(ctx.lang, ScriptLang::Unknown);
}

#[test]
fn script_setup_and_typescript_are_read_from_the_attributes() {
  let ctx = parse("<script setup lang=\"ts\">let x: number = 1</script>");
  assert!(ctx.script_setup);
  assert_eq!(ctx.lang, ScriptLang::TypeScript);
  assert!(ctx.script_ast.is_some());
  let ctx = parse("<script lang='typescript'>x</script>");
  assert!(!ctx.script_setup);
  assert_eq!(ctx.lang, ScriptLang::TypeScript);
}

#[test]
fn offsets_count_bytes_not_characters() {
  // `<!-- é -->` is eleven bytes; `<script>` eight more.
  let ctx = parse("<!-- é --><script>ab</script>");
  assert_eq!(ctx.script.as_deref(), Some("ab"));
  assert_eq!(ctx.script_offset, 19);
}

#[test]
fn block_content_is_trimmed_on_both_sides() {
  let ctx = parse("<style>\n  a{}\n\t</style><style></style>");
  assert_eq!(ctx.style_blocks.len(), 2);
  assert_eq!(ctx.style_blocks[0], "a{}");
  assert_eq!(ctx.style_blocks[1], "");
}

#[test]
fn a_name_that_only_starts_like_a_block_opens_none() {
  let ctx = parse("<templates><script-x>a</script-x></templates><script>b</script>");
  assert_eq!(ctx.template, None);
  assert_eq!(ctx.script.as_deref(), Some("b"));
}

#[test]
fn attribute_variants_follow_their_names() {
  let (root, errors) = parse_template(
    "<div :a=\"x\" @click=\"f\" #head v-for=\"i in l\" slot=\"s\" v-if=\"c\" v-bind:[k]=\"v\" id=\"i\"></div>",
    0,
  );
  assert!(errors.is_empty(), "{:?}", errors);
  let el = match &root.children[0] {
    TemplateNode::Element(el) => el,
    other => panic!("not an element: {:?}", other),
  };
  assert_eq!(el.attributes.len(), 8);
  match &el.attributes[0] {
    Attribute::Directive(d) => {
      assert_eq!(d.name.name, ":");
      assert!(matches!(d.argument, Some(DirectiveArgument::Static(ref id)) if id.name == "a"));
    }
    other => panic!("{:?}", other),
  }
  assert!(matches!(el.attributes[1], Attribute::OnDirective(_)));
  match &el.attributes[2] {
    Attribute::SlotDirective(d) => {
      assert!(matches!(d.argument, Some(DirectiveArgument::Static(ref id)) if id.name == "head"));
    }
    other => panic!("{:?}", other),
  }
  assert!(matches!(el.attributes[3], Attribute::ForDirective(_)));
  assert!(matches!(el.attributes[4], Attribute::SlotDirective(_)));
  match &el.attributes[5] {
    Attribute::Directive(d) => {
      assert_eq!(d.name.name, "v-if");
      assert!(d.argument.is_none());
    }
    other => panic!("{:?}", other),
  }
  match &el.attributes[6] {
    Attribute::Directive(d) => {
      assert_eq!(d.name.name, "v-bind");
      assert!(matches!(d.argument, Some(DirectiveArgument::Dynamic(ref e)) if e.raw == "k"));
    }
    other => panic!("{:?}", other),
  }
  assert!(matches!(el.attributes[7], Attribute::Static(_)));
}

#[test]
fn a_void_element_closes_itself_and_has_no_children() {
  let (root, errors) = parse_template("<img src=\"a\"><p>x</p>", 0);
  assert!(errors.is_empty(), "{:?}", errors);
  assert_eq!(root.children.len(), 2);
  match &root.children[0] {
    TemplateNode::Element(el) => {
      assert_eq!(el.name, "img");
      assert!(el.self_closing);
      assert!(el.children.is_empty());
    }
    other => panic!("{:?}", other),
  }
}

#[test]
fn an_unterminated_template_makes_the_file_need_review() {
  let scanner = Scanner::new();
  let report = scanner.scan_source(
    "broken.vue".to_string(),
    "<template>\n  <div>".to_string(),
    &[],
    &ScanOptions::default(),
  );
  assert_eq!(report.parse_issues.len(), 1);
  assert_eq!(report.parse_issues[0].file, "broken.vue");
  let report = scanner.scan_source("plain.vue".to_string(), "no blocks".to_string(), &[], &ScanOptions::default());
  assert!(report.parse_issues.is_empty());
  assert!(report.violations.is_empty());
}
