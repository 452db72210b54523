//! The classification rules the analysis keeps for every expression.

use vuer::context::ScanContext;
use vuer::parser::parse_sfc;
use vuer::taint::{combine_taint, TaintInfo, TaintStatus};

fn analyze_script(script: &str) -> ScanContext {
  let source = format!("<script setup>\n{script}\n</script>");
  let mut ctx = ScanContext::new("laws.vue".to_string(), source);
  parse_sfc(&mut ctx);
  ctx
}

fn status_of(ctx: &ScanContext, needle: &str) -> TaintStatus {
  let script = ctx.script.as_deref().expect("script block");
  let rel = script.find(needle).expect("needle in script");
  ctx.taint.status_at(ctx.script_offset as u32 + rel as u32)
}

#[test]
fn source_constructors_are_tainted_themselves() {
  let ctx = analyze_script("const f = new FormData()\nconst q = new URLSearchParams('a=1')");
  assert_eq!(status_of(&ctx, "new FormData()"), TaintStatus::Tainted);
  assert_eq!(status_of(&ctx, "new URLSearchParams"), TaintStatus::Tainted);
}

#[test]
fn other_constructors_carry_their_arguments() {
  let ctx = analyze_script("const d = new Date(1)");
  assert_eq!(status_of(&ctx, "new Date(1)"), TaintStatus::Clean);
}

#[test]
fn event_identifiers_are_sources() {
  let ctx = analyze_script("const a = event\nconst b = $event\nconst c = other");
  assert_eq!(status_of(&ctx, "event\n"), TaintStatus::Tainted);
  assert_eq!(status_of(&ctx, "$event"), TaintStatus::Tainted);
  assert_eq!(status_of(&ctx, "other"), TaintStatus::Clean);
}

#[test]
fn an_unknown_call_never_taints_even_with_a_tainted_argument() {
  let ctx = analyze_script("const x = localStorage.getItem('k')\nconst y = mystery(x)");
  assert_eq!(status_of(&ctx, "mystery(x)"), TaintStatus::Clean);
}

#[test]
fn a_sanitizer_call_is_clean() {
  let ctx = analyze_script("const x = localStorage.getItem('k')\nconst y = DOMPurify.sanitize(x)");
  assert_eq!(status_of(&ctx, "DOMPurify.sanitize(x)"), TaintStatus::Clean);
}

#[test]
fn a_file_without_script_or_template_has_no_facts() {
  let mut ctx = ScanContext::new("plain.vue".to_string(), "just text".to_string());
  parse_sfc(&mut ctx);
  assert_eq!(ctx.taint.len(), 0);
}

#[test]
fn options_api_props_are_sources_in_both_forms() {
  let ctx = analyze_script(
    "export default {\n  props: ['title', 'body'],\n  methods: { show() { return this.title } }\n}\nconst a = title\nconst b = body\nconst z = 1",
  );
  assert_eq!(status_of(&ctx, "title\n"), TaintStatus::Tainted);
  assert_eq!(status_of(&ctx, "body\n") , TaintStatus::Tainted);
  let ctx = analyze_script("export default {\n  props: { user: Object }\n}\nconst u = user\nconst z = 1");
  assert_eq!(status_of(&ctx, "user\n"), TaintStatus::Tainted);
}

#[test]
fn combining_two_untainted_facts_is_clean_with_no_trace() {
  let r = combine_taint(TaintInfo::unknown(), TaintInfo::clean());
  assert_eq!(r.status, TaintStatus::Clean);
  assert!(r.source.is_none());
  assert!(r.via.is_empty());
  assert!(r.sanitizer_note.is_none());
  let t = combine_taint(TaintInfo::clean(), TaintInfo::tainted("s".to_string(), vec!["p".to_string()]));
  assert_eq!(t.status, TaintStatus::Tainted);
  assert_eq!(t.source.as_deref(), Some("s"));
  assert_eq!(t.via, vec!["p".to_string()]);
}
