//! The taint facts the analysis records for small scripts and templates.

use vuer::context::ScanContext;
use vuer::parser::parse_sfc;
use vuer::parser::template::{Attribute, DirectiveValue, TemplateNode};
use vuer::taint::{FlowPath, TaintStatus};

fn analyze_script(script: &str) -> ScanContext {
  let source = format!("<template><div></div></template>\n<script setup>\n{script}\n</script>");
  let mut ctx = ScanContext::new("test.vue".to_string(), source);
  parse_sfc(&mut ctx);
  ctx
}

fn analyze_template(template: &str) -> ScanContext {
  let source = format!("<template>{template}</template>");
  let mut ctx = ScanContext::new("test.vue".to_string(), source);
  parse_sfc(&mut ctx);
  ctx
}

/// Status of the expression whose source text contains `needle`
/// (script-relative lookup).
fn status_of(ctx: &ScanContext, needle: &str) -> TaintStatus {
  let script = ctx.script.as_deref().expect("script block");
  let rel = script.find(needle).expect("needle in script");
  ctx.taint.status_at(ctx.script_offset as u32 + rel as u32)
}

fn flow_of(ctx: &ScanContext, needle: &str, sink: &str) -> Option<FlowPath> {
  let script = ctx.script.as_deref().expect("script block");
  let rel = script.find(needle).expect("needle in script");
  ctx
    .taint
    .flow_at(ctx.script_offset as u32 + rel as u32, sink)
}

// ------------------------------------------------------------------
// Sources
// ------------------------------------------------------------------

#[test]
fn localStorage_is_a_source() {
  let ctx = analyze_script("const x = localStorage.getItem('k')\nconst y = x");
  assert_eq!(
    status_of(&ctx, "localStorage.getItem('k')"),
    TaintStatus::Tainted
  );
  // The later read of `x` carries the taint.
  assert_eq!(status_of(&ctx, "x"), TaintStatus::Tainted);
  let flow = flow_of(&ctx, "localStorage.getItem('k')", "sink").expect("flow");
  assert!(flow.source.contains("localStorage.getItem"));
}

#[test]
fn fetch_response_is_tainted() {
  let ctx =
    analyze_script("const data = await fetch('/api').then(r => r.json())\nconst out = data");
  assert_eq!(status_of(&ctx, "fetch('/api')"), TaintStatus::Tainted);
  assert_eq!(
    status_of(&ctx, "fetch('/api').then(r => r.json())"),
    TaintStatus::Tainted
  );
  assert_eq!(status_of(&ctx, "data"), TaintStatus::Tainted);
}

#[test]
fn route_params_are_tainted() {
  let ctx = analyze_script("const route = useRoute()\nconst id = route.query.id\nconst out = id");
  assert_eq!(status_of(&ctx, "route.query.id"), TaintStatus::Tainted);
  assert_eq!(status_of(&ctx, "id"), TaintStatus::Tainted);
}

#[test]
fn use_route_is_a_source() {
  let ctx = analyze_script(
    "import { useRoute } from 'vue-router'\nconst route = useRoute()\nconst q = route.query.q\nconst result = q",
  );
  assert_eq!(status_of(&ctx, "route.query.q"), TaintStatus::Tainted);
  assert_eq!(status_of(&ctx, "result"), TaintStatus::Tainted);
}

#[test]
fn props_are_tainted() {
  let ctx = analyze_script("const props = defineProps({ msg: String })\nconst m = props.msg");
  assert_eq!(status_of(&ctx, "props.msg"), TaintStatus::Tainted);
  // The bare prop name is seeded too (template binds it directly):
  // `v-html="msg"` is tainted via the template pass.
  let source = format!(
    "<template><div v-html=\"msg\"></div></template>\n<script setup>\nconst props = defineProps({{ msg: String }})\n</script>"
  );
  let mut ctx = ScanContext::new("test.vue".to_string(), source);
  parse_sfc(&mut ctx);
  let root = ctx.template_ast.as_ref().expect("template");
  let TemplateNode::Element(el) = &root.children[0] else {
    panic!()
  };
  let Attribute::Directive(d) = &el.attributes[0] else {
    panic!()
  };
  let DirectiveValue::Expression(e) = d.value.as_ref().expect("value") else {
    panic!()
  };
  assert_eq!(ctx.taint.status_at(e.span.start), TaintStatus::Tainted);
}

#[test]
fn event_and_window_location_are_sources() {
  let ctx = analyze_script("const a = event.target.value\nconst b = window.location.href");
  assert_eq!(status_of(&ctx, "event.target.value"), TaintStatus::Tainted);
  assert_eq!(
    status_of(&ctx, "window.location.href"),
    TaintStatus::Tainted
  );
}

#[test]
fn document_reads_are_sources() {
  let ctx = analyze_script("const el = document.getElementById('x')\nconst v = el.value");
  assert_eq!(status_of(&ctx, "el.value"), TaintStatus::Tainted);
  let ctx = analyze_script("const c = document.cookie");
  assert_eq!(status_of(&ctx, "document.cookie"), TaintStatus::Tainted);
}

#[test]
fn form_data_and_url_search_params_are_sources() {
  let ctx = analyze_script("const f = new FormData()\nconst p = f.get('name')");
  assert_eq!(status_of(&ctx, "f.get('name')"), TaintStatus::Tainted);
}

// ------------------------------------------------------------------
// Propagation
// ------------------------------------------------------------------

#[test]
fn concat_and_template_literals_propagate() {
  let ctx = analyze_script(
    "const a = localStorage.getItem('a')\nconst b = 'prefix' + a\nconst c = `x${a}y`",
  );
  assert_eq!(status_of(&ctx, "'prefix' + a"), TaintStatus::Tainted);
  assert_eq!(status_of(&ctx, "`x${a}y`"), TaintStatus::Tainted);
}

#[test]
fn clean_values_stay_clean() {
  let ctx = analyze_script("const a = 'static'\nconst b = 42\nconst c = a + b");
  assert_eq!(status_of(&ctx, "a"), TaintStatus::Clean);
  assert_eq!(status_of(&ctx, "c"), TaintStatus::Clean);
}

#[test]
fn member_writes_and_reads() {
  let ctx = analyze_script(
    "const user = {}\nuser.bio = localStorage.getItem('bio')\nconst out = user.bio",
  );
  assert_eq!(status_of(&ctx, "user.bio"), TaintStatus::Tainted);
}

#[test]
fn clean_overwrite_clears_member_chain() {
  let ctx = analyze_script(
    "const user = {}\nuser.bio = localStorage.getItem('b')\nuser.bio = 'safe'\nconst out = user.bio",
  );
  // The overwrite cleared the chain: the read of `out` is clean.
  assert_eq!(status_of(&ctx, "out"), TaintStatus::Clean);
}

#[test]
fn destructuring_propagates() {
  let ctx = analyze_script(
    "const route = useRoute()\nconst { query } = route\nconst { q } = query\nconst result = q",
  );
  assert_eq!(status_of(&ctx, "result"), TaintStatus::Tainted);
}

#[test]
fn ternary_and_logical_propagate() {
  let ctx = analyze_script(
    "const x = localStorage.getItem('x')\nconst y = cond ? x : 'fallback'\nconst z = x || 'd'",
  );
  assert_eq!(
    status_of(&ctx, "cond ? x : 'fallback'"),
    TaintStatus::Tainted
  );
  assert_eq!(status_of(&ctx, "x || 'd'"), TaintStatus::Tainted);
}

#[test]
fn map_filter_propagate_through_callbacks() {
  let ctx = analyze_script(
    "const arr = localStorage.getItem('a').split(',')\nconst out = arr.map(s => s.trim())\nconst used = out",
  );
  assert_eq!(
    status_of(&ctx, "arr.map(s => s.trim())"),
    TaintStatus::Tainted
  );
  assert_eq!(status_of(&ctx, "used"), TaintStatus::Tainted);
}

#[test]
fn computed_and_ref_propagate() {
  let ctx = analyze_script(
    "const raw = ref(localStorage.getItem('r'))\nconst doubled = computed(() => raw.value)\nconst out = doubled",
  );
  assert_eq!(
    status_of(&ctx, "ref(localStorage.getItem('r'))"),
    TaintStatus::Tainted
  );
  assert_eq!(
    status_of(&ctx, "computed(() => raw.value)"),
    TaintStatus::Tainted
  );
  assert_eq!(status_of(&ctx, "doubled"), TaintStatus::Tainted);
}

#[test]
fn boolean_methods_do_not_propagate() {
  let ctx = analyze_script("const x = localStorage.getItem('x')\nconst ok = x.includes('safe')");
  assert_eq!(status_of(&ctx, "x.includes('safe')"), TaintStatus::Clean);
}

// ------------------------------------------------------------------
// Sanitizers
// ------------------------------------------------------------------

#[test]
fn sanitizer_downgrades_taint() {
  let ctx = analyze_script(
    "const raw = localStorage.getItem('raw')\nconst safe = DOMPurify.sanitize(raw)",
  );
  assert_eq!(status_of(&ctx, "safe"), TaintStatus::Clean);
}

// ------------------------------------------------------------------
// Inter-procedural
// ------------------------------------------------------------------

#[test]
fn local_function_call_propagates_tainted_argument() {
  let ctx = analyze_script(
    "function decorate(s) { return s + '!' }\nconst raw = localStorage.getItem('r')\nconst out = decorate(raw)",
  );
  assert_eq!(status_of(&ctx, "decorate(raw)"), TaintStatus::Tainted);
}

#[test]
fn local_function_with_clean_argument_stays_clean() {
  let ctx =
    analyze_script("function decorate(s) { return s + '!' }\nconst out = decorate('static')");
  assert_eq!(status_of(&ctx, "decorate('static')"), TaintStatus::Clean);
}

#[test]
fn function_returning_tainted_closure_value() {
  let ctx = analyze_script(
    "const raw = localStorage.getItem('r')\nfunction leak() { return raw }\nconst out = leak()",
  );
  assert_eq!(status_of(&ctx, "out"), TaintStatus::Tainted);
}

#[test]
fn unknown_call_does_not_taint() {
  // A call to an unknown function could be a sanitizer wrapper —
  // documented boundary: result stays clean.
  let ctx = analyze_script(
    "const raw = localStorage.getItem('r')\nconst out = mystery(raw)\nconst used = out",
  );
  assert_eq!(status_of(&ctx, "mystery(raw)"), TaintStatus::Clean);
  assert_eq!(
    status_of(&ctx, "localStorage.getItem('r')"),
    TaintStatus::Tainted
  );
  assert_eq!(status_of(&ctx, "used"), TaintStatus::Clean);
}

// ------------------------------------------------------------------
// Template bindings
// ------------------------------------------------------------------

#[test]
fn template_binding_referencing_tainted_id_is_tainted() {
  let ctx = analyze_script("const userInput = localStorage.getItem('u')");
  // The analysis ran on the whole SFC; re-check the template binding.
  let source = format!(
    "<template><div v-html=\"userInput\"></div></template>\n<script setup>\nconst userInput = localStorage.getItem('u')\n</script>"
  );
  let mut ctx = ScanContext::new("test.vue".to_string(), source);
  parse_sfc(&mut ctx);
  let root = ctx.template_ast.as_ref().expect("template");
  let TemplateNode::Element(el) = &root.children[0] else {
    panic!()
  };
  let Attribute::Directive(d) = &el.attributes[0] else {
    panic!()
  };
  let DirectiveValue::Expression(e) = d.value.as_ref().expect("value") else {
    panic!()
  };
  assert_eq!(ctx.taint.status_at(e.span.start), TaintStatus::Tainted);
  let flow = ctx
    .taint
    .flow_at(e.span.start, "v-html binding")
    .expect("flow");
  assert!(flow.source.contains("localStorage.getItem"));
  assert_eq!(flow.via, vec!["userInput".to_string()]);
}

#[test]
fn template_binding_with_clean_value_is_clean() {
  let source = "<template><div v-html=\"'static'\"></div></template>";
  let mut ctx = ScanContext::new("test.vue".to_string(), source.to_string());
  parse_sfc(&mut ctx);
  let root = ctx.template_ast.as_ref().expect("template");
  let TemplateNode::Element(el) = &root.children[0] else {
    panic!()
  };
  let Attribute::Directive(d) = &el.attributes[0] else {
    panic!()
  };
  let DirectiveValue::Expression(e) = d.value.as_ref().expect("value") else {
    panic!()
  };
  assert_eq!(ctx.taint.status_at(e.span.start), TaintStatus::Clean);
}

#[test]
fn unparseable_binding_is_unknown() {
  let source = "<template><div v-html=\"{{{\"></div></template>";
  let mut ctx = ScanContext::new("test.vue".to_string(), source.to_string());
  parse_sfc(&mut ctx);
  let root = ctx.template_ast.as_ref().expect("template");
  let TemplateNode::Element(el) = &root.children[0] else {
    panic!()
  };
  let Attribute::Directive(d) = &el.attributes[0] else {
    panic!()
  };
  let DirectiveValue::Expression(e) = d.value.as_ref().expect("value") else {
    panic!()
  };
  assert_eq!(ctx.taint.status_at(e.span.start), TaintStatus::Unknown);
}

#[test]
fn options_api_props_and_data_are_sources() {
  let source = "<template><div v-html=\"msg\"></div></template>\n\
                <script>\nexport default {\n  props: { msg: String },\n  data() { return { note: localStorage.getItem('n') } }\n}\n</script>";
  let mut ctx = ScanContext::new("test.vue".to_string(), source.to_string());
  parse_sfc(&mut ctx);
  // The template `v-html="msg"` binding is tainted via the seeded prop.
  let root = ctx.template_ast.as_ref().expect("template");
  let TemplateNode::Element(el) = &root.children[0] else {
    panic!()
  };
  let Attribute::Directive(d) = &el.attributes[0] else {
    panic!()
  };
  let DirectiveValue::Expression(e) = d.value.as_ref().expect("value") else {
    panic!()
  };
  assert_eq!(ctx.taint.status_at(e.span.start), TaintStatus::Tainted);
  // The data() return value is tainted at its source call.
  let script = ctx.script.as_deref().expect("script");
  let rel = script.find("localStorage.getItem('n')").expect("note");
  assert_eq!(
    ctx.taint.status_at(ctx.script_offset as u32 + rel as u32),
    TaintStatus::Tainted
  );
}

#[test]
fn determinism_of_repeated_analysis() {
  // Same input, N analyses: identical span facts.
  let source = "<template><div v-html=\"userInput\"></div></template>\n\
                <script setup>\nconst userInput = localStorage.getItem('u')\nconst out = userInput.trim()\n</script>";
  let first = {
    let mut ctx = ScanContext::new("test.vue".to_string(), source.to_string());
    parse_sfc(&mut ctx);
    let root = ctx.template_ast.as_ref().expect("template");
    let TemplateNode::Element(el) = &root.children[0] else {
      panic!()
    };
    let Attribute::Directive(d) = &el.attributes[0] else {
      panic!()
    };
    let DirectiveValue::Expression(e) = d.value.as_ref().expect("value") else {
      panic!()
    };
    (ctx.taint.status_at(e.span.start), ctx.taint.len())
  };
  for _ in 0..5 {
    let mut ctx = ScanContext::new("test.vue".to_string(), source.to_string());
    parse_sfc(&mut ctx);
    let root = ctx.template_ast.as_ref().expect("template");
    let TemplateNode::Element(el) = &root.children[0] else {
      panic!()
    };
    let Attribute::Directive(d) = &el.attributes[0] else {
      panic!()
    };
    let DirectiveValue::Expression(e) = d.value.as_ref().expect("value") else {
      panic!()
    };
    assert_eq!(ctx.taint.status_at(e.span.start), first.0);
    assert_eq!(ctx.taint.len(), first.1);
  }
}
