//! Behaviour of the `no_async_setup_without_error_boundary` rule on small files.

use vuer::context::ScanContext;
use vuer::parser::parse_sfc;
use vuer::rules::no_async_setup_without_error_boundary::NoAsyncSetupWithoutErrorBoundary;
use vuer::rules::{Finding, Rule};

fn scan_with_template(template: &str, script: &str) -> Vec<Finding> {
  let source = format!("<template>\n{template}\n</template>\n<script>\n{script}\n</script>");
  let mut ctx = ScanContext::new("test.vue".into(), source);
  parse_sfc(&mut ctx);
  NoAsyncSetupWithoutErrorBoundary.check(&ctx)
}

fn scan(script: &str) -> Vec<Finding> {
  scan_with_template("<div>hi</div>", script)
}

#[test]
fn flags_async_setup_method() {
  let v = scan(
    "export default {\n  async setup() {\n    const data = await fetch('/api')\n    return { data }\n  }\n}",
  );
  assert_eq!(v.len(), 1);
}

#[test]
fn flags_async_setup_arrow_property() {
  let v =
    scan("export default {\n  setup: async () => {\n    return { data: await load() }\n  }\n}");
  assert_eq!(v.len(), 1);
}

#[test]
fn flags_async_setup_inside_define_component() {
  let v = scan("const comp = defineComponent({\n  async setup() { return {} }\n})");
  assert_eq!(v.len(), 1);
}

#[test]
fn ignores_sync_setup() {
  assert!(scan("export default {\n  setup() {\n    return { x: 1 }\n  }\n}").is_empty());
}

#[test]
fn ignores_sync_arrow_setup() {
  assert!(scan("export default {\n  setup: () => ({ x: 1 })\n}").is_empty());
}

#[test]
fn ignores_async_setup_with_sibling_suspense() {
  let v = scan_with_template(
    "<Suspense><div/></Suspense>",
    "export default {\n  async setup() { return {} }\n}",
  );
  assert!(v.is_empty());
}

#[test]
fn ignores_setup_like_functions() {
  assert!(scan("export default {\n  async setupForm() { return {} }\n}").is_empty());
}

#[test]
fn ignores_module_scope_async_function() {
  assert!(scan("async function setup() { return {} }").is_empty());
}

#[test]
fn no_async_setup_without_error_boundary_no_script_no_violation() {
  assert!(scan("").is_empty());
}
