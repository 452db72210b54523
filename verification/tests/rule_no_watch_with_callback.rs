//! Behaviour of the `no_watch_with_callback` rule on small files.

use vuer::context::ScanContext;
use vuer::parser::parse_sfc;
use vuer::rules::no_watch_with_callback::NoWatchWithCallback;
use vuer::rules::{Finding, Rule};

/// Scan a `<script setup>` block (watchers auto-disposed).
fn scan_setup(script: &str) -> Vec<Finding> {
  let source = format!("<script setup>\n{script}\n</script>");
  let mut ctx = ScanContext::new("test.vue".into(), source);
  parse_sfc(&mut ctx);
  NoWatchWithCallback.check(&ctx)
}

/// Scan a plain `<script>` block (module scope).
fn scan_plain(script: &str) -> Vec<Finding> {
  let source = format!("<script>\n{script}\n</script>");
  let mut ctx = ScanContext::new("test.vue".into(), source);
  parse_sfc(&mut ctx);
  NoWatchWithCallback.check(&ctx)
}

#[test]
fn skips_watch_in_script_setup() {
  // Vue 3 disposes setup-scope watchers with the component.
  let v = scan_setup("const r = ref(0)\nwatch(r, (n) => { console.log(n) })");
  assert!(v.is_empty());
}

#[test]
fn flags_module_scope_watch_in_plain_script() {
  let v = scan_plain("const r = ref(0)\nwatch(r, (n) => { console.log(n) })");
  assert_eq!(v.len(), 1);
}

#[test]
fn flags_module_scope_watch_with_function_argument() {
  let v = scan_plain("const r = ref(0)\nwatch(r, function (n) { console.log(n) })");
  assert_eq!(v.len(), 1);
}

#[test]
fn skips_watch_inside_export_default() {
  // Options API: `watch` inside the component definition is owned by
  // the instance (and would not even run at module scope).
  let v = scan_plain(
    "export default {\n  created() {\n    watch(this.msg, (n) => console.log(n))\n  }\n}",
  );
  assert!(v.is_empty());
}

#[test]
fn skips_watch_inside_function_in_plain_script() {
  let v = scan_plain(
    "function setup() {\n  watch(a, (n) => console.log(n))\n}\nwatch(b, (n) => console.log(n))",
  );
  assert_eq!(v.len(), 1);
}

#[test]
fn skips_watch_inside_arrow_and_object() {
  let v = scan_plain(
    "const fn = () => watch(a, (n) => console.log(n))\n\
     const cfg = { hook: watch(b, (n) => console.log(n)) }",
  );
  assert!(v.is_empty());
}

#[test]
fn no_violation_when_watch_has_no_callback() {
  let v = scan_plain("const r = ref(0)\nwatch(r, null)");
  assert!(v.is_empty());
}

#[test]
fn ignores_unrelated_call() {
  let v = scan_plain("const r = ref(0)\nsomething(r, (n) => n + 1)");
  assert!(v.is_empty());
}

#[test]
fn no_watch_with_callback_no_script_no_violation() {
  assert!(scan_plain("").is_empty());
  assert!(scan_setup("").is_empty());
}
