//! Behaviour of the `no_deep_watch_without_handler` rule on small files.

use vuer::context::ScanContext;
use vuer::parser::parse_sfc;
use vuer::rules::no_deep_watch_without_handler::NoDeepWatchWithoutHandler;
use vuer::rules::{Finding, Rule};

fn scan(script: &str) -> Vec<Finding> {
  let source = format!("<script setup>\n{script}\n</script>");
  let mut ctx = ScanContext::new("test.vue".into(), source);
  parse_sfc(&mut ctx);
  NoDeepWatchWithoutHandler.check(&ctx)
}

#[test]
fn flags_deep_watch_with_options_object() {
  let v = scan("watch(form, (v) => console.log(v), { deep: true })");
  assert_eq!(v.len(), 1);
}

#[test]
fn flags_deep_true_watch_on_ref() {
  let v =
    scan("const user = ref({ name: '' })\nwatch(user, (u) => console.log(u), { deep: true })");
  assert_eq!(v.len(), 1);
}

#[test]
fn ignores_watch_without_options() {
  assert!(scan("watch(form, (v) => console.log(v))").is_empty());
}

#[test]
fn ignores_watch_with_plain_options() {
  assert!(scan("watch(form, (v) => console.log(v), { immediate: true })").is_empty());
}

#[test]
fn ignores_deep_false() {
  assert!(scan("watch(form, (v) => console.log(v), { deep: false })").is_empty());
}

#[test]
fn ignores_deep_with_once() {
  // Fires at most once; the traversal cost is bounded.
  assert!(scan("watch(form, (v) => console.log(v), { deep: true, once: true })").is_empty());
}

#[test]
fn ignores_variable_options_object() {
  // Boundary: options stored in a variable are not resolved.
  assert!(
    scan("const opts = { deep: true }\nwatch(form, (v) => console.log(v), opts)").is_empty()
  );
}

#[test]
fn ignores_non_watch_calls() {
  assert!(scan("fetch(form, { deep: true })").is_empty());
}

#[test]
fn no_deep_watch_without_handler_no_script_no_violation() {
  assert!(scan("").is_empty());
}
