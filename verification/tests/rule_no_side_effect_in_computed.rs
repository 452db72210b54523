//! Behaviour of the `no_side_effect_in_computed` rule on small files.

use vuer::context::ScanContext;
use vuer::parser::parse_sfc;
use vuer::rules::no_side_effect_in_computed::NoSideEffectInComputed;
use vuer::rules::{Finding, Rule};

fn scan(script: &str) -> Vec<Finding> {
  let source = format!("<script setup>\n{script}\n</script>");
  let mut ctx = ScanContext::new("test.vue".into(), source);
  parse_sfc(&mut ctx);
  NoSideEffectInComputed.check(&ctx)
}

#[test]
fn flags_assignment_in_computed() {
  let v = scan("const c = computed(() => { count = 1; return count })");
  assert_eq!(v.len(), 1);
}

#[test]
fn flags_update_expression_in_computed() {
  let v = scan("const c = computed(() => { count++; return count })");
  assert_eq!(v.len(), 1);
}

#[test]
fn flags_push_in_computed() {
  let v = scan("const c = computed(() => { list.push(x); return list })");
  assert_eq!(v.len(), 1);
}

#[test]
fn flags_fetch_in_computed() {
  let v = scan("const c = computed(() => fetch('/api'))");
  assert_eq!(v.len(), 1);
}

#[test]
fn flags_console_in_computed() {
  let v = scan("const c = computed(() => { console.log('x'); return 1 })");
  assert_eq!(v.len(), 1);
}

#[test]
fn flags_watch_inside_computed() {
  let v = scan("const c = computed(() => { watch(a, cb); return 1 })");
  assert_eq!(v.len(), 1);
}

#[test]
fn flags_async_computed() {
  let v = scan("const c = computed(async () => 42)");
  assert_eq!(v.len(), 1);
}

#[test]
fn flags_async_get_in_object_form() {
  let v = scan("const c = computed({ async get() { return 1 } })");
  assert_eq!(v.len(), 1);
}

#[test]
fn flags_side_effect_in_object_get() {
  let v = scan("const c = computed({ get() { items.push(x); return 1 } })");
  assert_eq!(v.len(), 1);
}

#[test]
fn ignores_pure_computed() {
  assert!(scan("const c = computed(() => count * 2)").is_empty());
}

#[test]
fn ignores_arrow_body_with_nested_callback() {
  // The nested `map` callback is not executed during evaluation.
  let v = scan("const c = computed(() => items.map((i) => { list.push(i); return i }))");
  assert!(v.is_empty());
}

#[test]
fn ignores_declared_helper_function() {
  let v = scan("const c = computed(() => { const helper = () => { count = 1 }; return 1 })");
  assert!(v.is_empty());
}

#[test]
fn ignores_get_in_object_form_without_effects() {
  assert!(scan("const c = computed({ get() { return count * 2 } })").is_empty());
}

#[test]
fn ignores_non_computed_calls() {
  let v = scan("const c = something(() => { count++; return 1 })");
  assert!(v.is_empty());
}

#[test]
fn no_side_effect_in_computed_no_script_no_violation() {
  assert!(scan("").is_empty());
}
