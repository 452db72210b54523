//! Behaviour of the `no_reactive_in_v_for` rule on small files.

use vuer::context::ScanContext;
use vuer::parser::parse_sfc;
use vuer::rules::no_reactive_in_v_for::NoReactiveInVFor;
use vuer::rules::{Finding, Rule};

fn scan(script: &str) -> Vec<Finding> {
  let source = format!("<script setup>\n{script}\n</script>");
  let mut ctx = ScanContext::new("test.vue".into(), source);
  parse_sfc(&mut ctx);
  NoReactiveInVFor.check(&ctx)
}

#[test]
fn flags_ref_inside_for_of() {
  let v = scan("for (const item of items) {\n  const r = ref(item)\n}");
  assert_eq!(v.len(), 1);
}

#[test]
fn flags_reactive_inside_map_callback() {
  let v = scan("const wrapped = items.map((i) => reactive(i))");
  assert_eq!(v.len(), 1);
}

#[test]
fn flags_computed_inside_filter_callback() {
  let v = scan("const seen = items.filter((i) => computed(() => i.n > 1))");
  assert_eq!(v.len(), 1);
}

#[test]
fn flags_shallow_ref_inside_for_in() {
  let v = scan("for (const key in obj) {\n  shallowRef(obj[key])\n}");
  assert_eq!(v.len(), 1);
}

#[test]
fn flags_ref_inside_classic_for() {
  let v = scan("for (let i = 0; i < items.length; i++) {\n  const r = ref(items[i])\n}");
  assert_eq!(v.len(), 1);
}

#[test]
fn flags_nested_callback_inside_loop() {
  let v = scan("for (const g of groups) {\n  g.items.forEach((i) => ref(i))\n}");
  assert_eq!(v.len(), 1);
}

#[test]
fn ignores_ref_outside_loop() {
  let v = scan("const r = ref(items)\nconst doubled = items.map((i) => i * 2)");
  assert!(v.is_empty());
}

#[test]
fn ignores_ref_inside_non_iteration_callback() {
  assert!(scan("promise.then((v) => ref(v))").is_empty());
}

#[test]
fn ignores_plain_values_in_loop() {
  assert!(scan("const doubled = items.map((i) => i * 2)").is_empty());
}

#[test]
fn ignores_member_call_named_ref() {
  assert!(scan("const x = items.map((i) => utils.ref(i))").is_empty());
}

#[test]
fn no_reactive_in_v_for_no_script_no_violation() {
  assert!(scan("").is_empty());
}
