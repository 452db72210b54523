//! Behaviour of the `no_mutation_of_props` rule on small files.

use vuer::context::ScanContext;
use vuer::parser::parse_sfc;
use vuer::rules::no_mutation_of_props::NoMutationOfProps;
use vuer::rules::{Finding, Rule};

fn scan_with_lang(script: &str, lang: &str) -> Vec<Finding> {
  let source = format!("<script setup lang=\"{lang}\">\n{script}\n</script>");
  let mut ctx = ScanContext::new("test.vue".into(), source);
  parse_sfc(&mut ctx);
  NoMutationOfProps.check(&ctx)
}

fn scan(script: &str) -> Vec<Finding> {
  scan_with_lang(script, "js")
}

#[test]
fn flags_props_member_assignment() {
  let v = scan("const props = defineProps({ msg: String })\nprops.msg = 'x'");
  assert_eq!(v.len(), 1);
}

#[test]
fn flags_props_member_update() {
  let v = scan("const props = defineProps({ count: Number })\nprops.count++");
  assert_eq!(v.len(), 1);
}

#[test]
fn flags_props_computed_member_write() {
  let v = scan("const props = defineProps({ msg: String })\nprops['msg'] = 'x'");
  assert_eq!(v.len(), 1);
}

#[test]
fn flags_destructured_prop_assignment() {
  let v = scan("const { msg } = defineProps({ msg: String })\nmsg = 'x'");
  assert_eq!(v.len(), 1);
}

#[test]
fn flags_destructured_prop_update() {
  let v = scan("const { count } = defineProps({ count: Number })\ncount++");
  assert_eq!(v.len(), 1);
}

#[test]
fn flags_with_defaults_wrapper() {
  let v = scan_with_lang(
    "const props = withDefaults(defineProps<{ msg: string }>(), { msg: '' })\nprops.msg = 'x'",
    "ts",
  );
  assert_eq!(v.len(), 1);
}

#[test]
fn flags_multiple_writes() {
  let v =
    scan("const props = defineProps({ a: String, b: String })\nprops.a = '1'\nprops.b = '2'");
  assert_eq!(v.len(), 2);
}

#[test]
fn ignores_reads_of_props() {
  assert!(
    scan("const props = defineProps({ msg: String })\nconst out = props.msg.toUpperCase()")
      .is_empty()
  );
}

#[test]
fn ignores_unrelated_assignments() {
  let v = scan(
    "const props = defineProps({ msg: String })\nconst local = { msg: '' }\nlocal.msg = 'x'\nmsg2 = 'y'",
  );
  assert!(v.is_empty());
}

#[test]
fn ignores_destructure_without_define_props() {
  let v = scan("const { count } = someOther()\ncount++");
  assert!(v.is_empty());
}

#[test]
fn ignores_member_write_to_other_object() {
  let v = scan("const props = defineProps({ msg: String })\nstate.msg = 'x'");
  assert!(v.is_empty());
}

#[test]
fn ignores_read_of_destructured_prop() {
  assert!(scan("const { msg } = defineProps({ msg: String })\nconst out = msg").is_empty());
}

#[test]
fn no_mutation_of_props_no_script_no_violation() {
  assert!(scan("").is_empty());
}
