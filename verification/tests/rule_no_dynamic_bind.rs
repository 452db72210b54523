//! Behaviour of the `no_dynamic_bind` rule on small files.

use vuer::context::ScanContext;
use vuer::parser::parse_sfc;
use vuer::rules::no_dynamic_bind::NoDynamicBindSrc;
use vuer::rules::{Finding, Rule};

fn scan_with_script(template: &str, script: &str) -> Vec<Finding> {
  let source =
    format!("<template>\n{template}\n</template>\n<script setup>\n{script}\n</script>");
  let mut ctx = ScanContext::new("test.vue".into(), source);
  parse_sfc(&mut ctx);
  NoDynamicBindSrc.check(&ctx)
}

fn scan(template: &str) -> Vec<Finding> {
  scan_with_script(template, "")
}

#[test]
fn clean_static_src_passes() {
  assert!(scan(r#"<img src="logo.png">"#).is_empty());
}

#[test]
fn flags_v_bind_src_with_tainted_value() {
  let v = scan_with_script(
    r#"<img v-bind:src="url">"#,
    "const url = localStorage.getItem('img')",
  );
  assert_eq!(v.len(), 1);
}

#[test]
fn flags_shorthand_bind_src() {
  let v = scan_with_script(
    r#"<img :src="url">"#,
    "const url = localStorage.getItem('img')",
  );
  assert_eq!(v.len(), 1);
  let flow = v[0].flow.as_ref().expect("flow");
  assert_eq!(flow[0].sink, "dynamic `src` binding");
}

#[test]
fn flags_dynamic_argument_for_src() {
  let v = scan_with_script(
    r#"<img :[dynamicAttr]="value">"#,
    "const value = localStorage.getItem('v')",
  );
  assert_eq!(v.len(), 1);
}

#[test]
fn no_dynamic_bind_stays_silent_for_clean_bindings() {
  // The false-positive cut: clean/constant bindings are not reported.
  assert!(scan(r#"<img v-bind:src="'literal'">"#).is_empty());
  let v = scan_with_script(r#"<img :src="url">"#, "const url = '/static/logo.png'");
  assert!(v.is_empty());
}

#[test]
fn ignores_v_bind_href() {
  // :href is not :src
  assert!(scan(r#"<a :href="url">link</a>"#).is_empty());
}
