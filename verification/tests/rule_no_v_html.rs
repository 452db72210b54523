//! Behaviour of the `no_v_html` rule on small files.

use vuer::context::ScanContext;
use vuer::parser::parse_sfc;
use vuer::rules::no_v_html::NoVHtml;
use vuer::rules::{Finding, Rule};

/// Scan a full SFC: the template plus an optional script that seeds
/// tainted sources.
fn scan_with_script(template: &str, script: &str) -> Vec<Finding> {
  let source =
    format!("<template>\n{template}\n</template>\n<script setup>\n{script}\n</script>");
  let mut ctx = ScanContext::new("test.vue".into(), source);
  parse_sfc(&mut ctx);
  NoVHtml.check(&ctx)
}

fn scan(template: &str) -> Vec<Finding> {
  scan_with_script(template, "")
}

#[test]
fn no_violation_on_clean_template() {
  assert!(scan(r#"<div>{{ message }}</div>"#).is_empty());
}

#[test]
fn flags_v_html_with_tainted_source() {
  let v = scan_with_script(
    r#"<div v-html="userInput"></div>"#,
    "const userInput = localStorage.getItem('u')",
  );
  assert_eq!(v.len(), 1);
}

#[test]
fn flags_v_html_with_tainted_member() {
  let v = scan_with_script(
    r#"<div v-html="user.bio"></div>"#,
    "const user = {}\nuser.bio = localStorage.getItem('b')",
  );
  assert_eq!(v.len(), 1);
}

#[test]
fn flags_v_html_in_nested_element() {
  let v = scan_with_script(
    r#"<div><span v-html="raw"></span></div>"#,
    "const route = useRoute()\nconst raw = route.query.q",
  );
  assert_eq!(v.len(), 1);
}

#[test]
fn flags_v_html_with_route_prop() {
  let v = scan_with_script(
    r#"<div v-html="msg"></div>"#,
    "const props = defineProps({ msg: String })",
  );
  assert_eq!(v.len(), 1);
  let flow = v[0].flow.as_ref().expect("flow");
  assert_eq!(flow[0].sink, "`v-html` binding");
  assert!(flow[0].source.contains("props"));
}

#[test]
fn no_v_html_stays_silent_for_clean_bindings() {
  // The false-positive cut: a binding that is provably clean is not
  // reported, even though the directive is present.
  assert!(scan(r#"<div v-html="'static'"></div>"#).is_empty());
  let v = scan_with_script(
    r#"<div v-html="msg"></div>"#,
    "const msg = 'trusted constant'",
  );
  assert!(v.is_empty());
}

#[test]
fn stays_silent_for_undefined_identifiers() {
  // An identifier with no known source is not provably untrusted —
  // documented boundary of the taint model.
  assert!(scan(r#"<div v-html="raw"></div>"#).is_empty());
}

#[test]
fn sanitized_binding_is_clean() {
  let v = scan_with_script(
    r#"<div v-html="safe"></div>"#,
    "const safe = DOMPurify.sanitize(localStorage.getItem('u'))",
  );
  assert!(v.is_empty());
}

#[test]
fn ignores_static_html_attribute() {
  // v-html only matches the directive, never a static attribute
  assert!(scan(r#"<div title="v-html"></div>"#).is_empty());
}

#[test]
fn ignores_v_text_directive() {
  assert!(scan(r#"<div v-text="raw"></div>"#).is_empty());
}
