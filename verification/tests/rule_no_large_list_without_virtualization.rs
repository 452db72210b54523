//! Behaviour of the `no_large_list_without_virtualization` rule on small files.

use vuer::context::ScanContext;
use vuer::parser::parse_sfc;
use vuer::rules::no_large_list_without_virtualization::NoLargeListWithoutVirtualization;
use vuer::rules::{Finding, Rule};

fn scan(template: &str) -> Vec<Finding> {
  let source = format!("<template>\n{template}\n</template>");
  let mut ctx = ScanContext::new("test.vue".into(), source);
  parse_sfc(&mut ctx);
  NoLargeListWithoutVirtualization.check(&ctx)
}

#[test]
fn flags_v_for_over_users() {
  let v = scan(r#"<li v-for="user in users" :key="user.id">{{ user.name }}</li>"#);
  assert_eq!(v.len(), 1);
}

#[test]
fn flags_v_for_over_messages_in_nested_element() {
  let v = scan(r#"<ul><li v-for="m in messages" :key="m.id">{{ m.text }}</li></ul>"#);
  assert_eq!(v.len(), 1);
}

#[test]
fn ignores_generic_list_names_like_items() {
  assert!(scan(r#"<li v-for="item in items" :key="item.id">{{ item.name }}</li>"#).is_empty());
}

#[test]
fn flags_v_for_over_rows() {
  let v = scan(r#"<tr v-for="row in rows" :key="row.id"><td>{{ row.name }}</td></tr>"#);
  assert_eq!(v.len(), 1);
}

#[test]
fn flags_upper_camel_collection() {
  let v = scan(r#"<li v-for="item in Users" :key="item.id">{{ item.name }}</li>"#);
  assert_eq!(v.len(), 1);
}

#[test]
fn ignores_v_for_over_small_looking_names() {
  assert!(scan(r#"<li v-for="c in colors" :key="c">{{ c }}</li>"#).is_empty());
  assert!(scan(r#"<li v-for="s in steps" :key="s">{{ s }}</li>"#).is_empty());
}

#[test]
fn ignores_v_for_over_computed_expression() {
  assert!(scan(r#"<li v-for="u in visibleUsers" :key="u.id">{{ u.name }}</li>"#).is_empty());
  assert!(
    scan(r#"<li v-for="u in users.slice(0, 10)" :key="u.id">{{ u.name }}</li>"#).is_empty()
  );
}

#[test]
fn ignores_when_wrapped_in_virtual_scroller() {
  let v = scan(
    r#"<RecycleScroller :items="users"><template #default="{ item }"><li>{{ item.name }}</li></template></RecycleScroller>"#,
  );
  assert!(v.is_empty());
}

#[test]
fn ignores_when_ancestor_is_virtual_wrapper() {
  let v = scan(
    r#"<v-virtual-scroll :items="users"><div><li v-for="u in users" :key="u.id">{{ u.name }}</li></div></v-virtual-scroll>"#,
  );
  assert!(v.is_empty());
}

#[test]
fn ignores_when_ancestor_is_scroller() {
  let v = scan(
    r#"<el-virtual-list :items="messages"><template #default="{ item }"><li>{{ item }}</li></template></el-virtual-list>"#,
  );
  assert!(v.is_empty());
}

#[test]
fn no_large_list_without_virtualization_no_template_no_violation() {
  let mut ctx = ScanContext::new("test.vue".into(), "".into());
  parse_sfc(&mut ctx);
  assert!(NoLargeListWithoutVirtualization.check(&ctx).is_empty());
}
