//! Exact output of the report forms on small inputs.

use vuer::report::pretty::render_pretty;
use vuer::report::sarif::{byte_offset_to_line_col, path_to_uri};
use vuer::report::text::{render_minimal, render_summary};
use vuer::rules::Category;
use vuer::scanner::Violation;
use vuer::severity::Severity;
use vuer::taint::analyzer::decimal;

fn violation(file: &str, offset: usize, length: usize) -> Violation {
    Violation {
        file: file.to_string(),
        message: "msg".to_string(),
        label: "here",
        help: "h",
        rule_name: "no-v-html".to_string(),
        rule_id: "vue/security/no-v-html".to_string(),
        severity: Severity::Critical,
        category: Category::Security,
        span_offset: offset,
        span_length: length,
        ignored: false,
        flow: None,
    }
}

#[test]
fn pretty_block_has_line_snippet_caret_and_help() {
    let src = "<template>\n  <div v-html=\"x\"></div>\n</template>";
    let v = violation("f.vue", 13, 10);
    let out = render_pretty(&[v], &[("f.vue".to_string(), src.to_string())]);
    let expected = "\n\u{1b}[1;36mf.vue\u{1b}[0m\n\
                    \x20 \u{1b}[1;35mcritical\u{1b}[0m [vue/security/no-v-html] msg:2\n\
                    \x20 \u{1b}[90m2 |\u{1b}[0m   <div v-html=\"x\"></div>\n\
                    \x20 \u{1b}[90m2 |\u{1b}[0m   ^\n\
                    \x20   \u{1b}[90mhelp: h\u{1b}[0m\n";
    assert_eq!(out, expected);
}

#[test]
fn pretty_groups_by_file_in_name_order_and_skips_unknown_sources() {
    let a = violation("b.vue", 0, 0);
    let b = violation("a.vue", 0, 0);
    let out = render_pretty(&[a, b], &[("b.vue".to_string(), "x".to_string())]);
    let expected = "\n\u{1b}[1;36ma.vue\u{1b}[0m\n\
                    \n\u{1b}[1;36mb.vue\u{1b}[0m\n\
                    \x20 \u{1b}[1;35mcritical\u{1b}[0m [vue/security/no-v-html] msg\n\
                    \x20   \u{1b}[90mhelp: h\u{1b}[0m\n";
    assert_eq!(out, expected);
}

#[test]
fn pretty_of_nothing_is_empty() {
    assert_eq!(render_pretty(&[], &[]), "");
}

#[test]
fn minimal_line_per_finding() {
    let out = render_minimal(&[violation("f.vue", 1, 1), violation("g.vue", 2, 1)]);
    assert_eq!(out, "f.vue: critical: msg\ng.vue: critical: msg\n");
}

#[test]
fn summary_counts_or_clears() {
    assert_eq!(render_summary(0), "\u{1b}[32mNo violations found.\u{1b}[0m\n");
    assert_eq!(render_summary(12), "\n\u{1b}[1;33m12 violation(s) found.\u{1b}[0m\n");
}

#[test]
fn sarif_line_and_column_of_a_span() {
    assert_eq!(byte_offset_to_line_col("ab\ncd", 3, 2), (2, Some(1), Some(2), Some(3)));
    assert_eq!(byte_offset_to_line_col("ab\ncd", 0, 5), (1, Some(1), Some(2), Some(3)));
    assert_eq!(byte_offset_to_line_col("", 4, 1), (1, None, None, None));
    assert_eq!(byte_offset_to_line_col("ab", 9, 9), (1, Some(3), Some(1), Some(3)));
}

#[test]
fn sarif_uris() {
    assert_eq!(path_to_uri("/srv/app/a.vue"), "file:///srv/app/a.vue");
    assert_eq!(path_to_uri("src\\a.vue"), "src/a.vue");
    assert_eq!(path_to_uri("src/a.vue"), "src/a.vue");
}

#[test]
fn decimal_digits() {
    assert_eq!(decimal(0), "0");
    assert_eq!(decimal(7), "7");
    assert_eq!(decimal(1024), "1024");
}

#[test]
fn pretty_orders_files_component_by_component() {
    let a = violation("a-c.vue", 0, 0);
    let b = violation("a/b.vue", 0, 0);
    let out = render_pretty(&[a, b], &[]);
    let expected = "\n\u{1b}[1;36ma/b.vue\u{1b}[0m\n\n\u{1b}[1;36ma-c.vue\u{1b}[0m\n";
    assert_eq!(out, expected);
}
