//! The registered rules: lookup by stable id and short name, selection,
//! and uniqueness of ids and names.

use vuer::rules::RuleRegistry;

#[test]
fn every_registered_rule_is_found_by_id_and_name() {
    let registry = RuleRegistry::new();
    let all = registry.get_all();
    assert_eq!(all.len(), 26);
    for rule in all {
        let info = rule.info();
        let by_id = registry.get_by_id(info.id).expect("found by id");
        assert_eq!(by_id.info().name, info.name);
        let by_name = registry.get_by_name(info.name).expect("found by name");
        assert_eq!(by_name.info().id, info.id);
    }
}

#[test]
fn ids_and_names_are_unique() {
    let registry = RuleRegistry::new();
    let all = registry.get_all();
    for (i, a) in all.iter().enumerate() {
        for (j, b) in all.iter().enumerate() {
            if i != j {
                assert_ne!(a.info().id, b.info().id);
                assert_ne!(a.info().name, b.info().name);
            }
            assert_ne!(a.info().name, b.info().id);
        }
    }
}

#[test]
fn unknown_names_find_nothing() {
    let registry = RuleRegistry::new();
    assert!(registry.get_by_id("no-v-html").is_none());
    assert!(registry.get_by_name("vue/security/no-v-html").is_none());
    assert!(registry.get_by_id("vue/security/does-not-exist").is_none());
}

#[test]
fn empty_selection_runs_every_rule_and_one_name_runs_one() {
    let registry = RuleRegistry::new();
    assert_eq!(registry.get_enabled(&[]).len(), 26);
    let one = registry.get_enabled(&["no-eval".to_string()]);
    assert_eq!(one.len(), 1);
    assert_eq!(one[0].info().id, "vue/security/no-eval");
    let by_id = registry.get_enabled(&["vue/security/no-eval".to_string()]);
    assert_eq!(by_id.len(), 1);
    let two = registry.get_enabled(&["no-inner-html".to_string(), "no-v-html".to_string()]);
    let ids: Vec<&str> = two.iter().map(|r| r.info().id).collect();
    assert_eq!(ids, vec!["vue/security/no-v-html", "vue/security/no-inner-html"]);
    assert!(registry.get_enabled(&["nothing".to_string()]).is_empty());
}

#[test]
fn architecture_rules_are_registered() {
    let registry = RuleRegistry::new();
    for id in [
        "vue/architecture/no-side-effect-in-computed",
        "vue/architecture/no-mutation-of-props",
        "vue/architecture/no-async-setup-without-error-boundary",
    ] {
        let rule = registry.get_by_id(id).expect("registered");
        assert_eq!(rule.info().id, id);
    }
    assert!(registry.get_by_name("no-mutation-of-props").is_some());
}
