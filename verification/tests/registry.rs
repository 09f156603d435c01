use llm_review_sdk::registry::Registry;
use llm_review_sdk::rules::{RuleMeta, Severity};

fn meta(id: &str, description: &str) -> RuleMeta {
    RuleMeta::new(id, description)
}

#[test]
fn registry_register_and_contains() {
    let mut registry: Registry<RuleMeta> = Registry::new();
    let m = meta("test-rule", "A test rule");
    registry.insert(m.id.clone(), m);

    assert!(registry.contains("test-rule"));
    assert!(!registry.contains("unknown-rule"));
    assert_eq!(registry.len(), 1);
}

#[test]
fn registry_get_returns_registered() {
    let mut registry: Registry<RuleMeta> = Registry::new();
    let m = meta("test-rule", "A test rule").severity(Severity::Error);
    registry.insert(m.id.clone(), m);

    let retrieved = registry.get("test-rule").unwrap();
    assert_eq!(retrieved.id, "test-rule");
    assert_eq!(retrieved.severity, Severity::Error);
    assert!(registry.get("other").is_none());
}

#[test]
fn registry_replace_returns_previous() {
    let mut registry: Registry<RuleMeta> = Registry::new();
    let first = meta("test-rule", "First rule");
    let second = meta("test-rule", "Second rule");

    assert!(registry.insert(first.id.clone(), first).is_none());
    let old = registry.insert(second.id.clone(), second);

    assert!(old.is_some());
    assert_eq!(old.unwrap().description, "First rule");
    assert_eq!(registry.get("test-rule").unwrap().description, "Second rule");
    assert_eq!(registry.len(), 1);
}

#[test]
fn registry_remove_entry() {
    let mut registry: Registry<RuleMeta> = Registry::new();
    let m = meta("test-rule", "A test rule");
    registry.insert(m.id.clone(), m);
    assert_eq!(registry.len(), 1);

    let removed = registry.remove("test-rule");
    assert!(removed.is_some());
    assert_eq!(registry.len(), 0);
    assert!(!registry.contains("test-rule"));
    assert!(registry.remove("test-rule").is_none());
    assert!(registry.is_empty());
}

#[test]
fn registry_keys_in_registration_order() {
    let mut registry: Registry<u32> = Registry::new();
    registry.insert("rule-1".to_string(), 1);
    registry.insert("rule-2".to_string(), 2);
    registry.insert("rule-1".to_string(), 3);

    let ids: Vec<&String> = registry.keys();
    assert_eq!(ids.len(), 2);
    assert_eq!(ids[0], "rule-1");
    assert_eq!(ids[1], "rule-2");

    let values: Vec<&u32> = registry.values();
    assert_eq!(values, vec![&3, &2]);
}

#[test]
fn registry_clear_empties() {
    let mut registry: Registry<u32> = Registry::new();
    registry.insert("a".to_string(), 1);
    registry.insert("b".to_string(), 2);
    registry.clear();
    assert!(registry.is_empty());
    assert!(!registry.contains("a"));
    assert_eq!(registry.keys().len(), 0);
}

#[test]
fn registry_remove_keeps_order_of_others() {
    let mut registry: Registry<u32> = Registry::new();
    registry.insert("a".to_string(), 1);
    registry.insert("b".to_string(), 2);
    registry.insert("c".to_string(), 3);
    assert_eq!(registry.remove("b"), Some(2));
    let ids: Vec<String> = registry.keys().into_iter().cloned().collect();
    assert_eq!(ids, vec!["a".to_string(), "c".to_string()]);
    assert_eq!(registry.get("c"), Some(&3));
}

#[test]
fn registry_map_values_keeps_ids() {
    let mut registry: Registry<u32> = Registry::new();
    registry.insert("b".to_string(), 2);
    registry.insert("a".to_string(), 1);
    let doubled = registry.map_values(|v| *v * 10);
    let ids: Vec<&String> = doubled.keys();
    assert_eq!(ids, vec!["b", "a"]);
    assert_eq!(doubled.get("a"), Some(&10));
    assert_eq!(doubled.get("b"), Some(&20));
    assert_eq!(doubled.len(), registry.len());
}
