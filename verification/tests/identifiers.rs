//! Identifiers and the normalization of names.

use tamako::memory::identifiers::{alias_id, batch_id, concept_id, normalize, person_id};

#[test]
fn identifiers_are_stable_across_calls() {
    assert_eq!(person_id("12345"), person_id("12345"));
    assert_eq!(alias_id("Tama"), alias_id("Tama"));
    assert_eq!(concept_id("Graph Database"), concept_id("Graph Database"));
    assert_eq!(batch_id(1, 50), batch_id(1, 50));
}

#[test]
fn identifiers_have_uuid_shape() {
    let id = person_id("12345");
    assert_eq!(id.len(), 36);
    assert_eq!(id.chars().filter(|c| *c == '-').count(), 4);
}

#[test]
fn normalize_applies_nfkc_case_and_whitespace_rules() {
    assert_eq!(normalize("@Tama"), "tama");
    assert_eq!(normalize("＠tama"), "tama");
    assert_eq!(normalize("Qwen 3.8 27B"), "qwen3.8 27b");
    assert_eq!(normalize("Qwen3.8 27B"), "qwen3.8 27b");
    assert_eq!(normalize("Windows 11"), "windows11");
    assert_eq!(normalize("gemini 3.7 flash"), "gemini3.7flash");
    assert_eq!(normalize("graph database"), "graph database");
    assert_eq!(normalize("version 3 8"), "version3 8");
    assert_eq!(normalize("a @ b"), "a b");
}

#[test]
fn normalize_rules_pre_decision_105_still_hold() {
    assert_eq!(normalize("Ｔａｍａｋｏ"), "tamako");
    assert_eq!(normalize("  Graph   Database  "), "graph database");
    assert_eq!(normalize("GRPO　Algorithm"), "grpo algorithm");
    assert_eq!(normalize("a\t\n b"), "a b");
    assert_eq!(normalize(""), "");
}

#[test]
fn normalized_inputs_give_equal_identifiers() {
    assert_eq!(alias_id("  TAMAKO "), alias_id("tamako"));
    assert_eq!(concept_id("Ｅｎｔｒｏｐｙ"), concept_id("entropy"));
    assert_eq!(alias_id("@tama"), alias_id("tama"));
    assert_eq!(concept_id("Qwen 3.8 27B"), concept_id("qwen3.8 27b"));
}

#[test]
fn distinct_inputs_give_distinct_identifiers() {
    assert_ne!(person_id("1"), person_id("2"));
    assert_ne!(alias_id("tama"), concept_id("tama"));
    assert_ne!(batch_id(1, 50), batch_id(1, 51));
}
