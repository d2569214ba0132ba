use rusthydrus::inmemdbnew::NewinMemDB;
use rusthydrus::sharedtypes::{DbNamespaceObj, SearchType};
use rusthydrus::tagrules::{plugin_on_tag_targets, tag_rule_register, RuleSearch, TagRule, TagRuleSet};

fn db_with_namespaces() -> NewinMemDB {
    let mut db = NewinMemDB::new();
    db.namespace_put(DbNamespaceObj { id: 0, name: "source".to_string(), description: None });
    db.namespace_put(DbNamespaceObj { id: 1, name: "title".to_string(), description: None });
    db
}

#[test]
fn register_groups_plugins_by_rule() {
    let db = db_with_namespaces();
    let mut rules: Vec<TagRule> = Vec::new();
    let search = SearchType::Regex("[0-9]+".to_string());
    let ns = vec!["source".to_string(), "missing".to_string()];
    assert!(tag_rule_register(&mut rules, &db, "a".to_string(), &search, &ns, &vec![]));
    assert!(tag_rule_register(&mut rules, &db, "b".to_string(), &search, &ns, &vec![]));
    assert_eq!(rules.len(), 1);
    assert_eq!(rules[0].ns, vec![0]);
    assert_eq!(rules[0].plugins, vec!["a".to_string(), "b".to_string()]);
    assert!(tag_rule_register(&mut rules, &db, "c".to_string(), &SearchType::String("x".to_string()), &ns, &vec![]));
    assert_eq!(rules.len(), 2);
    assert!(!tag_rule_register(&mut rules, &db, "d".to_string(), &SearchType::Regex("(".to_string()), &ns, &vec![]));
    assert_eq!(rules.len(), 2);
}

#[test]
fn targets_follow_matches_and_namespaces() {
    let rules = vec![
        TagRule {
            search: RuleSearch::Pattern("[0-9]+".to_string()),
            ns: vec![0],
            not_ns: vec![],
            plugins: vec!["a".to_string(), "b".to_string()],
        },
        TagRule {
            search: RuleSearch::Text("12".to_string()),
            ns: vec![],
            not_ns: vec![],
            plugins: vec!["c".to_string()],
        },
        TagRule {
            search: RuleSearch::Pattern("x".to_string()),
            ns: vec![],
            not_ns: vec![0],
            plugins: vec!["d".to_string()],
        },
    ];
    let out = plugin_on_tag_targets(&rules, &"12 and 345 x".to_string(), 0);
    let got: Vec<(String, String)> = out.iter().map(|t| (t.0.clone(), t.1.clone())).collect();
    assert_eq!(
        got,
        vec![
            ("a".to_string(), "12".to_string()),
            ("b".to_string(), "12".to_string()),
            ("a".to_string(), "345".to_string()),
            ("b".to_string(), "345".to_string()),
        ]
    );
    assert!(out.iter().all(|t| t.2 == Some(SearchType::Regex("[0-9]+".to_string()))));
    let other = plugin_on_tag_targets(&rules, &"12 x".to_string(), 1);
    let got: Vec<(String, String)> = other.iter().map(|t| (t.0.clone(), t.1.clone())).collect();
    assert_eq!(got, vec![("d".to_string(), "x".to_string())]);
}

#[test]
fn rule_set_registers_and_hands_out() {
    let db = db_with_namespaces();
    let mut set = TagRuleSet::new();
    let ns = vec!["source".to_string()];
    assert!(set.register(&db, "a".to_string(), &SearchType::Regex("[0-9]+".to_string()), &ns, &vec![]));
    assert!(!set.register(&db, "bad".to_string(), &SearchType::Regex("(".to_string()), &ns, &vec![]));
    let out = set.targets(&"7 and 8".to_string(), 0);
    let got: Vec<(String, String)> = out.iter().map(|t| (t.0.clone(), t.1.clone())).collect();
    assert_eq!(got, vec![("a".to_string(), "7".to_string()), ("a".to_string(), "8".to_string())]);
    assert!(set.targets(&"7".to_string(), 1).is_empty());
}
