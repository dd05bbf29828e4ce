use logger_plugin::config::{config_from_entries, ConfigOptions, LoggerConfig, LoggerRule, RawRule};
use logger_plugin::loader::LoadError;
use logger_plugin::rules::RuleIndex;

fn rule(task: &str, kind: &str) -> LoggerRule {
    LoggerRule { task: task.to_string(), kind: kind.to_string() }
}

fn config_of(entries: &[(&str, &str, &str)]) -> LoggerConfig {
    LoggerConfig {
        rules: entries.iter().map(|(n, t, k)| (n.to_string(), rule(t, k))).collect(),
        options: None,
    }
}

#[test]
fn resolve_returns_stored_rule() {
    let config = config_of(&[("data-log", "t1", "info"), ("data-track", "t2", "trace")]);
    let index = RuleIndex::new(&config);
    assert_eq!(index.resolve("data-log"), Some(&rule("t1", "info")));
    assert_eq!(index.resolve("data-track"), Some(&rule("t2", "trace")));
}

#[test]
fn resolve_absent_name_is_none() {
    let config = config_of(&[("data-log", "t1", "info")]);
    let index = RuleIndex::new(&config);
    assert_eq!(index.resolve("data-other"), None);
    assert_eq!(index.resolve(""), None);
    assert_eq!(index.resolve("data-lo"), None);
    assert_eq!(index.resolve("data-log-extra"), None);
}

#[test]
fn resolve_is_case_sensitive() {
    let config = config_of(&[("data-foo", "t", "info")]);
    let index = RuleIndex::new(&config);
    assert_eq!(index.resolve("data-Foo"), None);
    assert_eq!(index.resolve("data-foo"), Some(&rule("t", "info")));
}

#[test]
fn resolve_on_empty_table() {
    let index = RuleIndex::new(&config_of(&[]));
    assert_eq!(index.resolve("data-log"), None);
}

#[test]
fn later_entry_replaces_earlier() {
    let config = config_of(&[("data-log", "first", "info"), ("data-log", "second", "trace")]);
    let index = RuleIndex::new(&config);
    assert_eq!(index.resolve("data-log"), Some(&rule("second", "trace")));
}

#[test]
fn entries_become_config_in_order() {
    let raw = vec![
        RawRule { name: "data-a".to_string(), task: "ta".to_string(), kind: "info".to_string() },
        RawRule { name: "data-b".to_string(), task: "tb".to_string(), kind: "trace".to_string() },
    ];
    let options = Some(ConfigOptions { enabled: Some(true), debug_mode: None, batch_size: Some(10) });
    let config = config_from_entries(raw, options).unwrap();
    assert_eq!(config.rules.len(), 2);
    assert_eq!(config.rules[0], ("data-a".to_string(), rule("ta", "info")));
    assert_eq!(config.rules[1], ("data-b".to_string(), rule("tb", "trace")));
    assert_eq!(config.options, options);
}

#[test]
fn empty_task_is_malformed() {
    let raw = vec![
        RawRule { name: "data-a".to_string(), task: "ta".to_string(), kind: "info".to_string() },
        RawRule { name: "data-b".to_string(), task: String::new(), kind: "trace".to_string() },
    ];
    assert_eq!(config_from_entries(raw, None), Err(LoadError::MalformedConfig));
}

#[test]
fn empty_kind_is_malformed() {
    let raw = vec![RawRule { name: "data-a".to_string(), task: "ta".to_string(), kind: String::new() }];
    assert_eq!(config_from_entries(raw, None), Err(LoadError::MalformedConfig));
}

#[test]
fn no_rules_is_a_valid_config() {
    let config = config_from_entries(Vec::new(), None).unwrap();
    assert!(config.rules.is_empty());
    assert_eq!(RuleIndex::new(&config).resolve("data-x"), None);
}

#[test]
fn repeated_name_is_malformed() {
    let raw = vec![
        RawRule { name: "data-a".to_string(), task: "ta".to_string(), kind: "info".to_string() },
        RawRule { name: "data-b".to_string(), task: "tb".to_string(), kind: "info".to_string() },
        RawRule { name: "data-a".to_string(), task: "tc".to_string(), kind: "trace".to_string() },
    ];
    assert_eq!(config_from_entries(raw, None), Err(LoadError::MalformedConfig));
}
