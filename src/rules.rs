use vstd::prelude::*;
use crate::config::{LoggerConfig, LoggerRule, rules_map, lemma_rules_map_domain, lemma_rules_map_last};

verus! {

/// Exact-match lookup of rules by attribute name.
#[derive(Debug)]
pub struct RuleIndex {
    entries: Vec<(String, LoggerRule)>,
}

impl View for RuleIndex {
    type V = Map<Seq<char>, LoggerRule>;

    closed spec fn view(&self) -> Map<Seq<char>, LoggerRule> {
        rules_map(self.entries@)
    }
}

impl RuleIndex {
    /// Builds the index of a configuration's rules; never fails.
    pub fn new(config: &LoggerConfig) -> (r: RuleIndex)
        ensures
            r@ == config.table(),
    {
        let mut entries: Vec<(String, LoggerRule)> = Vec::new();
        let mut i: usize = 0;
        while i < config.rules.len()
            invariant
                i <= config.rules@.len(),
                entries@ == config.rules@.subrange(0, i as int),
            decreases config.rules@.len() - i,
        {
            let (name, rule) = &config.rules[i];
            let copy = LoggerRule { task: rule.task.clone(), kind: rule.kind.clone() };
            assert(copy == *rule);
            entries.push((name.clone(), copy));
            assert(entries@ =~= config.rules@.subrange(0, i + 1));
            i = i + 1;
        }
        assert(entries@ =~= config.rules@);
        RuleIndex { entries }
    }

    /// The rule stored under exactly `name`, if any.
    pub fn resolve(&self, name: &str) -> (r: Option<&LoggerRule>)
        ensures
            r is None <==> !self@.contains_key(name@),
            r matches Some(rule) ==> *rule == self@[name@],
    {
        let key = String::from_str(name);
        let mut i: usize = self.entries.len();
        while i > 0
            invariant
                i <= self.entries@.len(),
                key@ == name@,
                forall|j: int| i <= j < self.entries@.len() ==> (#[trigger] self.entries@[j]).0@ != name@,
            decreases i,
        {
            i = i - 1;
            let found: bool = self.entries[i].0 == key;
            if found {
                proof {
                    lemma_rules_map_last(self.entries@, i as int);
                }
                return Some(&self.entries[i].1);
            }
        }
        proof {
            lemma_rules_map_domain(self.entries@, name@);
        }
        None
    }
}

} // verus!
