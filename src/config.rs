use vstd::prelude::*;

verus! {

/// One logging directive: a task label and the instrumentation kind to apply.
#[derive(Debug, Clone, PartialEq, Eq)]
pub struct LoggerRule {
    pub task: String,
    pub kind: String,
}

/// Optional global toggles of a configuration. They are carried as loaded;
/// matching does not consult them.
#[derive(Debug, Clone, Copy, PartialEq, Eq)]
pub struct ConfigOptions {
    pub enabled: Option<bool>,
    pub debug_mode: Option<bool>,
    pub batch_size: Option<u32>,
}

/// The whole configuration: rules keyed by attribute name, and options.
///
/// The rules are kept as entries; a later entry for a key replaces an
/// earlier one, so the table they denote is `rules_map(rules@)`.
#[derive(Debug, Clone, PartialEq, Eq)]
pub struct LoggerConfig {
    pub rules: Vec<(String, LoggerRule)>,
    pub options: Option<ConfigOptions>,
}

/// The entries that a configuration document holds, before validation:
/// attribute name, task and kind of each rule.
#[derive(Debug, Clone, PartialEq, Eq)]
pub struct RawRule {
    pub name: String,
    pub task: String,
    pub kind: String,
}

impl LoggerRule {
    /// A rule exists only with a non-empty task and a non-empty kind.
    pub open spec fn is_valid(&self) -> bool {
        self.task@.len() > 0 && self.kind@.len() > 0
    }
}

/// The table that a sequence of entries denotes: each entry, in order,
/// binds its key, replacing any earlier binding.
pub open spec fn rules_map(entries: Seq<(String, LoggerRule)>) -> Map<Seq<char>, LoggerRule>
    decreases entries.len(),
{
    if entries.len() == 0 {
        Map::empty()
    } else {
        let last = entries.last();
        rules_map(entries.drop_last()).insert(last.0@, last.1)
    }
}

impl LoggerConfig {
    /// No two rules share an attribute name.
    pub open spec fn has_unique_keys(&self) -> bool {
        forall|i: int, j: int|
            0 <= i < j < self.rules@.len() ==> (#[trigger] self.rules@[i]).0@ != (#[trigger] self.rules@[j]).0@
    }

    /// The rule table of this configuration.
    pub open spec fn table(&self) -> Map<Seq<char>, LoggerRule> {
        rules_map(self.rules@)
    }
}

/// A key is bound exactly when some entry carries it.
pub proof fn lemma_rules_map_domain(entries: Seq<(String, LoggerRule)>, k: Seq<char>)
    ensures
        rules_map(entries).contains_key(k) <==> exists|i: int|
            0 <= i < entries.len() && (#[trigger] entries[i]).0@ == k,
    decreases entries.len(),
{
    if entries.len() > 0 {
        let init = entries.drop_last();
        lemma_rules_map_domain(init, k);
        if rules_map(entries).contains_key(k) {
            if entries.last().0@ != k {
                let i = choose|i: int| 0 <= i < init.len() && (#[trigger] init[i]).0@ == k;
                assert(entries[i] == init[i]);
            }
        } else {
            assert forall|i: int| 0 <= i < entries.len() implies (#[trigger] entries[i]).0@ != k by {
                if i < init.len() {
                    assert(entries[i] == init[i]);
                }
            }
        }
    }
}

/// The binding of a key is the value of the last entry that carries it.
pub proof fn lemma_rules_map_last(entries: Seq<(String, LoggerRule)>, i: int)
    requires
        0 <= i < entries.len(),
        forall|j: int| i < j < entries.len() ==> (#[trigger] entries[j]).0@ != entries[i].0@,
    ensures
        rules_map(entries).contains_key(entries[i].0@),
        rules_map(entries)[entries[i].0@] == entries[i].1,
    decreases entries.len(),
{
    if i < entries.len() - 1 {
        let init = entries.drop_last();
        assert forall|j: int| i < j < init.len() implies (#[trigger] init[j]).0@ != init[i].0@ by {
            assert(init[j] == entries[j]);
        }
        assert(entries[entries.len() - 1] == entries.last());
        lemma_rules_map_last(init, i);
    }
}

/// Builds a configuration from the entries of a document, in order.
/// Fails when some rule has an empty task or an empty kind, or when two
/// rules share an attribute name.
pub fn config_from_entries(raw: Vec<RawRule>, options: Option<ConfigOptions>) -> (r: Result<
    LoggerConfig,
    crate::loader::LoadError,
>)
    ensures
        r is Ok <==> (forall|i: int|
            0 <= i < raw@.len() ==> (#[trigger] raw@[i]).task@.len() > 0 && raw@[i].kind@.len() > 0)
            && (forall|i: int, j: int|
            0 <= i < j < raw@.len() ==> (#[trigger] raw@[i]).name@ != (#[trigger] raw@[j]).name@),
        r is Err ==> r == Err::<LoggerConfig, _>(crate::loader::LoadError::MalformedConfig),
        r matches Ok(c) ==> {
            &&& c.rules@.len() == raw@.len()
            &&& forall|i: int|
                0 <= i < raw@.len() ==> {
                    &&& (#[trigger] c.rules@[i]).0@ == raw@[i].name@
                    &&& c.rules@[i].1.task@ == raw@[i].task@
                    &&& c.rules@[i].1.kind@ == raw@[i].kind@
                    &&& c.rules@[i].1.is_valid()
                }
            &&& c.options == options
            &&& c.has_unique_keys()
        },
{
    let mut rules: Vec<(String, LoggerRule)> = Vec::new();
    let mut i: usize = 0;
    while i < raw.len()
        invariant
            i <= raw@.len(),
            rules@.len() == i,
            forall|j: int|
                0 <= j < i ==> (#[trigger] raw@[j]).task@.len() > 0 && raw@[j].kind@.len() > 0,
            forall|j: int|
                0 <= j < i ==> {
                    &&& (#[trigger] rules@[j]).0@ == raw@[j].name@
                    &&& rules@[j].1.task@ == raw@[j].task@
                    &&& rules@[j].1.kind@ == raw@[j].kind@
                    &&& rules@[j].1.is_valid()
                },
            forall|j: int, k: int|
                0 <= j < k < i ==> (#[trigger] raw@[j]).name@ != (#[trigger] raw@[k]).name@,
        decreases raw@.len() - i,
    {
        let entry = &raw[i];
        if entry.task.unicode_len() == 0 || entry.kind.unicode_len() == 0 {
            return Err(crate::loader::LoadError::MalformedConfig);
        }
        let mut j: usize = 0;
        while j < i
            invariant
                i < raw@.len(),
                j <= i,
                entry == raw@[i as int],
                forall|k: int| 0 <= k < j ==> (#[trigger] raw@[k]).name@ != raw@[i as int].name@,
            decreases i - j,
        {
            if raw[j].name == entry.name {
                return Err(crate::loader::LoadError::MalformedConfig);
            }
            j = j + 1;
        }
        let rule = LoggerRule { task: entry.task.clone(), kind: entry.kind.clone() };
        rules.push((entry.name.clone(), rule));
        i = i + 1;
    }
    Ok(LoggerConfig { rules, options })
}

} // verus!
