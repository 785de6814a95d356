//! Registered workflow, activity and topic definitions.
use vstd::prelude::*;
use crate::definition::DefinitionKey;
use crate::error::{invalid_definition, DurableError, ErrorModel};
use crate::order;
use crate::order::{dedup_ranked, sort_ranked};
use crate::text;
use crate::text::{join3, same_text};

verus! {

/// Why a definition cannot be registered under a kind and version.
pub open spec fn definition_error(kind: Seq<char>, version: int) -> Option<ErrorModel> {
    if kind.len() == 0 {
        Some(ErrorModel::InvalidDefinition("durable definition kind cannot be empty"@))
    } else if version <= 0 {
        Some(
            ErrorModel::InvalidDefinition(
                "durable definition "@ + kind + " version must be greater than zero"@,
            ),
        )
    } else {
        None
    }
}

/// Refuses an empty kind and a version that is not positive.
pub fn validate_definition(kind: &str, version: i32) -> (result: Result<(), DurableError>)
    ensures
        match result {
            Ok(()) => definition_error(kind@, version as int) is None,
            Err(error) => definition_error(kind@, version as int) == Some(error@),
        },
{
    if kind.is_empty() {
        return Err(invalid_definition("durable definition kind cannot be empty"));
    }
    if version <= 0 {
        return Err(
            DurableError::InvalidDefinition(
                join3("durable definition ", kind, " version must be greater than zero"),
            ),
        );
    }
    Ok(())
}

/// Values registered under definition keys, each key at most once.
#[derive(Debug)]
pub struct Definitions<T> {
    entries: Vec<(DefinitionKey, T)>,
}

/// The map from keys to values that a sequence of entries stands for.
pub open spec fn entry_map<T>(entries: Seq<(DefinitionKey, T)>) -> Map<(Seq<char>, int), T>
    decreases entries.len(),
{
    if entries.len() == 0 {
        Map::empty()
    } else {
        entry_map(entries.drop_last()).insert(entries.last().0@, entries.last().1)
    }
}

/// Whether no key occurs twice.
pub open spec fn distinct_keys<T>(entries: Seq<(DefinitionKey, T)>) -> bool {
    forall|i: int, j: int|
        #![trigger entries[i], entries[j]]
        0 <= i < j < entries.len() ==> entries[i].0@ != entries[j].0@
}

proof fn lemma_entry_map<T>(entries: Seq<(DefinitionKey, T)>)
    requires
        distinct_keys(entries),
    ensures
        forall|i: int|
            #![trigger entries[i]]
            0 <= i < entries.len() ==> entry_map(entries).contains_key(entries[i].0@)
                && entry_map(entries)[entries[i].0@] == entries[i].1,
        forall|key: (Seq<char>, int)| #[trigger]
            entry_map(entries).contains_key(key) ==> exists|i: int|
                0 <= i < entries.len() && (#[trigger] entries[i]).0@ == key,
        entry_map(entries).dom().finite(),
        entry_map(entries).dom().len() == entries.len(),
    decreases entries.len(),
{
    if entries.len() > 0 {
        let shorter = entries.drop_last();
        assert forall|i: int, j: int|
            #![trigger shorter[i], shorter[j]]
            0 <= i < j < shorter.len() implies shorter[i].0@ != shorter[j].0@ by {
            assert(shorter[i] == entries[i] && shorter[j] == entries[j]);
        }
        lemma_entry_map(shorter);
        let last = entries.last();
        assert(!entry_map(shorter).contains_key(last.0@)) by {
            if entry_map(shorter).contains_key(last.0@) {
                let i = choose|i: int|
                    0 <= i < shorter.len() && (#[trigger] shorter[i]).0@ == last.0@;
                assert(entries[i] == shorter[i]);
                assert(entries[entries.len() - 1] == last);
            }
        }
        assert forall|i: int|
            #![trigger entries[i]]
            0 <= i < entries.len() implies entry_map(entries).contains_key(entries[i].0@)
            && entry_map(entries)[entries[i].0@] == entries[i].1 by {
            if i < shorter.len() {
                assert(shorter[i] == entries[i]);
                assert(entries[entries.len() - 1] == last);
            }
        }
        assert forall|key: (Seq<char>, int)| #[trigger]
            entry_map(entries).contains_key(key) implies exists|i: int|
            0 <= i < entries.len() && (#[trigger] entries[i]).0@ == key by {
            if key == last.0@ {
                assert(entries[entries.len() - 1].0@ == key);
            } else {
                assert(entry_map(shorter).contains_key(key));
                let i = choose|i: int| 0 <= i < shorter.len() && (#[trigger] shorter[i]).0@ == key;
                assert(entries[i].0@ == key);
            }
        }
        assert(entry_map(entries).dom() =~= entry_map(shorter).dom().insert(last.0@));
    }
}

impl<T> View for Definitions<T> {
    type V = Map<(Seq<char>, int), T>;

    closed spec fn view(&self) -> Map<(Seq<char>, int), T> {
        entry_map(self.entries@)
    }
}

/// Whether `version` is the largest registered version of a kind.
pub open spec fn is_current_version<T>(
    map: Map<(Seq<char>, int), T>,
    kind: Seq<char>,
    version: int,
) -> bool {
    &&& map.contains_key((kind, version))
    &&& forall|other: int| #[trigger] map.contains_key((kind, other)) ==> other <= version
}

/// Whether the keys are all those of the map, in increasing order.
pub open spec fn lists_keys<T>(keys: Seq<(String, i32)>, map: Map<(Seq<char>, int), T>) -> bool {
    &&& order::strictly_ranked(keys)
    &&& forall|i: int|
        0 <= i < keys.len() ==> map.contains_key(order::pair_view(#[trigger] keys[i]))
    &&& forall|key: (Seq<char>, int)| #[trigger] map.contains_key(key) ==> holds_key(keys, key)
}

/// Whether a key is among the given ones.
pub open spec fn holds_key(keys: Seq<(String, i32)>, key: (Seq<char>, int)) -> bool {
    exists|i: int| 0 <= i < keys.len() && order::pair_view(#[trigger] keys[i]) == key
}

impl<T> Definitions<T> {
    #[verifier::type_invariant]
    spec fn distinct(self) -> bool {
        distinct_keys(self.entries@)
    }

    /// No definitions.
    pub fn new() -> (definitions: Self)
        ensures
            definitions@ == Map::<(Seq<char>, int), T>::empty(),
    {
        Definitions { entries: Vec::new() }
    }

    fn position(&self, kind: &str, version: i32) -> (found: Option<usize>)
        ensures
            match found {
                Some(i) => {
                    &&& i < self.entries@.len()
                    &&& self.entries@[i as int].0@ == (kind@, version as int)
                    &&& self@.contains_key((kind@, version as int))
                    &&& self@[(kind@, version as int)] == self.entries@[i as int].1
                },
                None => !self@.contains_key((kind@, version as int)),
            },
    {
        proof {
            use_type_invariant(self);
            lemma_entry_map(self.entries@);
        }
        let mut i: usize = 0;
        while i < self.entries.len()
            invariant
                i <= self.entries@.len(),
                forall|j: int|
                    0 <= j < i ==> (#[trigger] self.entries@[j]).0@ != (kind@, version as int),
            decreases self.entries@.len() - i,
        {
            let entry = &self.entries[i];
            if entry.0.version == version && same_text(entry.0.kind.as_str(), kind) {
                proof {
                    use_type_invariant(self);
                    lemma_entry_map(self.entries@);
                    assert(self.entries@[i as int].0@ == (kind@, version as int));
                }
                return Some(i);
            }
            i = i + 1;
        }
        None
    }

    /// Whether a definition is registered.
    pub fn contains(&self, kind: &str, version: i32) -> (found: bool)
        ensures
            found == self@.contains_key((kind@, version as int)),
    {
        self.position(kind, version).is_some()
    }

    /// The value registered under a kind and version.
    pub fn get(&self, kind: &str, version: i32) -> (value: Option<&T>)
        ensures
            match value {
                Some(v) => self@.contains_key((kind@, version as int)) && *v
                    == self@[(kind@, version as int)],
                None => !self@.contains_key((kind@, version as int)),
            },
    {
        match self.position(kind, version) {
            Some(i) => Some(&self.entries[i].1),
            None => None,
        }
    }

    /// The value registered under a kind and version; refuses unknown definitions.
    pub fn require(&self, kind: &str, version: i32) -> (result: Result<&T, DurableError>)
        ensures
            match result {
                Ok(v) => self@.contains_key((kind@, version as int)) && *v
                    == self@[(kind@, version as int)],
                Err(error) => !self@.contains_key((kind@, version as int)) && error@
                    == (ErrorModel::MissingDefinition { kind: kind@, version: version as int }),
            },
    {
        match self.get(kind, version) {
            Some(value) => Ok(value),
            None => Err(DurableError::MissingDefinition { kind: kind.to_owned(), version }),
        }
    }

    /// Registers a value; refuses invalid and repeated keys and then changes nothing.
    pub fn register(&mut self, kind: &str, version: i32, value: T) -> (result: Result<
        (),
        DurableError,
    >)
        ensures
            match result {
                Ok(()) => {
                    &&& definition_error(kind@, version as int) is None
                    &&& !old(self)@.contains_key((kind@, version as int))
                    &&& final(self)@ == old(self)@.insert((kind@, version as int), value)
                },
                Err(error) => {
                    &&& final(self)@ == old(self)@
                    &&& match definition_error(kind@, version as int) {
                        Some(invalid) => error@ == invalid,
                        None => old(self)@.contains_key((kind@, version as int)) && error@ == (
                        ErrorModel::DuplicateDefinition { kind: kind@, version: version as int }),
                    }
                },
            },
    {
        match validate_definition(kind, version) {
            Ok(()) => {},
            Err(error) => return Err(error),
        }
        if self.contains(kind, version) {
            return Err(DurableError::DuplicateDefinition { kind: kind.to_owned(), version });
        }
        proof {
            use_type_invariant(&*self);
        }
        let mut entries: Vec<(DefinitionKey, T)> = Vec::new();
        std::mem::swap(&mut entries, &mut self.entries);
        let ghost before = entries@;
        proof {
            lemma_entry_map(before);
        }
        entries.push((DefinitionKey::new(kind, version), value));
        proof {
            assert(entries@.drop_last() =~= before);
            assert forall|i: int, j: int|
                #![trigger entries@[i], entries@[j]]
                0 <= i < j < entries@.len() implies entries@[i].0@ != entries@[j].0@ by {
                assert(before[i] == entries@[i]);
                if j < before.len() {
                    assert(before[j] == entries@[j]);
                }
            }
        }
        self.entries = entries;
        Ok(())
    }

    /// The number of definitions.
    pub fn len(&self) -> (count: usize)
        ensures
            count == self@.dom().len(),
    {
        proof {
            use_type_invariant(self);
            lemma_entry_map(self.entries@);
        }
        self.entries.len()
    }

    /// Whether nothing is registered.
    pub fn is_empty(&self) -> (empty: bool)
        ensures
            empty == (self@.dom().len() == 0),
    {
        self.len() == 0
    }

    /// All keys in increasing order.
    pub fn definition_keys(&self) -> (keys: Vec<(String, i32)>)
        ensures
            lists_keys(keys@, self@),
    {
        proof {
            use_type_invariant(self);
            lemma_entry_map(self.entries@);
        }
        let mut keys: Vec<(String, i32)> = Vec::new();
        let mut i: usize = 0;
        while i < self.entries.len()
            invariant
                i <= self.entries@.len(),
                keys@.len() == i,
                forall|j: int|
                    0 <= j < i ==> order::pair_view(#[trigger] keys@[j]) == self.entries@[j].0@,
            decreases self.entries@.len() - i,
        {
            keys.push((self.entries[i].0.kind.clone(), self.entries[i].0.version));
            i = i + 1;
        }
        let ghost unsorted = keys@;
        let sorted = sort_ranked(keys);
        let ghost ranked = sorted@;
        let unique = dedup_ranked(sorted);
        proof {
            lemma_lists_entries(self.entries@, unsorted, ranked, unique@);
        }
        unique
    }

    /// The largest registered version of a kind.
    pub fn current_version(&self, kind: &str) -> (version: Option<i32>)
        ensures
            match version {
                Some(v) => is_current_version(self@, kind@, v as int),
                None => forall|other: int| !(#[trigger] self@.contains_key((kind@, other))),
            },
    {
        proof {
            use_type_invariant(self);
            lemma_entry_map(self.entries@);
        }
        let mut best: Option<i32> = None;
        let mut i: usize = 0;
        while i < self.entries.len()
            invariant
                i <= self.entries@.len(),
                match best {
                    Some(v) => {
                        &&& exists|j: int|
                            0 <= j < i && (#[trigger] self.entries@[j]).0@ == (kind@, v as int)
                        &&& forall|j: int|
                            0 <= j < i && (#[trigger] self.entries@[j]).0@.0 == kind@
                                ==> self.entries@[j].0@.1 <= v
                    },
                    None => forall|j: int|
                        0 <= j < i ==> (#[trigger] self.entries@[j]).0@.0 != kind@,
                },
            decreases self.entries@.len() - i,
        {
            let entry = &self.entries[i];
            let ghost seen = i as int;
            if same_text(entry.0.kind.as_str(), kind) {
                let larger = match best {
                    Some(v) => entry.0.version > v,
                    None => true,
                };
                if larger {
                    best = Some(entry.0.version);
                    assert(self.entries@[seen].0@ == (kind@, entry.0.version as int));
                }
            }
            i = i + 1;
        }
        proof {
            assert forall|other: int| #[trigger] self@.contains_key((kind@, other)) implies exists|
                j: int,
            |
                0 <= j < self.entries@.len() && (#[trigger] self.entries@[j]).0@ == (kind@, other) by {
            }
        }
        best
    }

    /// The value registered under the largest version of a kind.
    pub fn require_current(&self, kind: &str) -> (result: Result<(i32, &T), DurableError>)
        ensures
            match result {
                Ok((version, v)) => is_current_version(self@, kind@, version as int) && *v
                    == self@[(kind@, version as int)],
                Err(error) => (forall|other: int| !(#[trigger] self@.contains_key((kind@, other))))
                    && error@ == (ErrorModel::MissingCurrentDefinition { kind: kind@ }),
            },
    {
        match self.current_version(kind) {
            Some(version) => match self.require(kind, version) {
                Ok(value) => Ok((version, value)),
                Err(error) => Err(error),
            },
            None => Err(DurableError::MissingCurrentDefinition { kind: kind.to_owned() }),
        }
    }
}

proof fn lemma_lists_entries<T>(
    entries: Seq<(DefinitionKey, T)>,
    unsorted: Seq<(String, i32)>,
    sorted: Seq<(String, i32)>,
    unique: Seq<(String, i32)>,
)
    requires
        distinct_keys(entries),
        unsorted.len() == entries.len(),
        forall|j: int|
            0 <= j < entries.len() ==> order::pair_view(#[trigger] unsorted[j]) == entries[j].0@,
        order::strictly_ranked(unique),
        sorted.to_multiset() == unsorted.to_multiset(),
        forall|i: int| 0 <= i < unique.len() ==> sorted.contains(#[trigger] unique[i]),
        forall|i: int| 0 <= i < sorted.len() ==> order::represented(#[trigger] sorted[i], unique),
    ensures
        lists_keys(unique, entry_map(entries)),
{
    lemma_entry_map(entries);
    let map = entry_map(entries);
    assert forall|i: int| 0 <= i < unique.len() implies map.contains_key(
        order::pair_view(#[trigger] unique[i]),
    ) by {
        lemma_sorted_source(unsorted, sorted, unique, i);
        let j = choose|j: int| 0 <= j < unsorted.len() && unsorted[j] == unique[i];
        assert(order::pair_view(unsorted[j]) == entries[j].0@);
    }
    assert forall|key: (Seq<char>, int)| #[trigger] map.contains_key(key) implies holds_key(
        unique,
        key,
    ) by {
        let j = choose|j: int| 0 <= j < entries.len() && (#[trigger] entries[j]).0@ == key;
        assert(order::pair_view(unsorted[j]) == key);
        lemma_sorted_image(unsorted, sorted, unique, j);
    }
}

/// What sorting and removing duplicates leaves was there before.
pub proof fn lemma_sorted_source(
    unsorted: Seq<(String, i32)>,
    sorted: Seq<(String, i32)>,
    unique: Seq<(String, i32)>,
    i: int,
)
    requires
        sorted.to_multiset() == unsorted.to_multiset(),
        forall|i: int| 0 <= i < unique.len() ==> sorted.contains(#[trigger] unique[i]),
        0 <= i < unique.len(),
    ensures
        unsorted.contains(unique[i]),
{
    order::lemma_same_elements(sorted, unsorted, unique[i]);
}

/// Sorting and removing duplicates keeps every key.
pub proof fn lemma_sorted_image(
    unsorted: Seq<(String, i32)>,
    sorted: Seq<(String, i32)>,
    unique: Seq<(String, i32)>,
    j: int,
)
    requires
        sorted.to_multiset() == unsorted.to_multiset(),
        forall|i: int| 0 <= i < sorted.len() ==> order::represented(#[trigger] sorted[i], unique),
        0 <= j < unsorted.len(),
    ensures
        holds_key(unique, order::pair_view(unsorted[j])),
{
    assert(unsorted.contains(unsorted[j]));
    order::lemma_same_elements(sorted, unsorted, unsorted[j]);
    let k = choose|k: int| 0 <= k < sorted.len() && sorted[k] == unsorted[j];
    assert(order::represented(sorted[k], unique));
    let i = choose|i: int| 0 <= i < unique.len() && #[trigger] order::same_rank(sorted[k], unique[i]);
    order::lemma_key_order(order::pair_view(sorted[k]), order::pair_view(unique[i]));
    assert(order::pair_view(unique[i]) == order::pair_view(unsorted[j]));
}

/// The registered workflow definitions; `H` is what the application runs for each.
#[derive(Debug)]
pub struct WorkflowRegistry<H> {
    definitions: Definitions<H>,
}

impl<H> View for WorkflowRegistry<H> {
    type V = Map<(Seq<char>, int), H>;

    closed spec fn view(&self) -> Map<(Seq<char>, int), H> {
        self.definitions@
    }
}

impl<H> Default for WorkflowRegistry<H> {
    fn default() -> (registry: Self)
        ensures
            registry@ == Map::<(Seq<char>, int), H>::empty(),
    {
        WorkflowRegistry::new()
    }
}

impl<H> WorkflowRegistry<H> {
    /// An empty registry.
    pub fn new() -> (registry: Self)
        ensures
            registry@ == Map::<(Seq<char>, int), H>::empty(),
    {
        WorkflowRegistry { definitions: Definitions::new() }
    }

    /// Registers a workflow definition; refuses invalid and repeated keys.
    pub fn register(&mut self, kind: &str, version: i32, handler: H) -> (result: Result<
        (),
        DurableError,
    >)
        ensures
            match result {
                Ok(()) => {
                    &&& definition_error(kind@, version as int) is None
                    &&& !old(self)@.contains_key((kind@, version as int))
                    &&& final(self)@ == old(self)@.insert((kind@, version as int), handler)
                },
                Err(error) => {
                    &&& final(self)@ == old(self)@
                    &&& match definition_error(kind@, version as int) {
                        Some(invalid) => error@ == invalid,
                        None => old(self)@.contains_key((kind@, version as int)) && error@ == (
                        ErrorModel::DuplicateDefinition { kind: kind@, version: version as int }),
                    }
                },
            },
    {
        self.definitions.register(kind, version, handler)
    }

    /// Whether a definition is registered.
    pub fn contains(&self, kind: &str, version: i32) -> (found: bool)
        ensures
            found == self@.contains_key((kind@, version as int)),
    {
        self.definitions.contains(kind, version)
    }

    /// The number of definitions.
    pub fn len(&self) -> (count: usize)
        ensures
            count == self@.dom().len(),
    {
        self.definitions.len()
    }

    /// Whether nothing is registered.
    pub fn is_empty(&self) -> (empty: bool)
        ensures
            empty == (self@.dom().len() == 0),
    {
        self.definitions.is_empty()
    }

    /// All keys in increasing order.
    pub fn definition_keys(&self) -> (keys: Vec<(String, i32)>)
        ensures
            lists_keys(keys@, self@),
    {
        self.definitions.definition_keys()
    }

    /// The largest registered version of a kind.
    pub fn current_version(&self, kind: &str) -> (version: Option<i32>)
        ensures
            match version {
                Some(v) => is_current_version(self@, kind@, v as int),
                None => forall|other: int| !(#[trigger] self@.contains_key((kind@, other))),
            },
    {
        self.definitions.current_version(kind)
    }

    /// The handler of a kind and version; refuses unknown definitions.
    pub fn workflow_definition(&self, kind: &str, version: i32) -> (result: Result<
        &H,
        DurableError,
    >)
        ensures
            match result {
                Ok(v) => self@.contains_key((kind@, version as int)) && *v
                    == self@[(kind@, version as int)],
                Err(error) => !self@.contains_key((kind@, version as int)) && error@
                    == (ErrorModel::MissingDefinition { kind: kind@, version: version as int }),
            },
    {
        self.definitions.require(kind, version)
    }

    /// The handler of a kind's largest version; refuses unknown kinds.
    pub fn current_definition(&self, kind: &str) -> (result: Result<(i32, &H), DurableError>)
        ensures
            match result {
                Ok((version, v)) => is_current_version(self@, kind@, version as int) && *v
                    == self@[(kind@, version as int)],
                Err(error) => (forall|other: int| !(#[trigger] self@.contains_key((kind@, other))))
                    && error@ == (ErrorModel::MissingCurrentDefinition { kind: kind@ }),
            },
    {
        self.definitions.require_current(kind)
    }
}

/// A registered activity: what the application runs and the topic it is queued under.
#[derive(Debug)]
pub struct ActivityEntry<H> {
    pub handler: H,
    pub topic: String,
}

/// The registered activity definitions; `H` is what the application runs for each.
#[derive(Debug)]
pub struct ActivityRegistry<H> {
    definitions: Definitions<ActivityEntry<H>>,
}

impl<H> View for ActivityRegistry<H> {
    type V = Map<(Seq<char>, int), ActivityEntry<H>>;

    closed spec fn view(&self) -> Map<(Seq<char>, int), ActivityEntry<H>> {
        self.definitions@
    }
}

/// Whether some activity of the map is queued under a topic.
pub open spec fn queues_under<H>(
    map: Map<(Seq<char>, int), ActivityEntry<H>>,
    topic: Seq<char>,
) -> bool {
    exists|key: (Seq<char>, int)| #[trigger] map.contains_key(key) && map[key].topic@ == topic
}

/// Whether a text is among the given ones.
pub open spec fn among(topics: Seq<String>, topic: Seq<char>) -> bool {
    exists|i: int| 0 <= i < topics.len() && (#[trigger] topics[i])@ == topic
}

/// Whether the topics are those that some activity of the map is queued under,
/// in increasing order.
pub open spec fn lists_topics<H>(
    topics: Seq<String>,
    map: Map<(Seq<char>, int), ActivityEntry<H>>,
) -> bool {
    &&& order::strictly_ranked(topics)
    &&& forall|i: int| 0 <= i < topics.len() ==> queues_under(map, (#[trigger] topics[i])@)
    &&& forall|key: (Seq<char>, int)| #[trigger]
        map.contains_key(key) ==> among(topics, map[key].topic@)
}

impl<H> Default for ActivityRegistry<H> {
    fn default() -> (registry: Self)
        ensures
            registry@ == Map::<(Seq<char>, int), ActivityEntry<H>>::empty(),
    {
        ActivityRegistry::new()
    }
}

impl<H> ActivityRegistry<H> {
    /// An empty registry.
    pub fn new() -> (registry: Self)
        ensures
            registry@ == Map::<(Seq<char>, int), ActivityEntry<H>>::empty(),
    {
        ActivityRegistry { definitions: Definitions::new() }
    }

    /// Registers an activity definition under its topic; refuses invalid and repeated keys.
    pub fn register(&mut self, kind: &str, version: i32, topic: String, handler: H) -> (result:
        Result<(), DurableError>)
        ensures
            match result {
                Ok(()) => {
                    &&& definition_error(kind@, version as int) is None
                    &&& !old(self)@.contains_key((kind@, version as int))
                    &&& final(self)@ == old(self)@.insert(
                        (kind@, version as int),
                        ActivityEntry { handler, topic },
                    )
                },
                Err(error) => {
                    &&& final(self)@ == old(self)@
                    &&& match definition_error(kind@, version as int) {
                        Some(invalid) => error@ == invalid,
                        None => old(self)@.contains_key((kind@, version as int)) && error@ == (
                        ErrorModel::DuplicateDefinition { kind: kind@, version: version as int }),
                    }
                },
            },
    {
        self.definitions.register(kind, version, ActivityEntry { handler, topic })
    }

    /// Whether a definition is registered.
    pub fn contains(&self, kind: &str, version: i32) -> (found: bool)
        ensures
            found == self@.contains_key((kind@, version as int)),
    {
        self.definitions.contains(kind, version)
    }

    /// The topic of a kind and version.
    pub fn topic_for(&self, kind: &str, version: i32) -> (topic: Option<&str>)
        ensures
            match topic {
                Some(t) => self@.contains_key((kind@, version as int)) && t@
                    == self@[(kind@, version as int)].topic@,
                None => !self@.contains_key((kind@, version as int)),
            },
    {
        match self.definitions.get(kind, version) {
            Some(entry) => Some(entry.topic.as_str()),
            None => None,
        }
    }

    /// The number of definitions.
    pub fn len(&self) -> (count: usize)
        ensures
            count == self@.dom().len(),
    {
        self.definitions.len()
    }

    /// Whether nothing is registered.
    pub fn is_empty(&self) -> (empty: bool)
        ensures
            empty == (self@.dom().len() == 0),
    {
        self.definitions.is_empty()
    }

    /// All keys in increasing order.
    pub fn definition_keys(&self) -> (keys: Vec<(String, i32)>)
        ensures
            lists_keys(keys@, self@),
    {
        self.definitions.definition_keys()
    }

    /// The largest registered version of a kind.
    pub fn current_version(&self, kind: &str) -> (version: Option<i32>)
        ensures
            match version {
                Some(v) => is_current_version(self@, kind@, v as int),
                None => forall|other: int| !(#[trigger] self@.contains_key((kind@, other))),
            },
    {
        self.definitions.current_version(kind)
    }

    /// The entry of a kind and version; refuses unknown definitions.
    pub fn activity_definition(&self, kind: &str, version: i32) -> (result: Result<
        &ActivityEntry<H>,
        DurableError,
    >)
        ensures
            match result {
                Ok(v) => self@.contains_key((kind@, version as int)) && *v
                    == self@[(kind@, version as int)],
                Err(error) => !self@.contains_key((kind@, version as int)) && error@
                    == (ErrorModel::MissingDefinition { kind: kind@, version: version as int }),
            },
    {
        self.definitions.require(kind, version)
    }

    /// The entry of a kind's largest version; refuses unknown kinds.
    pub fn current_definition(&self, kind: &str) -> (result: Result<
        (i32, &ActivityEntry<H>),
        DurableError,
    >)
        ensures
            match result {
                Ok((version, v)) => is_current_version(self@, kind@, version as int) && *v
                    == self@[(kind@, version as int)],
                Err(error) => (forall|other: int| !(#[trigger] self@.contains_key((kind@, other))))
                    && error@ == (ErrorModel::MissingCurrentDefinition { kind: kind@ }),
            },
    {
        self.definitions.require_current(kind)
    }

    /// Every topic that a registered activity is queued under, once, in increasing order.
    pub fn required_topics(&self) -> (topics: Vec<String>)
        ensures
            lists_topics(topics@, self@),
    {
        let keys = self.definitions.definition_keys();
        let ghost map = self@;
        let mut collected: Vec<String> = Vec::new();
        let mut i: usize = 0;
        while i < keys.len()
            invariant
                i <= keys@.len(),
                map == self@,
                lists_keys(keys@, map),
                collected@.len() == i,
                forall|j: int|
                    0 <= j < i ==> (#[trigger] collected@[j])@ == map[order::pair_view(
                        keys@[j],
                    )].topic@,
            decreases keys@.len() - i,
        {
            let key = &keys[i];
            match self.topic_for(key.0.as_str(), key.1) {
                Some(topic) => collected.push(topic.to_owned()),
                None => {
                    assert(false);
                },
            }
            i = i + 1;
        }
        let ghost unsorted = collected@;
        let sorted = sort_ranked(collected);
        let ghost ranked = sorted@;
        let unique = dedup_ranked(sorted);
        proof {
            assert forall|i: int| 0 <= i < unique@.len() implies queues_under(
                map,
                (#[trigger] unique@[i])@,
            ) by {
                order::lemma_same_elements(ranked, unsorted, unique@[i]);
                let j = choose|j: int| 0 <= j < unsorted.len() && unsorted[j] == unique@[i];
                assert(unsorted[j]@ == map[order::pair_view(keys@[j])].topic@);
                assert(map.contains_key(order::pair_view(keys@[j])));
            }
            assert forall|key: (Seq<char>, int)| #[trigger] map.contains_key(key) implies among(
                unique@,
                map[key].topic@,
            ) by {
                assert(holds_key(keys@, key));
                let j = choose|j: int|
                    0 <= j < keys@.len() && order::pair_view(#[trigger] keys@[j]) == key;
                assert(unsorted[j]@ == map[key].topic@);
                assert(unsorted.contains(unsorted[j]));
                order::lemma_same_elements(ranked, unsorted, unsorted[j]);
                let k = choose|k: int| 0 <= k < ranked.len() && ranked[k] == unsorted[j];
                assert(order::represented(ranked[k], unique@));
                let i = choose|i: int|
                    0 <= i < unique@.len() && #[trigger] order::same_rank(ranked[k], unique@[i]);
                text::lemma_text_order(ranked[k]@, unique@[i]@);
                assert(unique@[i]@ == map[key].topic@);
            }
        }
        unique
    }
}

/// A definition is registered only under a named kind and a positive version.
pub proof fn law_definition_is_refused_only_for_a_reason(kind: Seq<char>, version: int)
    ensures
        definition_error(kind, version) is None <==> kind.len() > 0 && version > 0,
{
}

/// The current version of a kind is its largest registered one: there is only one, a newer
/// one takes its place, and an older one or another kind does not.
pub proof fn law_current_version_is_the_largest<T>(
    map: Map<(Seq<char>, int), T>,
    kind: Seq<char>,
    version: int,
    other: int,
    value: T,
)
    requires
        is_current_version(map, kind, version),
    ensures
        map.contains_key((kind, other)) ==> other <= version,
        is_current_version(map, kind, other) ==> other == version,
        other > version ==> is_current_version(map.insert((kind, other), value), kind, other),
        other <= version ==> is_current_version(map.insert((kind, other), value), kind, version),
{
    let grown = map.insert((kind, other), value);
    assert forall|third: int| #[trigger] grown.contains_key((kind, third)) implies third <= version
        || third == other by {
        if third != other {
            assert(map.contains_key((kind, third)));
        }
    }
}

/// The listed keys are those that are registered, each once, by kind and by version within
/// a kind.
pub proof fn law_keys_are_listed_once_in_order<T>(
    keys: Seq<(String, i32)>,
    map: Map<(Seq<char>, int), T>,
    kind: Seq<char>,
    version: int,
    i: int,
    j: int,
)
    requires
        lists_keys(keys, map),
        0 <= i < j < keys.len(),
    ensures
        map.contains_key((kind, version)) <==> exists|k: int|
            0 <= k < keys.len() && (#[trigger] keys[k]).0@ == kind && keys[k].1 == version,
        text::text_before(keys[i].0@, keys[j].0@) || (keys[i].0@ == keys[j].0@ && keys[i].1
            < keys[j].1),
{
    if map.contains_key((kind, version)) {
        assert(holds_key(keys, (kind, version)));
        let k = choose|k: int|
            0 <= k < keys.len() && order::pair_view(#[trigger] keys[k]) == (kind, version);
        assert(keys[k].0@ == kind && keys[k].1 == version);
    }
    if exists|k: int| 0 <= k < keys.len() && (#[trigger] keys[k]).0@ == kind && keys[k].1 == version {
        let k = choose|k: int|
            0 <= k < keys.len() && (#[trigger] keys[k]).0@ == kind && keys[k].1 == version;
        assert(order::pair_view(keys[k]) == (kind, version));
    }
    assert(order::key_before(order::pair_view(keys[i]), order::pair_view(keys[j])));
}

} // verus!
