//! Activity topics and their concurrency limits.
use vstd::prelude::*;
use crate::error::{invalid_definition, DurableError, ErrorModel};
use crate::numerals;
use crate::numerals::{decimal_i64, decimal_u64};
use crate::order;
use crate::order::{sort_ranked, Ranked};
use crate::persistence::models::{
    NewTopicLockRow, NewTopicLockRowModel, TopicLockRow, TopicLockRowModel,
};
use crate::text;
use crate::text::{chars_of, join3, join5, precedes, same_text};

verus! {

/// The characters that may start a topic key.
pub open spec fn starts_topic(c: char) -> bool {
    'a' <= c <= 'z' || '0' <= c <= '9'
}

/// The characters that may follow in a topic key.
pub open spec fn continues_topic(c: char) -> bool {
    starts_topic(c) || c == '.' || c == '_' || c == '-'
}

/// Whether a key matches `[a-z0-9][a-z0-9._-]*`.
pub open spec fn canonical_topic(key: Seq<char>) -> bool {
    &&& key.len() > 0
    &&& starts_topic(key[0])
    &&& forall|i: int| 0 < i < key.len() ==> continues_topic(#[trigger] key[i])
}

/// Whether a key matches `[a-z0-9][a-z0-9._-]*`.
pub fn is_canonical_topic_key(key: &str) -> (canonical: bool)
    ensures
        canonical == canonical_topic(key@),
{
    let chars = chars_of(key);
    if chars.len() == 0 {
        return false;
    }
    let first = chars[0];
    if !(('a' <= first && first <= 'z') || ('0' <= first && first <= '9')) {
        return false;
    }
    let mut i: usize = 1;
    while i < chars.len()
        invariant
            1 <= i <= chars@.len(),
            chars@ == key@,
            starts_topic(key@[0]),
            forall|j: int| 0 < j < i ==> continues_topic(#[trigger] key@[j]),
        decreases chars@.len() - i,
    {
        let c = chars[i];
        if !(('a' <= c && c <= 'z') || ('0' <= c && c <= '9') || c == '.' || c == '_' || c == '-') {
            assert(!continues_topic(key@[i as int]));
            return false;
        }
        i = i + 1;
    }
    true
}

/// A topic and how many of its activities may run at once.
#[derive(Debug, PartialEq, Eq)]
pub struct TopicDefinition {
    pub key: String,
    pub max_concurrency: u32,
}

impl Clone for TopicDefinition {
    fn clone(&self) -> (copy: Self)
        ensures
            copy == *self,
    {
        TopicDefinition { key: self.key.clone(), max_concurrency: self.max_concurrency }
    }
}

impl Ranked for TopicDefinition {
    open spec fn ranks_before(&self, other: &Self) -> bool {
        text::text_before(self.key@, other.key@)
    }

    proof fn lemma_asymmetric(a: &Self, b: &Self) {
        text::lemma_text_order(a.key@, b.key@);
    }

    proof fn lemma_not_before_transitive(a: &Self, b: &Self, c: &Self) {
        String::lemma_not_before_transitive(&a.key, &b.key, &c.key);
    }

    fn is_before(&self, other: &Self) -> (before: bool) {
        precedes(self.key.as_str(), other.key.as_str())
    }
}

/// The registered topics, each key at most once.
#[derive(Debug)]
pub struct TopicRegistry {
    topics: Vec<TopicDefinition>,
}

/// The map from topic keys to limits that a sequence of topics stands for.
pub open spec fn topic_map(topics: Seq<TopicDefinition>) -> Map<Seq<char>, u32>
    decreases topics.len(),
{
    if topics.len() == 0 {
        Map::empty()
    } else {
        topic_map(topics.drop_last()).insert(topics.last().key@, topics.last().max_concurrency)
    }
}

/// Whether no topic key occurs twice.
pub open spec fn distinct_topics(topics: Seq<TopicDefinition>) -> bool {
    forall|i: int, j: int|
        #![trigger topics[i], topics[j]]
        0 <= i < j < topics.len() ==> topics[i].key@ != topics[j].key@
}

proof fn lemma_topic_map(topics: Seq<TopicDefinition>)
    requires
        distinct_topics(topics),
    ensures
        forall|i: int|
            #![trigger topics[i]]
            0 <= i < topics.len() ==> topic_map(topics).contains_key(topics[i].key@) && topic_map(
                topics,
            )[topics[i].key@] == topics[i].max_concurrency,
        forall|key: Seq<char>| #[trigger]
            topic_map(topics).contains_key(key) ==> exists|i: int|
                0 <= i < topics.len() && (#[trigger] topics[i]).key@ == key,
        topic_map(topics).dom().finite(),
        topic_map(topics).dom().len() == topics.len(),
    decreases topics.len(),
{
    if topics.len() > 0 {
        let shorter = topics.drop_last();
        let last = topics.last();
        assert forall|i: int, j: int|
            #![trigger shorter[i], shorter[j]]
            0 <= i < j < shorter.len() implies shorter[i].key@ != shorter[j].key@ by {
            assert(shorter[i] == topics[i] && shorter[j] == topics[j]);
        }
        lemma_topic_map(shorter);
        assert(!topic_map(shorter).contains_key(last.key@)) by {
            if topic_map(shorter).contains_key(last.key@) {
                let i = choose|i: int|
                    0 <= i < shorter.len() && (#[trigger] shorter[i]).key@ == last.key@;
                assert(topics[i] == shorter[i]);
                assert(topics[topics.len() - 1] == last);
            }
        }
        assert forall|i: int|
            #![trigger topics[i]]
            0 <= i < topics.len() implies topic_map(topics).contains_key(topics[i].key@)
            && topic_map(topics)[topics[i].key@] == topics[i].max_concurrency by {
            if i < shorter.len() {
                assert(shorter[i] == topics[i]);
                assert(topics[topics.len() - 1] == last);
            }
        }
        assert forall|key: Seq<char>| #[trigger]
            topic_map(topics).contains_key(key) implies exists|i: int|
            0 <= i < topics.len() && (#[trigger] topics[i]).key@ == key by {
            if key == last.key@ {
                assert(topics[topics.len() - 1].key@ == key);
            } else {
                assert(topic_map(shorter).contains_key(key));
                let i = choose|i: int| 0 <= i < shorter.len() && (#[trigger] shorter[i]).key@ == key;
                assert(topics[i].key@ == key);
            }
        }
        assert(topic_map(topics).dom() =~= topic_map(shorter).dom().insert(last.key@));
    }
}

impl View for TopicRegistry {
    type V = Map<Seq<char>, u32>;

    closed spec fn view(&self) -> Map<Seq<char>, u32> {
        topic_map(self.topics@)
    }
}

/// Why a topic cannot be registered.
pub open spec fn topic_error(
    registered: Map<Seq<char>, u32>,
    key: Seq<char>,
    max_concurrency: u32,
) -> Option<ErrorModel> {
    if key.len() == 0 {
        Some(ErrorModel::InvalidDefinition("activity topic key cannot be empty"@))
    } else if !canonical_topic(key) {
        Some(
            ErrorModel::InvalidDefinition(
                "activity topic "@ + key + " must match [a-z0-9][a-z0-9._-]*"@,
            ),
        )
    } else if max_concurrency == 0 {
        Some(
            ErrorModel::InvalidDefinition(
                "activity topic "@ + key + " must allow at least one concurrent activity"@,
            ),
        )
    } else if registered.contains_key(key) && registered[key] != max_concurrency {
        Some(
            ErrorModel::InvalidDefinition(
                "activity topic "@ + key + " has conflicting concurrency limits "@
                    + numerals::decimal(registered[key] as int) + " and "@ + numerals::decimal(
                    max_concurrency as int,
                ),
            ),
        )
    } else {
        None
    }
}

/// Whether the definitions are all those of the map, in increasing order of their keys.
pub open spec fn lists_topic_definitions(
    topics: Seq<TopicDefinition>,
    map: Map<Seq<char>, u32>,
) -> bool {
    &&& order::is_ranked(topics)
    &&& distinct_topics(topics)
    &&& topic_map(topics) == map
}

/// What is wrong with a persisted topic limit.
pub open spec fn persisted_topic_error(
    registered: Map<Seq<char>, u32>,
    row: TopicLockRowModel,
) -> Option<ErrorModel> {
    if !registered.contains_key(row.topic) {
        Some(
            ErrorModel::InvalidState(
                "persisted topic "@ + row.topic + " was not registered"@,
            ),
        )
    } else if row.max_concurrency < 0 {
        Some(
            ErrorModel::InvalidState(
                "activity topic "@ + row.topic + " has invalid persisted concurrency limit "@
                    + numerals::decimal(row.max_concurrency as int),
            ),
        )
    } else if row.max_concurrency != registered[row.topic] {
        Some(
            ErrorModel::InvalidDefinition(
                "activity topic "@ + row.topic + " persisted concurrency limit "@
                    + numerals::decimal(row.max_concurrency as int)
                    + " does not match registered limit "@ + numerals::decimal(
                    registered[row.topic] as int,
                ),
            ),
        )
    } else {
        None
    }
}

/// The refusal of a limit that the database cannot hold.
pub open spec fn oversized_topic_error(key: Seq<char>, max_concurrency: u32) -> ErrorModel {
    ErrorModel::InvalidDefinition(
        "activity topic "@ + key + " concurrency limit "@ + numerals::decimal(
            max_concurrency as int,
        ) + " exceeds "@ + numerals::decimal(i32::MAX as int),
    )
}

/// The row that holds the limit of a topic.
pub open spec fn limit_row(topic: TopicDefinition, now: i64) -> NewTopicLockRowModel {
    NewTopicLockRowModel {
        topic: topic.key@,
        max_concurrency: topic.max_concurrency as i32,
        updated_at: now,
    }
}

/// Whether a row holds the limit of a topic, which is one that the database can
/// hold.
pub open spec fn holds_limit(topic: TopicDefinition, row: NewTopicLockRow, now: i64) -> bool {
    row@ == limit_row(topic, now) && topic.max_concurrency <= i32::MAX
}

/// Whether the rows hold the limits of the given topics, one after the other.
pub open spec fn hold_limits(
    topics: Seq<TopicDefinition>,
    rows: Seq<NewTopicLockRow>,
    now: i64,
) -> bool {
    &&& rows.len() == topics.len()
    &&& forall|i: int| 0 <= i < rows.len() ==> holds_limit(topics[i], #[trigger] rows[i], now)
}

proof fn lemma_one_more_limit(
    topics: Seq<TopicDefinition>,
    rows: Seq<NewTopicLockRow>,
    topic: TopicDefinition,
    row: NewTopicLockRow,
    now: i64,
)
    requires
        hold_limits(topics, rows, now),
        holds_limit(topic, row, now),
    ensures
        hold_limits(topics.push(topic), rows.push(row), now),
{
    let more = rows.push(row);
    assert forall|j: int| 0 <= j < more.len() implies holds_limit(
        topics.push(topic)[j],
        #[trigger] more[j],
        now,
    ) by {
        if j < rows.len() {
            assert(more[j] == rows[j]);
        }
    }
}

/// Whether the rows hold the limits of all topics of the map, in increasing order
/// of their keys.
pub open spec fn lists_lock_rows(
    registered: Map<Seq<char>, u32>,
    rows: Seq<NewTopicLockRow>,
    now: i64,
) -> bool {
    exists|topics: Seq<TopicDefinition>|
        lists_topic_definitions(topics, registered) && #[trigger] hold_limits(topics, rows, now)
}

/// Whether the persisted limits are the registered ones.
pub open spec fn agrees_with(registered: Map<Seq<char>, u32>, rows: Seq<TopicLockRow>) -> bool {
    forall|i: int|
        0 <= i < rows.len() ==> persisted_topic_error(registered, (#[trigger] rows[i])@) is None
}

impl Default for TopicRegistry {
    fn default() -> (registry: Self)
        ensures
            registry@ == Map::<Seq<char>, u32>::empty(),
    {
        TopicRegistry::new()
    }
}

impl TopicRegistry {
    #[verifier::type_invariant]
    spec fn distinct(self) -> bool {
        distinct_topics(self.topics@)
    }

    /// No topics.
    pub fn new() -> (registry: Self)
        ensures
            registry@ == Map::<Seq<char>, u32>::empty(),
    {
        TopicRegistry { topics: Vec::new() }
    }

    /// The topic with the given key.
    pub fn get(&self, key: &str) -> (topic: Option<&TopicDefinition>)
        ensures
            match topic {
                Some(t) => self@.contains_key(key@) && t.key@ == key@ && t.max_concurrency
                    == self@[key@],
                None => !self@.contains_key(key@),
            },
    {
        proof {
            use_type_invariant(self);
            lemma_topic_map(self.topics@);
        }
        let mut i: usize = 0;
        while i < self.topics.len()
            invariant
                i <= self.topics@.len(),
                forall|j: int| 0 <= j < i ==> (#[trigger] self.topics@[j]).key@ != key@,
            decreases self.topics@.len() - i,
        {
            if same_text(self.topics[i].key.as_str(), key) {
                proof {
                    use_type_invariant(self);
                    lemma_topic_map(self.topics@);
                }
                return Some(&self.topics[i]);
            }
            i = i + 1;
        }
        None
    }

    /// Registers a topic; the same topic with the same limit may be registered again.
    pub fn register(&mut self, key: &str, max_concurrency: u32) -> (result: Result<
        (),
        DurableError,
    >)
        ensures
            match result {
                Ok(()) => topic_error(old(self)@, key@, max_concurrency) is None && final(self)@
                    == old(self)@.insert(key@, max_concurrency),
                Err(error) => topic_error(old(self)@, key@, max_concurrency) == Some(error@)
                    && final(self)@ == old(self)@,
            },
    {
        if key.is_empty() {
            return Err(invalid_definition("activity topic key cannot be empty"));
        }
        if !is_canonical_topic_key(key) {
            return Err(
                DurableError::InvalidDefinition(
                    join3("activity topic ", key, " must match [a-z0-9][a-z0-9._-]*"),
                ),
            );
        }
        if max_concurrency == 0 {
            return Err(
                DurableError::InvalidDefinition(
                    join3("activity topic ", key, " must allow at least one concurrent activity"),
                ),
            );
        }
        match self.get(key) {
            Some(existing) => {
                if existing.max_concurrency == max_concurrency {
                    assert(self@.insert(key@, max_concurrency) =~= self@);
                    return Ok(());
                }
                let mut message = join5(
                    "activity topic ",
                    key,
                    " has conflicting concurrency limits ",
                    decimal_u64(existing.max_concurrency as u64).as_str(),
                    " and ",
                );
                message.append(decimal_u64(max_concurrency as u64).as_str());
                return Err(DurableError::InvalidDefinition(message));
            },
            None => {},
        }
        proof {
            use_type_invariant(&*self);
        }
        let mut topics: Vec<TopicDefinition> = Vec::new();
        std::mem::swap(&mut topics, &mut self.topics);
        let ghost before = topics@;
        proof {
            lemma_topic_map(before);
        }
        topics.push(TopicDefinition { key: key.to_owned(), max_concurrency });
        proof {
            assert(topics@.drop_last() =~= before);
            assert forall|i: int, j: int|
                #![trigger topics@[i], topics@[j]]
                0 <= i < j < topics@.len() implies topics@[i].key@ != topics@[j].key@ by {
                assert(before[i] == topics@[i]);
                if j < before.len() {
                    assert(before[j] == topics@[j]);
                }
            }
        }
        self.topics = topics;
        Ok(())
    }

    /// The number of topics.
    pub fn len(&self) -> (count: usize)
        ensures
            count == self@.dom().len(),
    {
        proof {
            use_type_invariant(self);
            lemma_topic_map(self.topics@);
        }
        self.topics.len()
    }

    /// Whether no topic is registered.
    pub fn is_empty(&self) -> (empty: bool)
        ensures
            empty == (self@.dom().len() == 0),
    {
        self.len() == 0
    }

    /// All topics in increasing order of their keys.
    pub fn definitions(&self) -> (definitions: Vec<TopicDefinition>)
        ensures
            lists_topic_definitions(definitions@, self@),
    {
        let mut copied: Vec<TopicDefinition> = Vec::new();
        let mut i: usize = 0;
        while i < self.topics.len()
            invariant
                i <= self.topics@.len(),
                copied@ == self.topics@.take(i as int),
            decreases self.topics@.len() - i,
        {
            copied.push(self.topics[i].clone());
            i = i + 1;
            assert(copied@ =~= self.topics@.take(i as int));
        }
        let ghost unsorted = copied@;
        let definitions = sort_ranked(copied);
        proof {
            use_type_invariant(self);
            assert(unsorted =~= self.topics@);
            lemma_topics_reordered(unsorted, definitions@);
        }
        definitions
    }

    /// The rows that hold the limits of all topics, in increasing order of their keys.
    ///
    /// Refuses a limit that the database cannot hold.
    pub fn lock_rows(&self, now: i64) -> (result: Result<Vec<NewTopicLockRow>, DurableError>)
        ensures
            match result {
                Ok(rows) => lists_lock_rows(self@, rows@, now),
                Err(error) => exists|key: Seq<char>|
                    #![trigger self@.contains_key(key)]
                    self@.contains_key(key) && self@[key] > i32::MAX && error@
                        == oversized_topic_error(key, self@[key]),
            },
    {
        let topics = self.definitions();
        proof {
            lemma_topic_map(topics@);
        }
        let mut rows: Vec<NewTopicLockRow> = Vec::new();
        let mut i: usize = 0;
        while i < topics.len()
            invariant
                i <= topics@.len(),
                lists_topic_definitions(topics@, self@),
                rows@.len() == i,
                hold_limits(topics@.take(i as int), rows@, now),
            decreases topics@.len() - i,
        {
            let topic = &topics[i];
            if topic.max_concurrency > 0x7fff_ffff {
                let mut message = join5(
                    "activity topic ",
                    topic.key.as_str(),
                    " concurrency limit ",
                    decimal_u64(topic.max_concurrency as u64).as_str(),
                    " exceeds ",
                );
                message.append(decimal_u64(0x7fff_ffff).as_str());
                proof {
                    lemma_topic_map(topics@);
                    assert(self@.contains_key(topics@[i as int].key@));
                }
                return Err(DurableError::InvalidDefinition(message));
            }
            let ghost before = rows@;
            let row = NewTopicLockRow {
                topic: topic.key.clone(),
                max_concurrency: topic.max_concurrency as i32,
                updated_at: now,
            };
            proof {
                lemma_one_more_limit(topics@.take(i as int), before, *topic, row, now);
                assert(topics@.take(i as int + 1) =~= topics@.take(i as int).push(*topic));
            }
            rows.push(row);
            i = i + 1;
        }
        assert(topics@.take(i as int) =~= topics@);
        Ok(rows)
    }

    /// Compares persisted limits with the registered ones; reports the first that differs.
    pub fn check_persisted(&self, rows: &Vec<TopicLockRow>) -> (result: Result<(), DurableError>)
        ensures
            match result {
                Ok(()) => agrees_with(self@, rows@),
                Err(error) => exists|i: int|
                    0 <= i < rows@.len() && persisted_topic_error(self@, (#[trigger] rows@[i])@)
                        == Some(error@) && (forall|j: int|
                        0 <= j < i ==> persisted_topic_error(
                            self@,
                            (#[trigger] rows@[j])@,
                        ) is None),
            },
    {
        let mut i: usize = 0;
        while i < rows.len()
            invariant
                i <= rows@.len(),
                forall|j: int|
                    0 <= j < i ==> persisted_topic_error(self@, (#[trigger] rows@[j])@) is None,
            decreases rows@.len() - i,
        {
            match self.check_persisted_row(&rows[i]) {
                Ok(()) => {},
                Err(error) => {
                    assert(persisted_topic_error(self@, rows@[i as int]@) == Some(error@));
                    return Err(error);
                },
            }
            i = i + 1;
        }
        Ok(())
    }

    fn check_persisted_row(&self, row: &TopicLockRow) -> (result: Result<(), DurableError>)
        ensures
            match result {
                Ok(()) => persisted_topic_error(self@, row@) is None,
                Err(error) => persisted_topic_error(self@, row@) == Some(error@),
            },
    {
        match self.get(row.topic.as_str()) {
            Some(topic) => {
                if row.max_concurrency < 0 {
                    let mut message = join3(
                        "activity topic ",
                        row.topic.as_str(),
                        " has invalid persisted concurrency limit ",
                    );
                    message.append(decimal_i64(row.max_concurrency as i64).as_str());
                    return Err(DurableError::InvalidState(message));
                }
                if row.max_concurrency as u32 != topic.max_concurrency {
                    let mut message = join5(
                        "activity topic ",
                        row.topic.as_str(),
                        " persisted concurrency limit ",
                        decimal_i64(row.max_concurrency as i64).as_str(),
                        " does not match registered limit ",
                    );
                    message.append(decimal_u64(topic.max_concurrency as u64).as_str());
                    return Err(DurableError::InvalidDefinition(message));
                }
                Ok(())
            },
            None => Err(
                DurableError::InvalidState(
                    join3("persisted topic ", row.topic.as_str(), " was not registered"),
                ),
            ),
        }
    }
}

proof fn lemma_topics_reordered(a: Seq<TopicDefinition>, b: Seq<TopicDefinition>)
    requires
        distinct_topics(a),
        a.to_multiset() == b.to_multiset(),
        a.len() == b.len(),
    ensures
        distinct_topics(b),
        topic_map(b) == topic_map(a),
{
    broadcast use vstd::seq_lib::group_to_multiset_ensures;

    assert(a.no_duplicates()) by {
        assert forall|i: int, j: int| 0 <= i < a.len() && 0 <= j < a.len() && i != j implies a[i]
            != a[j] by {
            if i < j {
                assert(a[i].key@ != a[j].key@);
            } else {
                assert(a[j].key@ != a[i].key@);
            }
        }
    }
    a.lemma_multiset_has_no_duplicates();
    assert(b.no_duplicates()) by {
        assert forall|x: TopicDefinition| b.to_multiset().contains(x) implies b.to_multiset().count(
            x,
        ) == 1 by {
            assert(a.to_multiset().contains(x));
        }
        b.lemma_multiset_has_no_duplicates_conv();
    }
    assert forall|i: int, j: int|
        #![trigger b[i], b[j]]
        0 <= i < j < b.len() implies b[i].key@ != b[j].key@ by {
        assert(b.contains(b[i]) && b.contains(b[j]));
        order::lemma_same_elements(a, b, b[i]);
        order::lemma_same_elements(a, b, b[j]);
        let x = choose|x: int| 0 <= x < a.len() && a[x] == b[i];
        let y = choose|y: int| 0 <= y < a.len() && a[y] == b[j];
        if x < y {
            assert(a[x].key@ != a[y].key@);
        } else if y < x {
            assert(a[y].key@ != a[x].key@);
        }
    }
    lemma_topic_map(a);
    lemma_topic_map(b);
    let left = topic_map(a);
    let right = topic_map(b);
    assert forall|key: Seq<char>| #[trigger] left.contains_key(key) implies right.contains_key(key)
        && left[key] == right[key] by {
        let i = choose|i: int| 0 <= i < a.len() && (#[trigger] a[i]).key@ == key;
        assert(a.contains(a[i]));
        order::lemma_same_elements(a, b, a[i]);
        let j = choose|j: int| 0 <= j < b.len() && b[j] == a[i];
        assert(b[j].key@ == key);
    }
    assert forall|key: Seq<char>| #[trigger] right.contains_key(key) implies left.contains_key(
        key,
    ) by {
        let j = choose|j: int| 0 <= j < b.len() && (#[trigger] b[j]).key@ == key;
        assert(b.contains(b[j]));
        order::lemma_same_elements(a, b, b[j]);
        let i = choose|i: int| 0 <= i < a.len() && a[i] == b[j];
        assert(a[i].key@ == key);
    }
    assert(left =~= right);
}

/// What seeding the limits of a registry does next.
#[derive(Debug)]
pub enum SeedStep {
    /// Reads the time of the database.
    ReadClock,
    /// Inserts the rows whose topics are absent.
    Insert(Vec<NewTopicLockRow>),
    /// Reads the rows of these topics.
    Select(Vec<String>),
    /// Ends: the limits are seeded.
    Done,
    /// Ends with a refusal.
    Refuse(DurableError),
}

/// What happened to the seeding of a registry.
#[derive(Debug)]
pub enum SeedEvent {
    /// Seeding was asked for.
    Called,
    /// The time of the database.
    Clock(i64),
    /// The rows were inserted where they were absent.
    Inserted,
    /// The rows that the database holds.
    Selected(Vec<TopicLockRow>),
}

/// Whether some texts are the registered topics, in increasing order.
pub open spec fn lists_topics(registered: Map<Seq<char>, u32>, topics: Seq<String>) -> bool {
    exists|definitions: Seq<TopicDefinition>| #[trigger]
        lists_topic_definitions(definitions, registered) && topics.len() == definitions.len()
            && forall|i: int| 0 <= i < topics.len() ==> #[trigger] topics[i] == definitions[i].key
}

/// Whether a step, and whether the registry counts as seeded then, follow an event.
/// A seeded registry does nothing. Another one is seeded once it has nothing to seed
/// or once the rows that the database holds were accepted; a refusal leaves it
/// unseeded.
pub open spec fn seeds(
    registered: Map<Seq<char>, u32>,
    seeded: bool,
    event: SeedEvent,
    next: (bool, SeedStep),
) -> bool {
    if seeded {
        next == (true, SeedStep::Done)
    } else {
        match event {
            SeedEvent::Called => next == (false, SeedStep::ReadClock),
            SeedEvent::Clock(now) => match next.1 {
                SeedStep::Insert(rows) => !next.0 && rows@.len() > 0 && lists_lock_rows(
                    registered,
                    rows@,
                    now,
                ),
                SeedStep::Done => next.0 && registered.dom() == Set::<Seq<char>>::empty(),
                SeedStep::Refuse(error) => !next.0 && exists|key: Seq<char>|
                    #![trigger registered.contains_key(key)]
                    registered.contains_key(key) && registered[key] > i32::MAX && error@
                        == oversized_topic_error(key, registered[key]),
                _ => false,
            },
            SeedEvent::Inserted => !next.0 && (next.1 matches SeedStep::Select(topics)
                && lists_topics(registered, topics@)),
            SeedEvent::Selected(rows) => match next.1 {
                SeedStep::Done => next.0 && agrees_with(registered, rows@),
                SeedStep::Refuse(error) => !next.0 && exists|i: int|
                    0 <= i < rows@.len() && persisted_topic_error(
                        registered,
                        (#[trigger] rows@[i])@,
                    ) == Some(error@) && agrees_with(registered, rows@.take(i)),
                _ => false,
            },
        }
    }
}

impl TopicRegistry {
    /// What seeding the limits of the registry does after an event, and whether the
    /// registry counts as seeded then. It begins with [`SeedEvent::Called`].
    pub fn seed_step(&self, seeded: bool, event: SeedEvent) -> (next: (bool, SeedStep))
        ensures
            seeds(self@, seeded, event, next),
    {
        if seeded {
            return (true, SeedStep::Done);
        }
        match event {
            SeedEvent::Called => (false, SeedStep::ReadClock),
            SeedEvent::Clock(now) => match self.lock_rows(now) {
                Ok(rows) => {
                    proof {
                        lemma_lock_rows(self@, rows@, now);
                    }
                    if rows.len() == 0 {
                        assert(self@.dom() =~= Set::<Seq<char>>::empty());
                        (true, SeedStep::Done)
                    } else {
                        (false, SeedStep::Insert(rows))
                    }
                },
                Err(error) => (false, SeedStep::Refuse(error)),
            },
            SeedEvent::Inserted => {
                let definitions = self.definitions();
                let mut topics: Vec<String> = Vec::new();
                let mut i: usize = 0;
                while i < definitions.len()
                    invariant
                        i <= definitions@.len(),
                        topics@.len() == i,
                        forall|j: int| 0 <= j < i ==> #[trigger] topics@[j] == definitions@[j].key,
                    decreases definitions@.len() - i,
                {
                    topics.push(definitions[i].key.clone());
                    i = i + 1;
                }
                assert(lists_topic_definitions(definitions@, self@));
                (false, SeedStep::Select(topics))
            },
            SeedEvent::Selected(rows) => match self.check_persisted(&rows) {
                Ok(()) => (true, SeedStep::Done),
                Err(error) => {
                    proof {
                        let i = choose|i: int|
                            0 <= i < rows@.len() && persisted_topic_error(
                                self@,
                                (#[trigger] rows@[i])@,
                            ) == Some(error@) && (forall|j: int|
                                0 <= j < i ==> persisted_topic_error(
                                    self@,
                                    (#[trigger] rows@[j])@,
                                ) is None);
                        assert forall|j: int| 0 <= j < i implies persisted_topic_error(
                            self@,
                            (#[trigger] rows@.take(i)[j])@,
                        ) is None by {
                            assert(rows@.take(i)[j] == rows@[j]);
                        }
                        assert(agrees_with(self@, rows@.take(i)));
                    }
                    (false, SeedStep::Refuse(error))
                },
            },
        }
    }
}

/// The table of limits: for each topic the row that it is kept in.
pub type LockTable = Map<Seq<char>, TopicLockRowModel>;

/// Whether every row of the table stands under its topic.
pub open spec fn keyed_by_topic(table: LockTable) -> bool {
    forall|key: Seq<char>| #[trigger]
        table.contains_key(key) ==> table[key].topic == key
}

/// The table after rows were inserted whose topics it did not hold; a row that
/// it holds stays as it is.
pub open spec fn with_absent(table: LockTable, rows: Seq<NewTopicLockRow>) -> LockTable
    decreases rows.len(),
{
    if rows.len() == 0 {
        table
    } else {
        let before = with_absent(table, rows.drop_last());
        let row = rows.last()@;
        if before.contains_key(row.topic) {
            before
        } else {
            before.insert(
                row.topic,
                TopicLockRowModel {
                    topic: row.topic,
                    max_concurrency: row.max_concurrency,
                    updated_at: row.updated_at,
                },
            )
        }
    }
}

/// Whether some rows are those of the table whose topics were inserted.
pub open spec fn selects(
    table: LockTable,
    rows: Seq<NewTopicLockRow>,
    selected: Seq<TopicLockRow>,
) -> bool {
    &&& forall|i: int|
        0 <= i < selected.len() ==> table.contains_key((#[trigger] selected[i])@.topic)
            && table[selected[i]@.topic] == selected[i]@ && exists|k: int|
            0 <= k < rows.len() && (#[trigger] rows[k])@.topic == selected[i]@.topic
    &&& forall|i: int|
        0 <= i < rows.len() && table.contains_key((#[trigger] rows[i])@.topic)
            ==> exists|j: int|
            0 <= j < selected.len() && (#[trigger] selected[j])@ == table[rows[i]@.topic]
}

proof fn lemma_with_absent(table: LockTable, rows: Seq<NewTopicLockRow>)
    requires
        keyed_by_topic(table),
    ensures
        keyed_by_topic(with_absent(table, rows)),
        forall|key: Seq<char>| #[trigger]
            table.contains_key(key) ==> with_absent(table, rows).contains_key(key) && with_absent(
                table,
                rows,
            )[key] == table[key],
        forall|i: int|
            0 <= i < rows.len() ==> with_absent(table, rows).contains_key(
                (#[trigger] rows[i])@.topic,
            ),
    decreases rows.len(),
{
    if rows.len() > 0 {
        let shorter = rows.drop_last();
        lemma_with_absent(table, shorter);
        assert forall|i: int| 0 <= i < rows.len() implies with_absent(table, rows).contains_key(
            (#[trigger] rows[i])@.topic,
        ) by {
            if i < shorter.len() {
                assert(shorter[i] == rows[i]);
            }
        }
    }
}

proof fn lemma_nothing_absent(table: LockTable, rows: Seq<NewTopicLockRow>)
    requires
        forall|i: int| 0 <= i < rows.len() ==> table.contains_key((#[trigger] rows[i])@.topic),
    ensures
        with_absent(table, rows) == table,
    decreases rows.len(),
{
    if rows.len() > 0 {
        let shorter = rows.drop_last();
        assert forall|i: int| 0 <= i < shorter.len() implies table.contains_key(
            (#[trigger] shorter[i])@.topic,
        ) by {
            assert(shorter[i] == rows[i]);
        }
        lemma_nothing_absent(table, shorter);
        assert(rows[rows.len() - 1] == rows.last());
    }
}

proof fn lemma_lock_rows(registered: Map<Seq<char>, u32>, rows: Seq<NewTopicLockRow>, now: i64)
    requires
        lists_lock_rows(registered, rows, now),
    ensures
        forall|i: int|
            0 <= i < rows.len() ==> registered.contains_key((#[trigger] rows[i])@.topic),
        forall|key: Seq<char>| #[trigger]
            registered.contains_key(key) ==> exists|i: int|
                0 <= i < rows.len() && (#[trigger] rows[i])@.topic == key,
{
    let topics = choose|topics: Seq<TopicDefinition>|
        lists_topic_definitions(topics, registered) && #[trigger] hold_limits(topics, rows, now);
    lemma_topic_map(topics);
    assert forall|i: int| 0 <= i < rows.len() implies registered.contains_key(
        (#[trigger] rows[i])@.topic,
    ) by {
        assert(topics[i].key@ == rows[i]@.topic);
    }
    assert forall|key: Seq<char>| #[trigger] registered.contains_key(key) implies exists|i: int|
        0 <= i < rows.len() && (#[trigger] rows[i])@.topic == key by {
        assert(topic_map(topics).contains_key(key));
        let i = choose|i: int| 0 <= i < topics.len() && (#[trigger] topics[i]).key@ == key;
        assert(rows[i]@.topic == key);
    }
}

/// Seeding makes the persisted limits those of the registry: once the rows of
/// [`TopicRegistry::lock_rows`] were inserted where they were absent, and
/// [`TopicRegistry::check_persisted`] has accepted the rows of their topics,
/// every registered topic has a row with its registered limit. No row that was
/// there before is changed, and seeding again, at whatever time, writes no row
/// and is accepted again.
pub proof fn law_seeded_limits_are_registered(
    registered: Map<Seq<char>, u32>,
    table: LockTable,
    now: i64,
    rows: Seq<NewTopicLockRow>,
    selected: Seq<TopicLockRow>,
    later: i64,
    later_rows: Seq<NewTopicLockRow>,
    later_selected: Seq<TopicLockRow>,
)
    requires
        keyed_by_topic(table),
        lists_lock_rows(registered, rows, now),
        selects(with_absent(table, rows), rows, selected),
        agrees_with(registered, selected),
        lists_lock_rows(registered, later_rows, later),
        selects(with_absent(table, rows), later_rows, later_selected),
    ensures
        forall|key: Seq<char>| #[trigger]
            registered.contains_key(key) ==> with_absent(table, rows).contains_key(key)
                && with_absent(table, rows)[key].max_concurrency == registered[key],
        forall|key: Seq<char>| #[trigger]
            table.contains_key(key) ==> with_absent(table, rows)[key] == table[key],
        with_absent(with_absent(table, rows), later_rows) == with_absent(table, rows),
        agrees_with(registered, later_selected),
{
    let seeded = with_absent(table, rows);
    lemma_with_absent(table, rows);
    lemma_lock_rows(registered, rows, now);
    lemma_lock_rows(registered, later_rows, later);
    assert forall|key: Seq<char>| #[trigger] registered.contains_key(key) implies seeded.contains_key(
        key,
    ) && seeded[key].max_concurrency == registered[key] by {
        let i = choose|i: int| 0 <= i < rows.len() && (#[trigger] rows[i])@.topic == key;
        assert(seeded.contains_key(rows[i]@.topic));
        let j = choose|j: int|
            0 <= j < selected.len() && (#[trigger] selected[j])@ == seeded[rows[i]@.topic];
        assert(persisted_topic_error(registered, selected[j]@) is None);
    }
    assert forall|i: int| 0 <= i < later_rows.len() implies seeded.contains_key(
        (#[trigger] later_rows[i])@.topic,
    ) by {
        assert(registered.contains_key(later_rows[i]@.topic));
    }
    lemma_nothing_absent(seeded, later_rows);
    assert forall|i: int| 0 <= i < later_selected.len() implies persisted_topic_error(
        registered,
        (#[trigger] later_selected[i])@,
    ) is None by {
        let row = later_selected[i]@;
        assert(seeded[row.topic] == row);
        let k = choose|k: int|
            0 <= k < later_rows.len() && (#[trigger] later_rows[k])@.topic == row.topic;
        assert(registered.contains_key(later_rows[k]@.topic));
    }
}

/// The limits of a registry are seeded at most once. Where a first seeding inserted
/// the rows that were absent and accepted the rows that the table then held, every
/// registered topic has a row with its registered limit, and no row that was there
/// before is changed; a registered topic whose row holds another limit makes the
/// seeding end with a refusal. Once a registry is seeded, whatever happens next, it
/// stays seeded and neither reads nor writes a row.
pub proof fn law_limits_are_seeded_once(
    registered: Map<Seq<char>, u32>,
    table: LockTable,
    now: i64,
    rows: Vec<NewTopicLockRow>,
    selected: Vec<TopicLockRow>,
    first: (bool, SeedStep),
    event: SeedEvent,
    later: (bool, SeedStep),
)
    requires
        keyed_by_topic(table),
        seeds(registered, false, SeedEvent::Clock(now), (false, SeedStep::Insert(rows))),
        selects(with_absent(table, rows@), rows@, selected@),
        seeds(registered, false, SeedEvent::Selected(selected), first),
        seeds(registered, first.0, event, later),
    ensures
        first.0 <==> first.1 is Done,
        first.0 ==> forall|key: Seq<char>| #[trigger]
            registered.contains_key(key) ==> with_absent(table, rows@).contains_key(key)
                && with_absent(table, rows@)[key].max_concurrency == registered[key],
        (exists|key: Seq<char>| #[trigger]
            registered.contains_key(key) && table.contains_key(key) && table[key].max_concurrency
                != registered[key]) ==> first.1 is Refuse,
        forall|key: Seq<char>| #[trigger]
            table.contains_key(key) ==> with_absent(table, rows@)[key] == table[key],
        first.0 ==> later == (true, SeedStep::Done),
{
    let seeded = with_absent(table, rows@);
    lemma_with_absent(table, rows@);
    lemma_lock_rows(registered, rows@, now);
    if first.0 {
        assert forall|key: Seq<char>| #[trigger]
            registered.contains_key(key) implies seeded.contains_key(key)
            && seeded[key].max_concurrency == registered[key] by {
            let i = choose|i: int| 0 <= i < rows@.len() && (#[trigger] rows@[i])@.topic == key;
            assert(seeded.contains_key(rows@[i]@.topic));
            let j = choose|j: int|
                0 <= j < selected@.len() && (#[trigger] selected@[j])@ == seeded[rows@[i]@.topic];
            assert(persisted_topic_error(registered, selected@[j]@) is None);
        }
    }
}

/// A registry without topics is seeded without a look at the table, and stays so.
pub proof fn law_nothing_to_seed(
    registered: Map<Seq<char>, u32>,
    now: i64,
    first: (bool, SeedStep),
    event: SeedEvent,
    later: (bool, SeedStep),
)
    requires
        registered.dom() == Set::<Seq<char>>::empty(),
        seeds(registered, false, SeedEvent::Clock(now), first),
        seeds(registered, first.0, event, later),
    ensures
        first == (true, SeedStep::Done),
        later == (true, SeedStep::Done),
{
    if let SeedStep::Insert(rows) = first.1 {
        lemma_lock_rows(registered, rows@, now);
        assert(registered.contains_key(rows@[0]@.topic));
    }
}

/// A topic is registered exactly where its key starts with a lower-case letter or a digit
/// and goes on with those, dots, underscores and hyphens, it admits at least one activity,
/// and it was not registered before with another limit.
pub proof fn law_topic_is_refused_only_for_a_reason(
    registered: Map<Seq<char>, u32>,
    key: Seq<char>,
    max_concurrency: u32,
)
    ensures
        topic_error(registered, key, max_concurrency) is None <==> {
            &&& key.len() > 0
            &&& 'a' <= key[0] <= 'z' || '0' <= key[0] <= '9'
            &&& forall|i: int|
                0 < i < key.len() ==> 'a' <= #[trigger] key[i] <= 'z' || '0' <= key[i] <= '9'
                    || key[i] == '.' || key[i] == '_' || key[i] == '-'
            &&& max_concurrency > 0
            &&& registered.contains_key(key) ==> registered[key] == max_concurrency
        },
{
    if key.len() > 0 && (forall|i: int|
        0 < i < key.len() ==> 'a' <= #[trigger] key[i] <= 'z' || '0' <= key[i] <= '9' || key[i]
            == '.' || key[i] == '_' || key[i] == '-') {
        assert forall|i: int| 0 < i < key.len() implies continues_topic(#[trigger] key[i]) by {}
    }
    if canonical_topic(key) {
        assert forall|i: int| 0 < i < key.len() implies 'a' <= #[trigger] key[i] <= 'z' || '0'
            <= key[i] <= '9' || key[i] == '.' || key[i] == '_' || key[i] == '-' by {
            assert(continues_topic(key[i]));
        }
    }
}

/// A persisted limit is accepted exactly where its topic is registered with that very
/// limit.
pub proof fn law_persisted_limit_is_the_registered_one(
    registered: Map<Seq<char>, u32>,
    row: TopicLockRowModel,
)
    ensures
        persisted_topic_error(registered, row) is None <==> registered.contains_key(row.topic)
            && row.max_concurrency == registered[row.topic],
{
}

/// The row of a topic holds its key and its limit, as written now.
pub proof fn law_limit_row_holds_the_limit(topic: TopicDefinition, now: i64)
    requires
        topic.max_concurrency <= i32::MAX,
    ensures
        ({
            let row = limit_row(topic, now);
            &&& row.topic == topic.key@
            &&& row.max_concurrency == topic.max_concurrency
            &&& row.updated_at == now
        }),
{
}

} // verus!
