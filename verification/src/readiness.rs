//! Whether every definition that stored work needs is registered.
use vstd::prelude::*;
use crate::definition::DefinitionKey;
use crate::error;
use crate::error::{DurableError, ErrorModel};
use crate::order;
use crate::order::{dedup_ranked, sort_ranked};
use crate::registry;
use crate::registry::{ActivityEntry, ActivityRegistry, WorkflowRegistry};
use crate::text;
use crate::topics::TopicRegistry;

verus! {

/// The definitions and topics that stored work needs and that are not registered.
#[derive(Debug, Clone, PartialEq, Eq)]
pub struct ReadinessReport {
    missing_workflows: Vec<(String, i32)>,
    missing_activities: Vec<(String, i32)>,
    missing_topics: Vec<String>,
}

/// Whether `missing` holds, once and in increasing order, the required keys
/// that are not registered.
pub open spec fn lists_missing<T>(
    missing: Seq<(String, i32)>,
    required: Seq<(String, i32)>,
    registered: Map<(Seq<char>, int), T>,
) -> bool {
    &&& order::strictly_ranked(missing)
    &&& forall|i: int|
        0 <= i < missing.len() ==> !registered.contains_key(order::pair_view(#[trigger] missing[i]))
            && registry::holds_key(required, order::pair_view(missing[i]))
    &&& forall|i: int|
        0 <= i < required.len() && !registered.contains_key(
            order::pair_view(#[trigger] required[i]),
        ) ==> registry::holds_key(missing, order::pair_view(required[i]))
}

/// Whether `missing` holds, once and in increasing order, the topics that an
/// activity or stored work needs and that are not registered.
pub open spec fn lists_missing_topics<H>(
    missing: Seq<String>,
    activities: Map<(Seq<char>, int), ActivityEntry<H>>,
    stored: Seq<String>,
    registered: Map<Seq<char>, u32>,
) -> bool {
    &&& order::strictly_ranked(missing)
    &&& forall|i: int|
        0 <= i < missing.len() ==> !registered.contains_key((#[trigger] missing[i])@) && (
        registry::queues_under(activities, missing[i]@) || registry::among(stored, missing[i]@))
    &&& forall|topic: Seq<char>|
        (#[trigger] registry::queues_under(activities, topic) || registry::among(stored, topic))
            && !registered.contains_key(topic) ==> registry::among(missing, topic)
}

spec fn absent_before(
    required: Seq<(String, i32)>,
    present: Seq<bool>,
    limit: int,
    value: (String, i32),
) -> bool {
    exists|j: int| 0 <= j < limit && !present[j] && #[trigger] required[j] == value
}

fn missing_keys(required: Vec<(String, i32)>, present: &Vec<bool>) -> (missing: Vec<
    (String, i32),
>)
    requires
        present@.len() == required@.len(),
    ensures
        order::strictly_ranked(missing@),
        forall|i: int|
            0 <= i < missing@.len() ==> absent_before(
                required@,
                present@,
                required@.len() as int,
                #[trigger] missing@[i],
            ),
        forall|j: int|
            0 <= j < required@.len() && !present@[j] ==> registry::holds_key(
                missing@,
                order::pair_view(#[trigger] required@[j]),
            ),
{
    let mut kept: Vec<(String, i32)> = Vec::new();
    let mut i: usize = 0;
    while i < required.len()
        invariant
            i <= required@.len(),
            present@.len() == required@.len(),
            forall|k: int|
                0 <= k < kept@.len() ==> absent_before(
                    required@,
                    present@,
                    i as int,
                    #[trigger] kept@[k],
                ),
            forall|j: int|
                0 <= j < i && !present@[j] ==> kept@.contains(#[trigger] required@[j]),
        decreases required@.len() - i,
    {
        let ghost before = kept@;
        let ghost at = i as int;
        proof {
            assert forall|value: (String, i32)| #[trigger]
                absent_before(required@, present@, at, value) implies absent_before(
                required@,
                present@,
                at + 1,
                value,
            ) by {
                let j = choose|j: int|
                    0 <= j < at && !present@[j] && #[trigger] required@[j] == value;
                assert(required@[j] == value);
            }
        }
        if !present[i] {
            kept.push((required[i].0.clone(), required[i].1));
            proof {
                assert(kept@[before.len() as int] == required@[i as int]);
                assert(absent_before(required@, present@, at + 1, required@[at]));
                assert forall|j: int| 0 <= j < i + 1 && !present@[j] implies kept@.contains(
                    #[trigger] required@[j],
                ) by {
                    if j < i {
                        assert(before.contains(required@[j]));
                        let k = choose|k: int| 0 <= k < before.len() && before[k] == required@[j];
                        assert(kept@[k] == required@[j]);
                    }
                }
                assert forall|k: int| 0 <= k < kept@.len() implies absent_before(
                    required@,
                    present@,
                    at + 1,
                    #[trigger] kept@[k],
                ) by {
                    if k < before.len() {
                        assert(before[k] == kept@[k]);
                    }
                }
            }
        }
        i = i + 1;
    }
    let ghost unsorted = kept@;
    let sorted = sort_ranked(kept);
    let ghost ranked = sorted@;
    let missing = dedup_ranked(sorted);
    proof {
        assert forall|i: int| 0 <= i < missing@.len() implies absent_before(
            required@,
            present@,
            required@.len() as int,
            #[trigger] missing@[i],
        ) by {
            registry::lemma_sorted_source(unsorted, ranked, missing@, i);
            let k = choose|k: int| 0 <= k < unsorted.len() && unsorted[k] == missing@[i];
            assert(unsorted[k] == missing@[i]);
        }
        assert forall|j: int| 0 <= j < required@.len() && !present@[j] implies registry::holds_key(
            missing@,
            order::pair_view(#[trigger] required@[j]),
        ) by {
            assert(unsorted.contains(required@[j]));
            let k = choose|k: int| 0 <= k < unsorted.len() && unsorted[k] == required@[j];
            registry::lemma_sorted_image(unsorted, ranked, missing@, k);
        }
    }
    missing
}

impl Default for ReadinessReport {
    fn default() -> (report: Self)
        ensures
            report.workflows() == Seq::<(String, i32)>::empty(),
            report.activities() == Seq::<(String, i32)>::empty(),
            report.topics() == Seq::<String>::empty(),
    {
        ReadinessReport {
            missing_workflows: Vec::new(),
            missing_activities: Vec::new(),
            missing_topics: Vec::new(),
        }
    }
}

impl ReadinessReport {
    /// The unregistered workflow definitions.
    pub closed spec fn workflows(&self) -> Seq<(String, i32)> {
        self.missing_workflows@
    }

    /// The unregistered activity definitions.
    pub closed spec fn activities(&self) -> Seq<(String, i32)> {
        self.missing_activities@
    }

    /// The unregistered topics.
    pub closed spec fn topics(&self) -> Seq<String> {
        self.missing_topics@
    }

    /// Compares the definitions that stored work needs with the registered ones.
    pub fn compare<W, A>(
        workflows: &WorkflowRegistry<W>,
        activities: &ActivityRegistry<A>,
        required_workflows: Vec<(String, i32)>,
        required_activities: Vec<(String, i32)>,
    ) -> (report: Self)
        ensures
            lists_missing(report.workflows(), required_workflows@, workflows@),
            lists_missing(report.activities(), required_activities@, activities@),
            report.topics().len() == 0,
    {
        let mut known_workflows: Vec<bool> = Vec::new();
        let mut i: usize = 0;
        while i < required_workflows.len()
            invariant
                i <= required_workflows@.len(),
                known_workflows@.len() == i,
                forall|j: int|
                    0 <= j < i ==> known_workflows@[j] == workflows@.contains_key(
                        order::pair_view(#[trigger] required_workflows@[j]),
                    ),
            decreases required_workflows@.len() - i,
        {
            let key = &required_workflows[i];
            known_workflows.push(workflows.contains(key.0.as_str(), key.1));
            i = i + 1;
        }
        let mut known_activities: Vec<bool> = Vec::new();
        let mut k: usize = 0;
        while k < required_activities.len()
            invariant
                k <= required_activities@.len(),
                known_activities@.len() == k,
                forall|j: int|
                    0 <= j < k ==> known_activities@[j] == activities@.contains_key(
                        order::pair_view(#[trigger] required_activities@[j]),
                    ),
            decreases required_activities@.len() - k,
        {
            let key = &required_activities[k];
            known_activities.push(activities.contains(key.0.as_str(), key.1));
            k = k + 1;
        }
        let missing_workflows = missing_keys(required_workflows, &known_workflows);
        let missing_activities = missing_keys(required_activities, &known_activities);
        proof {
            lemma_lists_missing(
                missing_workflows@,
                required_workflows@,
                known_workflows@,
                workflows@,
            );
            lemma_lists_missing(
                missing_activities@,
                required_activities@,
                known_activities@,
                activities@,
            );
        }
        ReadinessReport { missing_workflows, missing_activities, missing_topics: Vec::new() }
    }

    /// The full report over stored definitions and topics.
    ///
    /// `required_activities` and `stored_topics` are those of pending and running
    /// activities and of dead letters that a blocked or paused workflow waits for.
    pub fn assemble<W, A>(
        workflows: &WorkflowRegistry<W>,
        activities: &ActivityRegistry<A>,
        topics: &TopicRegistry,
        required_workflows: Vec<(String, i32)>,
        required_activities: Vec<(String, i32)>,
        stored_topics: Vec<String>,
    ) -> (report: Self)
        ensures
            lists_missing(report.workflows(), required_workflows@, workflows@),
            lists_missing(report.activities(), required_activities@, activities@),
            lists_missing_topics(report.topics(), activities@, stored_topics@, topics@),
    {
        let compared = Self::compare(
            workflows,
            activities,
            required_workflows,
            required_activities,
        );
        let registered = activities.required_topics();
        let mut kept: Vec<String> = Vec::new();
        keep_unregistered(&mut kept, &registered, topics);
        keep_unregistered(&mut kept, &stored_topics, topics);
        let ghost unsorted = kept@;
        let sorted = sort_ranked(kept);
        let ghost ranked = sorted@;
        let missing_topics = dedup_ranked(sorted);
        proof {
            let missing = missing_topics@;
            assert forall|i: int| 0 <= i < missing.len() implies !topics@.contains_key(
                (#[trigger] missing[i])@,
            ) && (registry::queues_under(activities@, missing[i]@) || registry::among(
                stored_topics@,
                missing[i]@,
            )) by {
                order::lemma_same_elements(ranked, unsorted, missing[i]);
                let k = choose|k: int| 0 <= k < unsorted.len() && unsorted[k] == missing[i];
                assert(registry::among(registered@, unsorted[k]@) || registry::among(
                    stored_topics@,
                    unsorted[k]@,
                ));
                if registry::among(registered@, unsorted[k]@) {
                    let r = choose|r: int|
                        0 <= r < registered@.len() && (#[trigger] registered@[r])@ == unsorted[k]@;
                    assert(registry::queues_under(activities@, registered@[r]@));
                }
            }
            assert forall|topic: Seq<char>|
                (#[trigger] registry::queues_under(activities@, topic) || registry::among(
                    stored_topics@,
                    topic,
                )) && !topics@.contains_key(topic) implies registry::among(missing, topic) by {
                if registry::queues_under(activities@, topic) {
                    let key = choose|key: (Seq<char>, int)| #[trigger]
                        activities@.contains_key(key) && activities@[key].topic@ == topic;
                    assert(registry::among(registered@, topic));
                }
                assert(registry::among(unsorted, topic));
                let k = choose|k: int|
                    0 <= k < unsorted.len() && (#[trigger] unsorted[k])@ == topic;
                assert(unsorted.contains(unsorted[k]));
                order::lemma_same_elements(ranked, unsorted, unsorted[k]);
                let r = choose|r: int| 0 <= r < ranked.len() && ranked[r] == unsorted[k];
                assert(order::represented(ranked[r], missing));
                let i = choose|i: int|
                    0 <= i < missing.len() && #[trigger] order::same_rank(ranked[r], missing[i]);
                text::lemma_text_order(ranked[r]@, missing[i]@);
                assert(missing[i]@ == topic);
            }
        }
        ReadinessReport {
            missing_workflows: compared.missing_workflows,
            missing_activities: compared.missing_activities,
            missing_topics,
        }
    }

    /// The unregistered workflow definitions.
    pub fn missing_workflows(&self) -> (missing: &Vec<(String, i32)>)
        ensures
            missing@ == self.workflows(),
    {
        &self.missing_workflows
    }

    /// The unregistered activity definitions.
    pub fn missing_activities(&self) -> (missing: &Vec<(String, i32)>)
        ensures
            missing@ == self.activities(),
    {
        &self.missing_activities
    }

    /// The unregistered topics.
    pub fn missing_topics(&self) -> (missing: &Vec<String>)
        ensures
            missing@ == self.topics(),
    {
        &self.missing_topics
    }

    /// Refuses to go on while anything is missing.
    pub fn ensure_ready(&self) -> (result: Result<(), DurableError>)
        ensures
            match result {
                Ok(()) => self.workflows().len() == 0 && self.activities().len() == 0
                    && self.topics().len() == 0,
                Err(error) => {
                    &&& !(self.workflows().len() == 0 && self.activities().len() == 0
                        && self.topics().len() == 0)
                    &&& error@ == (ErrorModel::MissingDefinitions {
                        workflows: self.workflows().map_values(
                            |pair: (String, i32)| order::pair_view(pair),
                        ),
                        activities: self.activities().map_values(
                            |pair: (String, i32)| order::pair_view(pair),
                        ),
                        topics: text::texts(self.topics()),
                    })
                },
            },
    {
        if self.missing_workflows.len() == 0 && self.missing_activities.len() == 0
            && self.missing_topics.len() == 0 {
            return Ok(());
        }
        let mut topics: Vec<String> = Vec::new();
        let mut i: usize = 0;
        while i < self.missing_topics.len()
            invariant
                i <= self.missing_topics@.len(),
                topics@ == self.missing_topics@.take(i as int),
            decreases self.missing_topics@.len() - i,
        {
            topics.push(self.missing_topics[i].clone());
            i = i + 1;
            assert(topics@ =~= self.missing_topics@.take(i as int));
        }
        assert(topics@ =~= self.missing_topics@);
        Err(
            DurableError::MissingDefinitions {
                workflows: keys_of(&self.missing_workflows),
                activities: keys_of(&self.missing_activities),
                topics,
            },
        )
    }
}

fn keep_unregistered(kept: &mut Vec<String>, candidates: &Vec<String>, topics: &TopicRegistry)
    ensures
        forall|topic: Seq<char>| #[trigger]
            registry::among(final(kept)@, topic) <==> registry::among(old(kept)@, topic) || (
            registry::among(candidates@, topic) && !topics@.contains_key(topic)),
        forall|k: int| 0 <= k < old(kept)@.len() ==> final(kept)@[k] == #[trigger] old(kept)@[k],
        forall|k: int|
            0 <= k < final(kept)@.len() ==> registry::among(
                final(kept)@,
                (#[trigger] final(kept)@[k])@,
            ),
{
    let ghost start = kept@;
    let mut i: usize = 0;
    while i < candidates.len()
        invariant
            i <= candidates@.len(),
            start.len() <= kept@.len(),
            forall|k: int| 0 <= k < start.len() ==> kept@[k] == #[trigger] start[k],
            forall|k: int|
                start.len() <= k < kept@.len() ==> !topics@.contains_key((#[trigger] kept@[k])@)
                    && registry::among(candidates@, kept@[k]@),
            forall|j: int|
                0 <= j < i && !topics@.contains_key((#[trigger] candidates@[j])@)
                    ==> registry::among(kept@, candidates@[j]@),
        decreases candidates@.len() - i,
    {
        let ghost before = kept@;
        match topics.get(candidates[i].as_str()) {
            Some(_) => {},
            None => {
                kept.push(candidates[i].clone());
                assert(kept@[before.len() as int] == candidates@[i as int]);
                assert(registry::among(candidates@, candidates@[i as int]@));
            },
        }
        proof {
            assert forall|j: int|
                0 <= j < i + 1 && !topics@.contains_key(
                    (#[trigger] candidates@[j])@,
                ) implies registry::among(kept@, candidates@[j]@) by {
                if j < i {
                    let k = choose|k: int|
                        0 <= k < before.len() && (#[trigger] before[k])@ == candidates@[j]@;
                    assert(kept@[k]@ == candidates@[j]@);
                }
            }
        }
        i = i + 1;
    }
    proof {
        assert forall|topic: Seq<char>| #[trigger]
            registry::among(kept@, topic) <==> registry::among(start, topic) || (registry::among(
                candidates@,
                topic,
            ) && !topics@.contains_key(topic)) by {
            if registry::among(start, topic) {
                let k = choose|k: int| 0 <= k < start.len() && (#[trigger] start[k])@ == topic;
                assert(kept@[k]@ == topic);
            }
            if registry::among(kept@, topic) {
                let k = choose|k: int| 0 <= k < kept@.len() && (#[trigger] kept@[k])@ == topic;
                if k < start.len() {
                    assert(start[k]@ == topic);
                }
            }
        }
    }
}

fn keys_of(pairs: &Vec<(String, i32)>) -> (keys: Vec<DefinitionKey>)
    ensures
        error::key_views(keys@) == pairs@.map_values(|pair: (String, i32)| order::pair_view(pair)),
{
    let mut keys: Vec<DefinitionKey> = Vec::new();
    let mut i: usize = 0;
    while i < pairs.len()
        invariant
            i <= pairs@.len(),
            keys@.len() == i,
            forall|j: int| 0 <= j < i ==> (#[trigger] keys@[j])@ == order::pair_view(pairs@[j]),
        decreases pairs@.len() - i,
    {
        keys.push(DefinitionKey::new(pairs[i].0.as_str(), pairs[i].1));
        i = i + 1;
    }
    assert(error::key_views(keys@) =~= pairs@.map_values(
        |pair: (String, i32)| order::pair_view(pair),
    ));
    keys
}

proof fn lemma_lists_missing<T>(
    missing: Seq<(String, i32)>,
    required: Seq<(String, i32)>,
    present: Seq<bool>,
    registered: Map<(Seq<char>, int), T>,
)
    requires
        present.len() == required.len(),
        forall|j: int|
            0 <= j < required.len() ==> present[j] == registered.contains_key(
                order::pair_view(#[trigger] required[j]),
            ),
        order::strictly_ranked(missing),
        forall|i: int|
            0 <= i < missing.len() ==> absent_before(
                required,
                present,
                required.len() as int,
                #[trigger] missing[i],
            ),
        forall|j: int|
            0 <= j < required.len() && !present[j] ==> registry::holds_key(
                missing,
                order::pair_view(#[trigger] required[j]),
            ),
    ensures
        lists_missing(missing, required, registered),
{
    assert forall|i: int| 0 <= i < missing.len() implies !registered.contains_key(
        order::pair_view(#[trigger] missing[i]),
    ) && registry::holds_key(required, order::pair_view(missing[i])) by {
        assert(absent_before(required, present, required.len() as int, missing[i]));
        let j = choose|j: int|
            0 <= j < required.len() && !present[j] && #[trigger] required[j] == missing[i];
        assert(order::pair_view(required[j]) == order::pair_view(missing[i]));
    }
}

/// A definition is reported missing exactly where stored work needs it and it is not
/// registered.
pub proof fn law_missing_is_what_is_needed_and_unregistered<T>(
    missing: Seq<(String, i32)>,
    required: Seq<(String, i32)>,
    registered: Map<(Seq<char>, int), T>,
    key: (Seq<char>, int),
)
    requires
        lists_missing(missing, required, registered),
    ensures
        registry::holds_key(missing, key) <==> registry::holds_key(required, key)
            && !registered.contains_key(key),
{
    if registry::holds_key(missing, key) {
        let i = choose|i: int|
            0 <= i < missing.len() && order::pair_view(#[trigger] missing[i]) == key;
        assert(!registered.contains_key(order::pair_view(missing[i])));
    }
    if registry::holds_key(required, key) && !registered.contains_key(key) {
        let i = choose|i: int|
            0 <= i < required.len() && order::pair_view(#[trigger] required[i]) == key;
        assert(registry::holds_key(missing, order::pair_view(required[i])));
    }
}

/// A topic is reported missing exactly where a registered activity or stored work is
/// queued under it and it is not registered.
pub proof fn law_missing_topics_are_needed_and_unregistered<H>(
    missing: Seq<String>,
    activities: Map<(Seq<char>, int), ActivityEntry<H>>,
    stored: Seq<String>,
    registered: Map<Seq<char>, u32>,
    topic: Seq<char>,
)
    requires
        lists_missing_topics(missing, activities, stored, registered),
    ensures
        registry::among(missing, topic) <==> !registered.contains_key(topic) && (
        registry::queues_under(activities, topic) || registry::among(stored, topic)),
{
    if registry::among(missing, topic) {
        let i = choose|i: int| 0 <= i < missing.len() && (#[trigger] missing[i])@ == topic;
        assert(!registered.contains_key(missing[i]@));
    }
}

} // verus!
