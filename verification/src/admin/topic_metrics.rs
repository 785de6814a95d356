//! The load of the activity topics.
use vstd::prelude::*;
use crate::admin::cursor;
use crate::admin::cursor::PositionModel;
use crate::admin::metrics;
use crate::admin::metrics::{
    age, empty_hourly_throughput, encode_string_cursor, hourly_window, nonnegative_count,
    HourlyWindow, HOURLY_BUCKET_COUNT,
};
use crate::admin::query;
use crate::admin::types::{HourlyThroughputBucket, TopicMetrics};
use crate::error::{DurableError, ErrorModel};
use crate::numerals;
use crate::numerals::decimal_i64;
use crate::order;
use crate::order::{dedup_ranked, sort_ranked, Ranked};
use crate::persistence::status::ActivityStatus;
use crate::text;
use crate::text::{join5, precedes, same_text};
use crate::topics;
use crate::topics::TopicDefinition;

verus! {

/// How many chains of replacements are looked up at once.
pub const RESOLVED_ROOT_IN_CHUNK: usize = 10_000;

/// What the database says of the topics of a page.
///
/// - `persisted_caps`: the persisted concurrency limits;
/// - `active`: the counts of activities whose lease has not expired, by status;
/// - `dead_letters`: the dead-lettered activities of open workflows with the
///   first activity of their chain of replacements;
/// - `resolved`: the succeeded activities of those chains;
/// - `ready`: how many activities can be claimed, and since when the oldest can;
/// - `retries`: how many activities wait for their next attempt;
/// - `oldest_active`: when the oldest running attempt started;
/// - `hourly`: for each shown hour how many activities were completed.
#[derive(Debug)]
pub struct TopicRows {
    pub persisted_caps: Vec<(String, i32)>,
    pub active: Vec<(String, (ActivityStatus, i64))>,
    pub dead_letters: Vec<(String, (i64, Option<i64>))>,
    pub resolved: Vec<(i64, Option<i64>)>,
    pub ready: Vec<(String, (i64, Option<i64>))>,
    pub retries: Vec<(String, i64)>,
    pub oldest_active: Vec<(String, Option<i64>)>,
    pub hourly: Vec<Vec<(String, i64)>>,
}

/// The definitions whose keys come behind a key.
pub open spec fn topics_behind(
    definitions: Seq<TopicDefinition>,
    after: Option<Seq<char>>,
) -> Seq<TopicDefinition>
    decreases definitions.len(),
{
    if definitions.len() == 0 {
        Seq::empty()
    } else {
        let rest = topics_behind(definitions.drop_last(), after);
        if after matches Some(after) ==> text::text_before(after, definitions.last().key@) {
            rest.push(definitions.last())
        } else {
            rest
        }
    }
}

/// Whether a page lists the first of the given topics.
pub open spec fn lists_topics(
    topics: Seq<TopicDefinition>,
    limit: u32,
    page: Seq<TopicDefinition>,
    next_cursor: Option<Seq<char>>,
) -> bool {
    let n = query::at_most(topics.len() as int, limit);
    &&& page == topics.take(n)
    &&& next_cursor == query::cursor_behind(
        "topics"@,
        topics.len() as int,
        limit,
        PositionModel { timestamp: 0, tie_breaker: topics[n - 1].key@ },
    )
}

/// The page of topic definitions behind a key, and the cursor behind the page
/// where more follow.
pub fn page_topics(definitions: Vec<TopicDefinition>, after: Option<&str>, limit: u32) -> (result:
    Result<(Vec<TopicDefinition>, Option<String>), DurableError>)
    requires
        limit > 0,
    ensures
        ({
            let behind = topics_behind(definitions@, text::opt_str(after));
            let n = query::at_most(behind.len() as int, limit);
            let key = behind[n - 1].key@;
            match result {
                Ok((page, next_cursor)) => {
                    &&& behind.len() > limit ==> cursor::encode_error("topics"@, key) is None
                    &&& lists_topics(behind, limit, page@, text::opt_text(next_cursor))
                },
                Err(error) => behind.len() > limit && cursor::encode_error("topics"@, key) == Some(
                    error@,
                ),
            }
        }),
{
    let mut kept: Vec<TopicDefinition> = Vec::new();
    let mut i: usize = 0;
    while i < definitions.len()
        invariant
            i <= definitions@.len(),
            kept@ == topics_behind(definitions@.take(i as int), text::opt_str(after)),
        decreases definitions@.len() - i,
    {
        let comes_behind = match after {
            Some(after) => precedes(after, definitions[i].key.as_str()),
            None => true,
        };
        proof {
            assert(definitions@.take(i + 1).drop_last() =~= definitions@.take(i as int));
        }
        if comes_behind {
            kept.push(definitions[i].clone());
        }
        i = i + 1;
    }
    assert(definitions@.take(i as int) =~= definitions@);
    let ghost behind = kept@;
    let has_more = kept.len() > limit as usize;
    kept.truncate(limit as usize);
    assert(kept@ =~= behind.take(query::at_most(behind.len() as int, limit)));
    let mut next_cursor: Option<String> = None;
    if has_more {
        next_cursor = match encode_string_cursor("topics", kept[kept.len() - 1].key.as_str()) {
            Ok(cursor) => Some(cursor),
            Err(error) => return Err(error),
        };
    }
    Ok((kept, next_cursor))
}

/// The page behind the last key of a page of topics continues where that page
/// ended.
pub proof fn law_next_topics_continue(definitions: Seq<TopicDefinition>, shown: int)
    requires
        order::strictly_ranked(definitions),
        0 < shown <= definitions.len(),
    ensures
        topics_behind(definitions, Some(definitions[shown - 1].key@)) == definitions.skip(shown),
    decreases definitions.len(),
{
    let after = definitions[shown - 1];
    if shown == definitions.len() {
        lemma_none_behind(definitions, after);
        assert(definitions.skip(shown) =~= Seq::empty());
    } else {
        assert(order::strictly_ranked(definitions.drop_last()));
        law_next_topics_continue(definitions.drop_last(), shown);
        assert(after.ranks_before(&definitions.last()));
        assert(definitions.skip(shown) =~= definitions.drop_last().skip(shown).push(
            definitions.last(),
        ));
    }
}

proof fn lemma_none_behind(definitions: Seq<TopicDefinition>, after: TopicDefinition)
    requires
        forall|i: int|
            0 <= i < definitions.len() ==> (#[trigger] definitions[i]).ranks_before(&after)
                || definitions[i] == after,
    ensures
        topics_behind(definitions, Some(after.key@)) == Seq::<TopicDefinition>::empty(),
    decreases definitions.len(),
{
    if definitions.len() > 0 {
        let rest = definitions.drop_last();
        assert forall|i: int| 0 <= i < rest.len() implies (#[trigger] rest[i]).ranks_before(&after)
            || rest[i] == after by {
            assert(rest[i] == definitions[i]);
        }
        lemma_none_behind(rest, after);
        let last = definitions.last();
        assert(last == definitions[definitions.len() - 1]);
        if last.ranks_before(&after) {
            TopicDefinition::lemma_asymmetric(&last, &after);
        } else if after.ranks_before(&last) {
            TopicDefinition::lemma_asymmetric(&after, &last);
        }
    }
}

/// The value of the last row of a topic.
pub open spec fn last_of<T>(rows: Seq<(String, T)>, topic: Seq<char>) -> Option<T>
    decreases rows.len(),
{
    if rows.len() == 0 {
        None
    } else if rows.last().0@ == topic {
        Some(rows.last().1)
    } else {
        last_of(rows.drop_last(), topic)
    }
}

/// The value of the last row of a topic.
pub fn find_last<T: Copy>(rows: &Vec<(String, T)>, topic: &str) -> (found: Option<T>)
    ensures
        found == last_of(rows@, topic@),
{
    let mut i: usize = rows.len();
    assert(rows@.take(i as int) =~= rows@);
    while i > 0
        invariant
            i <= rows@.len(),
            last_of(rows@.take(i as int), topic@) == last_of(rows@, topic@),
        decreases i,
    {
        i = i - 1;
        assert(rows@.take(i + 1).drop_last() =~= rows@.take(i as int));
        assert(rows@.take(i + 1).last() == rows@[i as int]);
        if same_text(rows[i].0.as_str(), topic) {
            return Some(rows[i].1);
        }
    }
    None
}

/// How many activities of a topic run.
pub open spec fn running_of(rows: Seq<(String, (ActivityStatus, i64))>, topic: Seq<char>) -> int
    decreases rows.len(),
{
    if rows.len() == 0 {
        0
    } else if rows.last().0@ == topic && (rows.last().1).0 == ActivityStatus::Running {
        (rows.last().1).1 as int
    } else {
        running_of(rows.drop_last(), topic)
    }
}

fn count_running(rows: &Vec<(String, (ActivityStatus, i64))>, topic: &str) -> (count: u64)
    requires
        forall|i: int| 0 <= i < rows@.len() ==> ((#[trigger] rows@[i]).1).1 >= 0,
    ensures
        count == running_of(rows@, topic@),
{
    let mut i: usize = rows.len();
    assert(rows@.take(i as int) =~= rows@);
    while i > 0
        invariant
            i <= rows@.len(),
            forall|i: int| 0 <= i < rows@.len() ==> ((#[trigger] rows@[i]).1).1 >= 0,
            running_of(rows@.take(i as int), topic@) == running_of(rows@, topic@),
        decreases i,
    {
        i = i - 1;
        assert(rows@.take(i + 1).drop_last() =~= rows@.take(i as int));
        assert(rows@.take(i + 1).last() == rows@[i as int]);
        let (status, count) = rows[i].1;
        let running = match status {
            ActivityStatus::Running => true,
            _ => false,
        };
        if running && same_text(rows[i].0.as_str(), topic) {
            return count as u64;
        }
    }
    0
}

/// The first activity of the chain of replacements that an activity belongs to.
pub open spec fn root_of(activity: (i64, Option<i64>)) -> i64 {
    match activity.1 {
        Some(root) => root,
        None => activity.0,
    }
}

/// The first activity of the chain of replacements that an activity belongs to.
pub fn chain_root(activity: (i64, Option<i64>)) -> (root: i64)
    ensures
        root == root_of(activity),
{
    match activity.1 {
        Some(root) => root,
        None => activity.0,
    }
}

/// Whether one of the activities belongs to the chain.
pub open spec fn has_root(activities: Seq<(i64, Option<i64>)>, root: i64) -> bool {
    exists|i: int| 0 <= i < activities.len() && root_of(#[trigger] activities[i]) == root
}

/// Whether one of the activities belongs to the chain.
pub fn is_resolved(resolved: &Vec<(i64, Option<i64>)>, root: i64) -> (found: bool)
    ensures
        found == has_root(resolved@, root),
{
    let mut i: usize = 0;
    while i < resolved.len()
        invariant
            i <= resolved@.len(),
            forall|j: int| 0 <= j < i ==> root_of(#[trigger] resolved@[j]) != root,
        decreases resolved@.len() - i,
    {
        if chain_root(resolved[i]) == root {
            return true;
        }
        i = i + 1;
    }
    false
}

/// The chains of replacements whose success is looked up, each once, in
/// increasing order.
pub fn candidate_roots(dead_letters: &Vec<(String, (i64, Option<i64>))>) -> (roots: Vec<i64>)
    ensures
        forall|i: int, j: int| 0 <= i < j < roots@.len() ==> roots@[i] < roots@[j],
        forall|i: int|
            0 <= i < dead_letters@.len() ==> roots@.contains(
                root_of((#[trigger] dead_letters@[i]).1),
            ),
        forall|i: int| 0 <= i < roots@.len() ==> is_root_of(dead_letters@, #[trigger] roots@[i]),
{
    let mut roots: Vec<i64> = Vec::new();
    let mut i: usize = 0;
    while i < dead_letters.len()
        invariant
            i <= dead_letters@.len(),
            roots@.len() == i,
            forall|j: int| 0 <= j < i ==> roots@[j] == root_of((#[trigger] dead_letters@[j]).1),
        decreases dead_letters@.len() - i,
    {
        roots.push(chain_root(dead_letters[i].1));
        i = i + 1;
    }
    let ghost unsorted = roots@;
    let sorted = sort_ranked(roots);
    let unique = dedup_ranked(sorted);
    proof {
        assert forall|a: int, b: int| 0 <= a < b < unique@.len() implies unique@[a] < unique@[b] by {
            assert(unique@[a].ranks_before(&unique@[b]));
        }
        assert forall|j: int| 0 <= j < dead_letters@.len() implies unique@.contains(
            root_of((#[trigger] dead_letters@[j]).1),
        ) by {
            let root = root_of(dead_letters@[j].1);
            assert(unsorted[j] == root);
            order::lemma_same_elements(unsorted, sorted@, root);
            let at = choose|k: int| 0 <= k < sorted@.len() && sorted@[k] == root;
            assert(order::represented(sorted@[at], unique@));
            let k = choose|k: int|
                0 <= k < unique@.len() && #[trigger] order::same_rank(sorted@[at], unique@[k]);
            assert(unique@[k] == root);
        }
        assert forall|j: int| 0 <= j < unique@.len() implies is_root_of(
            dead_letters@,
            #[trigger] unique@[j],
        ) by {
            let root = unique@[j];
            order::lemma_same_elements(unsorted, sorted@, root);
            let k = choose|k: int| 0 <= k < unsorted.len() && unsorted[k] == root;
            assert(root_of(dead_letters@[k].1) == root);
        }
    }
    unique
}

/// Whether a chain is that of one of the dead-lettered activities.
pub open spec fn is_root_of(dead_letters: Seq<(String, (i64, Option<i64>))>, root: i64) -> bool {
    exists|i: int| 0 <= i < dead_letters.len() && root_of((#[trigger] dead_letters[i]).1) == root
}

/// How many dead-lettered activities of a topic no replacement has resolved.
pub open spec fn unresolved_of(
    dead_letters: Seq<(String, (i64, Option<i64>))>,
    resolved: Seq<(i64, Option<i64>)>,
    topic: Seq<char>,
) -> nat
    decreases dead_letters.len(),
{
    if dead_letters.len() == 0 {
        0
    } else {
        let rest = unresolved_of(dead_letters.drop_last(), resolved, topic);
        let last = dead_letters.last();
        if last.0@ == topic && !has_root(resolved, root_of(last.1)) {
            rest + 1
        } else {
            rest
        }
    }
}

fn count_unresolved(
    dead_letters: &Vec<(String, (i64, Option<i64>))>,
    resolved: &Vec<(i64, Option<i64>)>,
    topic: &str,
) -> (count: u64)
    ensures
        count == unresolved_of(dead_letters@, resolved@, topic@),
{
    let mut count: u64 = 0;
    let mut i: usize = 0;
    while i < dead_letters.len()
        invariant
            i <= dead_letters@.len(),
            count <= i,
            count == unresolved_of(dead_letters@.take(i as int), resolved@, topic@),
        decreases dead_letters@.len() - i,
    {
        assert(dead_letters@.take(i + 1).drop_last() =~= dead_letters@.take(i as int));
        if same_text(dead_letters[i].0.as_str(), topic) && !is_resolved(
            resolved,
            chain_root(dead_letters[i].1),
        ) {
            count = count + 1;
        }
        i = i + 1;
    }
    assert(dead_letters@.take(i as int) =~= dead_letters@);
    count
}

/// Whether a topic is one of the defined ones.
pub open spec fn defines(definitions: Seq<TopicDefinition>, topic: Seq<char>) -> bool {
    exists|i: int| 0 <= i < definitions.len() && (#[trigger] definitions[i]).key@ == topic
}

fn is_defined(definitions: &Vec<TopicDefinition>, topic: &str) -> (found: bool)
    ensures
        found == defines(definitions@, topic@),
{
    let mut i: usize = 0;
    while i < definitions.len()
        invariant
            i <= definitions@.len(),
            forall|j: int| 0 <= j < i ==> (#[trigger] definitions@[j]).key@ != topic@,
        decreases definitions@.len() - i,
    {
        if same_text(definitions[i].key.as_str(), topic) {
            return true;
        }
        i = i + 1;
    }
    false
}

/// Why a persisted concurrency limit is refused.
pub open spec fn cap_error(row: (String, i32)) -> Option<ErrorModel> {
    if row.1 < 0 {
        Some(
            ErrorModel::InvalidState(
                "activity topic "@ + row.0@ + " has invalid persisted concurrency limit "@
                    + numerals::decimal(row.1 as int),
            ),
        )
    } else {
        None
    }
}

fn check_caps(rows: &Vec<(String, i32)>) -> (result: Result<(), DurableError>)
    ensures
        match result {
            Ok(_) => caps_problem(rows@) is None && forall|i: int|
                0 <= i < rows@.len() ==> (#[trigger] rows@[i]).1 >= 0,
            Err(error) => caps_problem(rows@) == Some(error@),
        },
{
    let ghost problems = Seq::new(rows@.len(), |i: int| cap_error(rows@[i]));
    let mut i: usize = 0;
    while i < rows.len()
        invariant
            i <= rows@.len(),
            problems == Seq::new(rows@.len(), |i: int| cap_error(rows@[i])),
            forall|j: int| 0 <= j < i ==> (#[trigger] problems[j]) is None,
            forall|j: int| 0 <= j < i ==> (#[trigger] rows@[j]).1 >= 0,
        decreases rows@.len() - i,
    {
        if rows[i].1 < 0 {
            proof {
                query::lemma_first_error_at(problems, i as int);
            }
            let reason = join5(
                "activity topic ",
                rows[i].0.as_str(),
                " has invalid persisted concurrency limit ",
                decimal_i64(rows[i].1 as i64).as_str(),
                "",
            );
            proof {
                reveal_strlit("");
                assert(reason@ =~= "activity topic "@ + rows@[i as int].0@
                    + " has invalid persisted concurrency limit "@ + numerals::decimal(
                    rows@[i as int].1 as int,
                ));
            }
            return Err(DurableError::InvalidState(reason));
        }
        assert(problems[i as int] is None);
        i = i + 1;
    }
    proof {
        query::lemma_no_first_error(problems);
    }
    Ok(())
}

/// Why one of the persisted limits is refused.
pub open spec fn caps_problem(rows: Seq<(String, i32)>) -> Option<ErrorModel> {
    query::first_error(Seq::new(rows.len(), |i: int| cap_error(rows[i])))
}

/// Why one of some counts is refused.
pub open spec fn counts_problem(counts: Seq<i64>) -> Option<ErrorModel> {
    query::first_error(Seq::new(counts.len(), |i: int| metrics::count_error(counts[i])))
}

fn check_counts(counts: &Vec<i64>) -> (result: Result<(), DurableError>)
    ensures
        match result {
            Ok(_) => counts_problem(counts@) is None && forall|i: int|
                0 <= i < counts@.len() ==> #[trigger] counts@[i] >= 0,
            Err(error) => counts_problem(counts@) == Some(error@),
        },
{
    let ghost problems = Seq::new(counts@.len(), |i: int| metrics::count_error(counts@[i]));
    let mut i: usize = 0;
    while i < counts.len()
        invariant
            i <= counts@.len(),
            problems == Seq::new(counts@.len(), |i: int| metrics::count_error(counts@[i])),
            forall|j: int| 0 <= j < i ==> (#[trigger] problems[j]) is None,
            forall|j: int| 0 <= j < i ==> #[trigger] counts@[j] >= 0,
        decreases counts@.len() - i,
    {
        match nonnegative_count(counts[i]) {
            Ok(_) => {
                assert(problems[i as int] is None);
            },
            Err(error) => {
                proof {
                    query::lemma_first_error_at(problems, i as int);
                }
                return Err(error);
            },
        }
        i = i + 1;
    }
    proof {
        query::lemma_no_first_error(problems);
    }
    Ok(())
}

/// Why a count of one hour is refused; a topic that is not defined is passed over.
pub open spec fn hour_problem(
    rows: Seq<(String, i64)>,
    definitions: Seq<TopicDefinition>,
) -> Option<ErrorModel> {
    query::first_error(
        Seq::new(
            rows.len(),
            |i: int|
                if defines(definitions, rows[i].0@) {
                    metrics::count_error(rows[i].1)
                } else {
                    None
                },
        ),
    )
}

/// Whether no count of a defined topic is negative.
pub open spec fn sound_hour(
    rows: Seq<(String, i64)>,
    definitions: Seq<TopicDefinition>,
) -> bool {
    forall|i: int|
        0 <= i < rows.len() && defines(definitions, (#[trigger] rows[i]).0@) ==> rows[i].1 >= 0
}

fn check_hour(rows: &Vec<(String, i64)>, definitions: &Vec<TopicDefinition>) -> (result: Result<
    (),
    DurableError,
>)
    ensures
        match result {
            Ok(_) => hour_problem(rows@, definitions@) is None && sound_hour(rows@, definitions@),
            Err(error) => hour_problem(rows@, definitions@) == Some(error@),
        },
{
    let ghost problem_at = |i: int|
        if defines(definitions@, rows@[i].0@) {
            metrics::count_error(rows@[i].1)
        } else {
            None
        };
    let ghost problems = Seq::new(rows@.len(), problem_at);
    let mut i: usize = 0;
    while i < rows.len()
        invariant
            i <= rows@.len(),
            problems.len() == rows@.len(),
            forall|j: int|
                0 <= j < rows@.len() ==> #[trigger] problems[j] == (if defines(
                    definitions@,
                    rows@[j].0@,
                ) {
                    metrics::count_error(rows@[j].1)
                } else {
                    None
                }),
            problems == Seq::new(
                rows@.len(),
                |i: int|
                    if defines(definitions@, rows@[i].0@) {
                        metrics::count_error(rows@[i].1)
                    } else {
                        None
                    },
            ),
            forall|j: int| 0 <= j < i ==> (#[trigger] problems[j]) is None,
        decreases rows@.len() - i,
    {
        if is_defined(definitions, rows[i].0.as_str()) {
            match nonnegative_count(rows[i].1) {
                Ok(_) => {},
                Err(error) => {
                    proof {
                        query::lemma_first_error_at(problems, i as int);
                    }
                    return Err(error);
                },
            }
        }
        assert(problems[i as int] is None);
        i = i + 1;
    }
    proof {
        query::lemma_no_first_error(problems);
        assert forall|j: int| 0 <= j < rows@.len() && defines(
            definitions@,
            (#[trigger] rows@[j]).0@,
        ) implies rows@[j].1 >= 0 by {
            assert(problems[j] is None);
        }
    }
    Ok(())
}

/// Why a count of one of the hours is refused.
pub open spec fn hours_problem(
    hourly: Seq<Vec<(String, i64)>>,
    definitions: Seq<TopicDefinition>,
) -> Option<ErrorModel> {
    query::first_error(Seq::new(hourly.len(), |i: int| hour_problem(hourly[i]@, definitions)))
}

fn check_hours(hourly: &Vec<Vec<(String, i64)>>, definitions: &Vec<TopicDefinition>) -> (result:
    Result<(), DurableError>)
    ensures
        match result {
            Ok(_) => hours_problem(hourly@, definitions@) is None && forall|i: int|
                0 <= i < hourly@.len() ==> sound_hour((#[trigger] hourly@[i])@, definitions@),
            Err(error) => hours_problem(hourly@, definitions@) == Some(error@),
        },
{
    let ghost problems = Seq::new(hourly@.len(), |i: int| hour_problem(hourly@[i]@, definitions@));
    let mut i: usize = 0;
    while i < hourly.len()
        invariant
            i <= hourly@.len(),
            problems == Seq::new(hourly@.len(), |i: int| hour_problem(hourly@[i]@, definitions@)),
            forall|j: int| 0 <= j < i ==> (#[trigger] problems[j]) is None,
            forall|j: int| 0 <= j < i ==> sound_hour((#[trigger] hourly@[j])@, definitions@),
        decreases hourly@.len() - i,
    {
        match check_hour(&hourly[i], definitions) {
            Ok(_) => {
                assert(problems[i as int] is None);
            },
            Err(error) => {
                proof {
                    query::lemma_first_error_at(problems, i as int);
                }
                return Err(error);
            },
        }
        i = i + 1;
    }
    proof {
        query::lemma_no_first_error(problems);
    }
    Ok(())
}

/// The counts of activities by status.
pub open spec fn active_counts(rows: Seq<(String, (ActivityStatus, i64))>) -> Seq<i64> {
    Seq::new(rows.len(), |i: int| (rows[i].1).1)
}

/// The counts of activities that can be claimed.
pub open spec fn ready_counts(rows: Seq<(String, (i64, Option<i64>))>) -> Seq<i64> {
    Seq::new(rows.len(), |i: int| (rows[i].1).0)
}

/// The counts of activities that wait for their next attempt.
pub open spec fn retry_counts(rows: Seq<(String, i64)>) -> Seq<i64> {
    Seq::new(rows.len(), |i: int| rows[i].1)
}

/// Why the rows of the topics are refused: the first unsound limit or count.
pub open spec fn rows_problem(rows: TopicRows, definitions: Seq<TopicDefinition>) -> Option<
    ErrorModel,
> {
    query::either(
        caps_problem(rows.persisted_caps@),
        query::either(
            counts_problem(active_counts(rows.active@)),
            query::either(
                counts_problem(ready_counts(rows.ready@)),
                query::either(
                    counts_problem(retry_counts(rows.retries@)),
                    hours_problem(rows.hourly@, definitions),
                ),
            ),
        ),
    )
}

/// Whether the limits and counts of the rows are sound.
pub open spec fn sound_rows(rows: TopicRows, definitions: Seq<TopicDefinition>) -> bool {
    &&& forall|i: int|
        0 <= i < rows.persisted_caps@.len() ==> (#[trigger] rows.persisted_caps@[i]).1 >= 0
    &&& forall|i: int| 0 <= i < rows.active@.len() ==> ((#[trigger] rows.active@[i]).1).1 >= 0
    &&& forall|i: int| 0 <= i < rows.ready@.len() ==> ((#[trigger] rows.ready@[i]).1).0 >= 0
    &&& forall|i: int| 0 <= i < rows.retries@.len() ==> (#[trigger] rows.retries@[i]).1 >= 0
    &&& forall|i: int|
        0 <= i < rows.hourly@.len() ==> sound_hour((#[trigger] rows.hourly@[i])@, definitions)
}

fn check_rows(rows: &TopicRows, definitions: &Vec<TopicDefinition>) -> (result: Result<
    (),
    DurableError,
>)
    ensures
        match result {
            Ok(_) => rows_problem(*rows, definitions@) is None && sound_rows(*rows, definitions@),
            Err(error) => rows_problem(*rows, definitions@) == Some(error@),
        },
{
    match check_caps(&rows.persisted_caps) {
        Ok(_) => {},
        Err(error) => return Err(error),
    }
    let mut active: Vec<i64> = Vec::new();
    let mut i: usize = 0;
    while i < rows.active.len()
        invariant
            i <= rows.active@.len(),
            active@ =~= active_counts(rows.active@).take(i as int),
        decreases rows.active@.len() - i,
    {
        active.push((rows.active[i].1).1);
        i = i + 1;
    }
    assert(active@ =~= active_counts(rows.active@));
    match check_counts(&active) {
        Ok(_) => {},
        Err(error) => return Err(error),
    }
    let mut ready: Vec<i64> = Vec::new();
    let mut j: usize = 0;
    while j < rows.ready.len()
        invariant
            j <= rows.ready@.len(),
            ready@ =~= ready_counts(rows.ready@).take(j as int),
        decreases rows.ready@.len() - j,
    {
        ready.push((rows.ready[j].1).0);
        j = j + 1;
    }
    assert(ready@ =~= ready_counts(rows.ready@));
    match check_counts(&ready) {
        Ok(_) => {},
        Err(error) => return Err(error),
    }
    let mut retries: Vec<i64> = Vec::new();
    let mut k: usize = 0;
    while k < rows.retries.len()
        invariant
            k <= rows.retries@.len(),
            retries@ =~= retry_counts(rows.retries@).take(k as int),
        decreases rows.retries@.len() - k,
    {
        retries.push(rows.retries[k].1);
        k = k + 1;
    }
    assert(retries@ =~= retry_counts(rows.retries@));
    match check_counts(&retries) {
        Ok(_) => {},
        Err(error) => return Err(error),
    }
    proof {
        assert forall|i: int| 0 <= i < rows.active@.len() implies ((#[trigger] rows.active@[i]).1).1
            >= 0 by {
            assert(active@[i] >= 0);
        }
        assert forall|i: int| 0 <= i < rows.ready@.len() implies ((#[trigger] rows.ready@[i]).1).0
            >= 0 by {
            assert(ready@[i] >= 0);
        }
        assert forall|i: int| 0 <= i < rows.retries@.len() implies (#[trigger] rows.retries@[i]).1
            >= 0 by {
            assert(retries@[i] >= 0);
        }
    }
    check_hours(&rows.hourly, definitions)
}

/// How many activities of a topic were completed in one of the shown hours.
pub open spec fn completed_of(
    hourly: Seq<Vec<(String, i64)>>,
    hour: int,
    topic: Seq<char>,
) -> int {
    if hour < hourly.len() {
        match last_of(hourly[hour]@, topic) {
            Some(count) => count as int,
            None => 0,
        }
    } else {
        0
    }
}

proof fn lemma_sound_count(rows: Seq<(String, i64)>, topic: Seq<char>)
    requires
        forall|i: int| 0 <= i < rows.len() && (#[trigger] rows[i]).0@ == topic ==> rows[i].1 >= 0,
    ensures
        last_of(rows, topic) matches Some(count) ==> count >= 0,
    decreases rows.len(),
{
    if rows.len() > 0 {
        let rest = rows.drop_last();
        assert(rows.last() == rows[rows.len() - 1]);
        assert forall|i: int| 0 <= i < rest.len() && (#[trigger] rest[i]).0@ == topic implies rest[i].1
            >= 0 by {
            assert(rest[i] == rows[i]);
        }
        lemma_sound_count(rest, topic);
    }
}

/// Whether the buckets hold the completed activities of a topic by hour.
pub open spec fn counts_hours(
    window: HourlyWindow,
    hourly: Seq<Vec<(String, i64)>>,
    topic: Seq<char>,
    buckets: Seq<HourlyThroughputBucket>,
) -> bool {
    &&& buckets.len() == HOURLY_BUCKET_COUNT
    &&& forall|i: int|
        0 <= i < buckets.len() ==> (#[trigger] buckets[i]).starts_at == metrics::bucket_bounds(
            window,
            i,
        ).0 && buckets[i].completed_count == completed_of(hourly, i, topic)
}

fn hourly_throughput(
    window: HourlyWindow,
    hourly: &Vec<Vec<(String, i64)>>,
    definitions: &Vec<TopicDefinition>,
    topic: &str,
) -> (buckets: Vec<HourlyThroughputBucket>)
    requires
        window.first_hour + (HOURLY_BUCKET_COUNT - 1) * metrics::HOUR_MILLIS <= i64::MAX,
        defines(definitions@, topic@),
        forall|i: int|
            0 <= i < hourly@.len() ==> sound_hour((#[trigger] hourly@[i])@, definitions@),
    ensures
        counts_hours(window, hourly@, topic@, buckets@),
{
    let empty = empty_hourly_throughput(window);
    let mut buckets: Vec<HourlyThroughputBucket> = Vec::new();
    let mut i: usize = 0;
    while i < empty.len()
        invariant
            i <= empty@.len(),
            metrics::empty_buckets(window, empty@),
            defines(definitions@, topic@),
            forall|i: int|
                0 <= i < hourly@.len() ==> sound_hour((#[trigger] hourly@[i])@, definitions@),
            buckets@.len() == i,
            forall|j: int|
                0 <= j < i ==> (#[trigger] buckets@[j]).starts_at == metrics::bucket_bounds(
                    window,
                    j,
                ).0 && buckets@[j].completed_count == completed_of(hourly@, j, topic@),
        decreases empty@.len() - i,
    {
        let mut completed_count: u64 = 0;
        if i < hourly.len() {
            proof {
                assert(sound_hour(hourly@[i as int]@, definitions@));
                lemma_sound_count(hourly@[i as int]@, topic@);
            }
            completed_count = match find_last(&hourly[i], topic) {
                Some(count) => count as u64,
                None => 0,
            };
        }
        buckets.push(
            HourlyThroughputBucket { starts_at: empty[i].starts_at, completed_count },
        );
        i = i + 1;
    }
    buckets
}

/// The concurrency limit that is in force for a topic.
pub open spec fn effective_cap(definition: TopicDefinition, rows: TopicRows) -> int {
    match last_of(rows.persisted_caps@, definition.key@) {
        Some(cap) => cap as int,
        None => definition.max_concurrency as int,
    }
}

/// The time of the oldest activity of a topic that can be claimed.
pub open spec fn oldest_ready(rows: TopicRows, topic: Seq<char>) -> Option<i64> {
    match last_of(rows.ready@, topic) {
        Some(ready) => ready.1,
        None => None,
    }
}

/// The start of the oldest running attempt of a topic.
pub open spec fn oldest_active(rows: TopicRows, topic: Seq<char>) -> Option<i64> {
    match last_of(rows.oldest_active@, topic) {
        Some(started) => started,
        None => None,
    }
}

/// Whether the metrics show the load of a topic.
pub open spec fn shows_load(
    definition: TopicDefinition,
    rows: TopicRows,
    now: i64,
    shown: TopicMetrics,
) -> bool {
    let topic = definition.key@;
    let cap = effective_cap(definition, rows);
    let active = running_of(rows.active@, topic);
    let window = HourlyWindow {
        first_hour: metrics::window_at(now as int).0 as i64,
        exclusive_end: metrics::window_at(now as int).1 as i64,
    };
    &&& shown.topic@ == topic
    &&& shown.max_concurrency == cap
    &&& shown.configured_max_concurrency == definition.max_concurrency
    &&& shown.configuration_mismatch == !(last_of(rows.persisted_caps@, topic) matches Some(persisted)
        && persisted == definition.max_concurrency)
    &&& shown.active_count == active
    &&& shown.available_capacity == (if active < cap {
        cap - active
    } else {
        0
    })
    &&& shown.ready_count == (match last_of(rows.ready@, topic) {
        Some(ready) => ready.0 as int,
        None => 0,
    })
    &&& shown.retry_scheduled_count == (match last_of(rows.retries@, topic) {
        Some(count) => count as int,
        None => 0,
    })
    &&& shown.dead_letter_count == unresolved_of(rows.dead_letters@, rows.resolved@, topic)
    &&& shown.oldest_ready_age_millis == metrics::age_at(now, oldest_ready(rows, topic))
    &&& shown.oldest_active_age_millis == metrics::age_at(now, oldest_active(rows, topic))
    &&& counts_hours(window, rows.hourly@, topic, shown.hourly_throughput@)
    &&& shown.captured_at == now
}

proof fn lemma_sound_value<T>(rows: Seq<(String, T)>, topic: Seq<char>) -> (at: int)
    ensures
        last_of(rows, topic) matches Some(value) ==> (0 <= at < rows.len() && rows[at].1 == value),
    decreases rows.len(),
{
    if rows.len() == 0 {
        0
    } else if rows.last().0@ == topic {
        rows.len() - 1
    } else {
        lemma_sound_value(rows.drop_last(), topic)
    }
}

fn load_of(
    definition: &TopicDefinition,
    definitions: &Vec<TopicDefinition>,
    rows: &TopicRows,
    now: i64,
) -> (shown: TopicMetrics)
    requires
        now >= 0,
        defines(definitions@, definition.key@),
        sound_rows(*rows, definitions@),
    ensures
        shows_load(*definition, *rows, now, shown),
{
    let topic = definition.key.as_str();
    let ghost cap_at = lemma_sound_value(rows.persisted_caps@, topic@);
    let ghost ready_at = lemma_sound_value(rows.ready@, topic@);
    let ghost retry_at = lemma_sound_value(rows.retries@, topic@);
    let mut max_concurrency: u32 = definition.max_concurrency;
    let mut configuration_mismatch = true;
    match find_last(&rows.persisted_caps, topic) {
        Some(cap) => {
            assert(rows.persisted_caps@[cap_at].1 >= 0);
            max_concurrency = cap as u32;
            configuration_mismatch = max_concurrency != definition.max_concurrency;
        },
        None => {},
    }
    let active_count: u64 = count_running(&rows.active, topic);
    let available_capacity: u32 = if active_count < max_concurrency as u64 {
        max_concurrency - active_count as u32
    } else {
        0
    };
    let mut ready_count: u64 = 0;
    let mut oldest_ready: Option<i64> = None;
    match find_last(&rows.ready, topic) {
        Some((count, oldest)) => {
            assert((rows.ready@[ready_at].1).0 >= 0);
            ready_count = count as u64;
            oldest_ready = oldest;
        },
        None => {},
    }
    let mut retry_scheduled_count: u64 = 0;
    match find_last(&rows.retries, topic) {
        Some(count) => {
            assert(rows.retries@[retry_at].1 >= 0);
            retry_scheduled_count = count as u64;
        },
        None => {},
    }
    let oldest_active: Option<i64> = match find_last(&rows.oldest_active, topic) {
        Some(started) => started,
        None => None,
    };
    let window = hourly_window(now);
    let hourly_throughput = hourly_throughput(window, &rows.hourly, definitions, topic);
    TopicMetrics {
        topic: topic.to_owned(),
        max_concurrency,
        configured_max_concurrency: definition.max_concurrency,
        configuration_mismatch,
        active_count,
        available_capacity,
        ready_count,
        retry_scheduled_count,
        dead_letter_count: count_unresolved(&rows.dead_letters, &rows.resolved, topic),
        oldest_ready_age_millis: age(now, oldest_ready),
        oldest_active_age_millis: age(now, oldest_active),
        hourly_throughput,
        captured_at: now,
    }
}

/// The load of the given topics.
pub fn load_topic_metrics(definitions: &Vec<TopicDefinition>, rows: &TopicRows, now: i64) -> (result:
    Result<Vec<TopicMetrics>, DurableError>)
    requires
        now >= 0,
    ensures
        match result {
            Ok(items) => {
                &&& definitions@.len() > 0 ==> rows_problem(*rows, definitions@) is None
                &&& items@.len() == definitions@.len()
                &&& forall|i: int|
                    0 <= i < items@.len() ==> shows_load(
                        definitions@[i],
                        *rows,
                        now,
                        #[trigger] items@[i],
                    )
            },
            Err(error) => definitions@.len() > 0 && rows_problem(*rows, definitions@) == Some(error@),
        },
{
    let mut items: Vec<TopicMetrics> = Vec::new();
    if definitions.len() == 0 {
        return Ok(items);
    }
    match check_rows(rows, definitions) {
        Ok(_) => {},
        Err(error) => return Err(error),
    }
    let mut i: usize = 0;
    while i < definitions.len()
        invariant
            now >= 0,
            i <= definitions@.len(),
            items@.len() == i,
            sound_rows(*rows, definitions@),
            forall|j: int|
                0 <= j < i ==> shows_load(definitions@[j], *rows, now, #[trigger] items@[j]),
        decreases definitions@.len() - i,
    {
        assert(defines(definitions@, definitions@[i as int].key@));
        let shown = load_of(&definitions[i], definitions, rows, now);
        items.push(shown);
        i = i + 1;
    }
    Ok(items)
}

/// A dead-lettered activity stops to count once one of its replacements succeeded.
pub proof fn law_resolved_chains_do_not_count(
    dead_letters: Seq<(String, (i64, Option<i64>))>,
    resolved: Seq<(i64, Option<i64>)>,
    topic: Seq<char>,
)
    requires
        forall|i: int|
            0 <= i < dead_letters.len() ==> has_root(
                resolved,
                root_of((#[trigger] dead_letters[i]).1),
            ),
    ensures
        unresolved_of(dead_letters, resolved, topic) == 0,
    decreases dead_letters.len(),
{
    if dead_letters.len() > 0 {
        let rest = dead_letters.drop_last();
        assert forall|i: int| 0 <= i < rest.len() implies has_root(
            resolved,
            root_of((#[trigger] rest[i]).1),
        ) by {
            assert(rest[i] == dead_letters[i]);
        }
        law_resolved_chains_do_not_count(rest, resolved, topic);
        assert(dead_letters.last() == dead_letters[dead_letters.len() - 1]);
    }
}

/// Whether a row is the only one of its topic.
pub open spec fn is_only_row<T>(rows: Seq<(String, T)>, at: int, topic: Seq<char>) -> bool {
    &&& 0 <= at < rows.len()
    &&& rows[at].0@ == topic
    &&& forall|i: int| 0 <= i < rows.len() && i != at ==> (#[trigger] rows[i]).0@ != topic
}

proof fn lemma_only_row<T>(rows: Seq<(String, T)>, at: int, topic: Seq<char>)
    requires
        is_only_row(rows, at, topic),
    ensures
        last_of(rows, topic) == Some(rows[at].1),
    decreases rows.len(),
{
    if at < rows.len() - 1 {
        let rest = rows.drop_last();
        assert(rows.last() == rows[rows.len() - 1]);
        assert forall|i: int| 0 <= i < rest.len() && i != at implies (#[trigger] rest[i]).0@
            != topic by {
            assert(rest[i] == rows[i]);
        }
        lemma_only_row(rest, at, topic);
    }
}

proof fn lemma_no_row<T>(rows: Seq<(String, T)>, topic: Seq<char>)
    requires
        forall|i: int| 0 <= i < rows.len() ==> (#[trigger] rows[i]).0@ != topic,
    ensures
        last_of(rows, topic) is None,
    decreases rows.len(),
{
    if rows.len() > 0 {
        let rest = rows.drop_last();
        assert(rows.last() == rows[rows.len() - 1]);
        assert forall|i: int| 0 <= i < rest.len() implies (#[trigger] rest[i]).0@ != topic by {
            assert(rest[i] == rows[i]);
        }
        lemma_no_row(rest, topic);
    }
}

/// The load of a topic shows what was read for that topic, each number under its own name;
/// nothing is read from the rows of other topics.
pub proof fn law_load_shows_what_was_read(
    definition: TopicDefinition,
    rows: TopicRows,
    now: i64,
    shown: TopicMetrics,
    at: int,
)
    requires
        shows_load(definition, rows, now, shown),
    ensures
        shown.topic@ == definition.key@,
        shown.configured_max_concurrency == definition.max_concurrency,
        is_only_row(rows.persisted_caps@, at, definition.key@) ==> shown.max_concurrency
            == rows.persisted_caps@[at].1 && (shown.configuration_mismatch
            <==> rows.persisted_caps@[at].1 != definition.max_concurrency),
        (forall|i: int|
            0 <= i < rows.persisted_caps@.len() ==> (#[trigger] rows.persisted_caps@[i]).0@
                != definition.key@) ==> shown.max_concurrency == definition.max_concurrency
            && shown.configuration_mismatch,
        is_only_row(rows.ready@, at, definition.key@) ==> shown.ready_count
            == (rows.ready@[at].1).0 && shown.oldest_ready_age_millis == metrics::age_at(
            now,
            (rows.ready@[at].1).1,
        ),
        (forall|i: int|
            0 <= i < rows.ready@.len() ==> (#[trigger] rows.ready@[i]).0@ != definition.key@)
            ==> shown.ready_count == 0 && shown.oldest_ready_age_millis is None,
        is_only_row(rows.retries@, at, definition.key@) ==> shown.retry_scheduled_count
            == rows.retries@[at].1,
        (forall|i: int|
            0 <= i < rows.retries@.len() ==> (#[trigger] rows.retries@[i]).0@ != definition.key@)
            ==> shown.retry_scheduled_count == 0,
        is_only_row(rows.oldest_active@, at, definition.key@) ==> shown.oldest_active_age_millis
            == metrics::age_at(now, rows.oldest_active@[at].1),
        shown.active_count >= shown.max_concurrency ==> shown.available_capacity == 0,
        shown.active_count <= shown.max_concurrency ==> shown.active_count
            + shown.available_capacity == shown.max_concurrency,
        shown.captured_at == now,
{
    let topic = definition.key@;
    if is_only_row(rows.persisted_caps@, at, topic) {
        lemma_only_row(rows.persisted_caps@, at, topic);
    }
    if is_only_row(rows.ready@, at, topic) {
        lemma_only_row(rows.ready@, at, topic);
    }
    if is_only_row(rows.retries@, at, topic) {
        lemma_only_row(rows.retries@, at, topic);
    }
    if is_only_row(rows.oldest_active@, at, topic) {
        lemma_only_row(rows.oldest_active@, at, topic);
    }
    if forall|i: int|
        0 <= i < rows.persisted_caps@.len() ==> (#[trigger] rows.persisted_caps@[i]).0@ != topic {
        lemma_no_row(rows.persisted_caps@, topic);
    }
    if forall|i: int| 0 <= i < rows.ready@.len() ==> (#[trigger] rows.ready@[i]).0@ != topic {
        lemma_no_row(rows.ready@, topic);
    }
    if forall|i: int| 0 <= i < rows.retries@.len() ==> (#[trigger] rows.retries@[i]).0@ != topic {
        lemma_no_row(rows.retries@, topic);
    }
}

/// The active activities of a topic are those of its one running row.
pub proof fn law_running_activities_are_active(
    rows: Seq<(String, (ActivityStatus, i64))>,
    at: int,
    topic: Seq<char>,
)
    requires
        0 <= at < rows.len(),
        rows[at].0@ == topic,
        (rows[at].1).0 == ActivityStatus::Running,
        forall|i: int|
            0 <= i < rows.len() && i != at ==> (#[trigger] rows[i]).0@ != topic || (rows[i].1).0
                != ActivityStatus::Running,
    ensures
        running_of(rows, topic) == (rows[at].1).1,
    decreases rows.len(),
{
    if at < rows.len() - 1 {
        let rest = rows.drop_last();
        assert(rows.last() == rows[rows.len() - 1]);
        assert forall|i: int| 0 <= i < rest.len() && i != at implies (#[trigger] rest[i]).0@ != topic
            || (rest[i].1).0 != ActivityStatus::Running by {
            assert(rest[i] == rows[i]);
        }
        law_running_activities_are_active(rest, at, topic);
    }
}

/// A topic without running activities has none active.
pub proof fn law_idle_topic_has_none_active(
    rows: Seq<(String, (ActivityStatus, i64))>,
    topic: Seq<char>,
)
    requires
        forall|i: int|
            0 <= i < rows.len() ==> (#[trigger] rows[i]).0@ != topic || (rows[i].1).0
                != ActivityStatus::Running,
    ensures
        running_of(rows, topic) == 0,
    decreases rows.len(),
{
    if rows.len() > 0 {
        let rest = rows.drop_last();
        assert(rows.last() == rows[rows.len() - 1]);
        assert forall|i: int| 0 <= i < rest.len() implies (#[trigger] rest[i]).0@ != topic || (
        rest[i].1).0 != ActivityStatus::Running by {
            assert(rest[i] == rows[i]);
        }
        law_idle_topic_has_none_active(rest, topic);
    }
}

/// Each further dead letter of a topic counts once, unless an activity of its chain of
/// replacements was resolved; those of other topics do not count.
pub proof fn law_unresolved_dead_letters_count(
    dead_letters: Seq<(String, (i64, Option<i64>))>,
    further: (String, (i64, Option<i64>)),
    resolved: Seq<(i64, Option<i64>)>,
    topic: Seq<char>,
)
    ensures
        unresolved_of(Seq::empty(), resolved, topic) == 0,
        further.0@ != topic ==> unresolved_of(dead_letters.push(further), resolved, topic)
            == unresolved_of(dead_letters, resolved, topic),
        has_root(resolved, root_of(further.1)) ==> unresolved_of(
            dead_letters.push(further),
            resolved,
            topic,
        ) == unresolved_of(dead_letters, resolved, topic),
        further.0@ == topic && !has_root(resolved, root_of(further.1)) ==> unresolved_of(
            dead_letters.push(further),
            resolved,
            topic,
        ) == unresolved_of(dead_letters, resolved, topic) + 1,
{
    assert(dead_letters.push(further).drop_last() =~= dead_letters);
}

/// The chain of an activity is that of the first activity that it replaces, directly or
/// not, and its own where it replaces none.
pub proof fn law_replacements_share_their_root(id: i64, root: i64, replacement: i64)
    ensures
        root_of((id, None)) == id,
        root_of((id, Some(root))) == root,
        root_of((replacement, Some(root_of((id, None))))) == root_of((id, None)),
        root_of((replacement, Some(root_of((id, Some(root)))))) == root_of((id, Some(root))),
{
}

/// A shown hour counts what was read for that hour and that topic.
pub proof fn law_hours_count_their_completions(
    window: HourlyWindow,
    hourly: Seq<Vec<(String, i64)>>,
    topic: Seq<char>,
    buckets: Seq<HourlyThroughputBucket>,
    hour: int,
    at: int,
)
    requires
        counts_hours(window, hourly, topic, buckets),
        0 <= hour < 24,
        hour < hourly.len(),
        is_only_row(hourly[hour]@, at, topic),
    ensures
        buckets.len() == 24,
        buckets[hour].starts_at == window.first_hour + hour * 3_600_000,
        buckets[hour].completed_count == hourly[hour]@[at].1,
{
    lemma_only_row(hourly[hour]@, at, topic);
}

/// A page of topics shows the first ones, in their order and no more than its limit. It ends
/// where all were shown, and otherwise its cursor names the last topic that it shows.
pub proof fn law_page_of_topics_continues(
    topics: Seq<TopicDefinition>,
    limit: u32,
    page: Seq<TopicDefinition>,
    next_cursor: Option<Seq<char>>,
    i: int,
)
    requires
        lists_topics(topics, limit, page, next_cursor),
        limit > 0,
        0 <= i < page.len(),
    ensures
        page.len() <= limit,
        page[i] == topics[i],
        next_cursor is None <==> page.len() == topics.len(),
        next_cursor matches Some(cursor) ==> cursor == cursor::encoded_cursor(
            "topics"@,
            (PositionModel { timestamp: 0, tie_breaker: page.last().key@ }),
        ),
{
}

/// What was read for topics is refused exactly where a limit, a count or the completions of
/// one of the topics in an hour are negative.
pub proof fn law_rows_are_refused_only_where_negative(
    rows: TopicRows,
    definitions: Seq<TopicDefinition>,
)
    ensures
        rows_problem(rows, definitions) is None <==> sound_rows(rows, definitions),
{
    let caps = Seq::new(rows.persisted_caps@.len(), |i: int| cap_error(rows.persisted_caps@[i]));
    query::law_first_error_comes_first(caps, 0);
    assert(caps_problem(rows.persisted_caps@) is None <==> forall|i: int|
        0 <= i < rows.persisted_caps@.len() ==> (#[trigger] rows.persisted_caps@[i]).1 >= 0) by {
        assert(forall|i: int|
            0 <= i < caps.len() ==> (#[trigger] caps[i] is None <==> rows.persisted_caps@[i].1 >= 0));
        if forall|i: int| 0 <= i < caps.len() ==> (#[trigger] caps[i]) is None {
            assert forall|i: int| 0 <= i < rows.persisted_caps@.len() implies (
            #[trigger] rows.persisted_caps@[i]).1 >= 0 by {
                assert(caps[i] is None);
            }
        }
    }
    lemma_counts_problem(active_counts(rows.active@));
    lemma_counts_problem(ready_counts(rows.ready@));
    lemma_counts_problem(retry_counts(rows.retries@));
    assert((forall|i: int|
        0 <= i < active_counts(rows.active@).len() ==> #[trigger] active_counts(rows.active@)[i] >= 0)
        <==> forall|i: int| 0 <= i < rows.active@.len() ==> ((#[trigger] rows.active@[i]).1).1 >= 0)
        by {
        if forall|i: int|
            0 <= i < active_counts(rows.active@).len() ==> #[trigger] active_counts(rows.active@)[i]
                >= 0 {
            assert forall|i: int| 0 <= i < rows.active@.len() implies ((
            #[trigger] rows.active@[i]).1).1 >= 0 by {
                assert(active_counts(rows.active@)[i] >= 0);
            }
        }
    }
    assert((forall|i: int|
        0 <= i < ready_counts(rows.ready@).len() ==> #[trigger] ready_counts(rows.ready@)[i] >= 0)
        <==> forall|i: int| 0 <= i < rows.ready@.len() ==> ((#[trigger] rows.ready@[i]).1).0 >= 0)
        by {
        if forall|i: int|
            0 <= i < ready_counts(rows.ready@).len() ==> #[trigger] ready_counts(rows.ready@)[i]
                >= 0 {
            assert forall|i: int| 0 <= i < rows.ready@.len() implies ((
            #[trigger] rows.ready@[i]).1).0 >= 0 by {
                assert(ready_counts(rows.ready@)[i] >= 0);
            }
        }
    }
    assert((forall|i: int|
        0 <= i < retry_counts(rows.retries@).len() ==> #[trigger] retry_counts(rows.retries@)[i]
            >= 0) <==> forall|i: int|
        0 <= i < rows.retries@.len() ==> (#[trigger] rows.retries@[i]).1 >= 0) by {
        if forall|i: int|
            0 <= i < retry_counts(rows.retries@).len() ==> #[trigger] retry_counts(rows.retries@)[i]
                >= 0 {
            assert forall|i: int| 0 <= i < rows.retries@.len() implies (
            #[trigger] rows.retries@[i]).1 >= 0 by {
                assert(retry_counts(rows.retries@)[i] >= 0);
            }
        }
    }
    let hours = Seq::new(
        rows.hourly@.len(),
        |i: int| hour_problem(rows.hourly@[i]@, definitions),
    );
    query::law_first_error_comes_first(hours, 0);
    assert forall|i: int| 0 <= i < hours.len() implies (#[trigger] hours[i] is None <==> sound_hour(
        rows.hourly@[i]@,
        definitions,
    )) by {
        lemma_hour_problem(rows.hourly@[i]@, definitions);
    }
    if forall|i: int| 0 <= i < hours.len() ==> (#[trigger] hours[i]) is None {
        assert forall|i: int| 0 <= i < rows.hourly@.len() implies sound_hour(
            (#[trigger] rows.hourly@[i])@,
            definitions,
        ) by {
            assert(hours[i] is None);
        }
    }
}

proof fn lemma_counts_problem(counts: Seq<i64>)
    ensures
        counts_problem(counts) is None <==> forall|i: int|
            0 <= i < counts.len() ==> #[trigger] counts[i] >= 0,
{
    let problems = Seq::new(counts.len(), |i: int| metrics::count_error(counts[i]));
    query::law_first_error_comes_first(problems, 0);
    if forall|i: int| 0 <= i < problems.len() ==> (#[trigger] problems[i]) is None {
        assert forall|i: int| 0 <= i < counts.len() implies #[trigger] counts[i] >= 0 by {
            assert(problems[i] is None);
        }
    }
}

proof fn lemma_hour_problem(rows: Seq<(String, i64)>, definitions: Seq<TopicDefinition>)
    ensures
        hour_problem(rows, definitions) is None <==> sound_hour(rows, definitions),
{
    let problems = Seq::new(
        rows.len(),
        |i: int|
            if defines(definitions, rows[i].0@) {
                metrics::count_error(rows[i].1)
            } else {
                None
            },
    );
    query::law_first_error_comes_first(problems, 0);
    if forall|i: int| 0 <= i < problems.len() ==> (#[trigger] problems[i]) is None {
        assert forall|i: int| 0 <= i < rows.len() && defines(
            definitions,
            (#[trigger] rows[i]).0@,
        ) implies rows[i].1 >= 0 by {
            assert(problems[i] is None);
        }
    }
}

} // verus!
