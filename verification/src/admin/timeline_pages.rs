//! Reading a whole timeline page by page, each page from the cursor of the one
//! before it.
use vstd::prelude::*;
use crate::admin::cursor;
use crate::admin::query;
use crate::admin::query::{ActivityProjection, ApprovalProjection, AttemptProjection};
use crate::admin::timeline;
use crate::admin::timeline::{EventProjection, TimelineCursor, TimelineEnvelope, TimelineRows};
use crate::admin::types::{AdminPage, TimelineEntry};
use crate::error::ErrorModel;
use crate::order;
use crate::order::Ranked;
use crate::persistence::models::ProgressEventRow;
use crate::text;

verus! {

/// Whether one place comes before another in a timeline: by the time, by the kind
/// (event, activity, attempt, progress, approval), and by the numbers.
pub open spec fn comes_before(a: TimelineCursor, b: TimelineCursor) -> bool {
    a.timestamp < b.timestamp || (a.timestamp == b.timestamp && (a.rank < b.rank || (a.rank
        == b.rank && (a.id < b.id || (a.id == b.id && (a.attempt_number < b.attempt_number || (
    a.attempt_number == b.attempt_number && a.sequence < b.sequence)))))))
}

/// Whether some places are in the order of a timeline, each at most once.
pub open spec fn ascending(places: Seq<TimelineCursor>) -> bool {
    forall|i: int, j: int|
        #![trigger places[i], places[j]]
        0 <= i < j < places.len() ==> comes_before(places[i], places[j])
}

/// The place of an event.
pub open spec fn event_place(row: EventProjection) -> TimelineCursor {
    TimelineCursor {
        timestamp: row.created_at,
        rank: 0,
        id: row.id,
        attempt_number: 0,
        sequence: 0,
    }
}

/// The place of an activity.
pub open spec fn activity_place(row: ActivityProjection) -> TimelineCursor {
    TimelineCursor {
        timestamp: row.created_at,
        rank: 1,
        id: row.id,
        attempt_number: 0,
        sequence: 0,
    }
}

/// The place of an attempt.
pub open spec fn attempt_place(row: AttemptProjection) -> TimelineCursor {
    TimelineCursor {
        timestamp: row.started_at,
        rank: 2,
        id: row.activity_id,
        attempt_number: row.attempt_number,
        sequence: 0,
    }
}

/// The place of a progress event.
pub open spec fn progress_place(row: ProgressEventRow) -> TimelineCursor {
    TimelineCursor {
        timestamp: row.created_at,
        rank: 3,
        id: row.activity_id,
        attempt_number: row.attempt_number,
        sequence: row.sequence,
    }
}

/// The place of an approval.
pub open spec fn approval_place(row: ApprovalProjection) -> TimelineCursor {
    TimelineCursor {
        timestamp: row.requested_at,
        rank: 4,
        id: row.id,
        attempt_number: 0,
        sequence: 0,
    }
}

/// The places of the rows of one kind.
pub open spec fn source_places(rows: TimelineRows, rank: int) -> Seq<TimelineCursor> {
    if rank == 0 {
        Seq::new(rows.events@.len(), |i: int| event_place(rows.events@[i]))
    } else if rank == 1 {
        Seq::new(rows.activities@.len(), |i: int| activity_place(rows.activities@[i]))
    } else if rank == 2 {
        Seq::new(rows.attempts@.len(), |i: int| attempt_place(rows.attempts@[i]))
    } else if rank == 3 {
        Seq::new(rows.progress@.len(), |i: int| progress_place(rows.progress@[i]))
    } else {
        Seq::new(rows.approvals@.len(), |i: int| approval_place(rows.approvals@[i]))
    }
}

/// Whether one of the rows has a place.
pub open spec fn has_row(rows: TimelineRows, place: TimelineCursor) -> bool {
    place.rank <= 4 && source_places(rows, place.rank as int).contains(place)
}

/// Whether every row has the positive numbers that rows have.
pub open spec fn are_rows(rows: TimelineRows) -> bool {
    forall|place: TimelineCursor| #[trigger] has_row(rows, place) ==> timeline::is_place(place)
}

/// Whether the filter of the place where a page begins lets a row pass.
pub open spec fn is_behind(from: Option<TimelineCursor>, place: TimelineCursor) -> bool {
    match from {
        Some(start) => timeline::passes(timeline::filter_for(place.rank, start), place),
        None => true,
    }
}

/// Whether `loaded` are the first `count` of the stored places that a page's
/// filter lets pass, in their order.
pub open spec fn loads_first(
    stored: Seq<TimelineCursor>,
    from: Option<TimelineCursor>,
    count: int,
    loaded: Seq<TimelineCursor>,
) -> bool {
    &&& loaded.len() <= count
    &&& ascending(loaded)
    &&& forall|i: int|
        0 <= i < loaded.len() ==> stored.contains(#[trigger] loaded[i]) && is_behind(
            from,
            loaded[i],
        )
    &&& forall|place: TimelineCursor| #[trigger]
        stored.contains(place) && is_behind(from, place) ==> loaded.contains(place) || (
        loaded.len() == count && forall|i: int|
            0 <= i < loaded.len() ==> comes_before(#[trigger] loaded[i], place))
}

/// Whether `loaded` are, of each kind, the first `count` of the stored rows that a
/// page's filter lets pass, in their order.
pub open spec fn loads_rows(
    stored: TimelineRows,
    from: Option<TimelineCursor>,
    count: int,
    loaded: TimelineRows,
) -> bool {
    &&& forall|rank: int|
        0 <= rank <= 4 ==> loads_first(
            source_places(stored, rank),
            from,
            count,
            #[trigger] source_places(loaded, rank),
        )
    &&& forall|i: int|
        0 <= i < loaded.events@.len() ==> stored.events@.contains(#[trigger] loaded.events@[i])
    &&& forall|i: int|
        0 <= i < loaded.activities@.len() ==> stored.activities@.contains(
            #[trigger] loaded.activities@[i],
        )
    &&& forall|i: int|
        0 <= i < loaded.attempts@.len() ==> stored.attempts@.contains(
            #[trigger] loaded.attempts@[i],
        )
    &&& forall|i: int|
        0 <= i < loaded.progress@.len() ==> stored.progress@.contains(
            #[trigger] loaded.progress@[i],
        )
    &&& forall|i: int|
        0 <= i < loaded.approvals@.len() ==> stored.approvals@.contains(
            #[trigger] loaded.approvals@[i],
        )
}

/// Whether an entry shows the row at a place.
pub open spec fn shows_place(
    rows: TimelineRows,
    place: TimelineCursor,
    envelope: TimelineEnvelope,
) -> bool {
    if place.rank == 0 {
        exists|k: int|
            0 <= k < rows.events@.len() && event_place(#[trigger] rows.events@[k]) == place
                && timeline::shows_event(rows.events@[k], envelope)
    } else if place.rank == 1 {
        exists|k: int|
            0 <= k < rows.activities@.len() && activity_place(#[trigger] rows.activities@[k])
                == place && timeline::shows_activity(rows.activities@[k], envelope)
    } else if place.rank == 2 {
        exists|k: int|
            0 <= k < rows.attempts@.len() && attempt_place(#[trigger] rows.attempts@[k]) == place
                && timeline::shows_attempt(rows.attempts@[k], envelope)
    } else if place.rank == 3 {
        exists|k: int|
            0 <= k < rows.progress@.len() && progress_place(#[trigger] rows.progress@[k]) == place
                && timeline::shows_progress(rows.progress@[k], envelope)
    } else {
        exists|k: int|
            0 <= k < rows.approvals@.len() && approval_place(#[trigger] rows.approvals@[k])
                == place && timeline::shows_approval(rows.approvals@[k], envelope)
    }
}

/// Whether an item of a page shows the row at a place.
pub open spec fn shows_row(rows: TimelineRows, place: TimelineCursor, item: TimelineEntry) -> bool {
    exists|envelope: TimelineEnvelope| #[trigger]
        shows_place(rows, place, envelope) && envelope.entry == item
}

/// Whether some items show every row once, in the order of the timeline; `places`
/// are their places.
pub open spec fn lists_rows(
    rows: TimelineRows,
    items: Seq<TimelineEntry>,
    places: Seq<TimelineCursor>,
) -> bool {
    &&& places.len() == items.len()
    &&& ascending(places)
    &&& forall|i: int|
        0 <= i < places.len() ==> has_row(rows, places[i]) && shows_row(
            rows,
            #[trigger] places[i],
            items[i],
        )
    &&& forall|place: TimelineCursor| #[trigger] has_row(rows, place) ==> places.contains(place)
}

/// One page of a reading: the place where it begins, the rows that were loaded for
/// it, and what it shows.
pub struct TimelineStep {
    pub from: Option<TimelineCursor>,
    pub rows: TimelineRows,
    pub page: AdminPage<TimelineEntry>,
}

/// Whether a page is made from the first rows behind its place: of each kind one
/// more than it shows.
pub open spec fn is_step(
    workflow_id: int,
    stored: TimelineRows,
    limit: u32,
    step: TimelineStep,
) -> bool {
    &&& loads_rows(stored, step.from, limit + 1, step.rows)
    &&& timeline::is_timeline_page(workflow_id, step.rows, limit, step.page)
}

/// Whether a page begins where the cursor of the one before it says.
pub open spec fn continues(workflow_id: int, steps: Seq<TimelineStep>, i: int) -> bool {
    match (steps[i - 1].page.next_cursor, steps[i].from) {
        (Some(next), Some(place)) => timeline::is_read_place(
            timeline::timeline_scope(workflow_id),
            next@,
            Ok::<TimelineCursor, ErrorModel>(place),
        ),
        _ => false,
    }
}

/// Whether the pages are those of a reading from the beginning, each from the
/// cursor of the one before it, up to the one without a cursor.
pub open spec fn is_reading(
    workflow_id: int,
    stored: TimelineRows,
    limit: u32,
    steps: Seq<TimelineStep>,
) -> bool {
    &&& steps.len() > 0
    &&& steps[0].from is None
    &&& steps.last().page.next_cursor is None
    &&& forall|i: int|
        0 <= i < steps.len() ==> is_step(workflow_id, stored, limit, #[trigger] steps[i])
    &&& forall|i: int| 1 <= i < steps.len() ==> #[trigger] continues(workflow_id, steps, i)
}

/// The items of some pages, one page behind the other.
pub open spec fn joined_items(steps: Seq<TimelineStep>) -> Seq<TimelineEntry>
    decreases steps.len(),
{
    if steps.len() == 0 {
        Seq::empty()
    } else {
        joined_items(steps.drop_last()) + steps.last().page.items@
    }
}

/// The order of places is that of their keys, and a key belongs to one place.
proof fn lemma_place_order(a: TimelineCursor, b: TimelineCursor)
    requires
        timeline::is_place(a),
        timeline::is_place(b),
    ensures
        timeline::place_before(a, b) == comes_before(a, b),
        a.timestamp == b.timestamp && timeline::place_key(a) == timeline::place_key(b) ==> a == b,
{
    timeline::law_keys_follow_numbers(a, b);
    timeline::law_keys_follow_numbers(b, a);
    text::lemma_text_order(timeline::place_key(a), timeline::place_key(b));
}

/// The places of the rows of the first kinds.
spec fn places_up_to(rows: TimelineRows, kinds: nat) -> Seq<TimelineCursor>
    decreases kinds,
{
    if kinds == 0 {
        Seq::empty()
    } else {
        places_up_to(rows, (kinds - 1) as nat) + source_places(rows, kinds - 1)
    }
}

proof fn lemma_source_rank(rows: TimelineRows, rank: int)
    requires
        0 <= rank <= 4,
    ensures
        forall|k: int|
            0 <= k < source_places(rows, rank).len() ==> (#[trigger] source_places(
                rows,
                rank,
            )[k]).rank == rank,
{
}

proof fn lemma_places_once(rows: TimelineRows, kinds: nat)
    requires
        kinds <= 5,
        forall|rank: int| 0 <= rank <= 4 ==> ascending(#[trigger] source_places(rows, rank)),
    ensures
        places_up_to(rows, kinds).no_duplicates(),
        forall|k: int|
            0 <= k < places_up_to(rows, kinds).len() ==> (#[trigger] places_up_to(
                rows,
                kinds,
            )[k]).rank < kinds && has_row(rows, places_up_to(rows, kinds)[k]),
        forall|place: TimelineCursor| #[trigger]
            has_row(rows, place) && place.rank < kinds ==> places_up_to(rows, kinds).contains(
                place,
            ),
    decreases kinds,
{
    if kinds > 0 {
        let before = (kinds - 1) as nat;
        lemma_places_once(rows, before);
        lemma_source_rank(rows, before as int);
        let earlier = places_up_to(rows, before);
        let source = source_places(rows, before as int);
        let all = places_up_to(rows, kinds);
        assert(ascending(source));
        assert forall|i: int, j: int| 0 <= i < all.len() && 0 <= j < all.len() && i != j implies all[i]
            != all[j] by {
            if i < earlier.len() && j < earlier.len() {
                assert(earlier[i] != earlier[j]);
            } else if i < earlier.len() {
                assert(all[i] == earlier[i] && all[j] == source[j - earlier.len()]);
            } else if j < earlier.len() {
                assert(all[j] == earlier[j] && all[i] == source[i - earlier.len()]);
            } else if i < j {
                assert(comes_before(source[i - earlier.len()], source[j - earlier.len()]));
            } else {
                assert(comes_before(source[j - earlier.len()], source[i - earlier.len()]));
            }
        }
        assert forall|k: int| 0 <= k < all.len() implies (#[trigger] all[k]).rank < kinds
            && has_row(rows, all[k]) by {
            if k < earlier.len() {
                assert(all[k] == earlier[k]);
            } else {
                assert(all[k] == source[k - earlier.len()]);
            }
        }
        assert forall|place: TimelineCursor| #[trigger]
            has_row(rows, place) && place.rank < kinds implies all.contains(place) by {
            if place.rank < before {
                let k = choose|k: int| 0 <= k < earlier.len() && earlier[k] == place;
                assert(all[k] == place);
            } else {
                let k = choose|k: int| 0 <= k < source.len() && source[k] == place;
                assert(all[earlier.len() + k] == place);
            }
        }
    }
}

/// Whether an entry stands at a place and shows its row.
spec fn stands_at(rows: TimelineRows, envelope: TimelineEnvelope, place: TimelineCursor) -> bool {
    &&& envelope.occurred_at == place.timestamp
    &&& envelope.tie_breaker@ == timeline::place_key(place)
    &&& shows_place(rows, place, envelope)
}

proof fn lemma_gathered_places(rows: TimelineRows, entries: Seq<TimelineEnvelope>)
    requires
        timeline::gathers(rows, entries),
    ensures
        places_up_to(rows, 5).len() == entries.len(),
        forall|i: int|
            0 <= i < entries.len() ==> stands_at(
                rows,
                #[trigger] entries[i],
                places_up_to(rows, 5)[i],
            ),
{
    reveal_with_fuel(places_up_to, 6);
    let a = rows.events@.len() as int;
    let b = a + rows.activities@.len();
    let c = b + rows.attempts@.len();
    let d = c + rows.progress@.len();
    let all = places_up_to(rows, 5);
    assert(all.len() == entries.len());
    assert forall|i: int| 0 <= i < entries.len() implies stands_at(
        rows,
        #[trigger] entries[i],
        all[i],
    ) by {
        if i < a {
            let row = rows.events@[i];
            assert(all[i] == event_place(row));
        } else if i < b {
            let row = rows.activities@[i - a];
            assert(all[i] == activity_place(row));
        } else if i < c {
            let row = rows.attempts@[i - b];
            assert(all[i] == attempt_place(row));
        } else if i < d {
            let row = rows.progress@[i - c];
            assert(all[i] == progress_place(row));
        } else {
            let row = rows.approvals@[i - d];
            assert(all[i] == approval_place(row));
        }
    }
}

/// The places of merged rows: in order, each once, and each with its entry.
spec fn are_places_of(
    rows: TimelineRows,
    sorted: Seq<TimelineEnvelope>,
    places: Seq<TimelineCursor>,
) -> bool {
    &&& places.len() == sorted.len()
    &&& ascending(places)
    &&& forall|i: int|
        0 <= i < places.len() ==> has_row(rows, #[trigger] places[i]) && stands_at(
            rows,
            sorted[i],
            places[i],
        )
    &&& forall|place: TimelineCursor| #[trigger] has_row(rows, place) ==> places.contains(place)
}

proof fn lemma_entries_differ(rows: TimelineRows, entries: Seq<TimelineEnvelope>)
    requires
        timeline::gathers(rows, entries),
        are_rows(rows),
        forall|rank: int| 0 <= rank <= 4 ==> ascending(#[trigger] source_places(rows, rank)),
    ensures
        entries.no_duplicates(),
{
    let all = places_up_to(rows, 5);
    lemma_places_once(rows, 5);
    lemma_gathered_places(rows, entries);
    assert forall|i: int, j: int|
        0 <= i < entries.len() && 0 <= j < entries.len() && i != j implies entries[i]
        != entries[j] by {
        assert(all[i] != all[j]);
        assert(has_row(rows, all[i]) && has_row(rows, all[j]));
        assert(stands_at(rows, entries[i], all[i]) && stands_at(rows, entries[j], all[j]));
        lemma_place_order(all[i], all[j]);
    }
}

proof fn lemma_sorted_places(
    rows: TimelineRows,
    entries: Seq<TimelineEnvelope>,
    sorted: Seq<TimelineEnvelope>,
) -> (places: Seq<TimelineCursor>)
    requires
        timeline::gathers(rows, entries),
        timeline::in_order(entries, sorted),
        are_rows(rows),
        forall|rank: int| 0 <= rank <= 4 ==> ascending(#[trigger] source_places(rows, rank)),
    ensures
        are_places_of(rows, sorted, places),
{
    let all = places_up_to(rows, 5);
    lemma_places_once(rows, 5);
    lemma_gathered_places(rows, entries);
    lemma_entries_differ(rows, entries);
    entries.lemma_multiset_has_no_duplicates();
    sorted.lemma_multiset_has_no_duplicates_conv();
    let index = |envelope: TimelineEnvelope|
        choose|k: int| 0 <= k < entries.len() && entries[k] == envelope;
    let places = Seq::new(sorted.len(), |i: int| all[index(sorted[i])]);
    assert forall|i: int| 0 <= i < sorted.len() implies 0 <= #[trigger] index(sorted[i])
        < entries.len() && entries[index(sorted[i])] == sorted[i] by {
        assert(sorted.contains(sorted[i]));
        order::lemma_same_elements(sorted, entries, sorted[i]);
    }
    assert forall|i: int| 0 <= i < places.len() implies has_row(rows, #[trigger] places[i])
        && stands_at(rows, sorted[i], places[i]) by {
        let k = index(sorted[i]);
        assert(places[i] == all[k]);
        assert(stands_at(rows, entries[k], all[k]));
    }
    assert forall|i: int, j: int|
        #![trigger places[i], places[j]]
        0 <= i < j < places.len() implies comes_before(places[i], places[j]) by {
        let k = index(sorted[i]);
        let l = index(sorted[j]);
        assert(sorted[i] != sorted[j]);
        assert(k != l);
        assert(all[k] != all[l]);
        assert(places[i] == all[k] && places[j] == all[l]);
        assert(has_row(rows, places[i]) && has_row(rows, places[j]));
        lemma_place_order(places[j], places[i]);
        assert(!sorted[j].ranks_before(&sorted[i]));
    }
    assert forall|place: TimelineCursor| #[trigger] has_row(rows, place) implies places.contains(
        place,
    ) by {
        let k = choose|k: int| 0 <= k < all.len() && all[k] == place;
        assert(entries.contains(entries[k]));
        order::lemma_same_elements(sorted, entries, entries[k]);
        let i = choose|i: int| 0 <= i < sorted.len() && sorted[i] == entries[k];
        assert(index(sorted[i]) == k) by {
            if index(sorted[i]) != k {
                assert(entries[index(sorted[i])] != entries[k]);
            }
        }
        assert(places[i] == place);
    }
    places
}

/// Where every one of some places stands among others, both in order, it stands at
/// least as far behind as among its own.
proof fn lemma_stands_behind(
    some: Seq<TimelineCursor>,
    places: Seq<TimelineCursor>,
    m: int,
) -> (i: int)
    requires
        ascending(some),
        ascending(places),
        forall|k: int| 0 <= k < some.len() ==> places.contains(#[trigger] some[k]),
        0 <= m < some.len(),
    ensures
        m <= i < places.len(),
        places[i] == some[m],
    decreases m,
{
    assert(places.contains(some[m]));
    let i = choose|i: int| 0 <= i < places.len() && places[i] == some[m];
    if m > 0 {
        let before = lemma_stands_behind(some, places, m - 1);
        assert(comes_before(some[m - 1], some[m]));
        if i <= before {
            if i < before {
                assert(comes_before(places[i], places[before]));
            }
        }
    }
    i
}

/// What a page of a reading shows of the stored rows, and where it leaves off.
#[verifier::opaque]
spec fn lists_page(
    workflow_id: int,
    stored: TimelineRows,
    limit: u32,
    step: TimelineStep,
    places: Seq<TimelineCursor>,
) -> bool {
    &&& places.len() == step.page.items@.len()
    &&& ascending(places)
    &&& forall|i: int|
        0 <= i < places.len() ==> has_row(stored, #[trigger] places[i]) && is_behind(
            step.from,
            places[i],
        ) && shows_row(stored, places[i], step.page.items@[i])
    &&& forall|place: TimelineCursor| #[trigger]
        has_row(stored, place) && is_behind(step.from, place) ==> places.contains(place) || (
        step.page.next_cursor is Some && comes_before(places.last(), place))
    &&& match step.page.next_cursor {
        None => places.len() <= limit,
        Some(next) => {
            &&& places.len() == limit
            &&& exists|place: TimelineCursor| #[trigger]
                has_row(stored, place) && comes_before(places.last(), place)
            &&& forall|read: Result<TimelineCursor, ErrorModel>| #[trigger]
                timeline::is_read_place(
                    timeline::timeline_scope(workflow_id),
                    next@,
                    read,
                ) ==> read == Ok::<TimelineCursor, ErrorModel>(places.last())
        },
    }
}

proof fn lemma_kept(
    stored: TimelineRows,
    from: Option<TimelineCursor>,
    count: int,
    loaded: TimelineRows,
    place: TimelineCursor,
    envelope: TimelineEnvelope,
)
    requires
        loads_rows(stored, from, count, loaded),
        place.rank <= 4,
    ensures
        has_row(loaded, place) ==> has_row(stored, place) && is_behind(from, place),
        shows_place(loaded, place, envelope) ==> shows_place(stored, place, envelope),
{
    let rank = place.rank as int;
    let source = source_places(loaded, rank);
    assert(loads_first(source_places(stored, rank), from, count, source));
    if has_row(loaded, place) {
        let k = choose|k: int| 0 <= k < source.len() && source[k] == place;
        assert(source_places(stored, rank).contains(source[k]));
    }
    if shows_place(loaded, place, envelope) {
        if place.rank == 0 {
            let k = choose|k: int|
                0 <= k < loaded.events@.len() && event_place(#[trigger] loaded.events@[k]) == place
                    && timeline::shows_event(loaded.events@[k], envelope);
            let j = choose|j: int|
                0 <= j < stored.events@.len() && stored.events@[j] == loaded.events@[k];
            assert(event_place(stored.events@[j]) == place);
        } else if place.rank == 1 {
            let k = choose|k: int|
                0 <= k < loaded.activities@.len() && activity_place(
                    #[trigger] loaded.activities@[k],
                ) == place && timeline::shows_activity(loaded.activities@[k], envelope);
            let j = choose|j: int|
                0 <= j < stored.activities@.len() && stored.activities@[j]
                    == loaded.activities@[k];
            assert(activity_place(stored.activities@[j]) == place);
        } else if place.rank == 2 {
            let k = choose|k: int|
                0 <= k < loaded.attempts@.len() && attempt_place(#[trigger] loaded.attempts@[k])
                    == place && timeline::shows_attempt(loaded.attempts@[k], envelope);
            let j = choose|j: int|
                0 <= j < stored.attempts@.len() && stored.attempts@[j] == loaded.attempts@[k];
            assert(attempt_place(stored.attempts@[j]) == place);
        } else if place.rank == 3 {
            let k = choose|k: int|
                0 <= k < loaded.progress@.len() && progress_place(#[trigger] loaded.progress@[k])
                    == place && timeline::shows_progress(loaded.progress@[k], envelope);
            let j = choose|j: int|
                0 <= j < stored.progress@.len() && stored.progress@[j] == loaded.progress@[k];
            assert(progress_place(stored.progress@[j]) == place);
        } else {
            let k = choose|k: int|
                0 <= k < loaded.approvals@.len() && approval_place(#[trigger] loaded.approvals@[k])
                    == place && timeline::shows_approval(loaded.approvals@[k], envelope);
            let j = choose|j: int|
                0 <= j < stored.approvals@.len() && stored.approvals@[j] == loaded.approvals@[k];
            assert(approval_place(stored.approvals@[j]) == place);
        }
    }
}

/// A stored row behind the beginning of a page is one of the merged rows, or it
/// comes behind the first `limit` of them, of which there are more.
proof fn lemma_row_loaded(
    stored: TimelineRows,
    from: Option<TimelineCursor>,
    limit: u32,
    loaded: TimelineRows,
    sorted: Seq<TimelineEnvelope>,
    places: Seq<TimelineCursor>,
    place: TimelineCursor,
)
    requires
        limit > 0,
        loads_rows(stored, from, limit + 1, loaded),
        are_places_of(loaded, sorted, places),
        has_row(stored, place),
        is_behind(from, place),
    ensures
        places.contains(place) || (places.len() > limit && comes_before(
            places[limit - 1],
            place,
        )),
{
    let rank = place.rank as int;
    let source = source_places(loaded, rank);
    assert(loads_first(source_places(stored, rank), from, limit + 1, source));
    if source.contains(place) {
        assert(has_row(loaded, place));
    } else {
        assert(source_places(stored, rank).contains(place));
        assert(source.len() == limit + 1);
        lemma_source_rank(loaded, rank);
        assert forall|k: int| 0 <= k < source.len() implies places.contains(
            #[trigger] source[k],
        ) by {
            assert(source.contains(source[k]));
            assert(has_row(loaded, source[k]));
        }
        let i = lemma_stands_behind(source, places, limit as int);
        assert(comes_before(source[limit as int], place));
        assert(comes_before(places[limit - 1], places[i]));
    }
}

proof fn lemma_step(workflow_id: int, stored: TimelineRows, limit: u32, step: TimelineStep) -> (shown:
    Seq<TimelineCursor>)
    requires
        i64::MIN <= workflow_id <= i64::MAX,
        limit > 0,
        are_rows(stored),
        is_step(workflow_id, stored, limit, step),
    ensures
        lists_page(workflow_id, stored, limit, step, shown),
{
    let rows = step.rows;
    let page = step.page;
    let (entries, sorted) = choose|
        entries: Seq<TimelineEnvelope>,
        sorted: Seq<TimelineEnvelope>,
    |
        #![trigger timeline::in_order(entries, sorted)]
        timeline::gathers(rows, entries) && timeline::in_order(entries, sorted)
            && timeline::shows_first(workflow_id, sorted, limit, page);
    assert(are_rows(rows)) by {
        assert forall|place: TimelineCursor| #[trigger]
            has_row(rows, place) implies timeline::is_place(place) by {
            lemma_kept(stored, step.from, limit + 1, rows, place, entries[0]);
        }
    }
    assert forall|rank: int| 0 <= rank <= 4 implies ascending(
        #[trigger] source_places(rows, rank),
    ) by {
        assert(loads_first(
            source_places(stored, rank),
            step.from,
            limit + 1,
            source_places(rows, rank),
        ));
    }
    let places = lemma_sorted_places(rows, entries, sorted);
    let n = query::at_most(sorted.len() as int, limit);
    let shown = places.take(n);
    assert forall|i: int| 0 <= i < shown.len() implies has_row(stored, #[trigger] shown[i])
        && is_behind(step.from, shown[i]) && shows_row(stored, shown[i], page.items@[i]) by {
        assert(shown[i] == places[i]);
        assert(has_row(rows, places[i]));
        lemma_kept(stored, step.from, limit + 1, rows, places[i], sorted[i]);
        assert(shows_place(stored, places[i], sorted[i]));
        assert(page.items@[i] == sorted[i].entry);
    }
    assert(ascending(shown)) by {
        assert forall|i: int, j: int|
            #![trigger shown[i], shown[j]]
            0 <= i < j < shown.len() implies comes_before(shown[i], shown[j]) by {
            assert(comes_before(places[i], places[j]));
        }
    }
    assert forall|place: TimelineCursor| #[trigger]
        has_row(stored, place) && is_behind(step.from, place) implies shown.contains(place) || (
    page.next_cursor is Some && comes_before(shown.last(), place)) by {
        lemma_row_loaded(stored, step.from, limit, rows, sorted, places, place);
        if places.contains(place) {
            let i = choose|i: int| 0 <= i < places.len() && places[i] == place;
            if i < n {
                assert(shown[i] == place);
            } else {
                assert(comes_before(places[n - 1], places[i]));
            }
        }
    }
    match page.next_cursor {
        Some(next) => {
            let last = places[n - 1];
            assert(shown.last() == last);
            assert(has_row(rows, places[n]) && has_row(rows, last));
            lemma_kept(stored, step.from, limit + 1, rows, places[n], sorted[n]);
            assert(comes_before(last, places[n]));
            let position = timeline::entry_position(sorted[n - 1]);
            let scope = timeline::timeline_scope(workflow_id);
            assert(stands_at(rows, sorted[n - 1], last));
            timeline::lemma_place_fits(workflow_id, last);
            timeline::law_place_reads_back(last);
            assert forall|read: Result<TimelineCursor, ErrorModel>| #[trigger]
                timeline::is_read_place(scope, next@, read) implies read == Ok::<
                TimelineCursor,
                ErrorModel,
            >(last) by {
                assert(next@ == cursor::encoded_cursor(scope, position));
                assert(cursor::reads_written_cursor(
                    scope,
                    next@,
                    cursor::decoded_cursor(scope, next@),
                ));
            }
        },
        None => {},
    }
    reveal(lists_page);
    shown
}

/// What the first pages of a reading show, and where they leave off.
#[verifier::opaque]
spec fn lists_so_far(
    workflow_id: int,
    stored: TimelineRows,
    items: Seq<TimelineEntry>,
    last: TimelineStep,
    places: Seq<TimelineCursor>,
) -> bool {
    &&& places.len() == items.len()
    &&& ascending(places)
    &&& forall|i: int|
        0 <= i < places.len() ==> has_row(stored, #[trigger] places[i]) && shows_row(
            stored,
            places[i],
            items[i],
        )
    &&& forall|place: TimelineCursor| #[trigger]
        has_row(stored, place) ==> places.contains(place) || (last.page.next_cursor is Some
            && comes_before(places.last(), place))
    &&& last.page.next_cursor matches Some(next) ==> {
        &&& places.len() > 0
        &&& exists|place: TimelineCursor| #[trigger]
            has_row(stored, place) && comes_before(places.last(), place)
        &&& forall|read: Result<TimelineCursor, ErrorModel>| #[trigger]
            timeline::is_read_place(
                timeline::timeline_scope(workflow_id),
                next@,
                read,
            ) ==> read == Ok::<TimelineCursor, ErrorModel>(places.last())
    }
}

/// One more page goes on where the pages before it left off.
proof fn lemma_pages_join(
    workflow_id: int,
    stored: TimelineRows,
    limit: u32,
    items: Seq<TimelineEntry>,
    before: TimelineStep,
    earlier: Seq<TimelineCursor>,
    step: TimelineStep,
    shown: Seq<TimelineCursor>,
)
    requires
        limit > 0,
        lists_so_far(workflow_id, stored, items, before, earlier),
        lists_page(workflow_id, stored, limit, step, shown),
        before.page.next_cursor is Some,
        step.from is Some,
        timeline::is_read_place(
            timeline::timeline_scope(workflow_id),
            before.page.next_cursor->0@,
            Ok::<TimelineCursor, ErrorModel>(step.from->0),
        ),
    ensures
        lists_so_far(workflow_id, stored, items + step.page.items@, step, earlier + shown),
        shown.len() > 0,
{
    reveal(lists_so_far);
    reveal(lists_page);
    let place = step.from->0;
    assert(place == earlier.last());
    let all = earlier + shown;
    let both = items + step.page.items@;
    assert(shown.len() > 0) by {
        let next = choose|next: TimelineCursor| #[trigger]
            has_row(stored, next) && comes_before(earlier.last(), next);
        assert(is_behind(step.from, next));
        if step.page.next_cursor is None {
            assert(shown.contains(next));
        }
    }
    assert(all.last() == shown.last());
    assert forall|i: int| 0 <= i < all.len() implies has_row(stored, #[trigger] all[i])
        && shows_row(stored, all[i], both[i]) by {
        if i < earlier.len() {
            assert(all[i] == earlier[i] && both[i] == items[i]);
        } else {
            assert(all[i] == shown[i - earlier.len()]);
            assert(both[i] == step.page.items@[i - earlier.len()]);
        }
    }
    assert forall|i: int, j: int|
        #![trigger all[i], all[j]]
        0 <= i < j < all.len() implies comes_before(all[i], all[j]) by {
        let m = earlier.len() as int;
        if j < m {
            assert(comes_before(earlier[i], earlier[j]));
        } else if i >= m {
            assert(comes_before(shown[i - m], shown[j - m]));
        } else {
            assert(is_behind(step.from, shown[j - m]));
            assert(comes_before(place, shown[j - m]));
            if i < m - 1 {
                assert(comes_before(earlier[i], earlier[m - 1]));
            }
        }
    }
    assert forall|p: TimelineCursor| #[trigger] has_row(stored, p) implies all.contains(p) || (
    step.page.next_cursor is Some && comes_before(all.last(), p)) by {
        if earlier.contains(p) {
            let k = choose|k: int| 0 <= k < earlier.len() && earlier[k] == p;
            assert(all[k] == p);
        } else {
            assert(is_behind(step.from, p));
            if shown.contains(p) {
                let k = choose|k: int| 0 <= k < shown.len() && shown[k] == p;
                assert(all[earlier.len() + k] == p);
            }
        }
    }
}

proof fn lemma_reading(
    workflow_id: int,
    stored: TimelineRows,
    limit: u32,
    steps: Seq<TimelineStep>,
    n: int,
) -> (places: Seq<TimelineCursor>)
    requires
        i64::MIN <= workflow_id <= i64::MAX,
        limit > 0,
        are_rows(stored),
        is_reading(workflow_id, stored, limit, steps),
        1 <= n <= steps.len(),
    ensures
        lists_so_far(workflow_id, stored, joined_items(steps.take(n)), steps[n - 1], places),
        n > 1 ==> steps[n - 1].page.items@.len() > 0,
        n == 1 ==> places.len() == steps[0].page.items@.len(),
        steps[n - 1].page.items@.len() <= limit,
        steps[n - 1].page.next_cursor is Some ==> steps[n - 1].page.items@.len() == limit,
    decreases n,
{
    let step = steps[n - 1];
    let shown = lemma_step(workflow_id, stored, limit, step);
    assert(steps.take(n).drop_last() =~= steps.take(n - 1));
    assert(steps.take(n).last() == step);
    assert(shown.len() == step.page.items@.len() && shown.len() <= limit && (
    step.page.next_cursor is Some ==> shown.len() == limit)) by {
        reveal(lists_page);
    }
    if n == 1 {
        reveal(lists_page);
        reveal(lists_so_far);
        assert(joined_items(steps.take(0)) =~= Seq::<TimelineEntry>::empty());
        assert(joined_items(steps.take(1)) =~= step.page.items@);
        shown
    } else {
        let earlier = lemma_reading(workflow_id, stored, limit, steps, n - 1);
        assert(continues(workflow_id, steps, n - 1));
        lemma_pages_join(
            workflow_id,
            stored,
            limit,
            joined_items(steps.take(n - 1)),
            steps[n - 2],
            earlier,
            step,
            shown,
        );
        assert(shown.len() > 0) by {
            reveal(lists_page);
        }
        earlier + shown
    }
}

/// Who reads a timeline from its beginning and follows the cursor of each page
/// sees every row exactly once, in the order of times, kinds and numbers. Every
/// page with a cursor shows `limit` rows; the last one shows at most as many, and
/// none only where there are no rows at all.
pub proof fn law_pages_list_every_row_once(
    workflow_id: int,
    stored: TimelineRows,
    limit: u32,
    steps: Seq<TimelineStep>,
)
    requires
        0 < workflow_id <= i64::MAX,
        limit > 0,
        are_rows(stored),
        is_reading(workflow_id, stored, limit, steps),
    ensures
        exists|places: Seq<TimelineCursor>| #[trigger]
            lists_rows(stored, joined_items(steps), places),
        forall|i: int|
            0 <= i < steps.len() - 1 ==> (#[trigger] steps[i]).page.items@.len() == limit,
        steps.last().page.items@.len() <= limit,
        steps.last().page.items@.len() == 0 ==> steps.len() == 1 && forall|place: TimelineCursor|
            !(#[trigger] has_row(stored, place)),
{
    let n = steps.len() as int;
    let places = lemma_reading(workflow_id, stored, limit, steps, n);
    assert(steps.take(n) =~= steps);
    reveal(lists_so_far);
    assert(lists_rows(stored, joined_items(steps), places));
    assert forall|i: int| 0 <= i < n - 1 implies (#[trigger] steps[i]).page.items@.len()
        == limit by {
        let shown = lemma_reading(workflow_id, stored, limit, steps, i + 1);
        assert(continues(workflow_id, steps, i + 1));
    }
}

} // verus!
