//! Schedule definitions, their registry, and the reconciliation of their
//! persisted state.
use vstd::prelude::*;
use crate::arith;
use crate::arith::whole_millis;
use crate::duration::Duration;
use crate::error;
use crate::error::{DurableError, ErrorModel};
use crate::json;
use crate::json::literal;
use crate::naming;
use crate::naming::is_lower_snake_case;
use crate::numerals;
use crate::numerals::{decimal_i64, decimal_u64, hex2};
use crate::persistence::models::{
    NewScheduleStateRow, NewScheduleStateRowModel, ScheduleStateRow, ScheduleStateRowModel,
};
use crate::policy;
use crate::policy::sha256;
use crate::schedule::calendar;
use crate::schedule::calendar::{CalendarModel, OccurrenceModel, ScheduleCalendar, ScheduleOccurrence};
use crate::text;
use crate::text::{byte_len, join5, precedes, same_text};

verus! {

/// What becomes of occurrences that were missed.
#[derive(Debug, Clone, Copy, PartialEq, Eq, Structural)]
pub enum MisfirePolicy {
    Skip,
    RunLatest,
    CatchUp { max_occurrences: u32 },
}

/// What becomes of an occurrence while an earlier one still runs.
#[derive(Debug, Clone, Copy, PartialEq, Eq, Structural)]
pub enum OverlapPolicy {
    Allow,
    SkipIfActive,
    QueueOne,
}

/// The longest schedule key, in bytes.
pub const MAX_SCHEDULE_KEY_BYTES: usize = 191;

/// The most missed occurrences that a schedule may catch up with.
pub const MAX_CATCH_UP_OCCURRENCES: u32 = 100;

/// The definition of a schedule.
pub trait DurableSchedule: Send + Sync + 'static {
    const KEY: &'static str;

    const VERSION: i32;

    const CRON: &'static str;

    const TIMEZONE: &'static str;

    const MISFIRE: MisfirePolicy;

    const OVERLAP: OverlapPolicy;

    const MISFIRE_GRACE: Duration;
}

/// Whether the persisted state of a schedule was inserted, kept or replaced, or
/// belongs to a newer definition.
#[derive(Debug, Clone, Copy, PartialEq, Eq, Structural)]
pub enum ScheduleStateReconcileOutcome {
    Inserted,
    Preserved,
    Upgraded,
    NewerPersisted,
}

/// A registered schedule definition.
#[derive(Debug, PartialEq, Eq)]
pub struct ScheduleDefinitionMetadata {
    pub key: String,
    pub version: i32,
    pub fingerprint: String,
    pub cron: String,
    pub timezone: String,
    pub misfire: MisfirePolicy,
    pub overlap: OverlapPolicy,
    pub misfire_grace_millis: i64,
}

impl Clone for ScheduleDefinitionMetadata {
    fn clone(&self) -> (copy: Self)
        ensures
            copy == *self,
    {
        ScheduleDefinitionMetadata {
            key: self.key.clone(),
            version: self.version,
            fingerprint: self.fingerprint.clone(),
            cron: self.cron.clone(),
            timezone: self.timezone.clone(),
            misfire: self.misfire,
            overlap: self.overlap,
            misfire_grace_millis: self.misfire_grace_millis,
        }
    }
}

/// The mathematical content of a [`ScheduleDefinitionMetadata`].
#[verifier::ext_equal]
pub struct MetadataModel {
    pub key: Seq<char>,
    pub version: i32,
    pub fingerprint: Seq<char>,
    pub cron: Seq<char>,
    pub timezone: Seq<char>,
    pub misfire: MisfirePolicy,
    pub overlap: OverlapPolicy,
    pub misfire_grace_millis: i64,
}

impl View for ScheduleDefinitionMetadata {
    type V = MetadataModel;

    open spec fn view(&self) -> MetadataModel {
        MetadataModel {
            key: self.key@,
            version: self.version,
            fingerprint: self.fingerprint@,
            cron: self.cron@,
            timezone: self.timezone@,
            misfire: self.misfire,
            overlap: self.overlap,
            misfire_grace_millis: self.misfire_grace_millis,
        }
    }
}

/// Whether a key, a version, a policy and a grace may define a schedule.
pub open spec fn valid_schedule(
    key: Seq<char>,
    version: i32,
    misfire: MisfirePolicy,
    grace_nanos: nat,
) -> bool {
    &&& naming::lower_snake_case(key)
    &&& text::utf8_len(key) <= MAX_SCHEDULE_KEY_BYTES
    &&& version > 0
    &&& grace_nanos > 0
    &&& match misfire {
        MisfirePolicy::CatchUp { max_occurrences } => 1 <= max_occurrences
            <= MAX_CATCH_UP_OCCURRENCES,
        _ => true,
    }
}

/// The refusal of a definition that is not valid.
pub open spec fn invalid_schedule() -> ErrorModel {
    ErrorModel::InvalidDefinition("schedule key, version, misfire policy, or grace is invalid"@)
}

/// Checks a schedule definition.
pub fn validate_definition(key: &str, version: i32, misfire: MisfirePolicy, grace: Duration) -> (
result: Result<(), DurableError>)
    ensures
        error::result_model(result) == (if valid_schedule(key@, version, misfire, grace@) {
            Ok(())
        } else {
            Err(invalid_schedule())
        }),
{
    let valid_key = byte_len(key) <= MAX_SCHEDULE_KEY_BYTES && is_lower_snake_case(key);
    let valid_catch_up = match misfire {
        MisfirePolicy::CatchUp { max_occurrences } => 1 <= max_occurrences && max_occurrences
            <= MAX_CATCH_UP_OCCURRENCES,
        MisfirePolicy::Skip | MisfirePolicy::RunLatest => true,
    };
    if !valid_key || version <= 0 || grace.is_zero() || !valid_catch_up {
        return Err(
            error::invalid_definition("schedule key, version, misfire policy, or grace is invalid"),
        );
    }
    Ok(())
}

/// The JSON text of a misfire policy.
pub open spec fn misfire_text(misfire: MisfirePolicy) -> Seq<char> {
    match misfire {
        MisfirePolicy::Skip => "{\"kind\":\"skip\"}"@,
        MisfirePolicy::RunLatest => "{\"kind\":\"run_latest\"}"@,
        MisfirePolicy::CatchUp { max_occurrences } => "{\"kind\":\"catch_up\",\"max_occurrences\":"@
            + numerals::decimal(max_occurrences as int) + "}"@,
    }
}

/// The JSON text of an overlap policy.
pub open spec fn overlap_text(overlap: OverlapPolicy) -> Seq<char> {
    match overlap {
        OverlapPolicy::Allow => "\"allow\""@,
        OverlapPolicy::SkipIfActive => "\"skip_if_active\""@,
        OverlapPolicy::QueueOne => "\"queue_one\""@,
    }
}

/// The JSON array that identifies a definition.
pub open spec fn canonical_text(
    key: Seq<char>,
    version: int,
    cron: Seq<char>,
    timezone: Seq<char>,
    misfire: MisfirePolicy,
    overlap: OverlapPolicy,
    misfire_grace_millis: int,
) -> Seq<char> {
    "["@ + json::json_literal(key) + ","@ + numerals::decimal(version) + ","@ + json::json_literal(
        cron,
    ) + ","@ + json::json_literal(timezone) + ","@ + misfire_text(misfire) + ","@ + overlap_text(
        overlap,
    ) + ","@ + numerals::decimal(misfire_grace_millis) + "]"@
}

/// The lower-case hexadecimal text of some bytes.
pub open spec fn hex_text(bytes: Seq<u8>) -> Seq<char>
    decreases bytes.len(),
{
    if bytes.len() == 0 {
        Seq::empty()
    } else {
        hex_text(bytes.drop_last()) + numerals::hex_digits(bytes.last() as nat, 2)
    }
}

/// The lower-case hexadecimal text of some bytes.
pub fn to_hex(bytes: &[u8]) -> (s: String)
    ensures
        s@ == hex_text(bytes@),
{
    let mut s = String::new();
    let mut i: usize = 0;
    assert(bytes@.take(0) =~= Seq::<u8>::empty());
    while i < bytes.len()
        invariant
            i <= bytes@.len(),
            s@ == hex_text(bytes@.take(i as int)),
        decreases bytes@.len() - i,
    {
        assert(bytes@.take(i as int + 1).drop_last() =~= bytes@.take(i as int));
        s.append(hex2(bytes[i]).as_str());
        i = i + 1;
    }
    assert(bytes@.take(i as int) =~= bytes@);
    s
}

/// The fingerprint of a definition: the SHA-256 digest of its canonical text.
pub open spec fn fingerprint_of(
    key: Seq<char>,
    version: int,
    cron: Seq<char>,
    timezone: Seq<char>,
    misfire: MisfirePolicy,
    overlap: OverlapPolicy,
    misfire_grace_millis: int,
) -> Seq<char> {
    hex_text(
        policy::sha256_digest(
            vstd::utf8::encode_utf8(
                canonical_text(key, version, cron, timezone, misfire, overlap, misfire_grace_millis),
            ),
        ),
    )
}

fn misfire_json(misfire: MisfirePolicy) -> (s: String)
    ensures
        s@ == misfire_text(misfire),
{
    match misfire {
        MisfirePolicy::Skip => "{\"kind\":\"skip\"}".to_owned(),
        MisfirePolicy::RunLatest => "{\"kind\":\"run_latest\"}".to_owned(),
        MisfirePolicy::CatchUp { max_occurrences } => text::join3(
            "{\"kind\":\"catch_up\",\"max_occurrences\":",
            decimal_u64(max_occurrences as u64).as_str(),
            "}",
        ),
    }
}

fn overlap_json(overlap: OverlapPolicy) -> (s: &'static str)
    ensures
        s@ == overlap_text(overlap),
{
    match overlap {
        OverlapPolicy::Allow => "\"allow\"",
        OverlapPolicy::SkipIfActive => "\"skip_if_active\"",
        OverlapPolicy::QueueOne => "\"queue_one\"",
    }
}

/// The JSON array that identifies a definition.
pub fn canonical_json(
    key: &str,
    version: i32,
    cron: &str,
    timezone: &str,
    misfire: MisfirePolicy,
    overlap: OverlapPolicy,
    misfire_grace_millis: i64,
) -> (s: String)
    ensures
        s@ == canonical_text(
            key@,
            version as int,
            cron@,
            timezone@,
            misfire,
            overlap,
            misfire_grace_millis as int,
        ),
{
    let mut s = join5(
        "[",
        literal(key).as_str(),
        ",",
        decimal_i64(version as i64).as_str(),
        ",",
    );
    s.append(literal(cron).as_str());
    s.append(",");
    s.append(literal(timezone).as_str());
    s.append(",");
    s.append(misfire_json(misfire).as_str());
    s.append(",");
    s.append(overlap_json(overlap));
    s.append(",");
    s.append(decimal_i64(misfire_grace_millis).as_str());
    s.append("]");
    s
}

/// The definition of a schedule type, given the milliseconds of its grace.
pub open spec fn metadata_of<S: DurableSchedule>() -> MetadataModel {
    MetadataModel {
        key: S::KEY@,
        version: S::VERSION,
        fingerprint: fingerprint_of(
            S::KEY@,
            S::VERSION as int,
            S::CRON@,
            S::TIMEZONE@,
            S::MISFIRE,
            S::OVERLAP,
            arith::millis_of(S::MISFIRE_GRACE@)->0 as int,
        ),
        cron: S::CRON@,
        timezone: S::TIMEZONE@,
        misfire: S::MISFIRE,
        overlap: S::OVERLAP,
        misfire_grace_millis: arith::millis_of(S::MISFIRE_GRACE@)->0,
    }
}

/// The refusal of a grace that does not fit.
pub open spec fn grace_error() -> ErrorModel {
    ErrorModel::InvalidDefinition("schedule misfire grace exceeds i64 milliseconds"@)
}

/// The definition of a schedule type; refuses a grace that does not fit.
pub fn metadata<S: DurableSchedule>() -> (result: Result<ScheduleDefinitionMetadata, DurableError>)
    ensures
        match result {
            Ok(metadata) => arith::millis_of(S::MISFIRE_GRACE@) is Some && metadata@ == metadata_of::<
                S,
            >(),
            Err(error) => arith::millis_of(S::MISFIRE_GRACE@) is None && error@ == grace_error(),
        },
{
    let misfire_grace_millis: i64 = match whole_millis(S::MISFIRE_GRACE) {
        Some(millis) => millis,
        None => return Err(
            error::invalid_definition("schedule misfire grace exceeds i64 milliseconds"),
        ),
    };
    let canonical = canonical_json(
        S::KEY,
        S::VERSION,
        S::CRON,
        S::TIMEZONE,
        S::MISFIRE,
        S::OVERLAP,
        misfire_grace_millis,
    );
    let digest = sha256(canonical.as_str().as_bytes());
    Ok(
        ScheduleDefinitionMetadata {
            key: S::KEY.to_owned(),
            version: S::VERSION,
            fingerprint: to_hex(digest.as_slice()),
            cron: S::CRON.to_owned(),
            timezone: S::TIMEZONE.to_owned(),
            misfire: S::MISFIRE,
            overlap: S::OVERLAP,
            misfire_grace_millis,
        },
    )
}

/// A registered schedule with what the application runs for it.
#[derive(Debug)]
struct RegisteredSchedule<H> {
    metadata: ScheduleDefinitionMetadata,
    calendar: ScheduleCalendar,
    handler: H,
}

/// The mathematical content of a registered schedule.
#[verifier::ext_equal]
pub struct ScheduleModel<H> {
    pub metadata: MetadataModel,
    pub handler: H,
}

/// The registered schedules, each key at most once.
///
/// The view lists them in increasing order of their keys.
#[derive(Debug)]
pub struct ScheduleRegistry<H> {
    entries: Vec<RegisteredSchedule<H>>,
}

spec fn entry_model<H>(entry: RegisteredSchedule<H>) -> ScheduleModel<H> {
    ScheduleModel { metadata: entry.metadata@, handler: entry.handler }
}

impl<H> View for ScheduleRegistry<H> {
    type V = Seq<ScheduleModel<H>>;

    closed spec fn view(&self) -> Seq<ScheduleModel<H>> {
        Seq::new(self.entries@.len(), |i: int| entry_model(self.entries@[i]))
    }
}

/// Whether the keys increase.
pub open spec fn increasing_keys<H>(schedules: Seq<ScheduleModel<H>>) -> bool {
    forall|i: int, j: int|
        #![trigger schedules[i], schedules[j]]
        0 <= i < j < schedules.len() ==> text::text_before(
            schedules[i].metadata.key,
            schedules[j].metadata.key,
        )
}

/// Whether a schedule has the given key.
pub open spec fn has_schedule<H>(schedules: Seq<ScheduleModel<H>>, key: Seq<char>) -> bool {
    exists|i: int| 0 <= i < schedules.len() && (#[trigger] schedules[i]).metadata.key == key
}

/// Why a schedule type cannot be registered.
pub open spec fn register_error<S: DurableSchedule>(registered: bool) -> Option<ErrorModel> {
    if !valid_schedule(S::KEY@, S::VERSION, S::MISFIRE, S::MISFIRE_GRACE@) {
        Some(invalid_schedule())
    } else if registered {
        Some(ErrorModel::DuplicateDefinition { kind: S::KEY@, version: S::VERSION as int })
    } else if calendar::calendar_error(S::CRON@, S::TIMEZONE@) is Some {
        calendar::calendar_error(S::CRON@, S::TIMEZONE@)
    } else if arith::millis_of(S::MISFIRE_GRACE@) is None {
        Some(grace_error())
    } else {
        None
    }
}

/// Whether `after` is `before` with one schedule more, still in increasing order.
pub open spec fn adds_schedule<H>(
    before: Seq<ScheduleModel<H>>,
    after: Seq<ScheduleModel<H>>,
    added: ScheduleModel<H>,
) -> bool {
    &&& increasing_keys(after)
    &&& exists|at: int|
        0 <= at <= before.len() && after == #[trigger] before.insert(at, added)
}

/// The refusal of a key that no schedule has.
pub open spec fn unknown_schedule(key: Seq<char>) -> ErrorModel {
    ErrorModel::NotFound { resource: "schedule definition"@, identifier: key }
}

impl<H> Default for ScheduleRegistry<H> {
    fn default() -> (registry: Self)
        ensures
            registry@ == Seq::<ScheduleModel<H>>::empty(),
    {
        ScheduleRegistry::new()
    }
}

impl<H> ScheduleRegistry<H> {
    #[verifier::type_invariant]
    spec fn well_formed(self) -> bool {
        &&& increasing_keys(self@)
        &&& forall|i: int|
            0 <= i < self.entries@.len() ==> (#[trigger] self.entries@[i]).calendar@ == (
            CalendarModel {
                cron: self.entries@[i].metadata.cron@,
                timezone: self.entries@[i].metadata.timezone@,
            })
    }

    /// No schedules.
    pub fn new() -> (registry: Self)
        ensures
            registry@ == Seq::<ScheduleModel<H>>::empty(),
    {
        let registry = ScheduleRegistry { entries: Vec::new() };
        assert(registry@ =~= Seq::<ScheduleModel<H>>::empty());
        registry
    }

    /// The place of the first schedule whose key does not come before `key`.
    fn place_of(&self, key: &str) -> (at: usize)
        ensures
            at <= self.entries@.len(),
            forall|i: int|
                0 <= i < at ==> text::text_before((#[trigger] self@[i]).metadata.key, key@),
            forall|i: int|
                at <= i < self.entries@.len() ==> !text::text_before(
                    (#[trigger] self@[i]).metadata.key,
                    key@,
                ),
    {
        proof {
            use_type_invariant(self);
        }
        let mut at: usize = 0;
        while at < self.entries.len() && precedes(self.entries[at].metadata.key.as_str(), key)
            invariant
                at <= self.entries@.len(),
                forall|i: int|
                    0 <= i < at ==> text::text_before((#[trigger] self@[i]).metadata.key, key@),
            decreases self.entries@.len() - at,
        {
            at = at + 1;
        }
        proof {
            use_type_invariant(self);
            assert forall|i: int| at <= i < self.entries@.len() implies !text::text_before(
                (#[trigger] self@[i]).metadata.key,
                key@,
            ) by {
                if i > at && text::text_before(self@[i].metadata.key, key@) {
                    assert(text::text_before(self@[at as int].metadata.key, self@[i].metadata.key));
                    text::lemma_text_transitive(
                        self@[at as int].metadata.key,
                        self@[i].metadata.key,
                        key@,
                    );
                    assert(self@[at as int].metadata.key == self.entries@[at as int].metadata.key@);
                } else if i == at {
                    assert(self@[i].metadata.key == self.entries@[i].metadata.key@);
                }
            }
        }
        at
    }

    /// The place of the schedule with the given key.
    fn find(&self, key: &str) -> (found: Option<usize>)
        ensures
            match found {
                Some(at) => at < self.entries@.len() && self@[at as int].metadata.key == key@,
                None => !has_schedule(self@, key@),
            },
    {
        let at = self.place_of(key);
        proof {
            use_type_invariant(self);
            assert forall|i: int| 0 <= i < self@.len() && self@[i].metadata.key == key@ implies i
                == at by {
                text::lemma_text_order(key@, key@);
                if i < at {
                    assert(text::text_before(self@[i].metadata.key, key@));
                } else if i > at {
                    assert(text::text_before(self@[at as int].metadata.key, self@[i].metadata.key));
                }
            }
        }
        if at < self.entries.len() && same_text(self.entries[at].metadata.key.as_str(), key) {
            return Some(at);
        }
        None
    }

    /// Registers a schedule type.
    pub fn register<S: DurableSchedule>(&mut self, handler: H) -> (result: Result<(), DurableError>)
        ensures
            match result {
                Ok(()) => register_error::<S>(has_schedule(old(self)@, S::KEY@)) is None
                    && adds_schedule(
                    old(self)@,
                    final(self)@,
                    ScheduleModel { metadata: metadata_of::<S>(), handler },
                ),
                Err(error) => register_error::<S>(has_schedule(old(self)@, S::KEY@)) == Some(error@)
                    && final(self)@ == old(self)@,
            },
    {
        match validate_definition(S::KEY, S::VERSION, S::MISFIRE, S::MISFIRE_GRACE) {
            Ok(()) => {},
            Err(error) => return Err(error),
        }
        match self.find(S::KEY) {
            Some(at) => {
                assert(self@[at as int].metadata.key == S::KEY@);
                return Err(
                    DurableError::DuplicateDefinition {
                        kind: S::KEY.to_owned(),
                        version: S::VERSION,
                    },
                );
            },
            None => {},
        }
        let calendar = match ScheduleCalendar::new(S::CRON, S::TIMEZONE) {
            Ok(calendar) => calendar,
            Err(error) => return Err(error),
        };
        let metadata = match metadata::<S>() {
            Ok(metadata) => metadata,
            Err(error) => return Err(error),
        };
        let at = self.place_of(S::KEY);
        proof {
            use_type_invariant(&*self);
        }
        let ghost before = self@;
        let mut entries: Vec<RegisteredSchedule<H>> = Vec::new();
        std::mem::swap(&mut entries, &mut self.entries);
        let ghost placed = entries@;
        let added = RegisteredSchedule { metadata, calendar, handler };
        let ghost model = entry_model(added);
        entries.insert(at, added);
        proof {
            let after = Seq::new(entries@.len(), |i: int| entry_model(entries@[i]));
            assert(after =~= before.insert(at as int, model));
            assert forall|i: int, j: int|
                #![trigger after[i], after[j]]
                0 <= i < j < after.len() implies text::text_before(
                after[i].metadata.key,
                after[j].metadata.key,
            ) by {
                if i == at {
                    assert(after[j] == before[j - 1]);
                    text::lemma_text_order(before[j - 1].metadata.key, S::KEY@);
                } else if j == at {
                    assert(after[i] == before[i]);
                } else if j < at {
                    assert(after[i] == before[i] && after[j] == before[j]);
                } else if i < at {
                    assert(after[i] == before[i] && after[j] == before[j - 1]);
                } else {
                    assert(after[i] == before[i - 1] && after[j] == before[j - 1]);
                }
            }
            assert forall|i: int| 0 <= i < entries@.len() implies (#[trigger] entries@[i]).calendar@
                == (CalendarModel {
                cron: entries@[i].metadata.cron@,
                timezone: entries@[i].metadata.timezone@,
            }) by {
                if i < at {
                    assert(entries@[i] == placed[i]);
                } else if i > at {
                    assert(entries@[i] == placed[i - 1]);
                }
            }
        }
        self.entries = entries;
        Ok(())
    }

    /// The definitions in increasing order of their keys.
    pub fn definitions(&self) -> (definitions: Vec<ScheduleDefinitionMetadata>)
        ensures
            increasing_keys(self@),
            definitions@.len() == self@.len(),
            forall|i: int|
                0 <= i < self@.len() ==> (#[trigger] definitions@[i])@ == self@[i].metadata,
    {
        proof {
            use_type_invariant(self);
        }
        let mut definitions: Vec<ScheduleDefinitionMetadata> = Vec::new();
        let mut i: usize = 0;
        while i < self.entries.len()
            invariant
                i <= self.entries@.len(),
                definitions@.len() == i,
                forall|j: int| 0 <= j < i ==> (#[trigger] definitions@[j])@ == self@[j].metadata,
            decreases self.entries@.len() - i,
        {
            definitions.push(self.entries[i].metadata.clone());
            i = i + 1;
        }
        definitions
    }

    /// The definition with the given key.
    pub fn get(&self, key: &str) -> (found: Option<&ScheduleDefinitionMetadata>)
        ensures
            match found {
                Some(metadata) => metadata@.key == key@ && exists|i: int|
                    0 <= i < self@.len() && (#[trigger] self@[i]).metadata == metadata@,
                None => !has_schedule(self@, key@),
            },
    {
        match self.find(key) {
            Some(at) => {
                assert(self@[at as int].metadata == self.entries@[at as int].metadata@);
                Some(&self.entries[at].metadata)
            },
            None => None,
        }
    }

    /// The calendar of the schedule with the given key.
    pub fn calendar(&self, key: &str) -> (found: Option<&ScheduleCalendar>)
        ensures
            match found {
                Some(calendar) => exists|i: int|
                    0 <= i < self@.len() && (#[trigger] self@[i]).metadata.key == key@ && calendar@
                        == (CalendarModel {
                        cron: self@[i].metadata.cron,
                        timezone: self@[i].metadata.timezone,
                    }),
                None => !has_schedule(self@, key@),
            },
    {
        match self.find(key) {
            Some(at) => {
                proof {
                    use_type_invariant(self);
                    assert(self@[at as int].metadata == self.entries@[at as int].metadata@);
                }
                Some(&self.entries[at].calendar)
            },
            None => None,
        }
    }

    /// What the application runs for the schedule with the given key.
    pub fn handler(&self, key: &str) -> (result: Result<&H, DurableError>)
        ensures
            match result {
                Ok(handler) => exists|i: int|
                    0 <= i < self@.len() && (#[trigger] self@[i]).metadata.key == key@ && *handler
                        == self@[i].handler,
                Err(error) => !has_schedule(self@, key@) && error@ == unknown_schedule(key@),
            },
    {
        match self.find(key) {
            Some(at) => {
                assert(self@[at as int].handler == self.entries@[at as int].handler);
                Ok(&self.entries[at].handler)
            },
            None => Err(
                DurableError::NotFound {
                    resource: "schedule definition",
                    identifier: key.to_owned(),
                },
            ),
        }
    }
}

/// The state that is inserted for a schedule that has none.
pub open spec fn initial_state(
    metadata: MetadataModel,
    next: OccurrenceModel,
    now: i64,
) -> NewScheduleStateRowModel {
    NewScheduleStateRowModel {
        schedule_key: metadata.key,
        definition_fingerprint: metadata.fingerprint,
        definition_version: metadata.version,
        next_local_occurrence: next.text,
        next_occurrence_at: next.due_at as i64,
        last_materialized_at: None,
        paused_at: None,
        paused_by: None,
        pause_reason: None,
        created_at: now,
        updated_at: now,
    }
}

/// The state that is inserted for a schedule that has none.
pub fn state_row(metadata: &ScheduleDefinitionMetadata, next: &ScheduleOccurrence, now: i64) -> (row:
    NewScheduleStateRow)
    ensures
        row@ == initial_state(metadata@, next@, now),
{
    NewScheduleStateRow {
        schedule_key: metadata.key.clone(),
        definition_fingerprint: metadata.fingerprint.clone(),
        definition_version: metadata.version,
        next_local_occurrence: next.local_occurrence.clone(),
        next_occurrence_at: next.due_at,
        last_materialized_at: None,
        paused_at: None,
        paused_by: None,
        pause_reason: None,
        created_at: now,
        updated_at: now,
    }
}

/// The state of a schedule whose definition was replaced by a newer version.
pub open spec fn upgraded_state(
    row: ScheduleStateRowModel,
    metadata: MetadataModel,
    next: OccurrenceModel,
    now: i64,
) -> ScheduleStateRowModel {
    ScheduleStateRowModel {
        definition_fingerprint: metadata.fingerprint,
        definition_version: metadata.version,
        next_local_occurrence: next.text,
        next_occurrence_at: next.due_at as i64,
        updated_at: now,
        ..row
    }
}

/// Compares the persisted state of a schedule with its definition. `inserted`
/// says whether the state was inserted just now. A state of an older version is
/// upgraded; one of the same version must have the same fingerprint.
pub fn reconcile_state(
    metadata: &ScheduleDefinitionMetadata,
    next: &ScheduleOccurrence,
    inserted: bool,
    row: ScheduleStateRow,
    now: i64,
) -> (result: Result<(ScheduleStateReconcileOutcome, Option<ScheduleStateRow>), DurableError>)
    ensures
        match result {
            Ok((outcome, upgrade)) => {
                &&& outcome == (if inserted {
                    ScheduleStateReconcileOutcome::Inserted
                } else if row@.definition_version > metadata@.version {
                    ScheduleStateReconcileOutcome::NewerPersisted
                } else if row@.definition_version == metadata@.version {
                    ScheduleStateReconcileOutcome::Preserved
                } else {
                    ScheduleStateReconcileOutcome::Upgraded
                })
                &&& outcome == ScheduleStateReconcileOutcome::Preserved
                    ==> row@.definition_fingerprint == metadata@.fingerprint
                &&& match upgrade {
                    Some(next_row) => outcome == ScheduleStateReconcileOutcome::Upgraded
                        && next_row@ == upgraded_state(row@, metadata@, next@, now),
                    None => outcome != ScheduleStateReconcileOutcome::Upgraded,
                }
            },
            Err(error) => {
                &&& !inserted
                &&& row@.definition_version == metadata@.version
                &&& row@.definition_fingerprint != metadata@.fingerprint
                &&& error@ == ErrorModel::Conflict(
                    "schedule "@ + metadata@.key + " v"@ + numerals::decimal(metadata@.version as int)
                        + " metadata changed without a version bump"@,
                )
            },
        },
{
    if inserted {
        return Ok((ScheduleStateReconcileOutcome::Inserted, None));
    }
    if row.definition_version > metadata.version {
        return Ok((ScheduleStateReconcileOutcome::NewerPersisted, None));
    }
    if row.definition_version == metadata.version {
        if same_text(row.definition_fingerprint.as_str(), metadata.fingerprint.as_str()) {
            return Ok((ScheduleStateReconcileOutcome::Preserved, None));
        }
        return Err(
            DurableError::Conflict(
                join5(
                    "schedule ",
                    metadata.key.as_str(),
                    " v",
                    decimal_i64(metadata.version as i64).as_str(),
                    " metadata changed without a version bump",
                ),
            ),
        );
    }
    let mut upgraded = row;
    upgraded.definition_fingerprint = metadata.fingerprint.clone();
    upgraded.definition_version = metadata.version;
    upgraded.next_local_occurrence = next.local_occurrence.clone();
    upgraded.next_occurrence_at = next.due_at;
    upgraded.updated_at = now;
    Ok((ScheduleStateReconcileOutcome::Upgraded, Some(upgraded)))
}

/// A schedule is defined exactly by a key in lower snake case of at most 191 bytes, a
/// positive version, a grace that is not zero and, where it catches up, a limit of one to
/// a hundred occurrences.
pub proof fn law_schedule_is_refused_only_for_a_reason(
    key: Seq<char>,
    version: i32,
    misfire: MisfirePolicy,
    grace_nanos: nat,
)
    ensures
        valid_schedule(key, version, misfire, grace_nanos) <==> {
            &&& naming::lower_snake_case(key)
            &&& text::utf8_len(key) <= 191
            &&& version > 0
            &&& grace_nanos > 0
            &&& misfire matches MisfirePolicy::CatchUp { max_occurrences } ==> 1 <= max_occurrences
                <= 100
        },
{
}

/// The definition of a schedule type says what the type says, each under its own name.
pub proof fn law_metadata_says_what_the_type_says<S: DurableSchedule>()
    requires
        arith::millis_of(S::MISFIRE_GRACE@) is Some,
    ensures
        ({
            let metadata = metadata_of::<S>();
            &&& metadata.key == S::KEY@
            &&& metadata.version == S::VERSION
            &&& metadata.cron == S::CRON@
            &&& metadata.timezone == S::TIMEZONE@
            &&& metadata.misfire == S::MISFIRE
            &&& metadata.overlap == S::OVERLAP
            &&& metadata.misfire_grace_millis * 1_000_000 <= S::MISFIRE_GRACE@ < (
            metadata.misfire_grace_millis + 1) * 1_000_000
            &&& metadata.fingerprint == fingerprint_of(
                metadata.key,
                metadata.version as int,
                metadata.cron,
                metadata.timezone,
                metadata.misfire,
                metadata.overlap,
                metadata.misfire_grace_millis as int,
            )
        }),
{
}

/// Different definitions are written differently: whatever is changed of a definition
/// changes the text that its fingerprint is made of.
pub proof fn law_canonical_text_identifies_the_definition(
    key: Seq<char>,
    version: int,
    cron: Seq<char>,
    timezone: Seq<char>,
    misfire: MisfirePolicy,
    overlap: OverlapPolicy,
    grace: int,
    other_key: Seq<char>,
    other_version: int,
    other_cron: Seq<char>,
    other_timezone: Seq<char>,
    other_misfire: MisfirePolicy,
    other_overlap: OverlapPolicy,
    other_grace: int,
)
    requires
        canonical_text(key, version, cron, timezone, misfire, overlap, grace) == canonical_text(
            other_key,
            other_version,
            other_cron,
            other_timezone,
            other_misfire,
            other_overlap,
            other_grace,
        ),
    ensures
        key == other_key,
        version == other_version,
        cron == other_cron,
        timezone == other_timezone,
        misfire == other_misfire,
        overlap == other_overlap,
        grace == other_grace,
{
    reveal_strlit("[");
    reveal_strlit(",");
    reveal_strlit("]");
    let comma = ","@;
    let close = "]"@;
    let a6 = behind_overlap(grace);
    let b6 = behind_overlap(other_grace);
    let a5 = overlap_text(overlap) + (comma + a6);
    let b5 = overlap_text(other_overlap) + (comma + b6);
    let a4 = misfire_text(misfire) + (comma + a5);
    let b4 = misfire_text(other_misfire) + (comma + b5);
    let a3 = json::json_literal(timezone) + (comma + a4);
    let b3 = json::json_literal(other_timezone) + (comma + b4);
    let a2 = json::json_literal(cron) + (comma + a3);
    let b2 = json::json_literal(other_cron) + (comma + b3);
    let a1 = numerals::decimal(version) + (comma + a2);
    let b1 = numerals::decimal(other_version) + (comma + b2);
    let a0 = json::json_literal(key) + (comma + a1);
    let b0 = json::json_literal(other_key) + (comma + b1);
    lemma_canonical_parts(key, version, cron, timezone, misfire, overlap, grace);
    lemma_canonical_parts(
        other_key,
        other_version,
        other_cron,
        other_timezone,
        other_misfire,
        other_overlap,
        other_grace,
    );
    lemma_same_behind("["@, a0, b0);
    json::law_literals_stand_for_one_text(key, other_key, comma + a1, comma + b1);
    lemma_same_behind(comma, a1, b1);
    numerals::lemma_number_ends(version, other_version, comma + a2, comma + b2);
    lemma_same_behind(comma, a2, b2);
    json::law_literals_stand_for_one_text(cron, other_cron, comma + a3, comma + b3);
    lemma_same_behind(comma, a3, b3);
    json::law_literals_stand_for_one_text(timezone, other_timezone, comma + a4, comma + b4);
    lemma_same_behind(comma, a4, b4);
    lemma_misfire_ends(misfire, other_misfire, comma + a5, comma + b5);
    lemma_same_behind(comma, a5, b5);
    lemma_overlap_ends(overlap, other_overlap, comma + a6, comma + b6);
    lemma_same_behind(comma, a6, b6);
    numerals::lemma_number_ends(grace, other_grace, close, close);
}

/// The grace at the end of the text of a definition.
spec fn behind_overlap(grace: int) -> Seq<char> {
    numerals::decimal(grace) + "]"@
}

proof fn lemma_canonical_parts(
    key: Seq<char>,
    version: int,
    cron: Seq<char>,
    timezone: Seq<char>,
    misfire: MisfirePolicy,
    overlap: OverlapPolicy,
    grace: int,
)
    ensures
        canonical_text(key, version, cron, timezone, misfire, overlap, grace) == "["@ + (
        json::json_literal(key) + (","@ + (numerals::decimal(version) + (","@ + (json::json_literal(
            cron,
        ) + (","@ + (json::json_literal(timezone) + (","@ + (misfire_text(misfire) + (","@ + (
        overlap_text(overlap) + (","@ + behind_overlap(grace))))))))))))),
{
    let comma = ","@;
    let p1 = "["@ + json::json_literal(key);
    let p2 = p1 + comma + numerals::decimal(version);
    let p3 = p2 + comma + json::json_literal(cron);
    let p4 = p3 + comma + json::json_literal(timezone);
    let p5 = p4 + comma + misfire_text(misfire);
    let p6 = p5 + comma + overlap_text(overlap);
    let a6 = behind_overlap(grace);
    let a5 = overlap_text(overlap) + (comma + a6);
    let a4 = misfire_text(misfire) + (comma + a5);
    let a3 = json::json_literal(timezone) + (comma + a4);
    let a2 = json::json_literal(cron) + (comma + a3);
    let a1 = numerals::decimal(version) + (comma + a2);
    lemma_joined_thrice(p6, comma, numerals::decimal(grace), "]"@);
    lemma_joined_thrice(p5, comma, overlap_text(overlap), comma + a6);
    lemma_joined_thrice(p4, comma, misfire_text(misfire), comma + a5);
    lemma_joined_thrice(p3, comma, json::json_literal(timezone), comma + a4);
    lemma_joined_thrice(p2, comma, json::json_literal(cron), comma + a3);
    lemma_joined_thrice(p1, comma, numerals::decimal(version), comma + a2);
    assert(p1 + (comma + a1) =~= "["@ + (json::json_literal(key) + (comma + a1)));
}

proof fn lemma_joined_thrice(front: Seq<char>, comma: Seq<char>, part: Seq<char>, behind: Seq<char>)
    ensures
        front + comma + part + behind == front + (comma + (part + behind)),
{
    assert(front + comma + part + behind =~= front + (comma + (part + behind)));
}

proof fn lemma_same_behind(front: Seq<char>, a: Seq<char>, b: Seq<char>)
    requires
        front + a == front + b,
    ensures
        a == b,
{
    assert((front + a).skip(front.len() as int) =~= a);
    assert((front + b).skip(front.len() as int) =~= b);
}

proof fn lemma_misfire_ends(
    misfire: MisfirePolicy,
    other: MisfirePolicy,
    behind: Seq<char>,
    other_behind: Seq<char>,
)
    requires
        misfire_text(misfire) + behind == misfire_text(other) + other_behind,
    ensures
        misfire == other,
        behind == other_behind,
{
    reveal_strlit("{\"kind\":\"skip\"}");
    reveal_strlit("{\"kind\":\"run_latest\"}");
    reveal_strlit("{\"kind\":\"catch_up\",\"max_occurrences\":");
    reveal_strlit("}");
    let left = misfire_text(misfire) + behind;
    let right = misfire_text(other) + other_behind;
    let front = "{\"kind\":\"catch_up\",\"max_occurrences\":"@;
    assert(left[9] == misfire_text(misfire)[9]);
    assert(right[9] == misfire_text(other)[9]);
    assert("{\"kind\":\"skip\"}"@[9] == 's');
    assert("{\"kind\":\"run_latest\"}"@[9] == 'r');
    assert(front[9] == 'c');
    match (misfire, other) {
        (
            MisfirePolicy::CatchUp { max_occurrences: most },
            MisfirePolicy::CatchUp { max_occurrences: other_most },
        ) => {
            let a = numerals::decimal(most as int) + ("}"@ + behind);
            let b = numerals::decimal(other_most as int) + ("}"@ + other_behind);
            assert(left =~= front + a);
            assert(right =~= front + b);
            lemma_same_behind(front, a, b);
            numerals::lemma_number_ends(
                most as int,
                other_most as int,
                "}"@ + behind,
                "}"@ + other_behind,
            );
            lemma_same_behind("}"@, behind, other_behind);
        },
        (MisfirePolicy::CatchUp { max_occurrences: most }, _) => {
            assert(misfire_text(misfire)[9] == front[9]);
        },
        (_, MisfirePolicy::CatchUp { max_occurrences: most }) => {
            assert(misfire_text(other)[9] == front[9]);
        },
        _ => {
            assert(misfire == other);
            lemma_same_behind(misfire_text(misfire), behind, other_behind);
        },
    }
}

proof fn lemma_overlap_ends(
    overlap: OverlapPolicy,
    other: OverlapPolicy,
    behind: Seq<char>,
    other_behind: Seq<char>,
)
    requires
        overlap_text(overlap) + behind == overlap_text(other) + other_behind,
    ensures
        overlap == other,
        behind == other_behind,
{
    reveal_strlit("\"allow\"");
    reveal_strlit("\"skip_if_active\"");
    reveal_strlit("\"queue_one\"");
    let left = overlap_text(overlap) + behind;
    let right = overlap_text(other) + other_behind;
    assert("\"allow\""@[1] == 'a' && "\"skip_if_active\""@[1] == 's' && "\"queue_one\""@[1] == 'q');
    assert(left[1] == overlap_text(overlap)[1]);
    assert(right[1] == overlap_text(other)[1]);
    lemma_same_behind(overlap_text(overlap), behind, other_behind);
}

/// The hexadecimal text of some bytes has two digits for each, and stands for those bytes
/// alone.
pub proof fn law_hex_text_identifies_the_bytes(bytes: Seq<u8>, other: Seq<u8>)
    ensures
        hex_text(bytes).len() == 2 * bytes.len(),
        hex_text(bytes) == hex_text(other) ==> bytes == other,
    decreases bytes.len(),
{
    reveal_with_fuel(numerals::hex_digits, 3);
    if bytes.len() > 0 {
        let last = bytes.last() as nat;
        law_hex_text_identifies_the_bytes(bytes.drop_last(), other.drop_last());
        numerals::lemma_hex_digits(last, 2);
    }
    if other.len() > 0 {
        lemma_hex_length(other);
        numerals::lemma_hex_digits(other.last() as nat, 2);
        lemma_hex_length(other.drop_last());
    }
    if hex_text(bytes) == hex_text(other) {
        lemma_hex_length(other);
        assert(bytes.len() == other.len());
        if bytes.len() > 0 {
            let k = 2 * (bytes.len() - 1);
            let a = numerals::hex_digits(bytes.last() as nat, 2);
            let b = numerals::hex_digits(other.last() as nat, 2);
            assert(hex_text(bytes).take(k) =~= hex_text(bytes.drop_last()));
            assert(hex_text(other).take(k) =~= hex_text(other.drop_last()));
            assert(hex_text(bytes)[k] == a[0] && hex_text(bytes)[k + 1] == a[1]);
            assert(hex_text(other)[k] == b[0] && hex_text(other)[k + 1] == b[1]);
            assert(bytes.last() == other.last());
            assert(bytes =~= bytes.drop_last().push(bytes.last()));
            assert(other =~= other.drop_last().push(other.last()));
        } else {
            assert(bytes =~= other);
        }
    }
}

proof fn lemma_hex_length(bytes: Seq<u8>)
    ensures
        hex_text(bytes).len() == 2 * bytes.len(),
    decreases bytes.len(),
{
    if bytes.len() > 0 {
        lemma_hex_length(bytes.drop_last());
        numerals::lemma_hex_digits(bytes.last() as nat, 2);
    }
}

/// Registering a schedule adds it and keeps every other: exactly its key becomes known, and
/// the keys stay in order.
pub proof fn law_registered_schedule_is_added<H>(
    before: Seq<ScheduleModel<H>>,
    after: Seq<ScheduleModel<H>>,
    added: ScheduleModel<H>,
    key: Seq<char>,
)
    requires
        adds_schedule(before, after, added),
    ensures
        after.len() == before.len() + 1,
        has_schedule(after, key) <==> has_schedule(before, key) || key == added.metadata.key,
        after.contains(added),
        forall|i: int| 0 <= i < before.len() ==> after.contains(#[trigger] before[i]),
        increasing_keys(after),
{
    let at = choose|at: int|
        0 <= at <= before.len() && after == #[trigger] before.insert(at, added);
    assert(after[at] == added);
    assert forall|i: int| 0 <= i < before.len() implies after.contains(#[trigger] before[i]) by {
        if i < at {
            assert(after[i] == before[i]);
        } else {
            assert(after[i + 1] == before[i]);
        }
    }
    if has_schedule(after, key) && key != added.metadata.key {
        let i = choose|i: int| 0 <= i < after.len() && (#[trigger] after[i]).metadata.key == key;
        if i < at {
            assert(before[i].metadata.key == key);
        } else {
            assert(before[i - 1].metadata.key == key);
        }
    }
    if has_schedule(before, key) {
        let i = choose|i: int| 0 <= i < before.len() && (#[trigger] before[i]).metadata.key == key;
        assert(after.contains(before[i]));
        let k = choose|k: int| 0 <= k < after.len() && after[k] == before[i];
        assert(after[k].metadata.key == key);
    }
}

/// The first state of a schedule is that of its definition, active, at its next occurrence
/// and with nothing taken up.
pub proof fn law_first_state_is_that_of_the_definition(
    metadata: MetadataModel,
    next: OccurrenceModel,
    now: i64,
)
    requires
        i64::MIN <= next.due_at <= i64::MAX,
    ensures
        ({
            let state = initial_state(metadata, next, now);
            &&& state.schedule_key == metadata.key
            &&& state.definition_fingerprint == metadata.fingerprint
            &&& state.definition_version == metadata.version
            &&& state.next_local_occurrence == next.text
            &&& state.next_occurrence_at == next.due_at
            &&& state.last_materialized_at is None
            &&& state.paused_at is None && state.paused_by is None && state.pause_reason is None
            &&& state.created_at == now && state.updated_at == now
        }),
{
}

/// An upgraded state belongs to the new definition and stands at its next occurrence; what
/// was taken up and a pause stay as they were.
pub proof fn law_upgrade_keeps_the_pause(
    row: ScheduleStateRowModel,
    metadata: MetadataModel,
    next: OccurrenceModel,
    now: i64,
)
    requires
        i64::MIN <= next.due_at <= i64::MAX,
    ensures
        ({
            let state = upgraded_state(row, metadata, next, now);
            &&& state.schedule_key == row.schedule_key
            &&& state.definition_fingerprint == metadata.fingerprint
            &&& state.definition_version == metadata.version
            &&& state.next_local_occurrence == next.text
            &&& state.next_occurrence_at == next.due_at
            &&& state.last_materialized_at == row.last_materialized_at
            &&& state.paused_at == row.paused_at
            &&& state.paused_by == row.paused_by
            &&& state.pause_reason == row.pause_reason
            &&& state.created_at == row.created_at
            &&& state.updated_at == now
        }),
{
}

/// A schedule is registered exactly where it is valid, its key is free, its calendar is
/// accepted and its grace fits into milliseconds.
pub proof fn law_schedules_are_registered_once<S: DurableSchedule>(registered: bool)
    ensures
        register_error::<S>(registered) is None <==> {
            &&& valid_schedule(S::KEY@, S::VERSION, S::MISFIRE, S::MISFIRE_GRACE@)
            &&& !registered
            &&& calendar::calendar_error(S::CRON@, S::TIMEZONE@) is None
            &&& arith::millis_of(S::MISFIRE_GRACE@) is Some
        },
        register_error::<S>(true) is Some,
{
}

} // verus!
