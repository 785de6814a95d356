//! The metadata from which definitions are derived.
//!
//! The attributes of a definition come as lists of entries. An entry holds the
//! value that was written for a field, or why it could not be read.
use vstd::prelude::*;
use crate::admin::query::reversed;
use crate::naming;
use crate::naming::is_lower_snake_case;
use crate::policy::BackoffPolicy;
use crate::schedule::registry::{MisfirePolicy, OverlapPolicy};
use crate::text::{join3, same_text};

verus! {

/// The value of the last entry that gives one.
pub open spec fn last_given<E, T>(entries: Seq<E>, given: spec_fn(E) -> Option<T>) -> Option<T>
    decreases entries.len(),
{
    if entries.len() == 0 {
        None
    } else {
        match given(entries.last()) {
            Some(value) => Some(value),
            None => last_given(entries.drop_last(), given),
        }
    }
}

/// The text that refuses a second value of a field.
pub open spec fn duplicate_text(name: Seq<char>) -> Seq<char> {
    "duplicate `"@ + name + "` metadata"@
}

/// The text that refuses the lack of a field.
pub open spec fn missing_text(name: Seq<char>) -> Seq<char> {
    "missing `"@ + name + "` metadata"@
}

/// Why a value of a field is refused: the field has one, or it is malformed.
pub open spec fn value_problem<T>(
    value: Result<T, String>,
    taken: bool,
    duplicate: Seq<char>,
) -> Option<Seq<char>> {
    if taken {
        Some(duplicate)
    } else {
        match value {
            Ok(_) => None,
            Err(message) => Some(message@),
        }
    }
}

fn take_value<T>(slot: &mut Option<T>, value: Result<T, String>, duplicate: &str) -> (result: Result<
    (),
    String,
>)
    ensures
        match result {
            Ok(_) => {
                &&& value_problem(value, *old(slot) is Some, duplicate@) is None
                &&& value matches Ok(given)
                &&& *final(slot) == Some(given)
            },
            Err(message) => value_problem(value, *old(slot) is Some, duplicate@) == Some(message@),
        },
{
    if slot.is_some() {
        return Err(duplicate.to_owned());
    }
    match value {
        Ok(given) => {
            *slot = Some(given);
            Ok(())
        },
        Err(message) => Err(message),
    }
}

fn duplicate(name: &str) -> (text: String)
    ensures
        text@ == duplicate_text(name@),
{
    join3("duplicate `", name, "` metadata")
}

fn missing(name: &str) -> (text: String)
    ensures
        text@ == missing_text(name@),
{
    join3("missing `", name, "` metadata")
}

/// A field of the metadata of a workflow or a flow.
#[derive(Debug, Clone, Copy, PartialEq, Eq, Structural)]
pub enum WorkflowField {
    Kind,
    Version,
}

/// The name of a field of a workflow or a flow.
pub open spec fn workflow_field_name(field: WorkflowField) -> Seq<char> {
    match field {
        WorkflowField::Kind => "kind"@,
        WorkflowField::Version => "version"@,
    }
}

/// The field of a workflow or a flow with a name.
pub fn workflow_field(name: &str) -> (field: Option<WorkflowField>)
    ensures
        match field {
            Some(field) => workflow_field_name(field) == name@,
            None => forall|field: WorkflowField| #[trigger] workflow_field_name(field) != name@,
        },
{
    if same_text(name, "kind") {
        Some(WorkflowField::Kind)
    } else if same_text(name, "version") {
        Some(WorkflowField::Version)
    } else {
        None
    }
}

/// An entry of the metadata of a workflow or a flow.
#[derive(Debug)]
pub enum WorkflowEntry {
    Kind(Result<String, String>),
    Version(Result<i32, String>),
    Unsupported,
    Malformed(String),
}

/// The metadata of a workflow or a flow.
#[derive(Debug, PartialEq, Eq)]
pub struct WorkflowMetadata {
    pub kind: String,
    pub version: i32,
}

/// The kind that some entries give.
pub open spec fn workflow_kind(entries: Seq<WorkflowEntry>) -> Option<Seq<char>> {
    last_given(
        entries,
        |entry: WorkflowEntry|
            match entry {
                WorkflowEntry::Kind(Ok(kind)) => Some(kind@),
                _ => None,
            },
    )
}

/// The version that some entries give.
pub open spec fn workflow_version(entries: Seq<WorkflowEntry>) -> Option<i32> {
    last_given(
        entries,
        |entry: WorkflowEntry|
            match entry {
                WorkflowEntry::Version(Ok(version)) => Some(version),
                _ => None,
            },
    )
}

/// How the entries of a workflow or a flow are refused.
pub struct WorkflowTexts {
    pub duplicate_kind: Seq<char>,
    pub duplicate_version: Seq<char>,
    pub unsupported: Seq<char>,
}

/// Why an entry behind others is refused.
pub open spec fn workflow_entry_problem(
    before: Seq<WorkflowEntry>,
    entry: WorkflowEntry,
    texts: WorkflowTexts,
) -> Option<Seq<char>> {
    match entry {
        WorkflowEntry::Kind(value) => value_problem(
            value,
            workflow_kind(before) is Some,
            texts.duplicate_kind,
        ),
        WorkflowEntry::Version(value) => value_problem(
            value,
            workflow_version(before) is Some,
            texts.duplicate_version,
        ),
        WorkflowEntry::Unsupported => Some(texts.unsupported),
        WorkflowEntry::Malformed(message) => Some(message@),
    }
}

/// Why the first refused of some entries is refused.
pub open spec fn workflow_entries_problem(
    entries: Seq<WorkflowEntry>,
    texts: WorkflowTexts,
) -> Option<Seq<char>>
    decreases entries.len(),
{
    if entries.len() == 0 {
        None
    } else {
        match workflow_entries_problem(entries.drop_last(), texts) {
            Some(message) => Some(message),
            None => workflow_entry_problem(entries.drop_last(), entries.last(), texts),
        }
    }
}

proof fn lemma_workflow_problem(entries: Seq<WorkflowEntry>, texts: WorkflowTexts, k: int)
    requires
        0 <= k <= entries.len(),
        workflow_entries_problem(entries.take(k), texts) is Some,
    ensures
        workflow_entries_problem(entries, texts) == workflow_entries_problem(entries.take(k), texts),
    decreases entries.len(),
{
    if k == entries.len() {
        assert(entries.take(k) =~= entries);
    } else {
        assert(entries.drop_last().take(k) =~= entries.take(k));
        lemma_workflow_problem(entries.drop_last(), texts, k);
    }
}

fn read_workflow_entries(
    entries: Vec<WorkflowEntry>,
    duplicate_kind: &str,
    duplicate_version: &str,
    unsupported: &str,
) -> (result: Result<(Option<String>, Option<i32>), String>)
    ensures
        ({
            let texts = WorkflowTexts {
                duplicate_kind: duplicate_kind@,
                duplicate_version: duplicate_version@,
                unsupported: unsupported@,
            };
            match result {
                Ok((kind, version)) => {
                    &&& workflow_entries_problem(entries@, texts) is None
                    &&& crate::text::opt_text(kind) == workflow_kind(entries@)
                    &&& version == workflow_version(entries@)
                },
                Err(message) => workflow_entries_problem(entries@, texts) == Some(message@),
            }
        }),
{
    let ghost all = entries@;
    let ghost texts = WorkflowTexts {
        duplicate_kind: duplicate_kind@,
        duplicate_version: duplicate_version@,
        unsupported: unsupported@,
    };
    let mut kind: Option<String> = None;
    let mut version: Option<i32> = None;
    let mut pending = reversed(entries);
    while pending.len() > 0
        invariant
            all == entries@,
            pending@.len() <= all.len(),
            forall|j: int|
                0 <= j < pending@.len() ==> #[trigger] pending@[j] == all[all.len() - 1 - j],
            texts.duplicate_kind == duplicate_kind@,
            texts.duplicate_version == duplicate_version@,
            texts.unsupported == unsupported@,
            workflow_entries_problem(all.take(all.len() - pending@.len()), texts) is None,
            crate::text::opt_text(kind) == workflow_kind(all.take(all.len() - pending@.len())),
            version == workflow_version(all.take(all.len() - pending@.len())),
        decreases pending@.len(),
    {
        let ghost at = all.len() - pending@.len();
        match pending.pop() {
            Some(entry) => {
                proof {
                    assert(entry == all[at]);
                    assert(all.take(at + 1).drop_last() =~= all.take(at));
                    assert(all.take(at + 1).last() == entry);
                    if workflow_entry_problem(all.take(at), entry, texts) is Some {
                        lemma_workflow_problem(all, texts, at + 1);
                    }
                }
                let taken = match entry {
                    WorkflowEntry::Kind(value) => take_value(&mut kind, value, duplicate_kind),
                    WorkflowEntry::Version(value) => take_value(
                        &mut version,
                        value,
                        duplicate_version,
                    ),
                    WorkflowEntry::Unsupported => Err(unsupported.to_owned()),
                    WorkflowEntry::Malformed(message) => Err(message),
                };
                match taken {
                    Ok(_) => {},
                    Err(message) => return Err(message),
                }
            },
            None => {},
        }
    }
    assert(all.take(all.len() as int) =~= all);
    Ok((kind, version))
}

/// The texts that refuse entries of a workflow.
pub open spec fn workflow_texts() -> WorkflowTexts {
    WorkflowTexts {
        duplicate_kind: duplicate_text("kind"@),
        duplicate_version: duplicate_text("version"@),
        unsupported: "unsupported workflow metadata"@,
    }
}

/// The texts that refuse entries of a flow.
pub open spec fn flow_texts() -> WorkflowTexts {
    WorkflowTexts {
        duplicate_kind: "duplicate flow metadata"@,
        duplicate_version: "duplicate flow metadata"@,
        unsupported: "unsupported flow metadata"@,
    }
}

/// Why the attributes of a workflow are refused.
pub open spec fn workflow_problem(attributes: Seq<Vec<WorkflowEntry>>) -> Option<Seq<char>> {
    if attributes.len() == 0 {
        Some("missing `workflow` attribute"@)
    } else {
        let entries = attributes[0]@;
        match workflow_entries_problem(entries, workflow_texts()) {
            Some(message) => Some(message),
            None => if attributes.len() > 1 {
                Some("duplicate `workflow` attribute"@)
            } else {
                match (workflow_kind(entries), workflow_version(entries)) {
                    (None, _) => Some(missing_text("kind"@)),
                    (Some(kind), version) => if !naming::lower_snake_case(kind) {
                        Some("workflow kind must be lower snake_case"@)
                    } else {
                        match version {
                            None => Some(missing_text("version"@)),
                            Some(version) => if version == 0 {
                                Some("workflow version must be greater than zero"@)
                            } else {
                                None
                            },
                        }
                    },
                }
            },
        }
    }
}

/// Whether metadata is what the attributes of a workflow give.
pub open spec fn reads_workflow(
    attributes: Seq<Vec<WorkflowEntry>>,
    metadata: WorkflowMetadata,
) -> bool {
    &&& workflow_problem(attributes) is None
    &&& workflow_kind(attributes[0]@) == Some(metadata.kind@)
    &&& workflow_version(attributes[0]@) == Some(metadata.version)
}

/// Reads the metadata of a workflow from its attributes.
pub fn parse_workflow(attributes: Vec<Vec<WorkflowEntry>>) -> (result: Result<
    WorkflowMetadata,
    String,
>)
    ensures
        match result {
            Ok(metadata) => reads_workflow(attributes@, metadata),
            Err(message) => workflow_problem(attributes@) == Some(message@),
        },
{
    let repeated = attributes.len() > 1;
    let mut pending = reversed(attributes);
    let entries = match pending.pop() {
        Some(entries) => entries,
        None => return Err("missing `workflow` attribute".to_owned()),
    };
    let duplicate_kind = duplicate("kind");
    let duplicate_version = duplicate("version");
    let (kind, version) = match read_workflow_entries(
        entries,
        duplicate_kind.as_str(),
        duplicate_version.as_str(),
        "unsupported workflow metadata",
    ) {
        Ok(values) => values,
        Err(message) => return Err(message),
    };
    if repeated {
        return Err("duplicate `workflow` attribute".to_owned());
    }
    let kind = match kind {
        Some(kind) => kind,
        None => return Err(missing("kind")),
    };
    if !is_lower_snake_case(kind.as_str()) {
        return Err("workflow kind must be lower snake_case".to_owned());
    }
    match version {
        None => Err(missing("version")),
        Some(version) => if version == 0 {
            Err("workflow version must be greater than zero".to_owned())
        } else {
            Ok(WorkflowMetadata { kind, version })
        },
    }
}

/// Why the metadata of a flow is refused.
pub open spec fn flow_problem(entries: Seq<WorkflowEntry>) -> Option<Seq<char>> {
    match workflow_entries_problem(entries, flow_texts()) {
        Some(message) => Some(message),
        None => match (workflow_kind(entries), workflow_version(entries)) {
            (None, _) => Some(missing_text("kind"@)),
            (Some(kind), version) => if !naming::lower_snake_case(kind) {
                Some("flow kind must be lower snake_case"@)
            } else {
                match version {
                    None => Some(missing_text("version"@)),
                    Some(version) => if version <= 0 {
                        Some("flow version must be greater than zero"@)
                    } else {
                        None
                    },
                }
            },
        },
    }
}

/// Whether metadata is what the entries of a flow give.
pub open spec fn reads_flow(entries: Seq<WorkflowEntry>, metadata: WorkflowMetadata) -> bool {
    &&& flow_problem(entries) is None
    &&& workflow_kind(entries) == Some(metadata.kind@)
    &&& workflow_version(entries) == Some(metadata.version)
}

/// Reads the metadata of a flow.
pub fn parse_flow(entries: Vec<WorkflowEntry>) -> (result: Result<WorkflowMetadata, String>)
    ensures
        match result {
            Ok(metadata) => reads_flow(entries@, metadata),
            Err(message) => flow_problem(entries@) == Some(message@),
        },
{
    let (kind, version) = match read_workflow_entries(
        entries,
        "duplicate flow metadata",
        "duplicate flow metadata",
        "unsupported flow metadata",
    ) {
        Ok(values) => values,
        Err(message) => return Err(message),
    };
    let kind = match kind {
        Some(kind) => kind,
        None => return Err(missing("kind")),
    };
    if !is_lower_snake_case(kind.as_str()) {
        return Err("flow kind must be lower snake_case".to_owned());
    }
    match version {
        None => Err(missing("version")),
        Some(version) => if version <= 0 {
            Err("flow version must be greater than zero".to_owned())
        } else {
            Ok(WorkflowMetadata { kind, version })
        },
    }
}

/// A field of the metadata of a backoff.
#[derive(Debug, Clone, Copy, PartialEq, Eq, Structural)]
pub enum BackoffField {
    DelaySecs,
    InitialSecs,
    MaxSecs,
    JitterPercent,
}

/// The name of a field of a backoff.
pub open spec fn backoff_field_name(field: BackoffField) -> Seq<char> {
    match field {
        BackoffField::DelaySecs => "delay_secs"@,
        BackoffField::InitialSecs => "initial_secs"@,
        BackoffField::MaxSecs => "max_secs"@,
        BackoffField::JitterPercent => "jitter_percent"@,
    }
}

/// The field of a backoff with a name.
pub fn backoff_field(name: &str) -> (field: Option<BackoffField>)
    ensures
        match field {
            Some(field) => backoff_field_name(field) == name@,
            None => forall|field: BackoffField| #[trigger] backoff_field_name(field) != name@,
        },
{
    if same_text(name, "delay_secs") {
        Some(BackoffField::DelaySecs)
    } else if same_text(name, "initial_secs") {
        Some(BackoffField::InitialSecs)
    } else if same_text(name, "max_secs") {
        Some(BackoffField::MaxSecs)
    } else if same_text(name, "jitter_percent") {
        Some(BackoffField::JitterPercent)
    } else {
        None
    }
}

/// An entry of the metadata of a backoff.
#[derive(Debug)]
pub enum BackoffEntry {
    DelaySecs(Result<u64, String>),
    InitialSecs(Result<u64, String>),
    MaxSecs(Result<u64, String>),
    JitterPercent(Result<u8, String>),
    Unsupported,
    Malformed(String),
}

/// The `delay_secs` that some entries give.
pub open spec fn backoff_delay_secs(entries: Seq<BackoffEntry>) -> Option<u64> {
    last_given(
        entries,
        |entry: BackoffEntry|
            match entry {
                BackoffEntry::DelaySecs(Ok(value)) => Some(value),
                _ => None,
            },
    )
}

/// The `initial_secs` that some entries give.
pub open spec fn backoff_initial_secs(entries: Seq<BackoffEntry>) -> Option<u64> {
    last_given(
        entries,
        |entry: BackoffEntry|
            match entry {
                BackoffEntry::InitialSecs(Ok(value)) => Some(value),
                _ => None,
            },
    )
}

/// The `max_secs` that some entries give.
pub open spec fn backoff_max_secs(entries: Seq<BackoffEntry>) -> Option<u64> {
    last_given(
        entries,
        |entry: BackoffEntry|
            match entry {
                BackoffEntry::MaxSecs(Ok(value)) => Some(value),
                _ => None,
            },
    )
}

/// The `jitter_percent` that some entries give.
pub open spec fn backoff_jitter_percent(entries: Seq<BackoffEntry>) -> Option<u8> {
    last_given(
        entries,
        |entry: BackoffEntry|
            match entry {
                BackoffEntry::JitterPercent(Ok(value)) => Some(value),
                _ => None,
            },
    )
}

/// Why an entry of a backoff behind others is refused.
pub open spec fn backoff_entry_problem(before: Seq<BackoffEntry>, entry: BackoffEntry) -> Option<Seq<char>> {
    match entry {
        BackoffEntry::DelaySecs(value) => value_problem(
            value,
            backoff_delay_secs(before) is Some,
            "duplicate backoff metadata"@,
        ),
        BackoffEntry::InitialSecs(value) => value_problem(
            value,
            backoff_initial_secs(before) is Some,
            "duplicate backoff metadata"@,
        ),
        BackoffEntry::MaxSecs(value) => value_problem(
            value,
            backoff_max_secs(before) is Some,
            "duplicate backoff metadata"@,
        ),
        BackoffEntry::JitterPercent(value) => value_problem(
            value,
            backoff_jitter_percent(before) is Some,
            "duplicate backoff metadata"@,
        ),
        BackoffEntry::Unsupported => Some("unsupported backoff metadata"@),
        BackoffEntry::Malformed(message) => Some(message@),
    }
}

/// Why the first refused of some entries of a backoff is refused.
pub open spec fn backoff_entries_problem(entries: Seq<BackoffEntry>) -> Option<Seq<char>>
    decreases entries.len(),
{
    if entries.len() == 0 {
        None
    } else {
        match backoff_entries_problem(entries.drop_last()) {
            Some(message) => Some(message),
            None => backoff_entry_problem(entries.drop_last(), entries.last()),
        }
    }
}

proof fn lemma_backoff_problem(entries: Seq<BackoffEntry>, k: int)
    requires
        0 <= k <= entries.len(),
        backoff_entries_problem(entries.take(k)) is Some,
    ensures
        backoff_entries_problem(entries) == backoff_entries_problem(entries.take(k)),
    decreases entries.len(),
{
    if k == entries.len() {
        assert(entries.take(k) =~= entries);
    } else {
        assert(entries.drop_last().take(k) =~= entries.take(k));
        lemma_backoff_problem(entries.drop_last(), k);
    }
}

struct BackoffSlots {
    delay_secs: Option<u64>,
    initial_secs: Option<u64>,
    max_secs: Option<u64>,
    jitter_percent: Option<u8>,
}

spec fn backoff_filled(entries: Seq<BackoffEntry>, slots: BackoffSlots) -> bool {
    &&& slots.delay_secs == backoff_delay_secs(entries)
    &&& slots.initial_secs == backoff_initial_secs(entries)
    &&& slots.max_secs == backoff_max_secs(entries)
    &&& slots.jitter_percent == backoff_jitter_percent(entries)
}

fn read_backoff_entries(entries: Vec<BackoffEntry>) -> (result: Result<BackoffSlots, String>)
    ensures
        match result {
            Ok(slots) => backoff_entries_problem(entries@) is None && backoff_filled(entries@, slots),
            Err(message) => backoff_entries_problem(entries@) == Some(message@),
        },
{
    let ghost all = entries@;
    let mut delay_secs: Option<u64> = None;
    let mut initial_secs: Option<u64> = None;
    let mut max_secs: Option<u64> = None;
    let mut jitter_percent: Option<u8> = None;
    let mut pending = reversed(entries);
    while pending.len() > 0
        invariant
            all == entries@,
            pending@.len() <= all.len(),
            forall|j: int|
                0 <= j < pending@.len() ==> #[trigger] pending@[j] == all[all.len() - 1 - j],
            backoff_entries_problem(all.take(all.len() - pending@.len())) is None,
            backoff_filled(
                all.take(all.len() - pending@.len()),
                BackoffSlots { delay_secs, initial_secs, max_secs, jitter_percent },
            ),
        decreases pending@.len(),
    {
        let ghost at = all.len() - pending@.len();
        match pending.pop() {
            Some(entry) => {
                proof {
                    assert(entry == all[at]);
                    assert(all.take(at + 1).drop_last() =~= all.take(at));
                    assert(all.take(at + 1).last() == entry);
                    if backoff_entry_problem(all.take(at), entry) is Some {
                        lemma_backoff_problem(all, at + 1);
                    }
                }
                let taken = match entry {
                    BackoffEntry::DelaySecs(value) => take_value(
                        &mut delay_secs,
                        value,
                        "duplicate backoff metadata",
                    ),
                    BackoffEntry::InitialSecs(value) => take_value(
                        &mut initial_secs,
                        value,
                        "duplicate backoff metadata",
                    ),
                    BackoffEntry::MaxSecs(value) => take_value(
                        &mut max_secs,
                        value,
                        "duplicate backoff metadata",
                    ),
                    BackoffEntry::JitterPercent(value) => take_value(
                        &mut jitter_percent,
                        value,
                        "duplicate backoff metadata",
                    ),
                    BackoffEntry::Unsupported => Err("unsupported backoff metadata".to_owned()),
                    BackoffEntry::Malformed(message) => Err(message),
                };
                match taken {
                    Ok(_) => {},
                    Err(message) => return Err(message),
                }
            },
            None => {},
        }
    }
    assert(all.take(all.len() as int) =~= all);
    Ok(BackoffSlots { delay_secs, initial_secs, max_secs, jitter_percent })
}

/// Why a backoff is refused.
pub open spec fn backoff_problem(kind: Seq<char>, entries: Seq<BackoffEntry>) -> Option<Seq<char>> {
    match backoff_entries_problem(entries) {
        Some(message) => Some(message),
        None => {
            let delay = backoff_delay_secs(entries);
            let initial = backoff_initial_secs(entries);
            let max = backoff_max_secs(entries);
            let jitter = backoff_jitter_percent(entries);
            if kind == "fixed"@ {
                if initial is Some || max is Some || jitter is Some {
                    Some("fixed backoff accepts only delay_secs"@)
                } else {
                    match delay {
                        None => Some("fixed backoff needs delay_secs"@),
                        Some(delay) => if delay == 0 {
                            Some("fixed backoff delay_secs must be greater than zero"@)
                        } else {
                            None
                        },
                    }
                }
            } else if kind == "exponential"@ {
                if delay is Some {
                    Some("exponential backoff does not accept delay_secs"@)
                } else {
                    match (initial, max, jitter) {
                        (None, _, _) => Some("exponential backoff needs initial_secs"@),
                        (Some(_), None, _) => Some("exponential backoff needs max_secs"@),
                        (Some(_), Some(_), None) => Some("exponential backoff needs jitter_percent"@),
                        (Some(initial), Some(max), Some(jitter)) => if initial == 0 {
                            Some("exponential backoff initial_secs must be greater than zero"@)
                        } else if max < initial {
                            Some("exponential backoff max_secs must be at least initial_secs"@)
                        } else if jitter > 100 {
                            Some("exponential backoff jitter_percent must be at most 100"@)
                        } else {
                            None
                        },
                    }
                }
            } else {
                Some("backoff must be fixed(...) or exponential(...)"@)
            }
        },
    }
}

/// Whether a policy is what a backoff of the given kind gives.
pub open spec fn reads_backoff(
    kind: Seq<char>,
    entries: Seq<BackoffEntry>,
    backoff: BackoffPolicy,
) -> bool {
    &&& backoff_problem(kind, entries) is None
    &&& crate::policy::backoff_error(backoff) is None
    &&& match backoff {
        BackoffPolicy::Fixed { delay_secs } => kind == "fixed"@ && backoff_delay_secs(entries)
            == Some(delay_secs),
        BackoffPolicy::Exponential { initial_secs, max_secs, jitter_percent } => {
            &&& kind == "exponential"@
            &&& backoff_initial_secs(entries) == Some(initial_secs)
            &&& backoff_max_secs(entries) == Some(max_secs)
            &&& backoff_jitter_percent(entries) == Some(jitter_percent)
        },
    }
}

/// Reads a backoff of the given kind.
pub fn parse_backoff(kind: &str, entries: Vec<BackoffEntry>) -> (result: Result<
    BackoffPolicy,
    String,
>)
    ensures
        match result {
            Ok(backoff) => reads_backoff(kind@, entries@, backoff),
            Err(message) => backoff_problem(kind@, entries@) == Some(message@),
        },
{
    let slots = match read_backoff_entries(entries) {
        Ok(slots) => slots,
        Err(message) => return Err(message),
    };
    if same_text(kind, "fixed") {
        if slots.initial_secs.is_some() || slots.max_secs.is_some() || slots.jitter_percent.is_some() {
            return Err("fixed backoff accepts only delay_secs".to_owned());
        }
        return match slots.delay_secs {
            None => Err("fixed backoff needs delay_secs".to_owned()),
            Some(delay_secs) => if delay_secs == 0 {
                Err("fixed backoff delay_secs must be greater than zero".to_owned())
            } else {
                Ok(BackoffPolicy::Fixed { delay_secs })
            },
        };
    }
    if same_text(kind, "exponential") {
        if slots.delay_secs.is_some() {
            return Err("exponential backoff does not accept delay_secs".to_owned());
        }
        let initial_secs: u64 = match slots.initial_secs {
            Some(value) => value,
            None => return Err("exponential backoff needs initial_secs".to_owned()),
        };
        let max_secs: u64 = match slots.max_secs {
            Some(value) => value,
            None => return Err("exponential backoff needs max_secs".to_owned()),
        };
        let jitter_percent: u8 = match slots.jitter_percent {
            Some(value) => value,
            None => return Err("exponential backoff needs jitter_percent".to_owned()),
        };
        if initial_secs == 0 {
            return Err("exponential backoff initial_secs must be greater than zero".to_owned());
        }
        if max_secs < initial_secs {
            return Err("exponential backoff max_secs must be at least initial_secs".to_owned());
        }
        if jitter_percent > 100 {
            return Err("exponential backoff jitter_percent must be at most 100".to_owned());
        }
        return Ok(BackoffPolicy::Exponential { initial_secs, max_secs, jitter_percent });
    }
    Err("backoff must be fixed(...) or exponential(...)".to_owned())
}

/// A field of the metadata of an activity.
#[derive(Debug, Clone, Copy, PartialEq, Eq, Structural)]
pub enum ActivityField {
    Kind,
    Version,
    Topic,
    MaxAttempts,
    TimeoutSecs,
    LeaseSecs,
    Backoff,
}

/// The name of a field of an activity.
pub open spec fn activity_field_name(field: ActivityField) -> Seq<char> {
    match field {
        ActivityField::Kind => "kind"@,
        ActivityField::Version => "version"@,
        ActivityField::Topic => "topic"@,
        ActivityField::MaxAttempts => "max_attempts"@,
        ActivityField::TimeoutSecs => "timeout_secs"@,
        ActivityField::LeaseSecs => "lease_secs"@,
        ActivityField::Backoff => "backoff"@,
    }
}

/// The field of an activity with a name.
pub fn activity_field(name: &str) -> (field: Option<ActivityField>)
    ensures
        match field {
            Some(field) => activity_field_name(field) == name@,
            None => forall|field: ActivityField| #[trigger] activity_field_name(field) != name@,
        },
{
    if same_text(name, "kind") {
        Some(ActivityField::Kind)
    } else if same_text(name, "version") {
        Some(ActivityField::Version)
    } else if same_text(name, "topic") {
        Some(ActivityField::Topic)
    } else if same_text(name, "max_attempts") {
        Some(ActivityField::MaxAttempts)
    } else if same_text(name, "timeout_secs") {
        Some(ActivityField::TimeoutSecs)
    } else if same_text(name, "lease_secs") {
        Some(ActivityField::LeaseSecs)
    } else if same_text(name, "backoff") {
        Some(ActivityField::Backoff)
    } else {
        None
    }
}

/// An entry of the metadata of an activity.
#[derive(Debug)]
pub enum ActivityEntry {
    Kind(Result<String, String>),
    Version(Result<i32, String>),
    Topic(Result<Vec<String>, String>),
    MaxAttempts(Result<u32, String>),
    TimeoutSecs(Result<u64, String>),
    LeaseSecs(Result<u64, String>),
    Backoff(Result<BackoffPolicy, String>),
    Unsupported,
    Malformed(String),
}

/// The `kind` that some entries give.
pub open spec fn activity_kind(entries: Seq<ActivityEntry>) -> Option<Seq<char>> {
    last_given(
        entries,
        |entry: ActivityEntry|
            match entry {
                ActivityEntry::Kind(Ok(value)) => Some(value@),
                _ => None,
            },
    )
}

/// The `version` that some entries give.
pub open spec fn activity_version(entries: Seq<ActivityEntry>) -> Option<i32> {
    last_given(
        entries,
        |entry: ActivityEntry|
            match entry {
                ActivityEntry::Version(Ok(value)) => Some(value),
                _ => None,
            },
    )
}

/// The `topic` that some entries give.
pub open spec fn activity_topic(entries: Seq<ActivityEntry>) -> Option<Seq<String>> {
    last_given(
        entries,
        |entry: ActivityEntry|
            match entry {
                ActivityEntry::Topic(Ok(value)) => Some(value@),
                _ => None,
            },
    )
}

/// The `max_attempts` that some entries give.
pub open spec fn activity_max_attempts(entries: Seq<ActivityEntry>) -> Option<u32> {
    last_given(
        entries,
        |entry: ActivityEntry|
            match entry {
                ActivityEntry::MaxAttempts(Ok(value)) => Some(value),
                _ => None,
            },
    )
}

/// The `timeout_secs` that some entries give.
pub open spec fn activity_timeout_secs(entries: Seq<ActivityEntry>) -> Option<u64> {
    last_given(
        entries,
        |entry: ActivityEntry|
            match entry {
                ActivityEntry::TimeoutSecs(Ok(value)) => Some(value),
                _ => None,
            },
    )
}

/// The `lease_secs` that some entries give.
pub open spec fn activity_lease_secs(entries: Seq<ActivityEntry>) -> Option<u64> {
    last_given(
        entries,
        |entry: ActivityEntry|
            match entry {
                ActivityEntry::LeaseSecs(Ok(value)) => Some(value),
                _ => None,
            },
    )
}

/// The `backoff` that some entries give.
pub open spec fn activity_backoff(entries: Seq<ActivityEntry>) -> Option<BackoffPolicy> {
    last_given(
        entries,
        |entry: ActivityEntry|
            match entry {
                ActivityEntry::Backoff(Ok(value)) => Some(value),
                _ => None,
            },
    )
}

/// Why an entry of an activity behind others is refused.
pub open spec fn activity_entry_problem(before: Seq<ActivityEntry>, entry: ActivityEntry) -> Option<Seq<char>> {
    match entry {
        ActivityEntry::Kind(value) => value_problem(
            value,
            activity_kind(before) is Some,
            duplicate_text("kind"@),
        ),
        ActivityEntry::Version(value) => value_problem(
            value,
            activity_version(before) is Some,
            duplicate_text("version"@),
        ),
        ActivityEntry::Topic(value) => value_problem(
            value,
            activity_topic(before) is Some,
            duplicate_text("topic"@),
        ),
        ActivityEntry::MaxAttempts(value) => value_problem(
            value,
            activity_max_attempts(before) is Some,
            duplicate_text("max_attempts"@),
        ),
        ActivityEntry::TimeoutSecs(value) => value_problem(
            value,
            activity_timeout_secs(before) is Some,
            duplicate_text("timeout_secs"@),
        ),
        ActivityEntry::LeaseSecs(value) => value_problem(
            value,
            activity_lease_secs(before) is Some,
            duplicate_text("lease_secs"@),
        ),
        ActivityEntry::Backoff(value) => value_problem(
            value,
            activity_backoff(before) is Some,
            duplicate_text("backoff"@),
        ),
        ActivityEntry::Unsupported => Some("unsupported activity metadata"@),
        ActivityEntry::Malformed(message) => Some(message@),
    }
}

/// Why the first refused of some entries of an activity is refused.
pub open spec fn activity_entries_problem(entries: Seq<ActivityEntry>) -> Option<Seq<char>>
    decreases entries.len(),
{
    if entries.len() == 0 {
        None
    } else {
        match activity_entries_problem(entries.drop_last()) {
            Some(message) => Some(message),
            None => activity_entry_problem(entries.drop_last(), entries.last()),
        }
    }
}

proof fn lemma_activity_problem(entries: Seq<ActivityEntry>, k: int)
    requires
        0 <= k <= entries.len(),
        activity_entries_problem(entries.take(k)) is Some,
    ensures
        activity_entries_problem(entries) == activity_entries_problem(entries.take(k)),
    decreases entries.len(),
{
    if k == entries.len() {
        assert(entries.take(k) =~= entries);
    } else {
        assert(entries.drop_last().take(k) =~= entries.take(k));
        lemma_activity_problem(entries.drop_last(), k);
    }
}

struct ActivitySlots {
    kind: Option<String>,
    version: Option<i32>,
    topic: Option<Vec<String>>,
    max_attempts: Option<u32>,
    timeout_secs: Option<u64>,
    lease_secs: Option<u64>,
    backoff: Option<BackoffPolicy>,
}

spec fn activity_filled(entries: Seq<ActivityEntry>, slots: ActivitySlots) -> bool {
    &&& activity_kind(entries) == (match slots.kind {
        Some(value) => Some(value@),
        None => None,
    })
    &&& slots.version == activity_version(entries)
    &&& activity_topic(entries) == (match slots.topic {
        Some(value) => Some(value@),
        None => None,
    })
    &&& slots.max_attempts == activity_max_attempts(entries)
    &&& slots.timeout_secs == activity_timeout_secs(entries)
    &&& slots.lease_secs == activity_lease_secs(entries)
    &&& slots.backoff == activity_backoff(entries)
}

fn read_activity_entries(entries: Vec<ActivityEntry>) -> (result: Result<ActivitySlots, String>)
    ensures
        match result {
            Ok(slots) => activity_entries_problem(entries@) is None && activity_filled(entries@, slots),
            Err(message) => activity_entries_problem(entries@) == Some(message@),
        },
{
    let ghost all = entries@;
    let mut kind: Option<String> = None;
    let mut version: Option<i32> = None;
    let mut topic: Option<Vec<String>> = None;
    let mut max_attempts: Option<u32> = None;
    let mut timeout_secs: Option<u64> = None;
    let mut lease_secs: Option<u64> = None;
    let mut backoff: Option<BackoffPolicy> = None;
    let mut pending = reversed(entries);
    while pending.len() > 0
        invariant
            all == entries@,
            pending@.len() <= all.len(),
            forall|j: int|
                0 <= j < pending@.len() ==> #[trigger] pending@[j] == all[all.len() - 1 - j],
            activity_entries_problem(all.take(all.len() - pending@.len())) is None,
            activity_filled(
                all.take(all.len() - pending@.len()),
                ActivitySlots { kind, version, topic, max_attempts, timeout_secs, lease_secs, backoff },
            ),
        decreases pending@.len(),
    {
        let ghost at = all.len() - pending@.len();
        match pending.pop() {
            Some(entry) => {
                proof {
                    assert(entry == all[at]);
                    assert(all.take(at + 1).drop_last() =~= all.take(at));
                    assert(all.take(at + 1).last() == entry);
                    if activity_entry_problem(all.take(at), entry) is Some {
                        lemma_activity_problem(all, at + 1);
                    }
                }
                let taken = match entry {
                    ActivityEntry::Kind(value) => take_value(
                        &mut kind,
                        value,
                        duplicate("kind").as_str(),
                    ),
                    ActivityEntry::Version(value) => take_value(
                        &mut version,
                        value,
                        duplicate("version").as_str(),
                    ),
                    ActivityEntry::Topic(value) => take_value(
                        &mut topic,
                        value,
                        duplicate("topic").as_str(),
                    ),
                    ActivityEntry::MaxAttempts(value) => take_value(
                        &mut max_attempts,
                        value,
                        duplicate("max_attempts").as_str(),
                    ),
                    ActivityEntry::TimeoutSecs(value) => take_value(
                        &mut timeout_secs,
                        value,
                        duplicate("timeout_secs").as_str(),
                    ),
                    ActivityEntry::LeaseSecs(value) => take_value(
                        &mut lease_secs,
                        value,
                        duplicate("lease_secs").as_str(),
                    ),
                    ActivityEntry::Backoff(value) => take_value(
                        &mut backoff,
                        value,
                        duplicate("backoff").as_str(),
                    ),
                    ActivityEntry::Unsupported => Err("unsupported activity metadata".to_owned()),
                    ActivityEntry::Malformed(message) => Err(message),
                };
                match taken {
                    Ok(_) => {},
                    Err(message) => return Err(message),
                }
            },
            None => {},
        }
    }
    assert(all.take(all.len() as int) =~= all);
    Ok(ActivitySlots { kind, version, topic, max_attempts, timeout_secs, lease_secs, backoff })
}

/// The metadata of an activity. Its topic is the path of an enum variant.
#[derive(Debug, PartialEq, Eq)]
pub struct ActivityMetadata {
    pub kind: String,
    pub version: i32,
    pub topic: Vec<String>,
    pub max_attempts: u32,
    pub timeout_secs: u64,
    pub lease_secs: u64,
    pub backoff: BackoffPolicy,
}

/// Why the values of the entries of an activity are refused.
pub open spec fn activity_values_problem(entries: Seq<ActivityEntry>) -> Option<Seq<char>> {
    if activity_kind(entries) is None {
        Some(missing_text("kind"@))
    } else if !naming::lower_snake_case(activity_kind(entries)->0) {
        Some("activity kind must be lower snake_case"@)
    } else if activity_version(entries) is None {
        Some(missing_text("version"@))
    } else if activity_version(entries) == Some(0i32) {
        Some("activity version must be greater than zero"@)
    } else if activity_topic(entries) is None {
        Some(missing_text("topic"@))
    } else if (activity_topic(entries)->0).len() < 2 {
        Some("activity topic must be a qualified enum variant such as Topics::ExternalApi"@)
    } else if activity_max_attempts(entries) is None {
        Some(missing_text("max_attempts"@))
    } else if activity_max_attempts(entries) == Some(0u32) {
        Some("activity max_attempts must be greater than zero"@)
    } else if activity_timeout_secs(entries) is None {
        Some(missing_text("timeout_secs"@))
    } else if activity_timeout_secs(entries) == Some(0u64) {
        Some("activity timeout_secs must be greater than zero"@)
    } else if activity_lease_secs(entries) is None {
        Some(missing_text("lease_secs"@))
    } else if activity_lease_secs(entries)->0 <= activity_timeout_secs(entries)->0 {
        Some("activity lease_secs must be greater than timeout_secs"@)
    } else if activity_backoff(entries) is None {
        Some(missing_text("backoff"@))
    } else {
        None
    }
}

/// Why the attributes of an activity are refused.
pub open spec fn activity_problem(attributes: Seq<Vec<ActivityEntry>>) -> Option<Seq<char>> {
    if attributes.len() == 0 {
        Some("missing `activity` attribute"@)
    } else {
        match activity_entries_problem(attributes[0]@) {
            Some(message) => Some(message),
            None => if attributes.len() > 1 {
                Some("duplicate `activity` attribute"@)
            } else {
                activity_values_problem(attributes[0]@)
            },
        }
    }
}

/// Whether metadata is what the attributes of an activity give.
pub open spec fn reads_activity(
    attributes: Seq<Vec<ActivityEntry>>,
    metadata: ActivityMetadata,
) -> bool {
    let entries = attributes[0]@;
    &&& activity_problem(attributes) is None
    &&& activity_kind(entries) == Some(metadata.kind@)
    &&& activity_version(entries) == Some(metadata.version)
    &&& activity_topic(entries) == Some(metadata.topic@)
    &&& activity_max_attempts(entries) == Some(metadata.max_attempts)
    &&& activity_timeout_secs(entries) == Some(metadata.timeout_secs)
    &&& activity_lease_secs(entries) == Some(metadata.lease_secs)
    &&& activity_backoff(entries) == Some(metadata.backoff)
}

/// Reads the metadata of an activity from its attributes.
pub fn parse_activity(attributes: Vec<Vec<ActivityEntry>>) -> (result: Result<
    ActivityMetadata,
    String,
>)
    ensures
        match result {
            Ok(metadata) => reads_activity(attributes@, metadata),
            Err(message) => activity_problem(attributes@) == Some(message@),
        },
{
    let repeated = attributes.len() > 1;
    let mut pending = reversed(attributes);
    let entries = match pending.pop() {
        Some(entries) => entries,
        None => return Err("missing `activity` attribute".to_owned()),
    };
    let slots = match read_activity_entries(entries) {
        Ok(slots) => slots,
        Err(message) => return Err(message),
    };
    if repeated {
        return Err("duplicate `activity` attribute".to_owned());
    }
    let kind = match slots.kind {
        Some(kind) => kind,
        None => return Err(missing("kind")),
    };
    if !is_lower_snake_case(kind.as_str()) {
        return Err("activity kind must be lower snake_case".to_owned());
    }
    let version: i32 = match slots.version {
        Some(version) => version,
        None => return Err(missing("version")),
    };
    if version == 0 {
        return Err("activity version must be greater than zero".to_owned());
    }
    let topic = match slots.topic {
        Some(topic) => topic,
        None => return Err(missing("topic")),
    };
    if topic.len() < 2 {
        return Err(
            "activity topic must be a qualified enum variant such as Topics::ExternalApi".to_owned(),
        );
    }
    let max_attempts: u32 = match slots.max_attempts {
        Some(value) => value,
        None => return Err(missing("max_attempts")),
    };
    if max_attempts == 0 {
        return Err("activity max_attempts must be greater than zero".to_owned());
    }
    let timeout_secs: u64 = match slots.timeout_secs {
        Some(value) => value,
        None => return Err(missing("timeout_secs")),
    };
    if timeout_secs == 0 {
        return Err("activity timeout_secs must be greater than zero".to_owned());
    }
    let lease_secs: u64 = match slots.lease_secs {
        Some(value) => value,
        None => return Err(missing("lease_secs")),
    };
    if lease_secs <= timeout_secs {
        return Err("activity lease_secs must be greater than timeout_secs".to_owned());
    }
    match slots.backoff {
        Some(backoff) => Ok(
            ActivityMetadata {
                kind,
                version,
                topic,
                max_attempts,
                timeout_secs,
                lease_secs,
                backoff,
            },
        ),
        None => Err(missing("backoff")),
    }
}

/// A field of the metadata of a schedule.
#[derive(Debug, Clone, Copy, PartialEq, Eq, Structural)]
pub enum ScheduleField {
    Key,
    Version,
    Cron,
    Timezone,
    Misfire,
    CatchUpLimit,
    Overlap,
    MisfireGraceSecs,
}

/// The name of a field of a schedule.
pub open spec fn schedule_field_name(field: ScheduleField) -> Seq<char> {
    match field {
        ScheduleField::Key => "key"@,
        ScheduleField::Version => "version"@,
        ScheduleField::Cron => "cron"@,
        ScheduleField::Timezone => "timezone"@,
        ScheduleField::Misfire => "misfire"@,
        ScheduleField::CatchUpLimit => "catch_up_limit"@,
        ScheduleField::Overlap => "overlap"@,
        ScheduleField::MisfireGraceSecs => "misfire_grace_secs"@,
    }
}

/// The field of a schedule with a name.
pub fn schedule_field(name: &str) -> (field: Option<ScheduleField>)
    ensures
        match field {
            Some(field) => schedule_field_name(field) == name@,
            None => forall|field: ScheduleField| #[trigger] schedule_field_name(field) != name@,
        },
{
    if same_text(name, "key") {
        Some(ScheduleField::Key)
    } else if same_text(name, "version") {
        Some(ScheduleField::Version)
    } else if same_text(name, "cron") {
        Some(ScheduleField::Cron)
    } else if same_text(name, "timezone") {
        Some(ScheduleField::Timezone)
    } else if same_text(name, "misfire") {
        Some(ScheduleField::Misfire)
    } else if same_text(name, "catch_up_limit") {
        Some(ScheduleField::CatchUpLimit)
    } else if same_text(name, "overlap") {
        Some(ScheduleField::Overlap)
    } else if same_text(name, "misfire_grace_secs") {
        Some(ScheduleField::MisfireGraceSecs)
    } else {
        None
    }
}

/// An entry of the metadata of a schedule.
#[derive(Debug)]
pub enum ScheduleEntry {
    Key(Result<String, String>),
    Version(Result<i32, String>),
    Cron(Result<String, String>),
    Timezone(Result<String, String>),
    Misfire(Result<String, String>),
    CatchUpLimit(Result<u32, String>),
    Overlap(Result<String, String>),
    MisfireGraceSecs(Result<u64, String>),
    Unsupported,
    Malformed(String),
}

/// The `key` that some entries give.
pub open spec fn schedule_key(entries: Seq<ScheduleEntry>) -> Option<Seq<char>> {
    last_given(
        entries,
        |entry: ScheduleEntry|
            match entry {
                ScheduleEntry::Key(Ok(value)) => Some(value@),
                _ => None,
            },
    )
}

/// The `version` that some entries give.
pub open spec fn schedule_version(entries: Seq<ScheduleEntry>) -> Option<i32> {
    last_given(
        entries,
        |entry: ScheduleEntry|
            match entry {
                ScheduleEntry::Version(Ok(value)) => Some(value),
                _ => None,
            },
    )
}

/// The `cron` that some entries give.
pub open spec fn schedule_cron(entries: Seq<ScheduleEntry>) -> Option<Seq<char>> {
    last_given(
        entries,
        |entry: ScheduleEntry|
            match entry {
                ScheduleEntry::Cron(Ok(value)) => Some(value@),
                _ => None,
            },
    )
}

/// The `timezone` that some entries give.
pub open spec fn schedule_timezone(entries: Seq<ScheduleEntry>) -> Option<Seq<char>> {
    last_given(
        entries,
        |entry: ScheduleEntry|
            match entry {
                ScheduleEntry::Timezone(Ok(value)) => Some(value@),
                _ => None,
            },
    )
}

/// The `misfire` that some entries give.
pub open spec fn schedule_misfire(entries: Seq<ScheduleEntry>) -> Option<Seq<char>> {
    last_given(
        entries,
        |entry: ScheduleEntry|
            match entry {
                ScheduleEntry::Misfire(Ok(value)) => Some(value@),
                _ => None,
            },
    )
}

/// The `catch_up_limit` that some entries give.
pub open spec fn schedule_catch_up_limit(entries: Seq<ScheduleEntry>) -> Option<u32> {
    last_given(
        entries,
        |entry: ScheduleEntry|
            match entry {
                ScheduleEntry::CatchUpLimit(Ok(value)) => Some(value),
                _ => None,
            },
    )
}

/// The `overlap` that some entries give.
pub open spec fn schedule_overlap(entries: Seq<ScheduleEntry>) -> Option<Seq<char>> {
    last_given(
        entries,
        |entry: ScheduleEntry|
            match entry {
                ScheduleEntry::Overlap(Ok(value)) => Some(value@),
                _ => None,
            },
    )
}

/// The `misfire_grace_secs` that some entries give.
pub open spec fn schedule_misfire_grace_secs(entries: Seq<ScheduleEntry>) -> Option<u64> {
    last_given(
        entries,
        |entry: ScheduleEntry|
            match entry {
                ScheduleEntry::MisfireGraceSecs(Ok(value)) => Some(value),
                _ => None,
            },
    )
}

/// Why an entry of a schedule behind others is refused.
pub open spec fn schedule_entry_problem(before: Seq<ScheduleEntry>, entry: ScheduleEntry) -> Option<Seq<char>> {
    match entry {
        ScheduleEntry::Key(value) => value_problem(
            value,
            schedule_key(before) is Some,
            duplicate_text("key"@),
        ),
        ScheduleEntry::Version(value) => value_problem(
            value,
            schedule_version(before) is Some,
            duplicate_text("version"@),
        ),
        ScheduleEntry::Cron(value) => value_problem(
            value,
            schedule_cron(before) is Some,
            duplicate_text("cron"@),
        ),
        ScheduleEntry::Timezone(value) => value_problem(
            value,
            schedule_timezone(before) is Some,
            duplicate_text("timezone"@),
        ),
        ScheduleEntry::Misfire(value) => value_problem(
            value,
            schedule_misfire(before) is Some,
            duplicate_text("misfire"@),
        ),
        ScheduleEntry::CatchUpLimit(value) => value_problem(
            value,
            schedule_catch_up_limit(before) is Some,
            duplicate_text("catch_up_limit"@),
        ),
        ScheduleEntry::Overlap(value) => value_problem(
            value,
            schedule_overlap(before) is Some,
            duplicate_text("overlap"@),
        ),
        ScheduleEntry::MisfireGraceSecs(value) => value_problem(
            value,
            schedule_misfire_grace_secs(before) is Some,
            duplicate_text("misfire_grace_secs"@),
        ),
        ScheduleEntry::Unsupported => Some("unsupported schedule metadata"@),
        ScheduleEntry::Malformed(message) => Some(message@),
    }
}

/// Why the first refused of some entries of a schedule is refused.
pub open spec fn schedule_entries_problem(entries: Seq<ScheduleEntry>) -> Option<Seq<char>>
    decreases entries.len(),
{
    if entries.len() == 0 {
        None
    } else {
        match schedule_entries_problem(entries.drop_last()) {
            Some(message) => Some(message),
            None => schedule_entry_problem(entries.drop_last(), entries.last()),
        }
    }
}

proof fn lemma_schedule_problem(entries: Seq<ScheduleEntry>, k: int)
    requires
        0 <= k <= entries.len(),
        schedule_entries_problem(entries.take(k)) is Some,
    ensures
        schedule_entries_problem(entries) == schedule_entries_problem(entries.take(k)),
    decreases entries.len(),
{
    if k == entries.len() {
        assert(entries.take(k) =~= entries);
    } else {
        assert(entries.drop_last().take(k) =~= entries.take(k));
        lemma_schedule_problem(entries.drop_last(), k);
    }
}

struct ScheduleSlots {
    key: Option<String>,
    version: Option<i32>,
    cron: Option<String>,
    timezone: Option<String>,
    misfire: Option<String>,
    catch_up_limit: Option<u32>,
    overlap: Option<String>,
    misfire_grace_secs: Option<u64>,
}

spec fn schedule_filled(entries: Seq<ScheduleEntry>, slots: ScheduleSlots) -> bool {
    &&& schedule_key(entries) == (match slots.key {
        Some(value) => Some(value@),
        None => None,
    })
    &&& slots.version == schedule_version(entries)
    &&& schedule_cron(entries) == (match slots.cron {
        Some(value) => Some(value@),
        None => None,
    })
    &&& schedule_timezone(entries) == (match slots.timezone {
        Some(value) => Some(value@),
        None => None,
    })
    &&& schedule_misfire(entries) == (match slots.misfire {
        Some(value) => Some(value@),
        None => None,
    })
    &&& slots.catch_up_limit == schedule_catch_up_limit(entries)
    &&& schedule_overlap(entries) == (match slots.overlap {
        Some(value) => Some(value@),
        None => None,
    })
    &&& slots.misfire_grace_secs == schedule_misfire_grace_secs(entries)
}

fn read_schedule_entries(entries: Vec<ScheduleEntry>) -> (result: Result<ScheduleSlots, String>)
    ensures
        match result {
            Ok(slots) => schedule_entries_problem(entries@) is None && schedule_filled(entries@, slots),
            Err(message) => schedule_entries_problem(entries@) == Some(message@),
        },
{
    let ghost all = entries@;
    let mut key: Option<String> = None;
    let mut version: Option<i32> = None;
    let mut cron: Option<String> = None;
    let mut timezone: Option<String> = None;
    let mut misfire: Option<String> = None;
    let mut catch_up_limit: Option<u32> = None;
    let mut overlap: Option<String> = None;
    let mut misfire_grace_secs: Option<u64> = None;
    let mut pending = reversed(entries);
    while pending.len() > 0
        invariant
            all == entries@,
            pending@.len() <= all.len(),
            forall|j: int|
                0 <= j < pending@.len() ==> #[trigger] pending@[j] == all[all.len() - 1 - j],
            schedule_entries_problem(all.take(all.len() - pending@.len())) is None,
            schedule_filled(
                all.take(all.len() - pending@.len()),
                ScheduleSlots { key, version, cron, timezone, misfire, catch_up_limit, overlap, misfire_grace_secs },
            ),
        decreases pending@.len(),
    {
        let ghost at = all.len() - pending@.len();
        match pending.pop() {
            Some(entry) => {
                proof {
                    assert(entry == all[at]);
                    assert(all.take(at + 1).drop_last() =~= all.take(at));
                    assert(all.take(at + 1).last() == entry);
                    if schedule_entry_problem(all.take(at), entry) is Some {
                        lemma_schedule_problem(all, at + 1);
                    }
                }
                let taken = match entry {
                    ScheduleEntry::Key(value) => take_value(
                        &mut key,
                        value,
                        duplicate("key").as_str(),
                    ),
                    ScheduleEntry::Version(value) => take_value(
                        &mut version,
                        value,
                        duplicate("version").as_str(),
                    ),
                    ScheduleEntry::Cron(value) => take_value(
                        &mut cron,
                        value,
                        duplicate("cron").as_str(),
                    ),
                    ScheduleEntry::Timezone(value) => take_value(
                        &mut timezone,
                        value,
                        duplicate("timezone").as_str(),
                    ),
                    ScheduleEntry::Misfire(value) => take_value(
                        &mut misfire,
                        value,
                        duplicate("misfire").as_str(),
                    ),
                    ScheduleEntry::CatchUpLimit(value) => take_value(
                        &mut catch_up_limit,
                        value,
                        duplicate("catch_up_limit").as_str(),
                    ),
                    ScheduleEntry::Overlap(value) => take_value(
                        &mut overlap,
                        value,
                        duplicate("overlap").as_str(),
                    ),
                    ScheduleEntry::MisfireGraceSecs(value) => take_value(
                        &mut misfire_grace_secs,
                        value,
                        duplicate("misfire_grace_secs").as_str(),
                    ),
                    ScheduleEntry::Unsupported => Err("unsupported schedule metadata".to_owned()),
                    ScheduleEntry::Malformed(message) => Err(message),
                };
                match taken {
                    Ok(_) => {},
                    Err(message) => return Err(message),
                }
            },
            None => {},
        }
    }
    assert(all.take(all.len() as int) =~= all);
    Ok(ScheduleSlots { key, version, cron, timezone, misfire, catch_up_limit, overlap, misfire_grace_secs })
}

/// The metadata of a schedule.
#[derive(Debug, PartialEq, Eq)]
pub struct ScheduleMetadata {
    pub key: String,
    pub version: i32,
    pub cron: String,
    pub timezone: String,
    pub misfire: MisfirePolicy,
    pub overlap: OverlapPolicy,
    pub misfire_grace_secs: u64,
}

/// The misfire policy of the given name and limit, or why there is none.
pub open spec fn misfire_named(name: Seq<char>, limit: Option<u32>) -> Result<
    MisfirePolicy,
    Seq<char>,
> {
    if name == "Skip"@ || name == "RunLatest"@ {
        if limit is Some {
            Err("catch_up_limit is only valid with CatchUp"@)
        } else if name == "Skip"@ {
            Ok(MisfirePolicy::Skip)
        } else {
            Ok(MisfirePolicy::RunLatest)
        }
    } else if name == "CatchUp"@ {
        match limit {
            Some(limit) => if 1 <= limit <= 100 {
                Ok(MisfirePolicy::CatchUp { max_occurrences: limit })
            } else {
                Err("CatchUp requires catch_up_limit from 1 through 100"@)
            },
            None => Err("CatchUp requires catch_up_limit from 1 through 100"@),
        }
    } else {
        Err("misfire must be Skip, RunLatest, or CatchUp"@)
    }
}

fn read_misfire(name: &str, limit: Option<u32>) -> (result: Result<MisfirePolicy, String>)
    ensures
        match result {
            Ok(policy) => misfire_named(name@, limit) == Ok::<MisfirePolicy, Seq<char>>(policy),
            Err(message) => misfire_named(name@, limit) == Err::<MisfirePolicy, Seq<char>>(message@),
        },
{
    let skip = same_text(name, "Skip");
    if skip || same_text(name, "RunLatest") {
        if limit.is_some() {
            return Err("catch_up_limit is only valid with CatchUp".to_owned());
        }
        return if skip {
            Ok(MisfirePolicy::Skip)
        } else {
            Ok(MisfirePolicy::RunLatest)
        };
    }
    if same_text(name, "CatchUp") {
        return match limit {
            Some(max_occurrences) => if 1 <= max_occurrences && max_occurrences <= 100 {
                Ok(MisfirePolicy::CatchUp { max_occurrences })
            } else {
                Err("CatchUp requires catch_up_limit from 1 through 100".to_owned())
            },
            None => Err("CatchUp requires catch_up_limit from 1 through 100".to_owned()),
        };
    }
    Err("misfire must be Skip, RunLatest, or CatchUp".to_owned())
}

/// The overlap policy of the given name.
pub open spec fn overlap_named(name: Seq<char>) -> Option<OverlapPolicy> {
    if name == "Allow"@ {
        Some(OverlapPolicy::Allow)
    } else if name == "SkipIfActive"@ {
        Some(OverlapPolicy::SkipIfActive)
    } else if name == "QueueOne"@ {
        Some(OverlapPolicy::QueueOne)
    } else {
        None
    }
}

fn read_overlap(name: &str) -> (overlap: Option<OverlapPolicy>)
    ensures
        overlap == overlap_named(name@),
{
    if same_text(name, "Allow") {
        Some(OverlapPolicy::Allow)
    } else if same_text(name, "SkipIfActive") {
        Some(OverlapPolicy::SkipIfActive)
    } else if same_text(name, "QueueOne") {
        Some(OverlapPolicy::QueueOne)
    } else {
        None
    }
}

/// Why the values of the entries of a schedule are refused.
pub open spec fn schedule_values_problem(entries: Seq<ScheduleEntry>) -> Option<Seq<char>> {
    if schedule_key(entries) is None {
        Some(missing_text("key"@))
    } else if !naming::lower_snake_case(schedule_key(entries)->0) {
        Some("schedule key must be lower snake_case"@)
    } else if schedule_version(entries) is None {
        Some(missing_text("version"@))
    } else if schedule_version(entries)->0 <= 0 {
        Some("schedule version must be greater than zero"@)
    } else if schedule_cron(entries) is None {
        Some(missing_text("cron"@))
    } else if schedule_timezone(entries) is None {
        Some(missing_text("timezone"@))
    } else if schedule_misfire(entries) is None {
        Some(missing_text("misfire"@))
    } else {
        match misfire_named(schedule_misfire(entries)->0, schedule_catch_up_limit(entries)) {
            Err(message) => Some(message),
            Ok(_) => if schedule_overlap(entries) is None {
                Some(missing_text("overlap"@))
            } else if overlap_named(schedule_overlap(entries)->0) is None {
                Some("overlap must be Allow, SkipIfActive, or QueueOne"@)
            } else if schedule_misfire_grace_secs(entries) is None {
                Some(missing_text("misfire_grace_secs"@))
            } else if schedule_misfire_grace_secs(entries) == Some(0u64) {
                Some("misfire_grace_secs must be greater than zero"@)
            } else {
                None
            },
        }
    }
}

/// Why the attributes of a schedule are refused.
pub open spec fn schedule_problem(attributes: Seq<Vec<ScheduleEntry>>) -> Option<Seq<char>> {
    if attributes.len() == 0 {
        Some("missing `schedule` attribute"@)
    } else {
        match schedule_entries_problem(attributes[0]@) {
            Some(message) => Some(message),
            None => if attributes.len() > 1 {
                Some("duplicate `schedule` attribute"@)
            } else {
                schedule_values_problem(attributes[0]@)
            },
        }
    }
}

/// Whether metadata is what the attributes of a schedule give.
pub open spec fn reads_schedule(
    attributes: Seq<Vec<ScheduleEntry>>,
    metadata: ScheduleMetadata,
) -> bool {
    let entries = attributes[0]@;
    &&& schedule_problem(attributes) is None
    &&& schedule_key(entries) == Some(metadata.key@)
    &&& schedule_version(entries) == Some(metadata.version)
    &&& schedule_cron(entries) == Some(metadata.cron@)
    &&& schedule_timezone(entries) == Some(metadata.timezone@)
    &&& misfire_named(schedule_misfire(entries)->0, schedule_catch_up_limit(entries)) == Ok::<
        MisfirePolicy,
        Seq<char>,
    >(metadata.misfire)
    &&& overlap_named(schedule_overlap(entries)->0) == Some(metadata.overlap)
    &&& schedule_misfire_grace_secs(entries) == Some(metadata.misfire_grace_secs)
}

/// Reads the metadata of a schedule from its attributes.
pub fn parse_schedule(attributes: Vec<Vec<ScheduleEntry>>) -> (result: Result<
    ScheduleMetadata,
    String,
>)
    ensures
        match result {
            Ok(metadata) => reads_schedule(attributes@, metadata),
            Err(message) => schedule_problem(attributes@) == Some(message@),
        },
{
    let repeated = attributes.len() > 1;
    let mut pending = reversed(attributes);
    let entries = match pending.pop() {
        Some(entries) => entries,
        None => return Err("missing `schedule` attribute".to_owned()),
    };
    let slots = match read_schedule_entries(entries) {
        Ok(slots) => slots,
        Err(message) => return Err(message),
    };
    if repeated {
        return Err("duplicate `schedule` attribute".to_owned());
    }
    let key = match slots.key {
        Some(key) => key,
        None => return Err(missing("key")),
    };
    if !is_lower_snake_case(key.as_str()) {
        return Err("schedule key must be lower snake_case".to_owned());
    }
    let version: i32 = match slots.version {
        Some(version) => version,
        None => return Err(missing("version")),
    };
    if version <= 0 {
        return Err("schedule version must be greater than zero".to_owned());
    }
    let cron = match slots.cron {
        Some(cron) => cron,
        None => return Err(missing("cron")),
    };
    let timezone = match slots.timezone {
        Some(timezone) => timezone,
        None => return Err(missing("timezone")),
    };
    let misfire = match slots.misfire {
        Some(name) => match read_misfire(name.as_str(), slots.catch_up_limit) {
            Ok(policy) => policy,
            Err(message) => return Err(message),
        },
        None => return Err(missing("misfire")),
    };
    let overlap = match slots.overlap {
        Some(name) => match read_overlap(name.as_str()) {
            Some(policy) => policy,
            None => {
                return Err("overlap must be Allow, SkipIfActive, or QueueOne".to_owned());
            },
        },
        None => return Err(missing("overlap")),
    };
    match slots.misfire_grace_secs {
        None => Err(missing("misfire_grace_secs")),
        Some(misfire_grace_secs) => if misfire_grace_secs == 0 {
            Err("misfire_grace_secs must be greater than zero".to_owned())
        } else {
            Ok(
                ScheduleMetadata {
                    key,
                    version,
                    cron,
                    timezone,
                    misfire,
                    overlap,
                    misfire_grace_secs,
                },
            )
        },
    }
}

/// Whether an entry of a workflow gives a value that could be read.
pub open spec fn workflow_value_given(entry: WorkflowEntry) -> bool {
    match entry {
        WorkflowEntry::Kind(value) => value is Ok,
        WorkflowEntry::Version(value) => value is Ok,
        _ => false,
    }
}

/// Whether two entries of a workflow are of the same field.
pub open spec fn same_workflow_field(a: WorkflowEntry, b: WorkflowEntry) -> bool {
    match (a, b) {
        (WorkflowEntry::Kind(_), WorkflowEntry::Kind(_)) => true,
        (WorkflowEntry::Version(_), WorkflowEntry::Version(_)) => true,
        _ => false,
    }
}

proof fn lemma_workflow_value(entries: Seq<WorkflowEntry>, texts: WorkflowTexts, i: int)
    requires
        workflow_entries_problem(entries, texts) is None,
        0 <= i < entries.len(),
    ensures
        match entries[i] {
            WorkflowEntry::Kind(value) => value matches Ok(value) && workflow_kind(entries) == Some(value@),
            WorkflowEntry::Version(value) => value matches Ok(value) && workflow_version(entries) == Some(value),
            _ => false,
        },
    decreases entries.len(),
{
    if i < entries.len() - 1 {
        lemma_workflow_value(entries.drop_last(), texts, i);
    }
}

proof fn lemma_workflow_not_given(entries: Seq<WorkflowEntry>)
    ensures
        (forall|i: int| 0 <= i < entries.len() ==> !(#[trigger] entries[i] is Kind)) ==> workflow_kind(
            entries,
        ) is None,
        (forall|i: int| 0 <= i < entries.len() ==> !(#[trigger] entries[i] is Version)) ==> workflow_version(
            entries,
        ) is None,
    decreases entries.len(),
{
    if entries.len() > 0 {
        lemma_workflow_not_given(entries.drop_last());
        assert(forall|i: int|
            0 <= i < entries.drop_last().len() ==> #[trigger] entries.drop_last()[i] == entries[i]);
    }
}

/// Entries of a workflow are accepted exactly where each of them could be read and no two of
/// them are of the same field.
pub proof fn law_workflow_entries_are_refused_only_for_a_reason(entries: Seq<WorkflowEntry>, texts: WorkflowTexts)
    ensures
        workflow_entries_problem(entries, texts) is None <==> {
            &&& forall|i: int| 0 <= i < entries.len() ==> workflow_value_given(#[trigger] entries[i])
            &&& forall|i: int, j: int|
                #![trigger entries[i], entries[j]]
                0 <= i < j < entries.len() ==> !same_workflow_field(entries[i], entries[j])
        },
    decreases entries.len(),
{
    if entries.len() > 0 {
        let before = entries.drop_last();
        assert(forall|i: int| 0 <= i < before.len() ==> #[trigger] before[i] == entries[i]);
        law_workflow_entries_are_refused_only_for_a_reason(before, texts);
        lemma_workflow_not_given(before);
        assert(entries.last() == entries[before.len() as int]);
        if workflow_entries_problem(entries, texts) is None {
            assert forall|i: int| 0 <= i < entries.len() implies workflow_value_given(
                #[trigger] entries[i],
            ) by {
                lemma_workflow_value(entries, texts, i);
            }
            assert forall|i: int, j: int| #![trigger entries[i], entries[j]] 0 <= i < j < entries.len()
                implies !same_workflow_field(entries[i], entries[j]) by {
                lemma_workflow_value(entries, texts, i);
                lemma_workflow_value(entries, texts, j);
                if j < before.len() {
                    assert(before[i] == entries[i] && before[j] == entries[j]);
                } else {
                    lemma_workflow_value(before, texts, i);
                }
            }
        } else if (forall|i: int| 0 <= i < entries.len() ==> workflow_value_given(#[trigger] entries[i]))
            && (forall|i: int, j: int|
            #![trigger entries[i], entries[j]]
            0 <= i < j < entries.len() ==> !same_workflow_field(entries[i], entries[j])) {
            assert(forall|i: int, j: int|
                #![trigger before[i], before[j]]
                0 <= i < j < before.len() ==> !same_workflow_field(before[i], before[j])) by {
                assert forall|i: int, j: int| #![trigger before[i], before[j]] 0 <= i < j < before.len()
                    implies !same_workflow_field(before[i], before[j]) by {
                    assert(!same_workflow_field(entries[i], entries[j]));
                }
            }
            assert(workflow_value_given(entries[before.len() as int]));
            match entries.last() {
            WorkflowEntry::Kind(_) => {
                assert forall|i: int| 0 <= i < before.len() implies !(#[trigger] before[i] is Kind) by {
                    assert(!same_workflow_field(entries[i], entries[before.len() as int]));
                }
            },
            WorkflowEntry::Version(_) => {
                assert forall|i: int| 0 <= i < before.len() implies !(#[trigger] before[i] is Version) by {
                    assert(!same_workflow_field(entries[i], entries[before.len() as int]));
                }
            },
            _ => {},
            }
            assert(workflow_entry_problem(before, entries.last(), texts) is None);
            assert(workflow_entries_problem(before, texts) is None);
        }
    }
}

/// Whether an entry of a backoff gives a value that could be read.
pub open spec fn backoff_value_given(entry: BackoffEntry) -> bool {
    match entry {
        BackoffEntry::DelaySecs(value) => value is Ok,
        BackoffEntry::InitialSecs(value) => value is Ok,
        BackoffEntry::MaxSecs(value) => value is Ok,
        BackoffEntry::JitterPercent(value) => value is Ok,
        _ => false,
    }
}

/// Whether two entries of a backoff are of the same field.
pub open spec fn same_backoff_field(a: BackoffEntry, b: BackoffEntry) -> bool {
    match (a, b) {
        (BackoffEntry::DelaySecs(_), BackoffEntry::DelaySecs(_)) => true,
        (BackoffEntry::InitialSecs(_), BackoffEntry::InitialSecs(_)) => true,
        (BackoffEntry::MaxSecs(_), BackoffEntry::MaxSecs(_)) => true,
        (BackoffEntry::JitterPercent(_), BackoffEntry::JitterPercent(_)) => true,
        _ => false,
    }
}

proof fn lemma_backoff_value(entries: Seq<BackoffEntry>, i: int)
    requires
        backoff_entries_problem(entries) is None,
        0 <= i < entries.len(),
    ensures
        match entries[i] {
            BackoffEntry::DelaySecs(value) => value matches Ok(value) && backoff_delay_secs(entries) == Some(value),
            BackoffEntry::InitialSecs(value) => value matches Ok(value) && backoff_initial_secs(entries) == Some(value),
            BackoffEntry::MaxSecs(value) => value matches Ok(value) && backoff_max_secs(entries) == Some(value),
            BackoffEntry::JitterPercent(value) => value matches Ok(value) && backoff_jitter_percent(entries) == Some(value),
            _ => false,
        },
    decreases entries.len(),
{
    if i < entries.len() - 1 {
        lemma_backoff_value(entries.drop_last(), i);
    }
}

proof fn lemma_backoff_not_given(entries: Seq<BackoffEntry>)
    ensures
        (forall|i: int| 0 <= i < entries.len() ==> !(#[trigger] entries[i] is DelaySecs)) ==> backoff_delay_secs(
            entries,
        ) is None,
        (forall|i: int| 0 <= i < entries.len() ==> !(#[trigger] entries[i] is InitialSecs)) ==> backoff_initial_secs(
            entries,
        ) is None,
        (forall|i: int| 0 <= i < entries.len() ==> !(#[trigger] entries[i] is MaxSecs)) ==> backoff_max_secs(
            entries,
        ) is None,
        (forall|i: int| 0 <= i < entries.len() ==> !(#[trigger] entries[i] is JitterPercent)) ==> backoff_jitter_percent(
            entries,
        ) is None,
    decreases entries.len(),
{
    if entries.len() > 0 {
        lemma_backoff_not_given(entries.drop_last());
        assert(forall|i: int|
            0 <= i < entries.drop_last().len() ==> #[trigger] entries.drop_last()[i] == entries[i]);
    }
}

/// Entries of a backoff are accepted exactly where each of them could be read and no two of
/// them are of the same field.
pub proof fn law_backoff_entries_are_refused_only_for_a_reason(entries: Seq<BackoffEntry>)
    ensures
        backoff_entries_problem(entries) is None <==> {
            &&& forall|i: int| 0 <= i < entries.len() ==> backoff_value_given(#[trigger] entries[i])
            &&& forall|i: int, j: int|
                #![trigger entries[i], entries[j]]
                0 <= i < j < entries.len() ==> !same_backoff_field(entries[i], entries[j])
        },
    decreases entries.len(),
{
    if entries.len() > 0 {
        let before = entries.drop_last();
        assert(forall|i: int| 0 <= i < before.len() ==> #[trigger] before[i] == entries[i]);
        law_backoff_entries_are_refused_only_for_a_reason(before);
        lemma_backoff_not_given(before);
        assert(entries.last() == entries[before.len() as int]);
        if backoff_entries_problem(entries) is None {
            assert forall|i: int| 0 <= i < entries.len() implies backoff_value_given(
                #[trigger] entries[i],
            ) by {
                lemma_backoff_value(entries, i);
            }
            assert forall|i: int, j: int| #![trigger entries[i], entries[j]] 0 <= i < j < entries.len()
                implies !same_backoff_field(entries[i], entries[j]) by {
                lemma_backoff_value(entries, i);
                lemma_backoff_value(entries, j);
                if j < before.len() {
                    assert(before[i] == entries[i] && before[j] == entries[j]);
                } else {
                    lemma_backoff_value(before, i);
                }
            }
        } else if (forall|i: int| 0 <= i < entries.len() ==> backoff_value_given(#[trigger] entries[i]))
            && (forall|i: int, j: int|
            #![trigger entries[i], entries[j]]
            0 <= i < j < entries.len() ==> !same_backoff_field(entries[i], entries[j])) {
            assert(forall|i: int, j: int|
                #![trigger before[i], before[j]]
                0 <= i < j < before.len() ==> !same_backoff_field(before[i], before[j])) by {
                assert forall|i: int, j: int| #![trigger before[i], before[j]] 0 <= i < j < before.len()
                    implies !same_backoff_field(before[i], before[j]) by {
                    assert(!same_backoff_field(entries[i], entries[j]));
                }
            }
            assert(backoff_value_given(entries[before.len() as int]));
            match entries.last() {
            BackoffEntry::DelaySecs(_) => {
                assert forall|i: int| 0 <= i < before.len() implies !(#[trigger] before[i] is DelaySecs) by {
                    assert(!same_backoff_field(entries[i], entries[before.len() as int]));
                }
            },
            BackoffEntry::InitialSecs(_) => {
                assert forall|i: int| 0 <= i < before.len() implies !(#[trigger] before[i] is InitialSecs) by {
                    assert(!same_backoff_field(entries[i], entries[before.len() as int]));
                }
            },
            BackoffEntry::MaxSecs(_) => {
                assert forall|i: int| 0 <= i < before.len() implies !(#[trigger] before[i] is MaxSecs) by {
                    assert(!same_backoff_field(entries[i], entries[before.len() as int]));
                }
            },
            BackoffEntry::JitterPercent(_) => {
                assert forall|i: int| 0 <= i < before.len() implies !(#[trigger] before[i] is JitterPercent) by {
                    assert(!same_backoff_field(entries[i], entries[before.len() as int]));
                }
            },
            _ => {},
            }
            assert(backoff_entry_problem(before, entries.last()) is None);
            assert(backoff_entries_problem(before) is None);
        }
    }
}

/// Whether an entry of an activity gives a value that could be read.
pub open spec fn activity_value_given(entry: ActivityEntry) -> bool {
    match entry {
        ActivityEntry::Kind(value) => value is Ok,
        ActivityEntry::Version(value) => value is Ok,
        ActivityEntry::Topic(value) => value is Ok,
        ActivityEntry::MaxAttempts(value) => value is Ok,
        ActivityEntry::TimeoutSecs(value) => value is Ok,
        ActivityEntry::LeaseSecs(value) => value is Ok,
        ActivityEntry::Backoff(value) => value is Ok,
        _ => false,
    }
}

/// Whether two entries of an activity are of the same field.
pub open spec fn same_activity_field(a: ActivityEntry, b: ActivityEntry) -> bool {
    match (a, b) {
        (ActivityEntry::Kind(_), ActivityEntry::Kind(_)) => true,
        (ActivityEntry::Version(_), ActivityEntry::Version(_)) => true,
        (ActivityEntry::Topic(_), ActivityEntry::Topic(_)) => true,
        (ActivityEntry::MaxAttempts(_), ActivityEntry::MaxAttempts(_)) => true,
        (ActivityEntry::TimeoutSecs(_), ActivityEntry::TimeoutSecs(_)) => true,
        (ActivityEntry::LeaseSecs(_), ActivityEntry::LeaseSecs(_)) => true,
        (ActivityEntry::Backoff(_), ActivityEntry::Backoff(_)) => true,
        _ => false,
    }
}

proof fn lemma_activity_value(entries: Seq<ActivityEntry>, i: int)
    requires
        activity_entries_problem(entries) is None,
        0 <= i < entries.len(),
    ensures
        match entries[i] {
            ActivityEntry::Kind(value) => value matches Ok(value) && activity_kind(entries) == Some(value@),
            ActivityEntry::Version(value) => value matches Ok(value) && activity_version(entries) == Some(value),
            ActivityEntry::Topic(value) => value matches Ok(value) && activity_topic(entries) == Some(value@),
            ActivityEntry::MaxAttempts(value) => value matches Ok(value) && activity_max_attempts(entries) == Some(value),
            ActivityEntry::TimeoutSecs(value) => value matches Ok(value) && activity_timeout_secs(entries) == Some(value),
            ActivityEntry::LeaseSecs(value) => value matches Ok(value) && activity_lease_secs(entries) == Some(value),
            ActivityEntry::Backoff(value) => value matches Ok(value) && activity_backoff(entries) == Some(value),
            _ => false,
        },
    decreases entries.len(),
{
    if i < entries.len() - 1 {
        lemma_activity_value(entries.drop_last(), i);
    }
}

proof fn lemma_activity_not_given(entries: Seq<ActivityEntry>)
    ensures
        (forall|i: int| 0 <= i < entries.len() ==> !(#[trigger] entries[i] is Kind)) ==> activity_kind(
            entries,
        ) is None,
        (forall|i: int| 0 <= i < entries.len() ==> !(#[trigger] entries[i] is Version)) ==> activity_version(
            entries,
        ) is None,
        (forall|i: int| 0 <= i < entries.len() ==> !(#[trigger] entries[i] is Topic)) ==> activity_topic(
            entries,
        ) is None,
        (forall|i: int| 0 <= i < entries.len() ==> !(#[trigger] entries[i] is MaxAttempts)) ==> activity_max_attempts(
            entries,
        ) is None,
        (forall|i: int| 0 <= i < entries.len() ==> !(#[trigger] entries[i] is TimeoutSecs)) ==> activity_timeout_secs(
            entries,
        ) is None,
        (forall|i: int| 0 <= i < entries.len() ==> !(#[trigger] entries[i] is LeaseSecs)) ==> activity_lease_secs(
            entries,
        ) is None,
        (forall|i: int| 0 <= i < entries.len() ==> !(#[trigger] entries[i] is Backoff)) ==> activity_backoff(
            entries,
        ) is None,
    decreases entries.len(),
{
    if entries.len() > 0 {
        lemma_activity_not_given(entries.drop_last());
        assert(forall|i: int|
            0 <= i < entries.drop_last().len() ==> #[trigger] entries.drop_last()[i] == entries[i]);
    }
}

/// Entries of an activity are accepted exactly where each of them could be read and no two of
/// them are of the same field.
pub proof fn law_activity_entries_are_refused_only_for_a_reason(entries: Seq<ActivityEntry>)
    ensures
        activity_entries_problem(entries) is None <==> {
            &&& forall|i: int| 0 <= i < entries.len() ==> activity_value_given(#[trigger] entries[i])
            &&& forall|i: int, j: int|
                #![trigger entries[i], entries[j]]
                0 <= i < j < entries.len() ==> !same_activity_field(entries[i], entries[j])
        },
    decreases entries.len(),
{
    if entries.len() > 0 {
        let before = entries.drop_last();
        assert(forall|i: int| 0 <= i < before.len() ==> #[trigger] before[i] == entries[i]);
        law_activity_entries_are_refused_only_for_a_reason(before);
        lemma_activity_not_given(before);
        assert(entries.last() == entries[before.len() as int]);
        if activity_entries_problem(entries) is None {
            assert forall|i: int| 0 <= i < entries.len() implies activity_value_given(
                #[trigger] entries[i],
            ) by {
                lemma_activity_value(entries, i);
            }
            assert forall|i: int, j: int| #![trigger entries[i], entries[j]] 0 <= i < j < entries.len()
                implies !same_activity_field(entries[i], entries[j]) by {
                lemma_activity_value(entries, i);
                lemma_activity_value(entries, j);
                if j < before.len() {
                    assert(before[i] == entries[i] && before[j] == entries[j]);
                } else {
                    lemma_activity_value(before, i);
                }
            }
        } else if (forall|i: int| 0 <= i < entries.len() ==> activity_value_given(#[trigger] entries[i]))
            && (forall|i: int, j: int|
            #![trigger entries[i], entries[j]]
            0 <= i < j < entries.len() ==> !same_activity_field(entries[i], entries[j])) {
            assert(forall|i: int, j: int|
                #![trigger before[i], before[j]]
                0 <= i < j < before.len() ==> !same_activity_field(before[i], before[j])) by {
                assert forall|i: int, j: int| #![trigger before[i], before[j]] 0 <= i < j < before.len()
                    implies !same_activity_field(before[i], before[j]) by {
                    assert(!same_activity_field(entries[i], entries[j]));
                }
            }
            assert(activity_value_given(entries[before.len() as int]));
            match entries.last() {
            ActivityEntry::Kind(_) => {
                assert forall|i: int| 0 <= i < before.len() implies !(#[trigger] before[i] is Kind) by {
                    assert(!same_activity_field(entries[i], entries[before.len() as int]));
                }
            },
            ActivityEntry::Version(_) => {
                assert forall|i: int| 0 <= i < before.len() implies !(#[trigger] before[i] is Version) by {
                    assert(!same_activity_field(entries[i], entries[before.len() as int]));
                }
            },
            ActivityEntry::Topic(_) => {
                assert forall|i: int| 0 <= i < before.len() implies !(#[trigger] before[i] is Topic) by {
                    assert(!same_activity_field(entries[i], entries[before.len() as int]));
                }
            },
            ActivityEntry::MaxAttempts(_) => {
                assert forall|i: int| 0 <= i < before.len() implies !(#[trigger] before[i] is MaxAttempts) by {
                    assert(!same_activity_field(entries[i], entries[before.len() as int]));
                }
            },
            ActivityEntry::TimeoutSecs(_) => {
                assert forall|i: int| 0 <= i < before.len() implies !(#[trigger] before[i] is TimeoutSecs) by {
                    assert(!same_activity_field(entries[i], entries[before.len() as int]));
                }
            },
            ActivityEntry::LeaseSecs(_) => {
                assert forall|i: int| 0 <= i < before.len() implies !(#[trigger] before[i] is LeaseSecs) by {
                    assert(!same_activity_field(entries[i], entries[before.len() as int]));
                }
            },
            ActivityEntry::Backoff(_) => {
                assert forall|i: int| 0 <= i < before.len() implies !(#[trigger] before[i] is Backoff) by {
                    assert(!same_activity_field(entries[i], entries[before.len() as int]));
                }
            },
            _ => {},
            }
            assert(activity_entry_problem(before, entries.last()) is None);
            assert(activity_entries_problem(before) is None);
        }
    }
}

/// Whether an entry of a schedule gives a value that could be read.
pub open spec fn schedule_value_given(entry: ScheduleEntry) -> bool {
    match entry {
        ScheduleEntry::Key(value) => value is Ok,
        ScheduleEntry::Version(value) => value is Ok,
        ScheduleEntry::Cron(value) => value is Ok,
        ScheduleEntry::Timezone(value) => value is Ok,
        ScheduleEntry::Misfire(value) => value is Ok,
        ScheduleEntry::CatchUpLimit(value) => value is Ok,
        ScheduleEntry::Overlap(value) => value is Ok,
        ScheduleEntry::MisfireGraceSecs(value) => value is Ok,
        _ => false,
    }
}

/// Whether two entries of a schedule are of the same field.
pub open spec fn same_schedule_field(a: ScheduleEntry, b: ScheduleEntry) -> bool {
    match (a, b) {
        (ScheduleEntry::Key(_), ScheduleEntry::Key(_)) => true,
        (ScheduleEntry::Version(_), ScheduleEntry::Version(_)) => true,
        (ScheduleEntry::Cron(_), ScheduleEntry::Cron(_)) => true,
        (ScheduleEntry::Timezone(_), ScheduleEntry::Timezone(_)) => true,
        (ScheduleEntry::Misfire(_), ScheduleEntry::Misfire(_)) => true,
        (ScheduleEntry::CatchUpLimit(_), ScheduleEntry::CatchUpLimit(_)) => true,
        (ScheduleEntry::Overlap(_), ScheduleEntry::Overlap(_)) => true,
        (ScheduleEntry::MisfireGraceSecs(_), ScheduleEntry::MisfireGraceSecs(_)) => true,
        _ => false,
    }
}

proof fn lemma_schedule_value(entries: Seq<ScheduleEntry>, i: int)
    requires
        schedule_entries_problem(entries) is None,
        0 <= i < entries.len(),
    ensures
        match entries[i] {
            ScheduleEntry::Key(value) => value matches Ok(value) && schedule_key(entries) == Some(value@),
            ScheduleEntry::Version(value) => value matches Ok(value) && schedule_version(entries) == Some(value),
            ScheduleEntry::Cron(value) => value matches Ok(value) && schedule_cron(entries) == Some(value@),
            ScheduleEntry::Timezone(value) => value matches Ok(value) && schedule_timezone(entries) == Some(value@),
            ScheduleEntry::Misfire(value) => value matches Ok(value) && schedule_misfire(entries) == Some(value@),
            ScheduleEntry::CatchUpLimit(value) => value matches Ok(value) && schedule_catch_up_limit(entries) == Some(value),
            ScheduleEntry::Overlap(value) => value matches Ok(value) && schedule_overlap(entries) == Some(value@),
            ScheduleEntry::MisfireGraceSecs(value) => value matches Ok(value) && schedule_misfire_grace_secs(entries) == Some(value),
            _ => false,
        },
    decreases entries.len(),
{
    if i < entries.len() - 1 {
        lemma_schedule_value(entries.drop_last(), i);
    }
}

proof fn lemma_schedule_not_given(entries: Seq<ScheduleEntry>)
    ensures
        (forall|i: int| 0 <= i < entries.len() ==> !(#[trigger] entries[i] is Key)) ==> schedule_key(
            entries,
        ) is None,
        (forall|i: int| 0 <= i < entries.len() ==> !(#[trigger] entries[i] is Version)) ==> schedule_version(
            entries,
        ) is None,
        (forall|i: int| 0 <= i < entries.len() ==> !(#[trigger] entries[i] is Cron)) ==> schedule_cron(
            entries,
        ) is None,
        (forall|i: int| 0 <= i < entries.len() ==> !(#[trigger] entries[i] is Timezone)) ==> schedule_timezone(
            entries,
        ) is None,
        (forall|i: int| 0 <= i < entries.len() ==> !(#[trigger] entries[i] is Misfire)) ==> schedule_misfire(
            entries,
        ) is None,
        (forall|i: int| 0 <= i < entries.len() ==> !(#[trigger] entries[i] is CatchUpLimit)) ==> schedule_catch_up_limit(
            entries,
        ) is None,
        (forall|i: int| 0 <= i < entries.len() ==> !(#[trigger] entries[i] is Overlap)) ==> schedule_overlap(
            entries,
        ) is None,
        (forall|i: int| 0 <= i < entries.len() ==> !(#[trigger] entries[i] is MisfireGraceSecs)) ==> schedule_misfire_grace_secs(
            entries,
        ) is None,
    decreases entries.len(),
{
    if entries.len() > 0 {
        lemma_schedule_not_given(entries.drop_last());
        assert(forall|i: int|
            0 <= i < entries.drop_last().len() ==> #[trigger] entries.drop_last()[i] == entries[i]);
    }
}

/// Entries of a schedule are accepted exactly where each of them could be read and no two of
/// them are of the same field.
pub proof fn law_schedule_entries_are_refused_only_for_a_reason(entries: Seq<ScheduleEntry>)
    ensures
        schedule_entries_problem(entries) is None <==> {
            &&& forall|i: int| 0 <= i < entries.len() ==> schedule_value_given(#[trigger] entries[i])
            &&& forall|i: int, j: int|
                #![trigger entries[i], entries[j]]
                0 <= i < j < entries.len() ==> !same_schedule_field(entries[i], entries[j])
        },
    decreases entries.len(),
{
    if entries.len() > 0 {
        let before = entries.drop_last();
        assert(forall|i: int| 0 <= i < before.len() ==> #[trigger] before[i] == entries[i]);
        law_schedule_entries_are_refused_only_for_a_reason(before);
        lemma_schedule_not_given(before);
        assert(entries.last() == entries[before.len() as int]);
        if schedule_entries_problem(entries) is None {
            assert forall|i: int| 0 <= i < entries.len() implies schedule_value_given(
                #[trigger] entries[i],
            ) by {
                lemma_schedule_value(entries, i);
            }
            assert forall|i: int, j: int| #![trigger entries[i], entries[j]] 0 <= i < j < entries.len()
                implies !same_schedule_field(entries[i], entries[j]) by {
                lemma_schedule_value(entries, i);
                lemma_schedule_value(entries, j);
                if j < before.len() {
                    assert(before[i] == entries[i] && before[j] == entries[j]);
                } else {
                    lemma_schedule_value(before, i);
                }
            }
        } else if (forall|i: int| 0 <= i < entries.len() ==> schedule_value_given(#[trigger] entries[i]))
            && (forall|i: int, j: int|
            #![trigger entries[i], entries[j]]
            0 <= i < j < entries.len() ==> !same_schedule_field(entries[i], entries[j])) {
            assert(forall|i: int, j: int|
                #![trigger before[i], before[j]]
                0 <= i < j < before.len() ==> !same_schedule_field(before[i], before[j])) by {
                assert forall|i: int, j: int| #![trigger before[i], before[j]] 0 <= i < j < before.len()
                    implies !same_schedule_field(before[i], before[j]) by {
                    assert(!same_schedule_field(entries[i], entries[j]));
                }
            }
            assert(schedule_value_given(entries[before.len() as int]));
            match entries.last() {
            ScheduleEntry::Key(_) => {
                assert forall|i: int| 0 <= i < before.len() implies !(#[trigger] before[i] is Key) by {
                    assert(!same_schedule_field(entries[i], entries[before.len() as int]));
                }
            },
            ScheduleEntry::Version(_) => {
                assert forall|i: int| 0 <= i < before.len() implies !(#[trigger] before[i] is Version) by {
                    assert(!same_schedule_field(entries[i], entries[before.len() as int]));
                }
            },
            ScheduleEntry::Cron(_) => {
                assert forall|i: int| 0 <= i < before.len() implies !(#[trigger] before[i] is Cron) by {
                    assert(!same_schedule_field(entries[i], entries[before.len() as int]));
                }
            },
            ScheduleEntry::Timezone(_) => {
                assert forall|i: int| 0 <= i < before.len() implies !(#[trigger] before[i] is Timezone) by {
                    assert(!same_schedule_field(entries[i], entries[before.len() as int]));
                }
            },
            ScheduleEntry::Misfire(_) => {
                assert forall|i: int| 0 <= i < before.len() implies !(#[trigger] before[i] is Misfire) by {
                    assert(!same_schedule_field(entries[i], entries[before.len() as int]));
                }
            },
            ScheduleEntry::CatchUpLimit(_) => {
                assert forall|i: int| 0 <= i < before.len() implies !(#[trigger] before[i] is CatchUpLimit) by {
                    assert(!same_schedule_field(entries[i], entries[before.len() as int]));
                }
            },
            ScheduleEntry::Overlap(_) => {
                assert forall|i: int| 0 <= i < before.len() implies !(#[trigger] before[i] is Overlap) by {
                    assert(!same_schedule_field(entries[i], entries[before.len() as int]));
                }
            },
            ScheduleEntry::MisfireGraceSecs(_) => {
                assert forall|i: int| 0 <= i < before.len() implies !(#[trigger] before[i] is MisfireGraceSecs) by {
                    assert(!same_schedule_field(entries[i], entries[before.len() as int]));
                }
            },
            _ => {},
            }
            assert(schedule_entry_problem(before, entries.last()) is None);
            assert(schedule_entries_problem(before) is None);
        }
    }
}

/// The metadata of a workflow is what its one attribute writes, each value under its own
/// field, and no other entry stands there; the version is not zero.
pub proof fn law_workflow_metadata_is_what_was_written(
    attributes: Seq<Vec<WorkflowEntry>>,
    metadata: WorkflowMetadata,
    i: int,
)
    requires
        reads_workflow(attributes, metadata),
        0 <= i < attributes[0]@.len(),
    ensures
        attributes.len() == 1,
        match attributes[0]@[i] {
            WorkflowEntry::Kind(kind) => kind matches Ok(kind) && kind@ == metadata.kind@,
            WorkflowEntry::Version(version) => version == Ok::<i32, String>(metadata.version),
            _ => false,
        },
        naming::lower_snake_case(metadata.kind@),
        metadata.version != 0,
{
    lemma_workflow_value(attributes[0]@, workflow_texts(), i);
}

/// The metadata of a flow is what its entries write, each value under its own field, and no
/// other entry stands there; the version is positive.
pub proof fn law_flow_metadata_is_what_was_written(
    entries: Seq<WorkflowEntry>,
    metadata: WorkflowMetadata,
    i: int,
)
    requires
        reads_flow(entries, metadata),
        0 <= i < entries.len(),
    ensures
        match entries[i] {
            WorkflowEntry::Kind(kind) => kind matches Ok(kind) && kind@ == metadata.kind@,
            WorkflowEntry::Version(version) => version == Ok::<i32, String>(metadata.version),
            _ => false,
        },
        naming::lower_snake_case(metadata.kind@),
        metadata.version > 0,
{
    lemma_workflow_value(entries, flow_texts(), i);
}

/// A kind and a version that a workflow writes, in either order, make its metadata; they
/// are refused only where the kind is not lower snake case or the version is zero, for a
/// flow also where it is negative.
pub proof fn law_written_workflow_is_accepted(
    attributes: Seq<Vec<WorkflowEntry>>,
    kind: String,
    version: i32,
)
    requires
        attributes.len() == 1,
        attributes[0]@ == seq![WorkflowEntry::Kind(Ok(kind)), WorkflowEntry::Version(Ok(version))]
            || attributes[0]@ == seq![
            WorkflowEntry::Version(Ok(version)),
            WorkflowEntry::Kind(Ok(kind)),
        ],
    ensures
        workflow_problem(attributes) is None <==> naming::lower_snake_case(kind@) && version != 0,
        flow_problem(attributes[0]@) is None <==> naming::lower_snake_case(kind@) && version > 0,
{
    let entries = attributes[0]@;
    law_workflow_entries_are_refused_only_for_a_reason(entries, workflow_texts());
    law_workflow_entries_are_refused_only_for_a_reason(entries, flow_texts());
    lemma_workflow_value(entries, workflow_texts(), 0);
    lemma_workflow_value(entries, workflow_texts(), 1);
}

/// A backoff waits as its entries write, each value under its own field: a fixed one writes
/// its delay alone, an exponential one its first delay, its longest delay and its jitter.
pub proof fn law_backoff_is_what_was_written(
    kind: Seq<char>,
    entries: Seq<BackoffEntry>,
    backoff: BackoffPolicy,
    i: int,
)
    requires
        reads_backoff(kind, entries, backoff),
        0 <= i < entries.len(),
    ensures
        match (entries[i], backoff) {
            (BackoffEntry::DelaySecs(value), BackoffPolicy::Fixed { delay_secs }) => value == Ok::<
                u64,
                String,
            >(delay_secs) && delay_secs > 0 && kind == "fixed"@,
            (
                BackoffEntry::InitialSecs(value),
                BackoffPolicy::Exponential { initial_secs, .. },
            ) => value == Ok::<u64, String>(initial_secs) && initial_secs > 0 && kind
                == "exponential"@,
            (
                BackoffEntry::MaxSecs(value),
                BackoffPolicy::Exponential { initial_secs, max_secs, .. },
            ) => value == Ok::<u64, String>(max_secs) && initial_secs <= max_secs && kind
                == "exponential"@,
            (
                BackoffEntry::JitterPercent(value),
                BackoffPolicy::Exponential { jitter_percent, .. },
            ) => value == Ok::<u8, String>(jitter_percent) && jitter_percent <= 100 && kind
                == "exponential"@,
            _ => false,
        },
{
    reveal_strlit("fixed");
    reveal_strlit("exponential");
    assert("fixed"@.len() != "exponential"@.len());
    lemma_backoff_value(entries, i);
}

/// Readable entries of different fields make a backoff exactly where they give what its kind
/// needs, nothing else, and in range.
pub proof fn law_backoff_is_refused_only_for_a_reason(kind: Seq<char>, entries: Seq<BackoffEntry>)
    requires
        backoff_entries_problem(entries) is None,
    ensures
        backoff_problem(kind, entries) is None <==> {
            ||| {
                &&& kind == "fixed"@
                &&& backoff_delay_secs(entries) matches Some(delay)
                &&& delay > 0
                &&& forall|i: int| 0 <= i < entries.len() ==> #[trigger] entries[i] is DelaySecs
            }
            ||| {
                &&& kind == "exponential"@
                &&& backoff_initial_secs(entries) matches Some(initial)
                &&& backoff_max_secs(entries) matches Some(max)
                &&& backoff_jitter_percent(entries) matches Some(jitter)
                &&& 0 < initial <= max
                &&& jitter <= 100
                &&& forall|i: int| 0 <= i < entries.len() ==> !(#[trigger] entries[i] is DelaySecs)
            }
        },
{
    reveal_strlit("fixed");
    reveal_strlit("exponential");
    assert("fixed"@.len() != "exponential"@.len());
    lemma_backoff_not_given(entries);
    assert forall|i: int| 0 <= i < entries.len() implies match #[trigger] entries[i] {
        BackoffEntry::DelaySecs(_) => backoff_delay_secs(entries) is Some,
        BackoffEntry::InitialSecs(_) => backoff_initial_secs(entries) is Some,
        BackoffEntry::MaxSecs(_) => backoff_max_secs(entries) is Some,
        BackoffEntry::JitterPercent(_) => backoff_jitter_percent(entries) is Some,
        _ => false,
    } by {
        lemma_backoff_value(entries, i);
    }
}

/// The metadata of an activity is what its one attribute writes, each value under its own
/// field, and no other entry stands there. Its topic is a qualified path, it is tried at
/// least once, and its lease is longer than its time limit.
pub proof fn law_activity_metadata_is_what_was_written(
    attributes: Seq<Vec<ActivityEntry>>,
    metadata: ActivityMetadata,
    i: int,
)
    requires
        reads_activity(attributes, metadata),
        0 <= i < attributes[0]@.len(),
    ensures
        attributes.len() == 1,
        match attributes[0]@[i] {
            ActivityEntry::Kind(kind) => kind matches Ok(kind) && kind@ == metadata.kind@,
            ActivityEntry::Version(version) => version == Ok::<i32, String>(metadata.version),
            ActivityEntry::Topic(topic) => topic matches Ok(topic) && topic@ == metadata.topic@,
            ActivityEntry::MaxAttempts(max) => max == Ok::<u32, String>(metadata.max_attempts),
            ActivityEntry::TimeoutSecs(secs) => secs == Ok::<u64, String>(metadata.timeout_secs),
            ActivityEntry::LeaseSecs(secs) => secs == Ok::<u64, String>(metadata.lease_secs),
            ActivityEntry::Backoff(backoff) => backoff == Ok::<BackoffPolicy, String>(
                metadata.backoff,
            ),
            _ => false,
        },
        naming::lower_snake_case(metadata.kind@),
        metadata.version != 0,
        metadata.topic@.len() >= 2,
        metadata.max_attempts > 0,
        0 < metadata.timeout_secs < metadata.lease_secs,
{
    lemma_activity_value(attributes[0]@, i);
}

/// Readable entries of different fields make an activity exactly where every field is given
/// and in range, in a single attribute.
pub proof fn law_activity_is_refused_only_for_a_reason(attributes: Seq<Vec<ActivityEntry>>)
    requires
        attributes.len() > 0,
        activity_entries_problem(attributes[0]@) is None,
    ensures
        activity_problem(attributes) is None <==> {
            let entries = attributes[0]@;
            &&& attributes.len() == 1
            &&& activity_kind(entries) matches Some(kind)
            &&& naming::lower_snake_case(kind)
            &&& activity_version(entries) matches Some(version)
            &&& version != 0
            &&& activity_topic(entries) matches Some(topic)
            &&& topic.len() >= 2
            &&& activity_max_attempts(entries) matches Some(max)
            &&& max > 0
            &&& activity_timeout_secs(entries) matches Some(timeout)
            &&& timeout > 0
            &&& activity_lease_secs(entries) matches Some(lease)
            &&& lease > timeout
            &&& activity_backoff(entries) is Some
        },
{
}

/// The metadata of a schedule is what its one attribute writes, each value under its own
/// field, and no other entry stands there.
pub proof fn law_schedule_metadata_is_what_was_written(
    attributes: Seq<Vec<ScheduleEntry>>,
    metadata: ScheduleMetadata,
    i: int,
)
    requires
        reads_schedule(attributes, metadata),
        0 <= i < attributes[0]@.len(),
    ensures
        attributes.len() == 1,
        match attributes[0]@[i] {
            ScheduleEntry::Key(key) => key matches Ok(key) && key@ == metadata.key@,
            ScheduleEntry::Version(version) => version == Ok::<i32, String>(metadata.version),
            ScheduleEntry::Cron(cron) => cron matches Ok(cron) && cron@ == metadata.cron@,
            ScheduleEntry::Timezone(timezone) => timezone matches Ok(timezone) && timezone@
                == metadata.timezone@,
            ScheduleEntry::Misfire(name) => name matches Ok(name) && match metadata.misfire {
                MisfirePolicy::Skip => name@ == "Skip"@,
                MisfirePolicy::RunLatest => name@ == "RunLatest"@,
                MisfirePolicy::CatchUp { .. } => name@ == "CatchUp"@,
            },
            ScheduleEntry::CatchUpLimit(limit) => limit matches Ok(limit) && 1 <= limit <= 100
                && metadata.misfire == (MisfirePolicy::CatchUp { max_occurrences: limit }),
            ScheduleEntry::Overlap(name) => name matches Ok(name) && match metadata.overlap {
                OverlapPolicy::Allow => name@ == "Allow"@,
                OverlapPolicy::SkipIfActive => name@ == "SkipIfActive"@,
                OverlapPolicy::QueueOne => name@ == "QueueOne"@,
            },
            ScheduleEntry::MisfireGraceSecs(secs) => secs == Ok::<u64, String>(
                metadata.misfire_grace_secs,
            ),
            _ => false,
        },
        naming::lower_snake_case(metadata.key@),
        metadata.version > 0,
        metadata.misfire_grace_secs > 0,
{
    lemma_schedule_value(attributes[0]@, i);
}

/// Readable entries of different fields make a schedule exactly where every field is given
/// and in range, in a single attribute, and a limit stands there exactly where the schedule
/// catches up.
pub proof fn law_schedule_is_refused_only_for_a_reason(attributes: Seq<Vec<ScheduleEntry>>)
    requires
        attributes.len() > 0,
        schedule_entries_problem(attributes[0]@) is None,
    ensures
        schedule_problem(attributes) is None <==> {
            let entries = attributes[0]@;
            &&& attributes.len() == 1
            &&& schedule_key(entries) matches Some(key)
            &&& naming::lower_snake_case(key)
            &&& schedule_version(entries) matches Some(version)
            &&& version > 0
            &&& schedule_cron(entries) is Some
            &&& schedule_timezone(entries) is Some
            &&& schedule_misfire(entries) matches Some(misfire)
            &&& match schedule_catch_up_limit(entries) {
                Some(limit) => misfire == "CatchUp"@ && 1 <= limit <= 100,
                None => misfire == "Skip"@ || misfire == "RunLatest"@,
            }
            &&& schedule_overlap(entries) matches Some(overlap)
            &&& overlap == "Allow"@ || overlap == "SkipIfActive"@ || overlap == "QueueOne"@
            &&& schedule_misfire_grace_secs(entries) matches Some(grace)
            &&& grace > 0
        },
{
    reveal_strlit("Skip");
    reveal_strlit("RunLatest");
    reveal_strlit("CatchUp");
    assert("Skip"@.len() != "CatchUp"@.len());
    assert("RunLatest"@.len() != "CatchUp"@.len());
}

/// Each field is written under its own name.
pub proof fn law_fields_are_written_under_their_names(
    workflow: WorkflowField,
    backoff: BackoffField,
    activity: ActivityField,
    schedule: ScheduleField,
)
    ensures
        match workflow {
            WorkflowField::Kind => workflow_field_name(workflow) == "kind"@,
            WorkflowField::Version => workflow_field_name(workflow) == "version"@,
        },
        match backoff {
            BackoffField::DelaySecs => backoff_field_name(backoff) == "delay_secs"@,
            BackoffField::InitialSecs => backoff_field_name(backoff) == "initial_secs"@,
            BackoffField::MaxSecs => backoff_field_name(backoff) == "max_secs"@,
            BackoffField::JitterPercent => backoff_field_name(backoff) == "jitter_percent"@,
        },
        match activity {
            ActivityField::Kind => activity_field_name(activity) == "kind"@,
            ActivityField::Version => activity_field_name(activity) == "version"@,
            ActivityField::Topic => activity_field_name(activity) == "topic"@,
            ActivityField::MaxAttempts => activity_field_name(activity) == "max_attempts"@,
            ActivityField::TimeoutSecs => activity_field_name(activity) == "timeout_secs"@,
            ActivityField::LeaseSecs => activity_field_name(activity) == "lease_secs"@,
            ActivityField::Backoff => activity_field_name(activity) == "backoff"@,
        },
        match schedule {
            ScheduleField::Key => schedule_field_name(schedule) == "key"@,
            ScheduleField::Version => schedule_field_name(schedule) == "version"@,
            ScheduleField::Cron => schedule_field_name(schedule) == "cron"@,
            ScheduleField::Timezone => schedule_field_name(schedule) == "timezone"@,
            ScheduleField::Misfire => schedule_field_name(schedule) == "misfire"@,
            ScheduleField::CatchUpLimit => schedule_field_name(schedule) == "catch_up_limit"@,
            ScheduleField::Overlap => schedule_field_name(schedule) == "overlap"@,
            ScheduleField::MisfireGraceSecs => schedule_field_name(schedule)
                == "misfire_grace_secs"@,
        },
{
}

} // verus!
