//! Errors of the durable engine and their texts.
use vstd::prelude::*;
use crate::definition::DefinitionKey;
use crate::numerals;
use crate::numerals::{decimal_i64, decimal_u64};
use crate::text;
use crate::text::{byte_len, join2, join3, join5, truncate_utf8};
use crate::MAX_ERROR_REASON_BYTES;

verus! {

/// The longest error category, in bytes.
pub const MAX_ERROR_CATEGORY_BYTES: usize = 64;

/// What went wrong in a durable operation.
///
/// The first five variants carry the text of a failure of the database, of its
/// connection pool, of a migration, or of JSON handling.
#[derive(Debug)]
pub enum DurableError {
    Database(String),
    Pool(String),
    PoolCheckout(String),
    Migration(String),
    Serialization(String),
    InvalidPayload { field: &'static str, message: String },
    InvalidDefinition(String),
    MissingDefinition { kind: String, version: i32 },
    MissingCurrentDefinition { kind: String },
    MissingDefinitions {
        workflows: Vec<DefinitionKey>,
        activities: Vec<DefinitionKey>,
        topics: Vec<String>,
    },
    DuplicateDefinition { kind: String, version: i32 },
    InvalidState(String),
    FencedWrite,
    InvalidId(i64),
    NotFound { resource: &'static str, identifier: String },
    Conflict(String),
    InvalidCursor(String),
    PayloadTooLarge { field: &'static str, actual_bytes: usize, max_bytes: usize },
    DefinitionMismatch {
        actual_kind: String,
        actual_version: i32,
        expected_kind: String,
        expected_version: i32,
    },
}

/// The mathematical content of a [`DurableError`].
#[verifier::ext_equal]
pub enum ErrorModel {
    Database(Seq<char>),
    Pool(Seq<char>),
    PoolCheckout(Seq<char>),
    Migration(Seq<char>),
    Serialization(Seq<char>),
    InvalidPayload { field: Seq<char>, message: Seq<char> },
    InvalidDefinition(Seq<char>),
    MissingDefinition { kind: Seq<char>, version: int },
    MissingCurrentDefinition { kind: Seq<char> },
    MissingDefinitions {
        workflows: Seq<(Seq<char>, int)>,
        activities: Seq<(Seq<char>, int)>,
        topics: Seq<Seq<char>>,
    },
    DuplicateDefinition { kind: Seq<char>, version: int },
    InvalidState(Seq<char>),
    FencedWrite,
    InvalidId(int),
    NotFound { resource: Seq<char>, identifier: Seq<char> },
    Conflict(Seq<char>),
    InvalidCursor(Seq<char>),
    PayloadTooLarge { field: Seq<char>, actual_bytes: int, max_bytes: int },
    DefinitionMismatch {
        actual_kind: Seq<char>,
        actual_version: int,
        expected_kind: Seq<char>,
        expected_version: int,
    },
}

/// The views of a sequence of definition keys.
pub open spec fn key_views(keys: Seq<DefinitionKey>) -> Seq<(Seq<char>, int)> {
    keys.map_values(|key: DefinitionKey| key@)
}

impl View for DurableError {
    type V = ErrorModel;

    open spec fn view(&self) -> ErrorModel {
        match *self {
            DurableError::Database(text) => ErrorModel::Database(text@),
            DurableError::Pool(text) => ErrorModel::Pool(text@),
            DurableError::PoolCheckout(text) => ErrorModel::PoolCheckout(text@),
            DurableError::Migration(text) => ErrorModel::Migration(text@),
            DurableError::Serialization(text) => ErrorModel::Serialization(text@),
            DurableError::InvalidPayload { field, message } => ErrorModel::InvalidPayload {
                field: field@,
                message: message@,
            },
            DurableError::InvalidDefinition(text) => ErrorModel::InvalidDefinition(text@),
            DurableError::MissingDefinition { kind, version } => ErrorModel::MissingDefinition {
                kind: kind@,
                version: version as int,
            },
            DurableError::MissingCurrentDefinition { kind } => ErrorModel::MissingCurrentDefinition {
                kind: kind@,
            },
            DurableError::MissingDefinitions { workflows, activities, topics } =>
                ErrorModel::MissingDefinitions {
                workflows: key_views(workflows@),
                activities: key_views(activities@),
                topics: text::texts(topics@),
            },
            DurableError::DuplicateDefinition { kind, version } => ErrorModel::DuplicateDefinition {
                kind: kind@,
                version: version as int,
            },
            DurableError::InvalidState(text) => ErrorModel::InvalidState(text@),
            DurableError::FencedWrite => ErrorModel::FencedWrite,
            DurableError::InvalidId(value) => ErrorModel::InvalidId(value as int),
            DurableError::NotFound { resource, identifier } => ErrorModel::NotFound {
                resource: resource@,
                identifier: identifier@,
            },
            DurableError::Conflict(text) => ErrorModel::Conflict(text@),
            DurableError::InvalidCursor(text) => ErrorModel::InvalidCursor(text@),
            DurableError::PayloadTooLarge { field, actual_bytes, max_bytes } =>
                ErrorModel::PayloadTooLarge {
                field: field@,
                actual_bytes: actual_bytes as int,
                max_bytes: max_bytes as int,
            },
            DurableError::DefinitionMismatch {
                actual_kind,
                actual_version,
                expected_kind,
                expected_version,
            } => ErrorModel::DefinitionMismatch {
                actual_kind: actual_kind@,
                actual_version: actual_version as int,
                expected_kind: expected_kind@,
                expected_version: expected_version as int,
            },
        }
    }
}

/// What `{:?}` renders of a text: the text in double quotes with its special
/// characters escaped.
pub uninterp spec fn debug_text(s: Seq<char>) -> Seq<char>;

/// Calls the `Debug` formatting of `str`, whose result depends on the text
/// alone; how each character is escaped is left to the standard library.
#[verifier::external_body]
pub(crate) fn quoted(s: &str) -> (q: String)
    ensures
        q@ == debug_text(s@),
{
    format!("{:?}", s)
}

/// What `{:?}` renders of a definition key.
pub open spec fn debug_key(key: (Seq<char>, int)) -> Seq<char> {
    "DefinitionKey { kind: "@ + debug_text(key.0) + ", version: "@ + numerals::decimal(key.1) + " }"@
}

/// The elements separated by a comma and a space.
pub open spec fn comma_separated(items: Seq<Seq<char>>) -> Seq<char>
    decreases items.len(),
{
    if items.len() == 0 {
        Seq::empty()
    } else if items.len() == 1 {
        items[0]
    } else {
        comma_separated(items.drop_last()) + ", "@ + items.last()
    }
}

/// What `{:?}` renders of a list of definition keys.
pub open spec fn debug_keys(keys: Seq<(Seq<char>, int)>) -> Seq<char> {
    "["@ + comma_separated(keys.map_values(|key: (Seq<char>, int)| debug_key(key))) + "]"@
}

/// What `{:?}` renders of a list of texts.
pub open spec fn debug_texts(items: Seq<Seq<char>>) -> Seq<char> {
    "["@ + comma_separated(items.map_values(|item: Seq<char>| debug_text(item))) + "]"@
}

/// The text that describes an error.
pub open spec fn error_text(error: ErrorModel) -> Seq<char> {
    match error {
        ErrorModel::Database(text) => "database error: "@ + text,
        ErrorModel::Pool(text) => "database pool error: "@ + text,
        ErrorModel::PoolCheckout(text) => "database pool checkout error: "@ + text,
        ErrorModel::Migration(text) => "durable migration failed: "@ + text,
        ErrorModel::Serialization(text) => "durable payload serialization failed: "@ + text,
        ErrorModel::InvalidPayload { field, message } => "invalid "@ + field + ": "@ + message,
        ErrorModel::InvalidDefinition(text) => "invalid durable definition: "@ + text,
        ErrorModel::MissingDefinition { kind, version } => "missing durable definition "@ + kind
            + " v"@ + numerals::decimal(version),
        ErrorModel::MissingCurrentDefinition { kind } =>
            "missing current durable definition for "@ + kind,
        ErrorModel::MissingDefinitions { workflows, activities, topics } =>
            "durable readiness is missing workflow definitions "@ + debug_keys(workflows)
            + ", activity definitions "@ + debug_keys(activities) + ", and activity topics "@
            + debug_texts(topics),
        ErrorModel::DuplicateDefinition { kind, version } => "duplicate durable definition "@
            + kind + " v"@ + numerals::decimal(version),
        ErrorModel::InvalidState(text) => "invalid durable state: "@ + text,
        ErrorModel::FencedWrite => "durable write lost its lease fence"@,
        ErrorModel::InvalidId(value) => "invalid durable identifier: "@ + numerals::decimal(value),
        ErrorModel::NotFound { resource, identifier } => "durable resource not found: "@ + resource
            + " "@ + identifier,
        ErrorModel::Conflict(text) => "durable operation conflicts with current state: "@ + text,
        ErrorModel::InvalidCursor(text) => "invalid durable admin cursor: "@ + text,
        ErrorModel::PayloadTooLarge { field, actual_bytes, max_bytes } => field + " is "@ + numerals::decimal(
            actual_bytes,
        ) + " bytes; maximum is "@ + numerals::decimal(max_bytes) + " bytes"@,
        ErrorModel::DefinitionMismatch {
            actual_kind,
            actual_version,
            expected_kind,
            expected_version,
        } => "stored result definition "@ + actual_kind + " v"@ + numerals::decimal(actual_version)
            + " does not match expected "@ + expected_kind + " v"@ + numerals::decimal(expected_version),
    }
}

fn quoted_key(key: &DefinitionKey) -> (s: String)
    ensures
        s@ == debug_key(key@),
{
    let kind = quoted(key.kind.as_str());
    let version = decimal_i64(key.version as i64);
    join5("DefinitionKey { kind: ", kind.as_str(), ", version: ", version.as_str(), " }")
}

fn quoted_keys(keys: &Vec<DefinitionKey>) -> (s: String)
    ensures
        s@ == debug_keys(key_views(keys@)),
{
    let ghost all = key_views(keys@).map_values(|key: (Seq<char>, int)| debug_key(key));
    let mut list = String::new();
    let mut i: usize = 0;
    assert(all.take(0) =~= Seq::<Seq<char>>::empty());
    while i < keys.len()
        invariant
            i <= keys@.len(),
            all == key_views(keys@).map_values(|key: (Seq<char>, int)| debug_key(key)),
            list@ == comma_separated(all.take(i as int)),
        decreases keys@.len() - i,
    {
        let item = quoted_key(&keys[i]);
        assert(all.take(i as int + 1).drop_last() =~= all.take(i as int));
        assert(all[i as int] == item@);
        if i > 0 {
            list.append(", ");
        }
        list.append(item.as_str());
        i = i + 1;
        assert(list@ =~= comma_separated(all.take(i as int)));
    }
    assert(all.take(i as int) =~= all);
    join3("[", list.as_str(), "]")
}

fn quoted_texts(items: &Vec<String>) -> (s: String)
    ensures
        s@ == debug_texts(text::texts(items@)),
{
    let ghost all = text::texts(items@).map_values(|item: Seq<char>| debug_text(item));
    let mut list = String::new();
    let mut i: usize = 0;
    assert(all.take(0) =~= Seq::<Seq<char>>::empty());
    while i < items.len()
        invariant
            i <= items@.len(),
            all == text::texts(items@).map_values(|item: Seq<char>| debug_text(item)),
            list@ == comma_separated(all.take(i as int)),
        decreases items@.len() - i,
    {
        let item = quoted(items[i].as_str());
        assert(all.take(i as int + 1).drop_last() =~= all.take(i as int));
        assert(all[i as int] == item@);
        if i > 0 {
            list.append(", ");
        }
        list.append(item.as_str());
        i = i + 1;
        assert(list@ =~= comma_separated(all.take(i as int)));
    }
    assert(all.take(i as int) =~= all);
    join3("[", list.as_str(), "]")
}

impl DurableError {
    /// The text that describes the error.
    pub fn message(&self) -> (text: String)
        ensures
            text@ == error_text(self@),
    {
        match self {
            DurableError::Database(text) => join2("database error: ", text.as_str()),
            DurableError::Pool(text) => join2("database pool error: ", text.as_str()),
            DurableError::PoolCheckout(text) => join2("database pool checkout error: ", text.as_str()),
            DurableError::Migration(text) => join2("durable migration failed: ", text.as_str()),
            DurableError::Serialization(text) => join2(
                "durable payload serialization failed: ",
                text.as_str(),
            ),
            DurableError::InvalidPayload { field, message } => {
                let mut text = join3("invalid ", field, ": ");
                text.append(message.as_str());
                text
            },
            DurableError::InvalidDefinition(text) => join2(
                "invalid durable definition: ",
                text.as_str(),
            ),
            DurableError::MissingDefinition { kind, version } => {
                let mut text = join3("missing durable definition ", kind.as_str(), " v");
                text.append(decimal_i64(*version as i64).as_str());
                text
            },
            DurableError::MissingCurrentDefinition { kind } => join2(
                "missing current durable definition for ",
                kind.as_str(),
            ),
            DurableError::MissingDefinitions { workflows, activities, topics } => {
                let mut text = join5(
                    "durable readiness is missing workflow definitions ",
                    quoted_keys(workflows).as_str(),
                    ", activity definitions ",
                    quoted_keys(activities).as_str(),
                    ", and activity topics ",
                );
                text.append(quoted_texts(topics).as_str());
                text
            },
            DurableError::DuplicateDefinition { kind, version } => {
                let mut text = join3("duplicate durable definition ", kind.as_str(), " v");
                text.append(decimal_i64(*version as i64).as_str());
                text
            },
            DurableError::InvalidState(text) => join2("invalid durable state: ", text.as_str()),
            DurableError::FencedWrite => "durable write lost its lease fence".to_owned(),
            DurableError::InvalidId(value) => join2(
                "invalid durable identifier: ",
                decimal_i64(*value).as_str(),
            ),
            DurableError::NotFound { resource, identifier } => {
                let mut text = join3("durable resource not found: ", resource, " ");
                text.append(identifier.as_str());
                text
            },
            DurableError::Conflict(text) => join2(
                "durable operation conflicts with current state: ",
                text.as_str(),
            ),
            DurableError::InvalidCursor(text) => join2(
                "invalid durable admin cursor: ",
                text.as_str(),
            ),
            DurableError::PayloadTooLarge { field, actual_bytes, max_bytes } => join5(
                field,
                " is ",
                decimal_u64(*actual_bytes as u64).as_str(),
                " bytes; maximum is ",
                join2(decimal_u64(*max_bytes as u64).as_str(), " bytes").as_str(),
            ),
            DurableError::DefinitionMismatch {
                actual_kind,
                actual_version,
                expected_kind,
                expected_version,
            } => {
                let mut text = join5(
                    "stored result definition ",
                    actual_kind.as_str(),
                    " v",
                    decimal_i64(*actual_version as i64).as_str(),
                    " does not match expected ",
                );
                text.append(expected_kind.as_str());
                text.append(" v");
                text.append(decimal_i64(*expected_version as i64).as_str());
                text
            },
        }
    }
}

/// A failure that a workflow handler reports.
#[derive(Debug, PartialEq, Eq)]
pub struct WorkflowError {
    pub category: String,
    pub message: String,
}

impl Clone for WorkflowError {
    fn clone(&self) -> (copy: Self)
        ensures
            copy == *self,
    {
        WorkflowError { category: self.category.clone(), message: self.message.clone() }
    }
}

impl WorkflowError {
    /// A failure with its category cut to 64 bytes and its message to
    /// [`MAX_ERROR_REASON_BYTES`](crate::MAX_ERROR_REASON_BYTES).
    pub fn new(category: &str, message: &str) -> (error: Self)
        ensures
            error.category@ == text::utf8_prefix(category@, MAX_ERROR_CATEGORY_BYTES as nat),
            error.message@ == text::utf8_prefix(message@, MAX_ERROR_REASON_BYTES as nat),
    {
        WorkflowError {
            category: truncate_utf8(category.to_owned(), MAX_ERROR_CATEGORY_BYTES),
            message: truncate_utf8(message.to_owned(), MAX_ERROR_REASON_BYTES),
        }
    }

    /// The text that describes the failure.
    pub fn message_text(&self) -> (text: String)
        ensures
            text@ == self.category@ + ": "@ + self.message@,
    {
        join3(self.category.as_str(), ": ", self.message.as_str())
    }
}

/// A failure that an activity handler reports.
#[derive(Debug, Clone, PartialEq, Eq)]
pub enum ActivityError {
    Retryable { category: String, message: String },
    Permanent { category: String, message: String },
}

/// The text that describes a failure of an activity.
pub open spec fn activity_error_text(error: ActivityError) -> Seq<char> {
    match error {
        ActivityError::Retryable { category, message } => "retryable activity error "@ + category@
            + ": "@ + message@,
        ActivityError::Permanent { category, message } => "permanent activity error "@ + category@
            + ": "@ + message@,
    }
}

impl ActivityError {
    /// A failure after which the activity may run again.
    pub fn retryable(category: &str, message: &str) -> (error: Self)
        ensures
            error matches ActivityError::Retryable { category: c, message: m } && c@ == text::utf8_prefix(
                category@,
                MAX_ERROR_CATEGORY_BYTES as nat,
            ) && m@ == text::utf8_prefix(message@, MAX_ERROR_REASON_BYTES as nat),
    {
        ActivityError::Retryable {
            category: truncate_utf8(category.to_owned(), MAX_ERROR_CATEGORY_BYTES),
            message: truncate_utf8(message.to_owned(), MAX_ERROR_REASON_BYTES),
        }
    }

    /// A failure after which the activity must not run again.
    pub fn permanent(category: &str, message: &str) -> (error: Self)
        ensures
            error matches ActivityError::Permanent { category: c, message: m } && c@ == text::utf8_prefix(
                category@,
                MAX_ERROR_CATEGORY_BYTES as nat,
            ) && m@ == text::utf8_prefix(message@, MAX_ERROR_REASON_BYTES as nat),
    {
        ActivityError::Permanent {
            category: truncate_utf8(category.to_owned(), MAX_ERROR_CATEGORY_BYTES),
            message: truncate_utf8(message.to_owned(), MAX_ERROR_REASON_BYTES),
        }
    }

    /// The text that describes the failure.
    pub fn message_text(&self) -> (text: String)
        ensures
            text@ == activity_error_text(*self),
    {
        match self {
            ActivityError::Retryable { category, message } => {
                let mut text = join3("retryable activity error ", category.as_str(), ": ");
                text.append(message.as_str());
                text
            },
            ActivityError::Permanent { category, message } => {
                let mut text = join3("permanent activity error ", category.as_str(), ": ");
                text.append(message.as_str());
                text
            },
        }
    }
}

/// The outcome of a size check.
pub open spec fn size_result(field: Seq<char>, value: Seq<char>, max_bytes: int) -> Result<
    (),
    ErrorModel,
> {
    if text::utf8_len(value) > max_bytes {
        Err(
            ErrorModel::PayloadTooLarge {
                field,
                actual_bytes: text::utf8_len(value) as int,
                max_bytes,
            },
        )
    } else {
        Ok(())
    }
}

/// The model of a result whose error is a [`DurableError`] and whose value is kept.
pub open spec fn result_model<T>(result: Result<T, DurableError>) -> Result<T, ErrorModel> {
    match result {
        Ok(value) => Ok(value),
        Err(error) => Err(error@),
    }
}

/// Refuses a text that takes more than `max_bytes` bytes.
pub fn ensure_size(field: &'static str, value: &str, max_bytes: usize) -> (result: Result<
    (),
    DurableError,
>)
    ensures
        result_model(result) == size_result(field@, value@, max_bytes as int),
{
    let actual_bytes: usize = byte_len(value);
    if actual_bytes > max_bytes {
        return Err(DurableError::PayloadTooLarge { field, actual_bytes, max_bytes });
    }
    Ok(())
}

/// An [`DurableError::InvalidDefinition`] with the given text.
pub fn invalid_definition(text: &str) -> (error: DurableError)
    ensures
        error@ == ErrorModel::InvalidDefinition(text@),
{
    DurableError::InvalidDefinition(text.to_owned())
}

/// An [`DurableError::InvalidState`] with the given text.
pub fn invalid_state(text: &str) -> (error: DurableError)
    ensures
        error@ == ErrorModel::InvalidState(text@),
{
    DurableError::InvalidState(text.to_owned())
}

/// An [`DurableError::Conflict`] with the given text.
pub fn conflict(text: &str) -> (error: DurableError)
    ensures
        error@ == ErrorModel::Conflict(text@),
{
    DurableError::Conflict(text.to_owned())
}

/// A text is refused exactly where it takes more bytes than allowed, and the refusal names
/// the field, the bytes that it takes and the bytes that it may take.
pub proof fn law_only_oversized_texts_are_refused(field: Seq<char>, value: Seq<char>, max_bytes: int)
    ensures
        match size_result(field, value, max_bytes) {
            Ok(()) => text::utf8_len(value) <= max_bytes,
            Err(error) => text::utf8_len(value) > max_bytes && error == (ErrorModel::PayloadTooLarge {
                field,
                actual_bytes: text::utf8_len(value) as int,
                max_bytes,
            }),
        },
{
}

/// The text of an activity's error says whether it can be retried, its category and its
/// message.
pub proof fn law_activity_error_text_tells_the_error(category: String, message: String)
    ensures
        activity_error_text(ActivityError::Retryable { category, message })
            == "retryable activity error "@ + category@ + ": "@ + message@,
        activity_error_text(ActivityError::Permanent { category, message })
            == "permanent activity error "@ + category@ + ": "@ + message@,
{
}

} // verus!
