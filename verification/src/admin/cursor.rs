//! Opaque cursors: where a page of a collection ends.
use vstd::prelude::*;
use base64::Engine;
use crate::digest;
use crate::digest::hash_bytes;
use crate::error;
use crate::error::{DurableError, ErrorModel};
use crate::json;
use crate::json::{
    count_separators, find_member, integer_member, parse_json, text_member, JsonScalar, JsonShape,
    ScalarModel, ShapeModel,
};
use crate::numerals;
use crate::numerals::hex16;
use crate::text;
use crate::text::{byte_len, join3, same_text};

verus! {

/// The version that cursors are written with.
pub const CURSOR_VERSION: i64 = 1;

/// The longest cursor that is read, in bytes.
pub const MAX_CURSOR_BYTES: usize = 512;

/// The longest scope, in bytes.
pub const MAX_SCOPE_BYTES: usize = 64;

/// The longest tie breaker, in bytes.
pub const MAX_TIE_BREAKER_BYTES: usize = 191;

/// A position in a collection that is ordered by time.
#[derive(Debug, Clone, PartialEq, Eq)]
pub struct CursorPosition {
    pub timestamp: i64,
    pub tie_breaker: String,
}

/// The mathematical content of a [`CursorPosition`].
#[verifier::ext_equal]
pub struct PositionModel {
    pub timestamp: i64,
    pub tie_breaker: Seq<char>,
}

impl View for CursorPosition {
    type V = PositionModel;

    open spec fn view(&self) -> PositionModel {
        PositionModel { timestamp: self.timestamp, tie_breaker: self.tie_breaker@ }
    }
}

/// The URL-safe base64 text, without padding, of some bytes.
pub uninterp spec fn base64_text(bytes: Seq<u8>) -> Seq<char>;

/// The bytes that a URL-safe base64 text without padding stands for, if any.
pub uninterp spec fn base64_bytes(text: Seq<char>) -> Option<Seq<u8>>;

/// The length, in bytes, of the base64 text without padding of so many bytes:
/// four characters for every three bytes, and as many as are needed for the rest.
pub open spec fn base64_len(bytes: nat) -> nat {
    ((4 * bytes + 2) / 3) as nat
}

/// Calls `Engine::encode` of `base64::engine::general_purpose::URL_SAFE_NO_PAD`:
/// the text is a function of the bytes alone, and its length follows from their
/// number. The bound keeps the length of the text far below what a `String` can
/// hold.
#[verifier::external_body]
pub(crate) fn base64_encode(bytes: &[u8]) -> (encoded: String)
    requires
        bytes@.len() <= 0x1000_0000,
    ensures
        encoded@ == base64_text(bytes@),
        text::utf8_len(encoded@) == base64_len(bytes@.len()),
{
    base64::engine::general_purpose::URL_SAFE_NO_PAD.encode(bytes)
}

/// Whether reading a base64 text gives back the bytes that were written.
pub open spec fn reads_written_bytes(text: Seq<char>, decoded: Option<Seq<u8>>) -> bool {
    forall|bytes: Seq<u8>| text == #[trigger] base64_text(bytes) ==> decoded == Some(bytes)
}

/// The view of the bytes that were read.
pub open spec fn opt_bytes(decoded: Option<Vec<u8>>) -> Option<Seq<u8>> {
    match decoded {
        Some(bytes) => Some(bytes@),
        None => None,
    }
}

/// Calls `Engine::decode` of `base64::engine::general_purpose::URL_SAFE_NO_PAD`:
/// the bytes, or the refusal, are a function of the text alone, and a text that
/// the same engine wrote reads as the bytes it was written from.
#[verifier::external_body]
pub(crate) fn base64_decode(encoded: &str) -> (decoded: Option<Vec<u8>>)
    ensures
        opt_bytes(decoded) == base64_bytes(encoded@),
        reads_written_bytes(encoded@, opt_bytes(decoded)),
{
    base64::engine::general_purpose::URL_SAFE_NO_PAD.decode(encoded).ok()
}

/// Whether a scope is a short ASCII text.
pub open spec fn scope_fits(scope: Seq<char>) -> bool {
    1 <= text::utf8_len(scope) <= MAX_SCOPE_BYTES && vstd::utf8::is_ascii_chars(scope)
}

/// Whether a tie breaker has an allowed length.
pub open spec fn tie_breaker_fits(tie_breaker: Seq<char>) -> bool {
    1 <= text::utf8_len(tie_breaker) <= MAX_TIE_BREAKER_BYTES
}

/// Why a cursor with this scope and tie breaker is not written.
pub open spec fn encode_error(scope: Seq<char>, tie_breaker: Seq<char>) -> Option<ErrorModel> {
    if !scope_fits(scope) {
        Some(ErrorModel::InvalidCursor("cursor scope is invalid"@))
    } else if !tie_breaker_fits(tie_breaker) {
        Some(ErrorModel::InvalidCursor("cursor tie breaker is invalid"@))
    } else {
        None
    }
}

/// The members of a cursor's JSON object.
pub open spec fn payload_members(scope: Seq<char>, position: PositionModel) -> Seq<
    (Seq<char>, ScalarModel),
> {
    seq![
        ("version"@, ScalarModel::Integer(CURSOR_VERSION as int)),
        ("scope"@, ScalarModel::Text(scope)),
        ("timestamp"@, ScalarModel::Integer(position.timestamp as int)),
        ("tie_breaker"@, ScalarModel::Text(position.tie_breaker)),
    ]
}

/// The JSON text inside a cursor.
pub open spec fn payload_text(scope: Seq<char>, position: PositionModel) -> Seq<char> {
    json::object_text(payload_members(scope, position))
}

/// The cursor of a position in a collection.
pub open spec fn encoded_cursor(scope: Seq<char>, position: PositionModel) -> Seq<char> {
    base64_text(vstd::utf8::encode_utf8(payload_text(scope, position)))
}

fn invalid_cursor(message: &str) -> (error: DurableError)
    ensures
        error@ == ErrorModel::InvalidCursor(message@),
{
    DurableError::InvalidCursor(message.to_owned())
}

fn is_ascii_char(c: char) -> (ascii: bool)
    ensures
        ascii == ('\0' <= c <= '\u{7f}'),
{
    c <= '\u{7f}'
}

/// Whether every character of a text is ASCII.
pub fn is_ascii(s: &str) -> (ascii: bool)
    ensures
        ascii == vstd::utf8::is_ascii_chars(s@),
{
    let chars = text::chars_of(s);
    let mut i: usize = 0;
    while i < chars.len()
        invariant
            i <= chars@.len(),
            chars@ == s@,
            forall|j: int| 0 <= j < i ==> '\0' <= #[trigger] s@[j] <= '\u{7f}',
        decreases chars@.len() - i,
    {
        if !is_ascii_char(chars[i]) {
            return false;
        }
        i = i + 1;
    }
    true
}

fn validate_scope(scope: &str) -> (result: Result<(), DurableError>)
    ensures
        error::result_model(result) == (if scope_fits(scope@) {
            Ok(())
        } else {
            Err(ErrorModel::InvalidCursor("cursor scope is invalid"@))
        }),
{
    let length: usize = byte_len(scope);
    if length == 0 || length > MAX_SCOPE_BYTES || !is_ascii(scope) {
        return Err(invalid_cursor("cursor scope is invalid"));
    }
    Ok(())
}

fn validate_tie_breaker(tie_breaker: &str) -> (result: Result<(), DurableError>)
    ensures
        error::result_model(result) == (if tie_breaker_fits(tie_breaker@) {
            Ok(())
        } else {
            Err(ErrorModel::InvalidCursor("cursor tie breaker is invalid"@))
        }),
{
    let length: usize = byte_len(tie_breaker);
    if length == 0 || length > MAX_TIE_BREAKER_BYTES {
        return Err(invalid_cursor("cursor tie breaker is invalid"));
    }
    Ok(())
}

proof fn lemma_members_text(a: (Seq<char>, ScalarModel), b: (Seq<char>, ScalarModel), c: (Seq<char>, ScalarModel), d: (Seq<char>, ScalarModel))
    ensures
        json::members_text(seq![a, b, c, d]) == json::member_text(a) + seq![','] + json::member_text(b)
            + seq![','] + json::member_text(c) + seq![','] + json::member_text(d),
{
    assert(seq![a, b, c, d].drop_last() =~= seq![a, b, c]);
    assert(seq![a, b, c].drop_last() =~= seq![a, b]);
    assert(seq![a, b].drop_last() =~= seq![a]);
    reveal_with_fuel(json::members_text, 5);
}

proof fn lemma_payload_length(scope: Seq<char>, position: PositionModel)
    requires
        scope_fits(scope),
        tie_breaker_fits(position.tie_breaker),
    ensures
        text::utf8_len(payload_text(scope, position)) <= 0x1000_0000,
{
    let a = ("version"@, ScalarModel::Integer(CURSOR_VERSION as int));
    let b = ("scope"@, ScalarModel::Text(scope));
    let c = ("timestamp"@, ScalarModel::Integer(position.timestamp as int));
    let d = ("tie_breaker"@, ScalarModel::Text(position.tie_breaker));
    let comma = seq![','];
    lemma_members_text(a, b, c, d);
    assert(vstd::utf8::is_ascii_chars("version"@)) by {
        reveal_strlit("version");
    }
    assert(vstd::utf8::is_ascii_chars("scope"@)) by {
        reveal_strlit("scope");
    }
    assert(vstd::utf8::is_ascii_chars("timestamp"@)) by {
        reveal_strlit("timestamp");
    }
    assert(vstd::utf8::is_ascii_chars("tie_breaker"@)) by {
        reveal_strlit("tie_breaker");
    }
    reveal_strlit("version");
    reveal_strlit("scope");
    reveal_strlit("timestamp");
    reveal_strlit("tie_breaker");
    vstd::utf8::is_ascii_chars_encode_utf8("version"@);
    vstd::utf8::is_ascii_chars_encode_utf8("scope"@);
    vstd::utf8::is_ascii_chars_encode_utf8("timestamp"@);
    vstd::utf8::is_ascii_chars_encode_utf8("tie_breaker"@);
    json::lemma_member_length(a);
    json::lemma_member_length(b);
    json::lemma_member_length(c);
    json::lemma_member_length(d);
    let ab = json::member_text(a) + comma + json::member_text(b);
    let abc = ab + comma + json::member_text(c);
    json::lemma_joined_length(json::member_text(a), json::member_text(b));
    json::lemma_joined_length(ab, json::member_text(c));
    json::lemma_joined_length(abc, json::member_text(d));
    json::lemma_object_length(payload_members(scope, position));
}

/// The cursor of a plain tie breaker of at most 64 characters, in a plain scope, is
/// not longer than cursors may be.
pub proof fn lemma_plain_cursor_fits(scope: Seq<char>, position: PositionModel)
    requires
        json::is_plain(scope),
        scope.len() <= MAX_SCOPE_BYTES,
        json::is_plain(position.tie_breaker),
        position.tie_breaker.len() <= 64,
    ensures
        base64_len(text::utf8_len(payload_text(scope, position))) <= MAX_CURSOR_BYTES,
{
    let a = ("version"@, ScalarModel::Integer(CURSOR_VERSION as int));
    let b = ("scope"@, ScalarModel::Text(scope));
    let c = ("timestamp"@, ScalarModel::Integer(position.timestamp as int));
    let d = ("tie_breaker"@, ScalarModel::Text(position.tie_breaker));
    let comma = seq![','];
    lemma_members_text(a, b, c, d);
    reveal_strlit("version");
    reveal_strlit("scope");
    reveal_strlit("timestamp");
    reveal_strlit("tie_breaker");
    json::lemma_plain_member_length(a);
    json::lemma_plain_member_length(b);
    json::lemma_plain_member_length(c);
    json::lemma_plain_member_length(d);
    let ab = json::member_text(a) + comma + json::member_text(b);
    let abc = ab + comma + json::member_text(c);
    json::lemma_joined_length(json::member_text(a), json::member_text(b));
    json::lemma_joined_length(ab, json::member_text(c));
    json::lemma_joined_length(abc, json::member_text(d));
    json::lemma_object_length(payload_members(scope, position));
}

/// Whether a text is the cursor of a position, written for a scope: never an
/// empty text, since the JSON text inside is not empty.
pub open spec fn is_written_cursor(
    scope: Seq<char>,
    position: PositionModel,
    cursor: Seq<char>,
) -> bool {
    &&& encode_error(scope, position.tie_breaker) is None
    &&& cursor == encoded_cursor(scope, position)
    &&& text::utf8_len(cursor) == base64_len(text::utf8_len(payload_text(scope, position)))
    &&& text::utf8_len(cursor) > 0
}

/// The cursor of a position in a collection. Refuses a scope that is not a short
/// ASCII text and a tie breaker that is empty or too long.
pub fn encode_cursor(scope: &str, position: &CursorPosition) -> (result: Result<
    String,
    DurableError,
>)
    ensures
        match result {
            Ok(cursor) => is_written_cursor(scope@, position@, cursor@),
            Err(error) => encode_error(scope@, position.tie_breaker@) == Some(error@),
        },
{
    match validate_scope(scope) {
        Ok(()) => {},
        Err(error) => return Err(error),
    }
    match validate_tie_breaker(position.tie_breaker.as_str()) {
        Ok(()) => {},
        Err(error) => return Err(error),
    }
    let mut payload = String::new();
    payload.push('{');
    payload.append(integer_member("version", CURSOR_VERSION).as_str());
    payload.push(',');
    payload.append(text_member("scope", scope).as_str());
    payload.push(',');
    payload.append(integer_member("timestamp", position.timestamp).as_str());
    payload.push(',');
    payload.append(text_member("tie_breaker", position.tie_breaker.as_str()).as_str());
    payload.push('}');
    proof {
        let members = payload_members(scope@, position@);
        lemma_members_text(members[0], members[1], members[2], members[3]);
        assert(members =~= seq![members[0], members[1], members[2], members[3]]);
        assert(payload@ =~= payload_text(scope@, position@));
        lemma_payload_length(scope@, position@);
        json::lemma_object_length(members);
    }
    Ok(base64_encode(payload.as_str().as_bytes()))
}

/// What is inside a cursor.
pub struct PayloadModel {
    pub version: int,
    pub scope: Seq<char>,
    pub position: PositionModel,
}

/// The payload that four JSON values make, where they have the right types.
pub open spec fn payload_of(
    version: ScalarModel,
    scope: ScalarModel,
    timestamp: ScalarModel,
    tie_breaker: ScalarModel,
) -> Option<PayloadModel> {
    match (version, scope, timestamp, tie_breaker) {
        (
            ScalarModel::Integer(version),
            ScalarModel::Text(scope),
            ScalarModel::Integer(timestamp),
            ScalarModel::Text(tie_breaker),
        ) => if 0 <= version <= 255 && i64::MIN <= timestamp <= i64::MAX {
            Some(
                PayloadModel {
                    version,
                    scope,
                    position: PositionModel { timestamp: timestamp as i64, tie_breaker },
                },
            )
        } else {
            None
        },
        _ => None,
    }
}

/// The payload inside a JSON value: an object with exactly the four members,
/// each named once, or an array of the four values in order. `commas` counts the
/// commas of its text outside string literals.
pub open spec fn read_payload(reading: Result<ShapeModel, Seq<char>>, commas: nat) -> Option<
    PayloadModel,
> {
    match reading {
        Ok(ShapeModel::Object(members)) => {
            if members.dom().len() == 4 && commas == 3 && members.contains_key("version"@)
                && members.contains_key("scope"@) && members.contains_key("timestamp"@)
                && members.contains_key("tie_breaker"@) {
                payload_of(
                    members["version"@],
                    members["scope"@],
                    members["timestamp"@],
                    members["tie_breaker"@],
                )
            } else {
                None
            }
        },
        Ok(ShapeModel::Array(items)) => if items.len() == 4 {
            payload_of(items[0], items[1], items[2], items[3])
        } else {
            None
        },
        _ => None,
    }
}

/// The position inside a payload, or why it is refused.
pub open spec fn accepted_payload(scope: Seq<char>, payload: Option<PayloadModel>) -> Result<
    PositionModel,
    ErrorModel,
> {
    match payload {
        None => Err(ErrorModel::InvalidCursor("cursor payload is malformed"@)),
        Some(payload) => {
            if payload.version != CURSOR_VERSION {
                Err(ErrorModel::InvalidCursor("cursor version is not supported"@))
            } else if payload.scope != scope {
                Err(ErrorModel::InvalidCursor("cursor belongs to a different collection"@))
            } else if !tie_breaker_fits(payload.position.tie_breaker) {
                Err(ErrorModel::InvalidCursor("cursor tie breaker is invalid"@))
            } else {
                Ok(payload.position)
            }
        },
    }
}

/// The position that a cursor stands for, or why it is refused.
pub open spec fn decoded_cursor(scope: Seq<char>, cursor: Seq<char>) -> Result<
    PositionModel,
    ErrorModel,
> {
    if !scope_fits(scope) {
        Err(ErrorModel::InvalidCursor("cursor scope is invalid"@))
    } else if !(1 <= text::utf8_len(cursor) <= MAX_CURSOR_BYTES) {
        Err(ErrorModel::InvalidCursor("cursor length is outside the allowed range"@))
    } else {
        match base64_bytes(cursor) {
            None => Err(ErrorModel::InvalidCursor("cursor is not valid URL-safe base64"@)),
            Some(bytes) => accepted_payload(
                scope,
                read_payload(json::parsed_json(bytes), json::separators(bytes)),
            ),
        }
    }
}

/// The model of a position or of the error in its place.
pub open spec fn position_model(result: Result<CursorPosition, DurableError>) -> Result<
    PositionModel,
    ErrorModel,
> {
    match result {
        Ok(position) => Ok(position@),
        Err(error) => Err(error@),
    }
}

fn accept(
    scope: &str,
    version: &JsonScalar,
    payload_scope: &JsonScalar,
    timestamp: &JsonScalar,
    tie_breaker: &JsonScalar,
) -> (result: Result<CursorPosition, DurableError>)
    ensures
        position_model(result) == accepted_payload(
            scope@,
            payload_of(version@, payload_scope@, timestamp@, tie_breaker@),
        ),
{
    match (version, payload_scope, timestamp, tie_breaker) {
        (
            JsonScalar::Integer(version),
            JsonScalar::Text(payload_scope),
            JsonScalar::Integer(timestamp),
            JsonScalar::Text(tie_breaker),
        ) => {
            if *version < 0 || *version > 255 || *timestamp < i64::MIN as i128 || *timestamp
                > i64::MAX as i128 {
                return Err(invalid_cursor("cursor payload is malformed"));
            }
            if *version != CURSOR_VERSION as i128 {
                return Err(invalid_cursor("cursor version is not supported"));
            }
            if !same_text(payload_scope.as_str(), scope) {
                return Err(invalid_cursor("cursor belongs to a different collection"));
            }
            match validate_tie_breaker(tie_breaker.as_str()) {
                Ok(()) => {},
                Err(error) => return Err(error),
            }
            Ok(
                CursorPosition {
                    timestamp: *timestamp as i64,
                    tie_breaker: tie_breaker.clone(),
                },
            )
        },
        _ => Err(invalid_cursor("cursor payload is malformed")),
    }
}

/// The position inside a cursor's JSON value, or why it is refused. `commas`
/// counts the commas of its text outside string literals.
pub fn position_in(scope: &str, reading: &Result<JsonShape, String>, commas: usize) -> (result:
    Result<CursorPosition, DurableError>)
    requires
        json::names_members_once(*reading),
    ensures
        position_model(result) == accepted_payload(
            scope@,
            read_payload(json::reading_model(*reading), commas as nat),
        ),
{
    match reading {
        Ok(JsonShape::Object(members)) => {
            proof {
                json::lemma_member_count(json::member_views(members@));
            }
            if members.len() != 4 || commas != 3 {
                return Err(invalid_cursor("cursor payload is malformed"));
            }
            match (
                find_member(members, "version"),
                find_member(members, "scope"),
                find_member(members, "timestamp"),
                find_member(members, "tie_breaker"),
            ) {
                (Some(version), Some(payload_scope), Some(timestamp), Some(tie_breaker)) => accept(
                    scope,
                    version,
                    payload_scope,
                    timestamp,
                    tie_breaker,
                ),
                _ => Err(invalid_cursor("cursor payload is malformed")),
            }
        },
        Ok(JsonShape::Array(items)) => {
            if items.len() != 4 {
                return Err(invalid_cursor("cursor payload is malformed"));
            }
            accept(scope, &items[0], &items[1], &items[2], &items[3])
        },
        _ => Err(invalid_cursor("cursor payload is malformed")),
    }
}

proof fn lemma_written_payload(scope: Seq<char>, position: PositionModel)
    ensures
        json::distinct_names(payload_members(scope, position)),
        json::writable(payload_members(scope, position)),
        json::separators(vstd::utf8::encode_utf8(payload_text(scope, position))) == 3,
        read_payload(
            Ok(ShapeModel::Object(json::member_map(payload_members(scope, position)))),
            3,
        ) == Some(PayloadModel { version: CURSOR_VERSION as int, scope, position }),
{
    let members = payload_members(scope, position);
    reveal_strlit("version");
    reveal_strlit("scope");
    reveal_strlit("timestamp");
    reveal_strlit("tie_breaker");
    assert("version"@.len() == 7 && "scope"@.len() == 5 && "timestamp"@.len() == 9
        && "tie_breaker"@.len() == 11);
    json::lemma_written_separators(members);
    json::lemma_member_values(members);
    assert(members[0].0 == "version"@);
    assert(members[1].0 == "scope"@);
    assert(members[2].0 == "timestamp"@);
    assert(members[3].0 == "tie_breaker"@);
}

/// Whether a cursor that was written for this scope reads as its position.
pub open spec fn reads_written_cursor(
    scope: Seq<char>,
    cursor: Seq<char>,
    result: Result<PositionModel, ErrorModel>,
) -> bool {
    forall|position: PositionModel|
        encode_error(scope, position.tie_breaker) is None && cursor == #[trigger] encoded_cursor(
            scope,
            position,
        ) && 1 <= text::utf8_len(cursor) <= MAX_CURSOR_BYTES ==> result == Ok::<
            PositionModel,
            ErrorModel,
        >(position)
}

/// Whether a cursor that was written for another scope is refused.
pub open spec fn refuses_foreign_cursor(
    scope: Seq<char>,
    cursor: Seq<char>,
    result: Result<PositionModel, ErrorModel>,
) -> bool {
    forall|other: Seq<char>, position: PositionModel|
        scope_fits(scope) && other != scope && cursor == #[trigger] encoded_cursor(
            other,
            position,
        ) && 1 <= text::utf8_len(cursor) <= MAX_CURSOR_BYTES ==> result == Err::<
            PositionModel,
            ErrorModel,
        >(ErrorModel::InvalidCursor("cursor belongs to a different collection"@))
}

/// Whether this is what a cursor reads as in a scope.
pub open spec fn is_read_cursor(
    scope: Seq<char>,
    cursor: Seq<char>,
    result: Result<PositionModel, ErrorModel>,
) -> bool {
    &&& result == decoded_cursor(scope, cursor)
    &&& reads_written_cursor(scope, cursor, result)
    &&& refuses_foreign_cursor(scope, cursor, result)
}

/// The position that a cursor stands for. A cursor that [`encode_cursor`] wrote
/// for the same scope, and that is not too long, reads as the position it was
/// written for; one that was written for another scope is refused.
pub fn decode_cursor(scope: &str, cursor: &str) -> (result: Result<CursorPosition, DurableError>)
    ensures
        is_read_cursor(scope@, cursor@, position_model(result)),
{
    match validate_scope(scope) {
        Ok(()) => {},
        Err(error) => return Err(error),
    }
    let length: usize = byte_len(cursor);
    if length == 0 || length > MAX_CURSOR_BYTES {
        return Err(invalid_cursor("cursor length is outside the allowed range"));
    }
    let bytes = match base64_decode(cursor) {
        Some(bytes) => bytes,
        None => return Err(invalid_cursor("cursor is not valid URL-safe base64")),
    };
    let reading = parse_json(bytes.as_slice());
    let commas: usize = count_separators(bytes.as_slice());
    let result = position_in(scope, &reading, commas);
    proof {
        assert forall|other: Seq<char>, position: PositionModel|
            cursor@ == #[trigger] encoded_cursor(other, position) implies read_payload(
            json::parsed_json(bytes@),
            json::separators(bytes@),
        ) == Some(
            PayloadModel { version: CURSOR_VERSION as int, scope: other, position },
        ) by {
            lemma_written_payload(other, position);
            assert(bytes@ == vstd::utf8::encode_utf8(payload_text(other, position)));
            assert(json::parsed_json(bytes@) == Ok::<ShapeModel, Seq<char>>(
                ShapeModel::Object(json::member_map(payload_members(other, position))),
            ));
        }
    }
    result
}

/// A cursor that was written for a position, and that is not longer than cursors
/// may be, reads as that position in its own scope and is refused in every other.
/// `cursor` is what [`encode_cursor`] gave, `read` is what [`decode_cursor`] gave
/// for it in `scope`, and `foreign` what it gave in `other`.
pub proof fn law_cursor_reads_back(
    scope: Seq<char>,
    position: PositionModel,
    cursor: Seq<char>,
    read: Result<PositionModel, ErrorModel>,
    other: Seq<char>,
    foreign: Result<PositionModel, ErrorModel>,
)
    requires
        is_written_cursor(scope, position, cursor),
        text::utf8_len(cursor) <= MAX_CURSOR_BYTES,
        is_read_cursor(scope, cursor, read),
        other != scope,
        is_read_cursor(other, cursor, foreign),
    ensures
        read == Ok::<PositionModel, ErrorModel>(position),
        foreign matches Err(ErrorModel::InvalidCursor(_)),
{
}

/// The scope of a collection that belongs to one identity.
pub open spec fn scoped_scope(collection: Seq<char>, identity: Seq<char>) -> Seq<char> {
    collection + ":"@ + numerals::hex_digits(
        digest::fnv1a(vstd::utf8::encode_utf8(identity)) as nat,
        16,
    )
}

/// The scope of a collection that belongs to one identity.
pub fn scoped_cursor_scope(collection: &str, identity: &str) -> (scope: String)
    ensures
        scope@ == scoped_scope(collection@, identity@),
{
    join3(collection, ":", hex16(hash_bytes(identity.as_bytes())).as_str())
}

/// A cursor is written exactly for an ASCII scope of 1 to 64 bytes and a tie breaker of 1 to
/// 191 bytes.
pub proof fn law_cursors_are_refused_only_for_a_reason(scope: Seq<char>, tie_breaker: Seq<char>)
    ensures
        encode_error(scope, tie_breaker) is None <==> {
            &&& 1 <= text::utf8_len(scope) <= 64
            &&& vstd::utf8::is_ascii_chars(scope)
            &&& 1 <= text::utf8_len(tie_breaker) <= 191
        },
{
}

/// A cursor that is accepted has 1 to 512 bytes, is base64 of a JSON payload of the first
/// version, and names the collection that it is used for; what is read is the position that
/// the payload holds.
pub proof fn law_accepted_cursor_belongs_to_its_collection(scope: Seq<char>, cursor: Seq<char>)
    ensures
        decoded_cursor(scope, cursor) matches Ok(position) ==> {
            &&& 1 <= text::utf8_len(cursor) <= 512
            &&& base64_bytes(cursor) matches Some(bytes)
            &&& read_payload(json::parsed_json(bytes), json::separators(bytes)) matches Some(payload)
            &&& payload.version == 1
            &&& payload.scope == scope
            &&& payload.position == position
            &&& 1 <= text::utf8_len(position.tie_breaker) <= 191
        },
{
}

/// A payload is read from the members of an object by their names, whatever their order, or
/// from the items of an array by their places, and from nothing else.
pub proof fn law_payload_is_read_by_name(
    members: Map<Seq<char>, ScalarModel>,
    commas: nat,
    items: Seq<ScalarModel>,
)
    ensures
        read_payload(Ok(ShapeModel::Object(members)), commas) matches Some(payload) ==> {
            &&& members.dom().len() == 4
            &&& commas == 3
            &&& members.contains_pair("version"@, ScalarModel::Integer(payload.version))
            &&& members.contains_pair("scope"@, ScalarModel::Text(payload.scope))
            &&& members.contains_pair(
                "timestamp"@,
                ScalarModel::Integer(payload.position.timestamp as int),
            )
            &&& members.contains_pair(
                "tie_breaker"@,
                ScalarModel::Text(payload.position.tie_breaker),
            )
        },
        read_payload(Ok(ShapeModel::Array(items)), commas) matches Some(payload) ==> items == seq![
            ScalarModel::Integer(payload.version),
            ScalarModel::Text(payload.scope),
            ScalarModel::Integer(payload.position.timestamp as int),
            ScalarModel::Text(payload.position.tie_breaker),
        ],
{
}

} // verus!
