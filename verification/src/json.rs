//! JSON texts: string literals, flat objects, and the reading of flat values.
use vstd::prelude::*;
use crate::numerals;
use crate::numerals::decimal_i64;
use crate::text;
use crate::text::same_text;

verus! {

/// How a character stands inside a JSON string literal.
pub open spec fn json_escape(c: char) -> Seq<char> {
    if c == '"' {
        seq!['\\', '"']
    } else if c == '\\' {
        seq!['\\', '\\']
    } else if c == '\u{8}' {
        seq!['\\', 'b']
    } else if c == '\u{9}' {
        seq!['\\', 't']
    } else if c == '\u{a}' {
        seq!['\\', 'n']
    } else if c == '\u{c}' {
        seq!['\\', 'f']
    } else if c == '\u{d}' {
        seq!['\\', 'r']
    } else if 0x20 > c as u32 {
        seq!['\\', 'u', '0', '0'] + numerals::hex_digits(c as nat, 2)
    } else {
        seq![c]
    }
}

/// The characters of a JSON string literal between its quotes.
pub open spec fn json_escaped(s: Seq<char>) -> Seq<char>
    decreases s.len(),
{
    if s.len() == 0 {
        Seq::empty()
    } else {
        json_escaped(s.drop_last()) + json_escape(s.last())
    }
}

/// The JSON string literal of a text.
pub open spec fn json_literal(s: Seq<char>) -> Seq<char> {
    seq!['"'] + json_escaped(s) + seq!['"']
}

/// Calls `serde_json::to_string` on a text: gives its JSON string literal, in
/// which quotes, backslashes and control characters are escaped and every other
/// character stands for itself.
#[verifier::external_body]
pub(crate) fn literal(s: &str) -> (quoted: String)
    ensures
        quoted@ == json_literal(s@),
{
    serde_json::to_string(s).expect("a text is always serializable")
}

/// A value inside a flat JSON object or array.
#[derive(Debug)]
pub enum JsonScalar {
    Integer(i128),
    Text(String),
    /// Any value that is neither an integer nor a text.
    Other,
}

/// The mathematical content of a [`JsonScalar`].
#[verifier::ext_equal]
pub enum ScalarModel {
    Integer(int),
    Text(Seq<char>),
    Other,
}

impl View for JsonScalar {
    type V = ScalarModel;

    open spec fn view(&self) -> ScalarModel {
        match *self {
            JsonScalar::Integer(value) => ScalarModel::Integer(value as int),
            JsonScalar::Text(value) => ScalarModel::Text(value@),
            JsonScalar::Other => ScalarModel::Other,
        }
    }
}

/// A JSON value as far as its members are flat.
#[derive(Debug)]
pub enum JsonShape {
    Object(Vec<(String, JsonScalar)>),
    Array(Vec<JsonScalar>),
    /// Any value that is neither an object nor an array.
    Other,
}

/// The mathematical content of a [`JsonShape`]: the members of an object by
/// name, or the items of an array.
pub enum ShapeModel {
    Object(Map<Seq<char>, ScalarModel>),
    Array(Seq<ScalarModel>),
    Other,
}

/// The members of an object by name.
pub open spec fn member_map(members: Seq<(Seq<char>, ScalarModel)>) -> Map<Seq<char>, ScalarModel>
    decreases members.len(),
{
    if members.len() == 0 {
        Map::empty()
    } else {
        member_map(members.drop_last()).insert(members.last().0, members.last().1)
    }
}

/// The views of the members of an object.
pub open spec fn member_views(members: Seq<(String, JsonScalar)>) -> Seq<(Seq<char>, ScalarModel)> {
    members.map_values(|member: (String, JsonScalar)| (member.0@, member.1@))
}

impl View for JsonShape {
    type V = ShapeModel;

    open spec fn view(&self) -> ShapeModel {
        match *self {
            JsonShape::Object(members) => ShapeModel::Object(member_map(member_views(members@))),
            JsonShape::Array(items) => ShapeModel::Array(
                items@.map_values(|item: JsonScalar| item@),
            ),
            JsonShape::Other => ShapeModel::Other,
        }
    }
}

/// Whether no name occurs twice.
pub open spec fn distinct_names(members: Seq<(Seq<char>, ScalarModel)>) -> bool {
    forall|i: int, j: int|
        #![trigger members[i], members[j]]
        0 <= i < j < members.len() ==> members[i].0 != members[j].0
}

/// Whether every value is a text or a signed 64-bit integer.
pub open spec fn writable(members: Seq<(Seq<char>, ScalarModel)>) -> bool {
    forall|i: int|
        0 <= i < members.len() ==> match (#[trigger] members[i]).1 {
            ScalarModel::Integer(value) => i64::MIN <= value <= i64::MAX,
            ScalarModel::Text(_) => true,
            ScalarModel::Other => false,
        }
}

/// The JSON text of an integer or a text.
pub open spec fn scalar_text(value: ScalarModel) -> Seq<char> {
    match value {
        ScalarModel::Integer(number) => numerals::decimal(number),
        ScalarModel::Text(s) => json_literal(s),
        ScalarModel::Other => "null"@,
    }
}

/// The JSON text of one member of an object.
pub open spec fn member_text(member: (Seq<char>, ScalarModel)) -> Seq<char> {
    json_literal(member.0) + seq![':'] + scalar_text(member.1)
}

/// The members of an object, separated by commas.
pub open spec fn members_text(members: Seq<(Seq<char>, ScalarModel)>) -> Seq<char>
    decreases members.len(),
{
    if members.len() == 0 {
        Seq::empty()
    } else if members.len() == 1 {
        member_text(members[0])
    } else {
        members_text(members.drop_last()) + seq![','] + member_text(members.last())
    }
}

/// The JSON text of an object with the given members, in their order.
pub open spec fn object_text(members: Seq<(Seq<char>, ScalarModel)>) -> Seq<char> {
    seq!['{'] + members_text(members) + seq!['}']
}

/// What a JSON text reads as: its shape, or the text of the refusal.
pub uninterp spec fn parsed_json(bytes: Seq<u8>) -> Result<ShapeModel, Seq<char>>;

/// The model of what was read.
pub open spec fn reading_model(reading: Result<JsonShape, String>) -> Result<
    ShapeModel,
    Seq<char>,
> {
    match reading {
        Ok(shape) => Ok(shape@),
        Err(refusal) => Err(refusal@),
    }
}

/// Whether a flat object of texts and 64-bit integers reads as its members.
pub open spec fn reads_what_was_written(
    bytes: Seq<u8>,
    reading: Result<ShapeModel, Seq<char>>,
) -> bool {
    forall|members: Seq<(Seq<char>, ScalarModel)>|
        distinct_names(members) && writable(members) && bytes == vstd::utf8::encode_utf8(
            #[trigger] object_text(members),
        ) ==> reading == Ok::<ShapeModel, Seq<char>>(ShapeModel::Object(member_map(members)))
}

/// Whether no member of an object that was read has the name of another.
pub open spec fn names_members_once(reading: Result<JsonShape, String>) -> bool {
    match reading {
        Ok(JsonShape::Object(members)) => distinct_names(member_views(members@)),
        _ => true,
    }
}

/// Calls `serde_json::from_slice` for a `serde_json::Value`: what it reads is a
/// function of the bytes alone. A flat object of texts and 64-bit integers that
/// was written as [`object_text`] says reads as the members that were written.
/// Of a name that occurs twice the last value is kept.
#[verifier::external_body]
pub(crate) fn parse_json(bytes: &[u8]) -> (reading: Result<JsonShape, String>)
    ensures
        reading_model(reading) == parsed_json(bytes@),
        reads_what_was_written(bytes@, reading_model(reading)),
        names_members_once(reading),
{
    let scalar = |value: serde_json::Value| match value {
        serde_json::Value::String(text) => JsonScalar::Text(text),
        serde_json::Value::Number(n) => n.as_i128().map_or(JsonScalar::Other, JsonScalar::Integer),
        _ => JsonScalar::Other,
    };
    match serde_json::from_slice(bytes) {
        Ok(serde_json::Value::Object(map)) => Ok(
            JsonShape::Object(map.into_iter().map(|(name, value)| (name, scalar(value))).collect()),
        ),
        Ok(serde_json::Value::Array(items)) => Ok(JsonShape::Array(items.into_iter().map(scalar).collect())),
        Ok(_) => Ok(JsonShape::Other),
        Err(error) => Err(error.to_string()),
    }
}

proof fn lemma_member_map(members: Seq<(Seq<char>, ScalarModel)>)
    requires
        distinct_names(members),
    ensures
        forall|i: int|
            #![trigger members[i]]
            0 <= i < members.len() ==> member_map(members).contains_key(members[i].0)
                && member_map(members)[members[i].0] == members[i].1,
        forall|name: Seq<char>| #[trigger]
            member_map(members).contains_key(name) ==> exists|i: int|
                0 <= i < members.len() && (#[trigger] members[i]).0 == name,
        member_map(members).dom().finite(),
        member_map(members).dom().len() == members.len(),
    decreases members.len(),
{
    if members.len() > 0 {
        let shorter = members.drop_last();
        let last = members.last();
        assert forall|i: int, j: int|
            #![trigger shorter[i], shorter[j]]
            0 <= i < j < shorter.len() implies shorter[i].0 != shorter[j].0 by {
            assert(shorter[i] == members[i] && shorter[j] == members[j]);
        }
        lemma_member_map(shorter);
        assert(!member_map(shorter).contains_key(last.0)) by {
            if member_map(shorter).contains_key(last.0) {
                let i = choose|i: int| 0 <= i < shorter.len() && (#[trigger] shorter[i]).0 == last.0;
                assert(members[i] == shorter[i]);
                assert(members[members.len() - 1] == last);
            }
        }
        assert forall|i: int|
            #![trigger members[i]]
            0 <= i < members.len() implies member_map(members).contains_key(members[i].0)
            && member_map(members)[members[i].0] == members[i].1 by {
            if i < shorter.len() {
                assert(shorter[i] == members[i]);
                assert(members[members.len() - 1] == last);
            }
        }
        assert forall|name: Seq<char>| #[trigger]
            member_map(members).contains_key(name) implies exists|i: int|
            0 <= i < members.len() && (#[trigger] members[i]).0 == name by {
            if name == last.0 {
                assert(members[members.len() - 1].0 == name);
            } else {
                assert(member_map(shorter).contains_key(name));
                let i = choose|i: int| 0 <= i < shorter.len() && (#[trigger] shorter[i]).0 == name;
                assert(members[i].0 == name);
            }
        }
        assert(member_map(members).dom() =~= member_map(shorter).dom().insert(last.0));
    }
}

/// The number of members of an object whose names differ.
pub proof fn lemma_member_count(members: Seq<(Seq<char>, ScalarModel)>)
    requires
        distinct_names(members),
    ensures
        member_map(members).dom().finite(),
        member_map(members).dom().len() == members.len(),
{
    lemma_member_map(members);
}

/// Each member of an object whose names differ has its value under its name.
pub proof fn lemma_member_values(members: Seq<(Seq<char>, ScalarModel)>)
    requires
        distinct_names(members),
    ensures
        forall|i: int|
            #![trigger members[i]]
            0 <= i < members.len() ==> member_map(members).contains_key(members[i].0)
                && member_map(members)[members[i].0] == members[i].1,
        member_map(members).dom().len() == members.len(),
{
    lemma_member_map(members);
}

/// The member of an object with the given name.
pub fn find_member<'a>(members: &'a Vec<(String, JsonScalar)>, name: &str) -> (found: Option<
    &'a JsonScalar,
>)
    requires
        distinct_names(member_views(members@)),
    ensures
        match found {
            Some(value) => member_map(member_views(members@)).contains_key(name@) && value@
                == member_map(member_views(members@))[name@],
            None => !member_map(member_views(members@)).contains_key(name@),
        },
{
    let ghost views = member_views(members@);
    proof {
        lemma_member_map(views);
    }
    let mut i: usize = 0;
    while i < members.len()
        invariant
            i <= members@.len(),
            views == member_views(members@),
            distinct_names(views),
            forall|j: int| 0 <= j < i ==> (#[trigger] views[j]).0 != name@,
        decreases members@.len() - i,
    {
        assert(views[i as int] == (members@[i as int].0@, members@[i as int].1@));
        if same_text(members[i].0.as_str(), name) {
            proof {
                lemma_member_map(views);
            }
            return Some(&members[i].1);
        }
        i = i + 1;
    }
    None
}

/// Where a scan of a JSON text stands: inside a string literal, behind a
/// backslash, and how many commas it met outside string literals.
pub struct ScanState {
    pub in_string: bool,
    pub escaped: bool,
    pub commas: nat,
}

/// The state of the scan behind one more byte.
pub open spec fn scan_step(state: ScanState, byte: u8) -> ScanState {
    if state.in_string {
        if state.escaped {
            ScanState { escaped: false, ..state }
        } else if byte == 0x5c {
            ScanState { escaped: true, ..state }
        } else if byte == 0x22 {
            ScanState { in_string: false, ..state }
        } else {
            state
        }
    } else if byte == 0x22 {
        ScanState { in_string: true, ..state }
    } else if byte == 0x2c {
        ScanState { commas: state.commas + 1, ..state }
    } else {
        state
    }
}

/// The state of the scan behind some bytes.
pub open spec fn scan(state: ScanState, bytes: Seq<u8>) -> ScanState
    decreases bytes.len(),
{
    if bytes.len() == 0 {
        state
    } else {
        scan_step(scan(state, bytes.drop_last()), bytes.last())
    }
}

/// The state at the start of a text.
pub open spec fn scan_start() -> ScanState {
    ScanState { in_string: false, escaped: false, commas: 0 }
}

/// The number of commas outside string literals.
pub open spec fn separators(bytes: Seq<u8>) -> nat {
    scan(scan_start(), bytes).commas
}

/// The number of commas outside string literals.
pub fn count_separators(bytes: &[u8]) -> (commas: usize)
    ensures
        commas == separators(bytes@),
{
    let mut in_string = false;
    let mut escaped = false;
    let mut commas: usize = 0;
    let mut i: usize = 0;
    assert(bytes@.take(0) =~= Seq::<u8>::empty());
    while i < bytes.len()
        invariant
            i <= bytes@.len(),
            commas <= i,
            scan(scan_start(), bytes@.take(i as int)) == (ScanState {
                in_string,
                escaped,
                commas: commas as nat,
            }),
        decreases bytes@.len() - i,
    {
        let byte: u8 = bytes[i];
        assert(bytes@.take(i as int + 1).drop_last() =~= bytes@.take(i as int));
        if in_string {
            if escaped {
                escaped = false;
            } else if byte == 0x5c {
                escaped = true;
            } else if byte == 0x22 {
                in_string = false;
            }
        } else if byte == 0x22 {
            in_string = true;
        } else if byte == 0x2c {
            commas = commas + 1;
        }
        i = i + 1;
    }
    assert(bytes@.take(i as int) =~= bytes@);
    commas
}

proof fn lemma_scan_concat(state: ScanState, a: Seq<u8>, b: Seq<u8>)
    ensures
        scan(state, a + b) == scan(scan(state, a), b),
    decreases b.len(),
{
    if b.len() == 0 {
        assert(a + b =~= a);
    } else {
        lemma_scan_concat(state, a, b.drop_last());
        assert((a + b).drop_last() =~= a + b.drop_last());
    }
}

spec fn scan_chars(state: ScanState, s: Seq<char>) -> ScanState {
    scan(state, vstd::utf8::encode_utf8(s))
}

proof fn lemma_scan_chars_concat(state: ScanState, a: Seq<char>, b: Seq<char>)
    ensures
        scan_chars(state, a + b) == scan_chars(scan_chars(state, a), b),
{
    text::lemma_encode_concat(a, b);
    lemma_scan_concat(state, vstd::utf8::encode_utf8(a), vstd::utf8::encode_utf8(b));
}

proof fn lemma_wide_bytes(c: char)
    requires
        c as u32 >= 0x80,
    ensures
        forall|i: int|
            0 <= i < vstd::utf8::encode_scalar(c as u32).len() ==> #[trigger]
                vstd::utf8::encode_scalar(c as u32)[i] >= 0x80,
{
    let v = c as u32;
    assert((0xC0 | ((v >> 6) & 0x1F) as u8) >= 0x80u8) by (bit_vector);
    assert((0xE0 | ((v >> 12) & 0x0F) as u8) >= 0x80u8) by (bit_vector);
    assert((0xF0 | ((v >> 18) & 0x07) as u8) >= 0x80u8) by (bit_vector);
    assert((0x80 | (v & 0x3F) as u8) >= 0x80u8) by (bit_vector);
    assert((0x80 | ((v >> 6) & 0x3F) as u8) >= 0x80u8) by (bit_vector);
    assert((0x80 | ((v >> 12) & 0x3F) as u8) >= 0x80u8) by (bit_vector);
}

proof fn lemma_scan_plain_bytes(state: ScanState, bytes: Seq<u8>)
    requires
        state.in_string,
        !state.escaped,
        forall|i: int| 0 <= i < bytes.len() ==> #[trigger] bytes[i] >= 0x80,
    ensures
        scan(state, bytes) == state,
    decreases bytes.len(),
{
    if bytes.len() > 0 {
        assert(bytes.last() >= 0x80) by {
            assert(bytes[bytes.len() - 1] >= 0x80);
        }
        assert forall|i: int| 0 <= i < bytes.drop_last().len() implies #[trigger] bytes.drop_last()[i]
            >= 0x80 by {
            assert(bytes[i] >= 0x80);
        }
        lemma_scan_plain_bytes(state, bytes.drop_last());
    }
}

proof fn lemma_scan_ascii(state: ScanState, c: char)
    requires
        0x80 > c as u32,
    ensures
        scan_chars(state, seq![c]) == scan_step(state, c as u8),
{
    let s = seq![c];
    let v = c as u32;
    assert(vstd::utf8::is_ascii_chars(s));
    vstd::utf8::is_ascii_chars_encode_utf8(s);
    let bytes = vstd::utf8::encode_utf8(s);
    assert(bytes.len() == 1 && bytes[0] == s[0] as u8);
    assert(bytes.drop_last() =~= Seq::<u8>::empty());
    reveal_with_fuel(scan, 2);
}

proof fn lemma_scan_escape(state: ScanState, c: char)
    requires
        state.in_string,
        !state.escaped,
    ensures
        scan_chars(state, json_escape(c)) == state,
{
    if c as u32 >= 0x80 {
        let s = seq![c];
        assert(json_escape(c) =~= s);
        reveal_with_fuel(vstd::utf8::encode_utf8, 2);
        assert(s.drop_first() =~= Seq::<char>::empty());
        assert(vstd::utf8::encode_utf8(s) =~= vstd::utf8::encode_scalar(c as u32));
        lemma_wide_bytes(c);
        lemma_scan_plain_bytes(state, vstd::utf8::encode_scalar(c as u32));
    } else if c == '"' || c == '\\' || c == '\u{8}' || c == '\u{9}' || c == '\u{a}' || c == '\u{c}'
        || c == '\u{d}' {
        let pair = json_escape(c);
        let first = seq![pair[0]];
        let second = seq![pair[1]];
        assert(pair =~= first + second);
        lemma_scan_chars_concat(state, first, second);
        lemma_scan_ascii(state, pair[0]);
        lemma_scan_ascii(scan_step(state, 0x5c), pair[1]);
    } else if 0x20 > c as u32 {
        let n = c as nat;
        let high = numerals::hex_char((n / 16 % 16) as int);
        let low = numerals::hex_char((n % 16) as int);
        reveal_with_fuel(numerals::hex_digits, 3);
        assert(numerals::hex_digits(n, 2) =~= seq![high, low]);
        let head = seq!['\\'];
        let rest = seq!['u', '0', '0', high, low];
        assert(json_escape(c) =~= head + rest);
        lemma_scan_chars_concat(state, head, rest);
        lemma_scan_ascii(state, '\\');
        let behind = scan_step(state, 0x5c);
        let u = seq!['u'];
        let tail = seq!['0', '0', high, low];
        assert(rest =~= u + tail);
        lemma_scan_chars_concat(behind, u, tail);
        lemma_scan_ascii(behind, 'u');
        lemma_scan_quiet(state, tail);
    } else {
        assert(json_escape(c) =~= seq![c]);
        lemma_scan_ascii(state, c);
    }
}

/// Whether a character changes nothing in a scan, inside or outside a literal.
spec fn quiet(c: char) -> bool {
    0x80 > c as u32 && c != '"' && c != '\\' && c != ','
}

proof fn lemma_scan_quiet_char(state: ScanState, c: char)
    requires
        !state.escaped,
        quiet(c),
    ensures
        scan_chars(state, seq![c]) == state,
{
    lemma_scan_ascii(state, c);
}

proof fn lemma_scan_quiet(state: ScanState, s: Seq<char>)
    requires
        !state.escaped,
        forall|i: int| 0 <= i < s.len() ==> quiet(#[trigger] s[i]),
    ensures
        scan_chars(state, s) == state,
    decreases s.len(),
{
    if s.len() == 0 {
        assert(vstd::utf8::encode_utf8(s) =~= Seq::<u8>::empty());
    } else {
        let shorter = s.drop_last();
        let last = seq![s.last()];
        assert(s =~= shorter + last);
        assert(quiet(s[s.len() - 1]));
        assert forall|i: int| 0 <= i < shorter.len() implies quiet(#[trigger] shorter[i]) by {
            assert(quiet(s[i]));
        }
        lemma_scan_quiet(state, shorter);
        lemma_scan_chars_concat(state, shorter, last);
        lemma_scan_quiet_char(state, s.last());
    }
}

proof fn lemma_scan_escaped(state: ScanState, s: Seq<char>)
    requires
        state.in_string,
        !state.escaped,
    ensures
        scan_chars(state, json_escaped(s)) == state,
    decreases s.len(),
{
    if s.len() == 0 {
        assert(vstd::utf8::encode_utf8(json_escaped(s)) =~= Seq::<u8>::empty());
    } else {
        lemma_scan_escaped(state, s.drop_last());
        lemma_scan_escape(state, s.last());
        lemma_scan_chars_concat(state, json_escaped(s.drop_last()), json_escape(s.last()));
    }
}

proof fn lemma_scan_literal(state: ScanState, s: Seq<char>)
    requires
        !state.in_string,
        !state.escaped,
    ensures
        scan_chars(state, json_literal(s)) == state,
{
    let quote = seq!['"'];
    let inside = ScanState { in_string: true, ..state };
    lemma_scan_ascii(state, '"');
    lemma_scan_chars_concat(state, quote, json_escaped(s));
    lemma_scan_escaped(inside, s);
    lemma_scan_chars_concat(state, quote + json_escaped(s), quote);
    lemma_scan_ascii(inside, '"');
}

proof fn lemma_scan_member(state: ScanState, member: (Seq<char>, ScalarModel))
    requires
        !state.in_string,
        !state.escaped,
        member.1 !is Other,
    ensures
        scan_chars(state, member_text(member)) == state,
{
    let name = json_literal(member.0);
    let colon = seq![':'];
    lemma_scan_literal(state, member.0);
    lemma_scan_chars_concat(state, name, colon);
    lemma_scan_ascii(state, ':');
    lemma_scan_chars_concat(state, name + colon, scalar_text(member.1));
    match member.1 {
        ScalarModel::Integer(value) => {
            numerals::lemma_decimal_chars(value);
            lemma_scan_quiet(state, numerals::decimal(value));
        },
        ScalarModel::Text(s) => {
            lemma_scan_literal(state, s);
        },
        ScalarModel::Other => {},
    }
}

proof fn lemma_scan_members(state: ScanState, members: Seq<(Seq<char>, ScalarModel)>)
    requires
        !state.in_string,
        !state.escaped,
        writable(members),
        members.len() > 0,
    ensures
        scan_chars(state, members_text(members)) == (ScanState {
            commas: (state.commas + members.len() - 1) as nat,
            ..state
        }),
    decreases members.len(),
{
    if members.len() == 1 {
        assert(members[0].1 !is Other);
        lemma_scan_member(state, members[0]);
    } else {
        let shorter = members.drop_last();
        assert forall|i: int| 0 <= i < shorter.len() implies match (#[trigger] shorter[i]).1 {
            ScalarModel::Integer(value) => i64::MIN <= value <= i64::MAX,
            ScalarModel::Text(_) => true,
            ScalarModel::Other => false,
        } by {
            assert(shorter[i] == members[i]);
        }
        lemma_scan_members(state, shorter);
        let comma = seq![','];
        let before = members_text(shorter);
        let between = scan_chars(state, before);
        lemma_scan_chars_concat(state, before, comma);
        lemma_scan_ascii(between, ',');
        let behind = ScanState { commas: between.commas + 1, ..between };
        assert(members[members.len() - 1].1 !is Other);
        lemma_scan_member(behind, members.last());
        lemma_scan_chars_concat(state, before + comma, member_text(members.last()));
    }
}

/// An object that was written holds one comma less than it has members outside
/// its string literals.
pub proof fn lemma_written_separators(members: Seq<(Seq<char>, ScalarModel)>)
    requires
        writable(members),
        members.len() > 0,
    ensures
        separators(vstd::utf8::encode_utf8(object_text(members))) == members.len() - 1,
{
    let open = seq!['{'];
    let close = seq!['}'];
    let body = members_text(members);
    lemma_scan_ascii(scan_start(), '{');
    lemma_scan_chars_concat(scan_start(), open, body);
    lemma_scan_members(scan_start(), members);
    lemma_scan_chars_concat(scan_start(), open + body, close);
    lemma_scan_ascii(scan_chars(scan_start(), body), '}');
}

proof fn lemma_escape_length(c: char)
    ensures
        text::utf8_len(json_escape(c)) <= 6,
{
    let escape = json_escape(c);
    if c as u32 >= 0x80 {
        assert(escape =~= seq![c]);
        reveal_with_fuel(vstd::utf8::encode_utf8, 2);
        assert(escape.drop_first() =~= Seq::<char>::empty());
        assert(vstd::utf8::encode_utf8(escape) =~= vstd::utf8::encode_scalar(c as u32));
    } else {
        if 0x20 > c as u32 {
            reveal_with_fuel(numerals::hex_digits, 3);
        }
        assert(escape.len() <= 6);
        assert(vstd::utf8::is_ascii_chars(escape));
        vstd::utf8::is_ascii_chars_encode_utf8(escape);
    }
}

proof fn lemma_escaped_length(s: Seq<char>)
    ensures
        text::utf8_len(json_escaped(s)) <= 6 * s.len(),
    decreases s.len(),
{
    if s.len() > 0 {
        lemma_escaped_length(s.drop_last());
        lemma_escape_length(s.last());
        text::lemma_utf8_len_concat(json_escaped(s.drop_last()), json_escape(s.last()));
    } else {
        assert(vstd::utf8::encode_utf8(json_escaped(s)) =~= Seq::<u8>::empty());
    }
}

proof fn lemma_ascii_char_length(c: char)
    requires
        0x80 > c as u32,
    ensures
        text::utf8_len(seq![c]) == 1,
{
    assert(vstd::utf8::is_ascii_chars(seq![c]));
    vstd::utf8::is_ascii_chars_encode_utf8(seq![c]);
}

proof fn lemma_literal_length(s: Seq<char>)
    ensures
        text::utf8_len(json_literal(s)) <= 6 * text::utf8_len(s) + 2,
{
    lemma_escaped_length(s);
    text::lemma_char_count(s);
    lemma_ascii_char_length('"');
    text::lemma_utf8_len_concat(seq!['"'], json_escaped(s));
    text::lemma_utf8_len_concat(seq!['"'] + json_escaped(s), seq!['"']);
}

/// A member is hardly longer than its name and value.
pub proof fn lemma_member_length(member: (Seq<char>, ScalarModel))
    requires
        member.1 matches ScalarModel::Integer(value) ==> i64::MIN <= value <= i64::MAX,
    ensures
        text::utf8_len(member_text(member)) <= 6 * text::utf8_len(member.0) + 3 + (match member.1 {
            ScalarModel::Text(s) => 6 * text::utf8_len(s) + 2,
            _ => 20,
        }),
{
    let name = json_literal(member.0);
    lemma_literal_length(member.0);
    lemma_ascii_char_length(':');
    text::lemma_utf8_len_concat(name, seq![':']);
    text::lemma_utf8_len_concat(name + seq![':'], scalar_text(member.1));
    match member.1 {
        ScalarModel::Integer(value) => {
            numerals::lemma_decimal_length(value);
            numerals::lemma_decimal_chars(value);
            vstd::utf8::is_ascii_chars_encode_utf8(numerals::decimal(value));
        },
        ScalarModel::Text(s) => {
            lemma_literal_length(s);
        },
        ScalarModel::Other => {
            reveal_strlit("null");
            vstd::utf8::is_ascii_chars_encode_utf8("null"@);
        },
    }
}

/// Two texts that are joined by a comma take one byte more.
pub proof fn lemma_joined_length(a: Seq<char>, b: Seq<char>)
    ensures
        text::utf8_len(a + seq![','] + b) == text::utf8_len(a) + 1 + text::utf8_len(b),
{
    lemma_ascii_char_length(',');
    text::lemma_utf8_len_concat(a, seq![',']);
    text::lemma_utf8_len_concat(a + seq![','], b);
}

/// An object takes two bytes more than its members.
pub proof fn lemma_object_length(members: Seq<(Seq<char>, ScalarModel)>)
    ensures
        text::utf8_len(object_text(members)) == text::utf8_len(members_text(members)) + 2,
{
    lemma_ascii_char_length('{');
    lemma_ascii_char_length('}');
    text::lemma_utf8_len_concat(seq!['{'], members_text(members));
    text::lemma_utf8_len_concat(seq!['{'] + members_text(members), seq!['}']);
}

/// Whether every character of a text is printable ASCII and stands for itself
/// inside a JSON string literal.
pub open spec fn is_plain(s: Seq<char>) -> bool {
    forall|i: int|
        0 <= i < s.len() ==> ' ' <= #[trigger] s[i] <= '~' && s[i] != '"' && s[i] != '\\'
}

proof fn lemma_plain_literal_length(s: Seq<char>)
    requires
        is_plain(s),
    ensures
        text::utf8_len(json_literal(s)) == s.len() + 2,
{
    lemma_plain_escaped(s);
    let literal = json_literal(s);
    assert(vstd::utf8::is_ascii_chars(literal));
    vstd::utf8::is_ascii_chars_encode_utf8(literal);
}

proof fn lemma_plain_escaped(s: Seq<char>)
    requires
        is_plain(s),
    ensures
        json_escaped(s) == s,
    decreases s.len(),
{
    if s.len() > 0 {
        let front = s.drop_last();
        assert(is_plain(front)) by {
            assert forall|i: int| 0 <= i < front.len() implies ' ' <= #[trigger] front[i] <= '~'
                && front[i] != '"' && front[i] != '\\' by {
                assert(front[i] == s[i]);
            }
        }
        lemma_plain_escaped(front);
        assert(' ' <= s[s.len() - 1] <= '~');
        assert(json_escape(s.last()) =~= seq![s.last()]);
        assert(front + seq![s.last()] =~= s);
    } else {
        assert(json_escaped(s) =~= s);
    }
}

/// A member with a plain name and a plain text, or an integer, is as long as both
/// with their quotes and the colon.
pub proof fn lemma_plain_member_length(member: (Seq<char>, ScalarModel))
    requires
        is_plain(member.0),
        match member.1 {
            ScalarModel::Text(s) => is_plain(s),
            ScalarModel::Integer(value) => i64::MIN <= value <= i64::MAX,
            ScalarModel::Other => false,
        },
    ensures
        text::utf8_len(member_text(member)) <= member.0.len() + 3 + (match member.1 {
            ScalarModel::Text(s) => s.len() + 2,
            _ => 20,
        }),
{
    let name = json_literal(member.0);
    lemma_plain_literal_length(member.0);
    lemma_ascii_char_length(':');
    text::lemma_utf8_len_concat(name, seq![':']);
    text::lemma_utf8_len_concat(name + seq![':'], scalar_text(member.1));
    match member.1 {
        ScalarModel::Integer(value) => {
            numerals::lemma_decimal_length(value);
            numerals::lemma_decimal_chars(value);
            vstd::utf8::is_ascii_chars_encode_utf8(numerals::decimal(value));
        },
        ScalarModel::Text(s) => {
            lemma_plain_literal_length(s);
        },
        ScalarModel::Other => {},
    }
}

/// The text of a member whose value is a text.
pub fn text_member(name: &str, value: &str) -> (s: String)
    ensures
        s@ == member_text((name@, ScalarModel::Text(value@))),
{
    let mut s = literal(name);
    s.push(':');
    s.append(literal(value).as_str());
    assert(s@ =~= member_text((name@, ScalarModel::Text(value@))));
    s
}

/// The text of a member whose value is an integer.
pub fn integer_member(name: &str, value: i64) -> (s: String)
    ensures
        s@ == member_text((name@, ScalarModel::Integer(value as int))),
{
    let mut s = literal(name);
    s.push(':');
    s.append(decimal_i64(value).as_str());
    assert(s@ =~= member_text((name@, ScalarModel::Integer(value as int))));
    s
}

/// Whether a text is valid JSON; otherwise the text of the refusal.
pub fn check_json(raw: &str) -> (result: Result<(), String>)
    ensures
        match result {
            Ok(()) => parsed_json(vstd::utf8::encode_utf8(raw@)) is Ok,
            Err(refusal) => parsed_json(vstd::utf8::encode_utf8(raw@)) == Err::<
                ShapeModel,
                Seq<char>,
            >(refusal@),
        },
{
    match parse_json(raw.as_bytes()) {
        Ok(_) => Ok(()),
        Err(refusal) => Err(refusal),
    }
}

proof fn lemma_escaped_from_front(s: Seq<char>)
    requires
        s.len() > 0,
    ensures
        json_escaped(s) == json_escape(s[0]) + json_escaped(s.drop_first()),
    decreases s.len(),
{
    let rest = s.drop_first();
    if s.len() == 1 {
        assert(s.drop_last() =~= Seq::<char>::empty());
        assert(rest =~= Seq::<char>::empty());
        assert(json_escaped(s.drop_last()) =~= Seq::<char>::empty());
        assert(json_escaped(s) =~= json_escape(s[0]) + json_escaped(rest));
    } else {
        lemma_escaped_from_front(s.drop_last());
        assert(s.drop_last().drop_first() =~= rest.drop_last());
        assert(json_escaped(s) =~= json_escape(s[0]) + json_escaped(rest));
    }
}

proof fn lemma_escape_starts(c: char)
    ensures
        json_escape(c).len() > 0,
        json_escape(c)[0] != '"',
        json_escape(c).len() == 1 ==> json_escape(c) == seq![c] && c != '\\' && c != '"',
        json_escape(c).len() != 1 ==> json_escape(c)[0] == '\\' && json_escape(c).len() >= 2,
        json_escape(c).len() > 2 ==> json_escape(c).len() == 6 && json_escape(c)[1] == 'u'
            && 0x20 > c as u32 && json_escape(c)[4] == numerals::hex_char((c as int) / 16)
            && json_escape(c)[5] == numerals::hex_char((c as int) % 16),
        json_escape(c).len() == 2 ==> json_escape(c)[1] != 'u',
{
    numerals::lemma_hex_digits(c as nat, 2);
    reveal_with_fuel(numerals::hex_digits, 3);
}

proof fn lemma_escape_ends(c: char, d: char, behind: Seq<char>, other_behind: Seq<char>)
    requires
        json_escape(c) + behind == json_escape(d) + other_behind,
    ensures
        c == d,
        behind == other_behind,
{
    let left = json_escape(c) + behind;
    let right = json_escape(d) + other_behind;
    lemma_escape_starts(c);
    lemma_escape_starts(d);
    assert(left[0] == json_escape(c)[0]);
    assert(right[0] == json_escape(d)[0]);
    if json_escape(c).len() != 1 && json_escape(d).len() != 1 {
        assert(left[1] == json_escape(c)[1]);
        assert(right[1] == json_escape(d)[1]);
        if json_escape(c).len() > 2 {
            assert(left[4] == json_escape(c)[4] && left[5] == json_escape(c)[5]);
            assert(right[4] == json_escape(d)[4] && right[5] == json_escape(d)[5]);
        }
    }
    assert(c == d);
    let k = json_escape(c).len() as int;
    assert(left.skip(k) =~= behind);
    assert(right.skip(k) =~= other_behind);
}

/// A JSON string literal stands for one text, and where it ends can be seen: two literals
/// with something behind them are the same only where the texts and what is behind them
/// are the same.
pub proof fn law_literals_stand_for_one_text(
    s: Seq<char>,
    t: Seq<char>,
    behind: Seq<char>,
    other_behind: Seq<char>,
)
    requires
        json_literal(s) + behind == json_literal(t) + other_behind,
    ensures
        s == t,
        behind == other_behind,
{
    let quote = seq!['"'];
    let left = json_literal(s) + behind;
    let right = json_literal(t) + other_behind;
    assert(left.drop_first() =~= json_escaped(s) + (quote + behind));
    assert(right.drop_first() =~= json_escaped(t) + (quote + other_behind));
    lemma_escaped_ends(s, t, behind, other_behind);
}

proof fn lemma_escaped_ends(
    s: Seq<char>,
    t: Seq<char>,
    behind: Seq<char>,
    other_behind: Seq<char>,
)
    requires
        json_escaped(s) + (seq!['"'] + behind) == json_escaped(t) + (seq!['"'] + other_behind),
    ensures
        s == t,
        behind == other_behind,
    decreases s.len(),
{
    let quote = seq!['"'];
    let left = json_escaped(s) + (quote + behind);
    let right = json_escaped(t) + (quote + other_behind);
    if s.len() > 0 {
        lemma_escaped_from_front(s);
        lemma_escape_starts(s[0]);
        assert(left =~= json_escape(s[0]) + (json_escaped(s.drop_first()) + (quote + behind)));
        assert(left[0] == json_escape(s[0])[0]);
    } else {
        assert(left[0] == '"');
    }
    if t.len() > 0 {
        lemma_escaped_from_front(t);
        lemma_escape_starts(t[0]);
        assert(right =~= json_escape(t[0]) + (json_escaped(t.drop_first()) + (quote
            + other_behind)));
        assert(right[0] == json_escape(t[0])[0]);
    } else {
        assert(right[0] == '"');
    }
    if s.len() == 0 {
        assert(s =~= t);
        assert(left =~= quote + behind);
        assert(right =~= quote + other_behind);
        assert((quote + behind).drop_first() =~= behind);
        assert((quote + other_behind).drop_first() =~= other_behind);
    } else {
        lemma_escape_ends(
            s[0],
            t[0],
            json_escaped(s.drop_first()) + (quote + behind),
            json_escaped(t.drop_first()) + (quote + other_behind),
        );
        lemma_escaped_ends(s.drop_first(), t.drop_first(), behind, other_behind);
        assert(s =~= seq![s[0]] + s.drop_first());
        assert(t =~= seq![t[0]] + t.drop_first());
    }
}

/// The members of an object whose names differ are found by their names, and there are no
/// others.
pub proof fn law_members_are_found_by_name(members: Seq<(Seq<char>, ScalarModel)>, i: int)
    requires
        distinct_names(members),
        0 <= i < members.len(),
    ensures
        member_map(members).contains_pair(members[i].0, members[i].1),
        member_map(members).dom().len() == members.len(),
{
    lemma_member_values(members);
}

} // verus!
