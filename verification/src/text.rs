//! Character-level helpers over `&str` and `String`: equality, trimming,
//! UTF-8 length, truncation and the byte-wise order of text.
use vstd::prelude::*;

verus! {

/// `String::push` appends one character at the end of the text.
pub assume_specification[ String::push ](s: &mut String, c: char)
    ensures
        final(s)@ == old(s)@.push(c),
;

/// The view of an optional text.
pub open spec fn opt_text(value: Option<String>) -> Option<Seq<char>> {
    match value {
        Some(text) => Some(text@),
        None => None,
    }
}

/// The view of an optional borrowed text.
pub open spec fn opt_str(value: Option<&str>) -> Option<Seq<char>> {
    match value {
        Some(text) => Some(text@),
        None => None,
    }
}

/// The views of a sequence of texts.
pub open spec fn texts(values: Seq<String>) -> Seq<Seq<char>> {
    values.map_values(|value: String| value@)
}

/// Number of bytes of the UTF-8 encoding of `s`.
pub open spec fn utf8_len(s: Seq<char>) -> nat {
    vstd::utf8::encode_utf8(s).len()
}

/// The UTF-8 byte length of a text.
pub fn byte_len(s: &str) -> (len: usize)
    ensures
        len == utf8_len(s@),
{
    s.as_bytes().len()
}

/// The characters of a text, in order.
pub fn chars_of(s: &str) -> (chars: Vec<char>)
    ensures
        chars@ == s@,
{
    let mut chars: Vec<char> = Vec::new();
    for c in it: s.chars()
        invariant
            it.seq() == s@,
            chars@ == it.seq().take(it.index() as int),
    {
        chars.push(c);
        assert(chars@ =~= it.seq().take(it.index() as int + 1));
    }
    assert(chars@ =~= s@);
    chars
}

/// The text made of the characters `chars[from..to]`.
pub fn text_of(chars: &Vec<char>, from: usize, to: usize) -> (s: String)
    requires
        from <= to <= chars@.len(),
    ensures
        s@ == chars@.subrange(from as int, to as int),
{
    let mut s = String::new();
    let mut i: usize = from;
    while i < to
        invariant
            from <= i <= to <= chars@.len(),
            s@ == chars@.subrange(from as int, i as int),
        decreases to - i,
    {
        s.push(chars[i]);
        i = i + 1;
        assert(s@ =~= chars@.subrange(from as int, i as int));
    }
    s
}

proof fn lemma_encode_injective(a: Seq<char>, b: Seq<char>)
    requires
        vstd::utf8::encode_utf8(a) == vstd::utf8::encode_utf8(b),
    ensures
        a == b,
{
    vstd::utf8::encode_utf8_decode_utf8(a);
    vstd::utf8::encode_utf8_decode_utf8(b);
}

/// Whether two texts hold the same characters.
pub fn same_text(a: &str, b: &str) -> (same: bool)
    ensures
        same == (a@ == b@),
{
    let left = a.as_bytes();
    let right = b.as_bytes();
    if left.len() != right.len() {
        return false;
    }
    let mut i: usize = 0;
    while i < left.len()
        invariant
            i <= left@.len(),
            left@ == vstd::utf8::encode_utf8(a@),
            right@ == vstd::utf8::encode_utf8(b@),
            left@.len() == right@.len(),
            forall|j: int| 0 <= j < i ==> left@[j] == right@[j],
        decreases left@.len() - i,
    {
        if left[i] != right[i] {
            return false;
        }
        i = i + 1;
    }
    proof {
        assert(left@ =~= right@);
        lemma_encode_injective(a@, b@);
    }
    true
}

/// Whether an optional text is present and equal to `expected`.
pub fn is_some_text(value: &Option<String>, expected: &str) -> (same: bool)
    ensures
        same == (opt_text(*value) == Some(expected@)),
{
    match value {
        Some(text) => same_text(text.as_str(), expected),
        None => false,
    }
}

/// An owned copy of an optional borrowed text.
pub fn opt_owned(value: Option<&str>) -> (owned: Option<String>)
    ensures
        opt_text(owned) == opt_str(value),
{
    match value {
        Some(text) => Some(text.to_owned()),
        None => None,
    }
}

/// The concatenation of two texts.
pub fn join2(a: &str, b: &str) -> (s: String)
    ensures
        s@ == a@ + b@,
{
    let mut s = a.to_owned();
    s.append(b);
    s
}

/// The concatenation of three texts.
pub fn join3(a: &str, b: &str, c: &str) -> (s: String)
    ensures
        s@ == a@ + b@ + c@,
{
    let mut s = a.to_owned();
    s.append(b);
    s.append(c);
    s
}

/// The concatenation of five texts.
pub fn join5(a: &str, b: &str, c: &str, d: &str, e: &str) -> (s: String)
    ensures
        s@ == a@ + b@ + c@ + d@ + e@,
{
    let mut s = a.to_owned();
    s.append(b);
    s.append(c);
    s.append(d);
    s.append(e);
    s
}

/// The characters with the Unicode `White_Space` property.
pub open spec fn is_whitespace(c: char) -> bool {
    ||| '\u{9}' <= c <= '\u{d}'
    ||| c == ' '
    ||| c == '\u{85}'
    ||| c == '\u{a0}'
    ||| c == '\u{1680}'
    ||| '\u{2000}' <= c <= '\u{200a}'
    ||| c == '\u{2028}'
    ||| c == '\u{2029}'
    ||| c == '\u{202f}'
    ||| c == '\u{205f}'
    ||| c == '\u{3000}'
}

/// Whether a character is Unicode white space.
pub fn whitespace(c: char) -> (yes: bool)
    ensures
        yes == is_whitespace(c),
{
    ('\u{9}' <= c && c <= '\u{d}') || c == ' ' || c == '\u{85}' || c == '\u{a0}' || c == '\u{1680}'
        || ('\u{2000}' <= c && c <= '\u{200a}') || c == '\u{2028}' || c == '\u{2029}' || c
        == '\u{202f}' || c == '\u{205f}' || c == '\u{3000}'
}

/// `s` without its leading white space.
pub open spec fn trim_start(s: Seq<char>) -> Seq<char>
    decreases s.len(),
{
    if s.len() > 0 && is_whitespace(s[0]) {
        trim_start(s.drop_first())
    } else {
        s
    }
}

/// `s` without its trailing white space.
pub open spec fn trim_end(s: Seq<char>) -> Seq<char>
    decreases s.len(),
{
    if s.len() > 0 && is_whitespace(s.last()) {
        trim_end(s.drop_last())
    } else {
        s
    }
}

/// `s` without leading and trailing white space.
pub open spec fn trimmed(s: Seq<char>) -> Seq<char> {
    trim_end(trim_start(s))
}

/// The text without its leading and trailing white space.
pub fn trim(s: &str) -> (t: String)
    ensures
        t@ == trimmed(s@),
{
    let chars = chars_of(s);
    let mut start: usize = 0;
    assert(chars@.subrange(0, chars@.len() as int) =~= chars@);
    while start < chars.len() && whitespace(chars[start])
        invariant
            start <= chars@.len(),
            chars@ == s@,
            trim_start(chars@.subrange(start as int, chars@.len() as int)) == trim_start(s@),
        decreases chars@.len() - start,
    {
        assert(chars@.subrange(start as int, chars@.len() as int).drop_first()
            =~= chars@.subrange(start as int + 1, chars@.len() as int));
        start = start + 1;
    }
    let mut end: usize = chars.len();
    assert(trim_start(s@) == chars@.subrange(start as int, end as int));
    while end > start && whitespace(chars[end - 1])
        invariant
            start <= end <= chars@.len(),
            trim_end(chars@.subrange(start as int, end as int)) == trimmed(s@),
        decreases end,
    {
        assert(chars@.subrange(start as int, end as int).drop_last()
            =~= chars@.subrange(start as int, end as int - 1));
        end = end - 1;
    }
    text_of(&chars, start, end)
}

proof fn lemma_encode_push(s: Seq<char>, c: char)
    ensures
        vstd::utf8::encode_utf8(s.push(c)) == vstd::utf8::encode_utf8(s) + vstd::utf8::encode_scalar(c as u32),
    decreases s.len(),
{
    if s.len() == 0 {
        reveal_with_fuel(vstd::utf8::encode_utf8, 2);
        assert(s.push(c).drop_first() =~= Seq::<char>::empty());
        assert(vstd::utf8::encode_utf8(s) =~= Seq::<u8>::empty());
        assert(vstd::utf8::encode_utf8(s.push(c)) =~= vstd::utf8::encode_scalar(c as u32));
    } else {
        lemma_encode_push(s.drop_first(), c);
        assert(s.push(c).drop_first() =~= s.drop_first().push(c));
        assert(vstd::utf8::encode_utf8(s.push(c)) =~= vstd::utf8::encode_utf8(s) + vstd::utf8::encode_scalar(c as u32));
    }
}

/// The UTF-8 encoding of a concatenation is the concatenation of the encodings.
pub proof fn lemma_encode_concat(a: Seq<char>, b: Seq<char>)
    ensures
        vstd::utf8::encode_utf8(a + b) == vstd::utf8::encode_utf8(a) + vstd::utf8::encode_utf8(b),
    decreases b.len(),
{
    if b.len() == 0 {
        assert(a + b =~= a);
        assert(vstd::utf8::encode_utf8(b) =~= Seq::<u8>::empty());
        assert(vstd::utf8::encode_utf8(a) + vstd::utf8::encode_utf8(b)
            =~= vstd::utf8::encode_utf8(a));
    } else {
        lemma_encode_concat(a, b.drop_last());
        lemma_encode_push(a + b.drop_last(), b.last());
        lemma_encode_push(b.drop_last(), b.last());
        assert(a + b =~= (a + b.drop_last()).push(b.last()));
        assert(b =~= b.drop_last().push(b.last()));
        assert(vstd::utf8::encode_utf8(a + b) =~= vstd::utf8::encode_utf8(a)
            + vstd::utf8::encode_utf8(b));
    }
}

/// The UTF-8 length of a concatenation is the sum of the lengths.
pub proof fn lemma_utf8_len_concat(a: Seq<char>, b: Seq<char>)
    ensures
        utf8_len(a + b) == utf8_len(a) + utf8_len(b),
    decreases b.len(),
{
    if b.len() == 0 {
        assert(a + b =~= a);
    } else {
        lemma_utf8_len_concat(a, b.drop_last());
        lemma_encode_push(a + b.drop_last(), b.last());
        lemma_encode_push(b.drop_last(), b.last());
        assert(a + b =~= (a + b.drop_last()).push(b.last()));
        assert(b =~= b.drop_last().push(b.last()));
    }
}

/// A text has at most as many characters as bytes.
pub proof fn lemma_char_count(s: Seq<char>)
    ensures
        s.len() <= utf8_len(s),
    decreases s.len(),
{
    if s.len() > 0 {
        lemma_char_count(s.drop_last());
        lemma_encode_push(s.drop_last(), s.last());
        assert(s =~= s.drop_last().push(s.last()));
    }
}

/// Every prefix of a text is at most as long in bytes as the text.
pub proof fn lemma_utf8_len_take(s: Seq<char>, k: int)
    requires
        0 <= k <= s.len(),
    ensures
        utf8_len(s.take(k)) <= utf8_len(s),
{
    lemma_utf8_len_concat(s.take(k), s.skip(k));
    assert(s.take(k) + s.skip(k) =~= s);
}

/// Number of characters of the longest prefix of `s` that takes at most `max_bytes` bytes.
pub open spec fn fitting_chars(s: Seq<char>, max_bytes: nat) -> nat
    decreases s.len(),
{
    if utf8_len(s) <= max_bytes || s.len() == 0 {
        s.len()
    } else {
        fitting_chars(s.drop_last(), max_bytes)
    }
}

/// The longest prefix of `s` whose UTF-8 encoding takes at most `max_bytes` bytes.
pub open spec fn utf8_prefix(s: Seq<char>, max_bytes: nat) -> Seq<char> {
    s.take(fitting_chars(s, max_bytes) as int)
}

proof fn lemma_fitting_chars(s: Seq<char>, max_bytes: nat, k: int)
    requires
        0 <= k < s.len(),
        utf8_len(s.take(k)) <= max_bytes,
        utf8_len(s.take(k + 1)) > max_bytes,
    ensures
        fitting_chars(s, max_bytes) == k,
    decreases s.len(),
{
    lemma_utf8_len_take(s, k + 1);
    if k + 1 == s.len() {
        assert(s.drop_last() =~= s.take(k));
        reveal_with_fuel(fitting_chars, 2);
    } else {
        let shorter = s.drop_last();
        assert(shorter.take(k) =~= s.take(k));
        assert(shorter.take(k + 1) =~= s.take(k + 1));
        lemma_fitting_chars(shorter, max_bytes, k);
    }
}

/// Cutting a text to a byte limit never exceeds the limit, keeps a prefix, and
/// leaves a text that already fits unchanged.
pub proof fn lemma_utf8_prefix(s: Seq<char>, max_bytes: nat)
    ensures
        fitting_chars(s, max_bytes) <= s.len(),
        utf8_len(utf8_prefix(s, max_bytes)) <= max_bytes,
        utf8_prefix(s, max_bytes).len() <= s.len(),
        utf8_prefix(s, max_bytes) == s.take(utf8_prefix(s, max_bytes).len() as int),
        utf8_len(s) <= max_bytes ==> utf8_prefix(s, max_bytes) == s,
    decreases s.len(),
{
    if utf8_len(s) <= max_bytes {
        assert(s.take(s.len() as int) =~= s);
    } else if s.len() == 0 {
        assert(s.take(0) =~= s);
    } else {
        let shorter = s.drop_last();
        lemma_utf8_prefix(shorter, max_bytes);
        let k = fitting_chars(shorter, max_bytes) as int;
        assert(s.take(k) =~= shorter.take(k));
        assert(s.take(k) =~= s.take(s.take(k).len() as int));
    }
}

/// Cuts a text to at most `max_bytes` bytes without splitting a character.
pub fn truncate_utf8(value: String, max_bytes: usize) -> (cut: String)
    ensures
        cut@ == utf8_prefix(value@, max_bytes as nat),
{
    if byte_len(value.as_str()) <= max_bytes {
        proof {
            lemma_utf8_prefix(value@, max_bytes as nat);
        }
        return value;
    }
    let chars = chars_of(value.as_str());
    let mut cut = String::new();
    let mut used: usize = 0;
    let mut i: usize = 0;
    assert(chars@.take(0) =~= Seq::<char>::empty());
    while i < chars.len()
        invariant
            i <= chars@.len(),
            chars@ == value@,
            cut@ == chars@.take(i as int),
            used == utf8_len(cut@),
            used <= max_bytes,
            utf8_len(value@) > max_bytes,
        decreases chars@.len() - i,
    {
        let c = chars[i];
        let width: usize = scalar_width(c);
        proof {
            lemma_encode_push(cut@, c);
            assert(chars@.take(i as int + 1) =~= cut@.push(c));
        }
        if width > max_bytes - used {
            proof {
                lemma_fitting_chars(value@, max_bytes as nat, i as int);
            }
            return cut;
        }
        cut.push(c);
        used = used + width;
        i = i + 1;
    }
    assert(chars@.take(i as int) =~= value@);
    cut
}

/// The number of bytes of one character's UTF-8 encoding.
fn scalar_width(c: char) -> (width: usize)
    ensures
        width == vstd::utf8::encode_scalar(c as u32).len(),
        1 <= width <= 4,
{
    let scalar: u32 = c as u32;
    if scalar <= 0x7f {
        1
    } else if scalar <= 0x7ff {
        2
    } else if scalar <= 0xffff {
        3
    } else {
        4
    }
}

/// Byte-wise lexicographic order of two byte strings, the first strictly smaller.
pub open spec fn bytes_before(a: Seq<u8>, b: Seq<u8>) -> bool
    decreases a.len(),
{
    if b.len() == 0 {
        false
    } else if a.len() == 0 {
        true
    } else if a[0] != b[0] {
        a[0] < b[0]
    } else {
        bytes_before(a.drop_first(), b.drop_first())
    }
}

/// The order of texts: by their UTF-8 bytes.
pub open spec fn text_before(a: Seq<char>, b: Seq<char>) -> bool {
    bytes_before(vstd::utf8::encode_utf8(a), vstd::utf8::encode_utf8(b))
}

proof fn lemma_bytes_order(a: Seq<u8>, b: Seq<u8>)
    ensures
        !(bytes_before(a, b) && bytes_before(b, a)),
        !bytes_before(a, b) && !bytes_before(b, a) ==> a == b,
        a == b ==> !bytes_before(a, b),
    decreases a.len(),
{
    if a.len() > 0 && b.len() > 0 {
        lemma_bytes_order(a.drop_first(), b.drop_first());
        if a[0] == b[0] && a.drop_first() == b.drop_first() {
            assert(a =~= seq![a[0]] + a.drop_first());
            assert(b =~= seq![b[0]] + b.drop_first());
        }
    } else if a.len() == 0 && b.len() == 0 {
        assert(a =~= b);
    }
}

proof fn lemma_bytes_transitive(a: Seq<u8>, b: Seq<u8>, c: Seq<u8>)
    requires
        bytes_before(a, b),
        bytes_before(b, c),
    ensures
        bytes_before(a, c),
    decreases a.len(),
{
    if a.len() > 0 && b.len() > 0 && c.len() > 0 && a[0] == b[0] && b[0] == c[0] {
        lemma_bytes_transitive(a.drop_first(), b.drop_first(), c.drop_first());
    }
}

/// The order of texts is a strict total order.
pub proof fn lemma_text_order(a: Seq<char>, b: Seq<char>)
    ensures
        !(text_before(a, b) && text_before(b, a)),
        !text_before(a, b) && !text_before(b, a) ==> a == b,
        !text_before(a, a),
{
    lemma_bytes_order(vstd::utf8::encode_utf8(a), vstd::utf8::encode_utf8(b));
    lemma_bytes_order(vstd::utf8::encode_utf8(a), vstd::utf8::encode_utf8(a));
    if !text_before(a, b) && !text_before(b, a) {
        lemma_encode_injective(a, b);
    }
}

/// The order of texts is transitive.
pub proof fn lemma_text_transitive(a: Seq<char>, b: Seq<char>, c: Seq<char>)
    requires
        text_before(a, b),
        text_before(b, c),
    ensures
        text_before(a, c),
{
    lemma_bytes_transitive(vstd::utf8::encode_utf8(a), vstd::utf8::encode_utf8(b), vstd::utf8::encode_utf8(c));
}

/// Whether the first text comes strictly before the second, byte by byte.
pub fn precedes(a: &str, b: &str) -> (before: bool)
    ensures
        before == text_before(a@, b@),
{
    let left = a.as_bytes();
    let right = b.as_bytes();
    let mut i: usize = 0;
    assert(left@.skip(0) =~= left@);
    assert(right@.skip(0) =~= right@);
    while i < left.len() && i < right.len()
        invariant
            i <= left@.len(),
            i <= right@.len(),
            left@ == vstd::utf8::encode_utf8(a@),
            right@ == vstd::utf8::encode_utf8(b@),
            text_before(a@, b@) == bytes_before(left@.skip(i as int), right@.skip(i as int)),
        decreases left@.len() - i,
    {
        assert(left@.skip(i as int).drop_first() =~= left@.skip(i as int + 1));
        assert(right@.skip(i as int).drop_first() =~= right@.skip(i as int + 1));
        if left[i] != right[i] {
            return left[i] < right[i];
        }
        i = i + 1;
    }
    i < right.len()
}

/// Whether `needle` occurs in `s` as consecutive characters.
pub open spec fn has_infix(s: Seq<char>, needle: Seq<char>) -> bool {
    exists|i: int|
        0 <= i <= s.len() - needle.len() && #[trigger] s.subrange(i, i + needle.len()) == needle
}

/// Whether `needle` occurs in the text.
pub fn contains_text(s: &str, needle: &str) -> (found: bool)
    ensures
        found == has_infix(s@, needle@),
{
    let chars = chars_of(s);
    let wanted = chars_of(needle);
    if wanted.len() > chars.len() {
        return false;
    }
    let count: usize = chars.len();
    let last: usize = count - wanted.len();
    let mut start: usize = 0;
    while start <= last
        invariant
            chars@ == s@,
            wanted@ == needle@,
            last + wanted@.len() == count == chars@.len(),
            start <= last + 1,
            forall|i: int|
                0 <= i < start ==> #[trigger] s@.subrange(i, i + needle@.len()) != needle@,
        decreases last + 1 - start,
    {
        let mut k: usize = 0;
        while k < wanted.len() && chars[start + k] == wanted[k]
            invariant
                k <= wanted@.len(),
                start <= last,
                last + wanted@.len() == count == chars@.len(),
                forall|j: int| 0 <= j < k ==> chars@[start + j] == #[trigger] wanted@[j],
            decreases wanted@.len() - k,
        {
            k = k + 1;
        }
        if k == wanted.len() {
            assert(s@.subrange(start as int, start + needle@.len()) =~= needle@);
            return true;
        }
        assert(s@.subrange(start as int, start + needle@.len())[k as int] != needle@[k as int]);
        if start == usize::MAX {
            return false;
        }
        start = start + 1;
    }
    false
}

/// A text of ASCII characters takes one byte for each.
pub proof fn lemma_ascii_length(s: Seq<char>)
    requires
        forall|i: int| 0 <= i < s.len() ==> (#[trigger] s[i]) as u32 <= 0x7f,
    ensures
        utf8_len(s) == s.len(),
    decreases s.len(),
{
    if s.len() > 0 {
        lemma_ascii_length(s.drop_last());
        lemma_encode_push(s.drop_last(), s.last());
        assert(s =~= s.drop_last().push(s.last()));
    }
}

/// Cutting a text to a byte limit keeps as much of it as fits: the cut text is a prefix
/// within the limit, one more character would not fit, and a text that fits stays whole.
pub proof fn law_cut_text_is_the_longest_that_fits(s: Seq<char>, max_bytes: nat)
    ensures
        ({
            let cut = utf8_prefix(s, max_bytes);
            &&& cut.len() <= s.len()
            &&& cut == s.take(cut.len() as int)
            &&& utf8_len(cut) <= max_bytes
            &&& cut.len() < s.len() ==> utf8_len(s.take(cut.len() as int + 1)) > max_bytes
            &&& utf8_len(s) <= max_bytes ==> cut == s
        }),
    decreases s.len(),
{
    lemma_utf8_prefix(s, max_bytes);
    if utf8_len(s) > max_bytes && s.len() > 0 {
        let shorter = s.drop_last();
        let k = fitting_chars(shorter, max_bytes) as int;
        law_cut_text_is_the_longest_that_fits(shorter, max_bytes);
        lemma_utf8_prefix(shorter, max_bytes);
        if k < shorter.len() {
            assert(shorter.take(k + 1) =~= s.take(k + 1));
        } else {
            assert(s.take(k + 1) =~= s);
        }
    }
}

/// Trimming cuts white space off both ends and nothing else: what is left is a piece of
/// the text that neither starts nor ends with white space, and everything around it is
/// white space.
pub proof fn law_trimming_cuts_white_space_only(s: Seq<char>)
    ensures
        ({
            let cut = trimmed(s);
            &&& cut.len() > 0 ==> !is_whitespace(cut[0]) && !is_whitespace(cut.last())
            &&& exists|from: int|
                0 <= from <= from + cut.len() <= s.len() && cut == #[trigger] s.subrange(
                    from,
                    from + cut.len(),
                ) && (forall|i: int|
                    0 <= i < s.len() && !(from <= i < from + cut.len()) ==> is_whitespace(
                        #[trigger] s[i],
                    ))
        }),
{
    lemma_trim_start(s);
    let start = s.len() - trim_start(s).len();
    let middle = trim_start(s);
    lemma_trim_end(middle);
    let cut = trim_end(middle);
    assert(cut =~= s.subrange(start as int, start + cut.len()));
    assert forall|i: int| 0 <= i < s.len() && !(start <= i < start + cut.len()) implies is_whitespace(
        #[trigger] s[i],
    ) by {
        if i >= start {
            assert(s[i] == middle[i - start]);
        }
    }
    if cut.len() > 0 {
        assert(cut[0] == middle[0]);
    }
}

proof fn lemma_trim_start(s: Seq<char>)
    ensures
        trim_start(s).len() <= s.len(),
        trim_start(s) == s.skip(s.len() - trim_start(s).len()),
        trim_start(s).len() > 0 ==> !is_whitespace(trim_start(s)[0]),
        forall|i: int|
            0 <= i < s.len() - trim_start(s).len() ==> is_whitespace(#[trigger] s[i]),
    decreases s.len(),
{
    if s.len() > 0 && is_whitespace(s[0]) {
        let rest = s.drop_first();
        lemma_trim_start(rest);
        let k = s.len() - trim_start(s).len();
        assert(rest.skip(k - 1) =~= s.skip(k));
        assert forall|i: int| 0 <= i < k implies is_whitespace(#[trigger] s[i]) by {
            if i > 0 {
                assert(s[i] == rest[i - 1]);
            }
        }
    } else {
        assert(s.skip(0) =~= s);
    }
}

proof fn lemma_trim_end(s: Seq<char>)
    ensures
        trim_end(s).len() <= s.len(),
        trim_end(s) == s.take(trim_end(s).len() as int),
        trim_end(s).len() > 0 ==> !is_whitespace(trim_end(s).last()),
        forall|i: int| trim_end(s).len() <= i < s.len() ==> is_whitespace(#[trigger] s[i]),
    decreases s.len(),
{
    if s.len() > 0 && is_whitespace(s.last()) {
        let rest = s.drop_last();
        lemma_trim_end(rest);
        assert(rest.take(trim_end(s).len() as int) =~= s.take(trim_end(s).len() as int));
        assert forall|i: int| trim_end(s).len() <= i < s.len() implies is_whitespace(
            #[trigger] s[i],
        ) by {
            if i < s.len() - 1 {
                assert(s[i] == rest[i]);
            }
        }
    } else {
        assert(s.take(s.len() as int) =~= s);
    }
}

} // verus!
