//! Decimal and hexadecimal renderings of integers, and the reading of decimals.
use vstd::prelude::*;
use crate::text::chars_of;

verus! {

/// The decimal digit `d`.
pub open spec fn digit_char(d: int) -> char {
    (('0' as int) + d) as char
}

/// The decimal digits of a natural number, without leading zeros.
pub open spec fn decimal_nat(n: nat) -> Seq<char>
    decreases n,
{
    if n < 10 {
        seq![digit_char(n as int)]
    } else {
        decimal_nat(n / 10).push(digit_char((n % 10) as int))
    }
}

/// The decimal rendering of an integer.
pub open spec fn decimal(n: int) -> Seq<char> {
    if n < 0 {
        seq!['-'] + decimal_nat((-n) as nat)
    } else {
        decimal_nat(n as nat)
    }
}

fn push_digits(s: &mut String, n: u128)
    ensures
        final(s)@ == old(s)@ + decimal_nat(n as nat),
    decreases n,
{
    if n >= 10 {
        push_digits(s, n / 10);
    }
    let digit: u8 = (n % 10) as u8;
    s.push((48u8 + digit) as char);
    assert(s@ =~= old(s)@ + decimal_nat(n as nat));
}

/// The decimal rendering of an unsigned integer.
pub fn decimal_u64(n: u64) -> (s: String)
    ensures
        s@ == decimal(n as int),
{
    let mut s = String::new();
    push_digits(&mut s, n as u128);
    assert(s@ =~= decimal(n as int));
    s
}

/// The decimal rendering of a wide unsigned integer.
pub fn decimal_u128(n: u128) -> (s: String)
    ensures
        s@ == decimal(n as int),
{
    let mut s = String::new();
    push_digits(&mut s, n);
    assert(s@ =~= decimal(n as int));
    s
}

/// The decimal rendering of a signed integer.
pub fn decimal_i64(n: i64) -> (s: String)
    ensures
        s@ == decimal(n as int),
{
    let mut s = String::new();
    if n < 0 {
        s.push('-');
        let magnitude: u128 = (-(n as i128)) as u128;
        push_digits(&mut s, magnitude);
    } else {
        push_digits(&mut s, n as u128);
    }
    assert(s@ =~= decimal(n as int));
    s
}

/// `width` zeros.
pub open spec fn zeros(width: nat) -> Seq<char> {
    Seq::new(width, |i: int| '0')
}

/// The decimal rendering of a natural number, padded with zeros on the left to at least `width`.
pub open spec fn padded_decimal(n: nat, width: nat) -> Seq<char> {
    let digits = decimal_nat(n);
    if digits.len() < width {
        zeros((width - digits.len()) as nat) + digits
    } else {
        digits
    }
}

/// The zero-padded decimal rendering of an unsigned integer.
pub fn padded_decimal_u64(n: u64, width: usize) -> (s: String)
    ensures
        s@ == padded_decimal(n as nat, width as nat),
{
    let digits = decimal_u64(n);
    let count: usize = chars_of(digits.as_str()).len();
    let mut s = String::new();
    let mut pad: usize = 0;
    let missing: usize = if count < width { width - count } else { 0 };
    while pad < missing
        invariant
            pad <= missing,
            s@ == zeros(pad as nat),
        decreases missing - pad,
    {
        s.push('0');
        pad = pad + 1;
        assert(s@ =~= zeros(pad as nat));
    }
    s.append(digits.as_str());
    assert(s@ =~= padded_decimal(n as nat, width as nat));
    s
}

/// The lower-case hexadecimal digit `d`.
pub open spec fn hex_char(d: int) -> char {
    if d < 10 {
        (('0' as int) + d) as char
    } else {
        (('a' as int) + d - 10) as char
    }
}

/// The last `width` hexadecimal digits of a number, most significant first.
pub open spec fn hex_digits(n: nat, width: nat) -> Seq<char>
    decreases width,
{
    if width == 0 {
        Seq::empty()
    } else {
        hex_digits(n / 16, (width - 1) as nat).push(hex_char((n % 16) as int))
    }
}

/// Hexadecimal digits are ASCII characters.
pub proof fn lemma_hex_digits(n: nat, width: nat)
    ensures
        hex_digits(n, width).len() == width,
        vstd::utf8::is_ascii_chars(hex_digits(n, width)),
    decreases width,
{
    if width > 0 {
        lemma_hex_digits(n / 16, (width - 1) as nat);
        let digit = (n % 16) as int;
        assert(0 <= digit < 16);
        assert((hex_char(digit) as u32) < 128);
    }
}

fn push_hex(s: &mut String, n: u64, width: u8)
    ensures
        final(s)@ == old(s)@ + hex_digits(n as nat, width as nat),
    decreases width,
{
    if width == 0 {
        assert(s@ =~= old(s)@ + hex_digits(n as nat, 0));
        return;
    }
    push_hex(s, n / 16, width - 1);
    let digit: u8 = (n % 16) as u8;
    if digit < 10 {
        s.push((48u8 + digit) as char);
    } else {
        s.push((87u8 + digit) as char);
    }
    assert(s@ =~= old(s)@ + hex_digits(n as nat, width as nat));
}

/// The sixteen lower-case hexadecimal digits of a 64-bit number.
pub fn hex16(n: u64) -> (s: String)
    ensures
        s@ == hex_digits(n as nat, 16),
{
    let mut s = String::new();
    push_hex(&mut s, n, 16);
    assert(s@ =~= hex_digits(n as nat, 16));
    s
}

/// The two lower-case hexadecimal digits of a byte.
pub fn hex2(n: u8) -> (s: String)
    ensures
        s@ == hex_digits(n as nat, 2),
{
    let mut s = String::new();
    push_hex(&mut s, n as u64, 2);
    assert(s@ =~= hex_digits(n as nat, 2));
    s
}

/// Whether `c` is a decimal digit.
pub open spec fn is_digit(c: char) -> bool {
    '0' <= c <= '9'
}

/// Whether every character is a decimal digit.
pub open spec fn all_digits(s: Seq<char>) -> bool {
    forall|i: int| 0 <= i < s.len() ==> is_digit(#[trigger] s[i])
}

/// The number that a sequence of decimal digits stands for.
pub open spec fn digits_value(s: Seq<char>) -> int
    decreases s.len(),
{
    if s.len() == 0 {
        0
    } else {
        digits_value(s.drop_last()) * 10 + (s.last() as int - '0' as int)
    }
}

/// The number written as one or more decimal digits.
pub open spec fn unsigned_value(s: Seq<char>) -> Option<int> {
    if s.len() > 0 && all_digits(s) {
        Some(digits_value(s))
    } else {
        None
    }
}

/// The number written as decimal digits with an optional sign.
pub open spec fn signed_value(s: Seq<char>) -> Option<int> {
    if s.len() > 0 && s[0] == '-' {
        match unsigned_value(s.drop_first()) {
            Some(value) => Some(-value),
            None => None,
        }
    } else if s.len() > 0 && s[0] == '+' {
        unsigned_value(s.drop_first())
    } else {
        unsigned_value(s)
    }
}

/// The signed decimal `s` where it lies between `min` and `max`.
pub open spec fn bounded_value(s: Seq<char>, min: int, max: int) -> Option<int> {
    match signed_value(s) {
        Some(value) if min <= value <= max => Some(value),
        _ => None,
    }
}

proof fn lemma_digits_value_prefix(s: Seq<char>, k: int)
    requires
        all_digits(s),
        0 <= k <= s.len(),
    ensures
        0 <= digits_value(s.take(k)) <= digits_value(s),
    decreases s.len(),
{
    if s.len() > 0 {
        let shorter = s.drop_last();
        assert(all_digits(shorter)) by {
            assert forall|i: int| 0 <= i < shorter.len() implies is_digit(#[trigger] shorter[i]) by {
                assert(shorter[i] == s[i]);
            }
        }
        assert(is_digit(s[s.len() - 1]));
        if k == s.len() {
            assert(s.take(k) =~= s);
            lemma_digits_value_prefix(shorter, shorter.len() as int);
            assert(shorter.take(shorter.len() as int) =~= shorter);
        } else {
            lemma_digits_value_prefix(shorter, k);
            assert(shorter.take(k) =~= s.take(k));
        }
    } else {
        assert(s.take(k) =~= s);
    }
}

/// Reads a signed 64-bit decimal.
pub fn parse_i64(s: &str) -> (value: Option<i64>)
    ensures
        value == (match bounded_value(s@, i64::MIN as int, i64::MAX as int) {
            Some(v) => Some(v as i64),
            None => None::<i64>,
        }),
{
    let chars = chars_of(s);
    if chars.len() == 0 {
        return None;
    }
    let negative: bool = chars[0] == '-';
    let first: usize = if negative || chars[0] == '+' { 1 } else { 0 };
    let ghost body = s@.skip(first as int);
    proof {
        if first == 1 {
            assert(body =~= s@.drop_first());
        } else {
            assert(body =~= s@);
        }
        assert(body.take(0) =~= Seq::<char>::empty());
    }
    if first == chars.len() {
        return None;
    }
    let mut magnitude: i128 = 0;
    let mut i: usize = first;
    while i < chars.len()
        invariant
            first <= i <= chars@.len(),
            first <= 1,
            chars@ == s@,
            body == s@.skip(first as int),
            first < s@.len(),
            0 <= magnitude <= 0x8000_0000_0000_0000,
            magnitude == digits_value(body.take(i - first)),
            forall|j: int| 0 <= j < i - first ==> is_digit(#[trigger] body[j]),
            negative == (s@[0] == '-'),
            first == (if s@[0] == '-' || s@[0] == '+' {
                1int
            } else {
                0int
            }),
            first == 1 ==> body == s@.drop_first(),
            first == 0 ==> body == s@,
        decreases chars@.len() - i,
    {
        let c = chars[i];
        assert(body[i - first] == c);
        if c < '0' || c > '9' {
            assert(!all_digits(body));
            return None;
        }
        let digit: i128 = (c as u32 - 48) as i128;
        let ghost longer = body.take(i - first + 1);
        proof {
            assert(longer.drop_last() =~= body.take(i - first));
            assert(longer.last() == c);
            assert(digits_value(longer) == magnitude * 10 + digit);
        }
        magnitude = magnitude * 10 + digit;
        if magnitude > 0x8000_0000_0000_0000 {
            proof {
                if all_digits(body) {
                    lemma_digits_value_prefix(body, i - first + 1);
                }
            }
            return None;
        }
        i = i + 1;
    }
    proof {
        assert(body.take(i - first) =~= body);
        assert(all_digits(body));
    }
    if negative {
        Some((-magnitude) as i64)
    } else if magnitude <= 0x7fff_ffff_ffff_ffff {
        Some(magnitude as i64)
    } else {
        None
    }
}

/// Reads a signed 32-bit decimal.
pub fn parse_i32(s: &str) -> (value: Option<i32>)
    ensures
        value == (match bounded_value(s@, i32::MIN as int, i32::MAX as int) {
            Some(v) => Some(v as i32),
            None => None::<i32>,
        }),
{
    match parse_i64(s) {
        Some(wide) => if -0x8000_0000 <= wide && wide <= 0x7fff_ffff {
            Some(wide as i32)
        } else {
            None
        },
        None => None,
    }
}

proof fn lemma_decimal_nat(n: nat)
    ensures
        decimal_nat(n).len() > 0,
        all_digits(decimal_nat(n)),
        digits_value(decimal_nat(n)) == n,
    decreases n,
{
    if n < 10 {
        let s = decimal_nat(n);
        assert(s.drop_last() =~= Seq::<char>::empty());
        assert(digits_value(Seq::<char>::empty()) == 0);
        assert(s.last() as int == '0' as int + n);
    } else {
        lemma_decimal_nat(n / 10);
        let s = decimal_nat(n);
        assert(s.drop_last() =~= decimal_nat(n / 10));
        assert(s.last() as int == '0' as int + n % 10);
        assert forall|i: int| 0 <= i < s.len() implies is_digit(#[trigger] s[i]) by {
            if i < s.len() - 1 {
                assert(s[i] == decimal_nat(n / 10)[i]);
            }
        }
    }
}

/// The `k`-th power of ten.
pub open spec fn ten_to(k: nat) -> nat
    decreases k,
{
    if k == 0 {
        1
    } else {
        10 * ten_to((k - 1) as nat)
    }
}

proof fn lemma_decimal_nat_length(n: nat, k: nat)
    requires
        n < ten_to(k),
        k >= 1,
    ensures
        decimal_nat(n).len() <= k,
    decreases n,
{
    if n >= 10 {
        if k == 1 {
            reveal_with_fuel(ten_to, 2);
        }
        lemma_decimal_nat_length(n / 10, (k - 1) as nat);
    }
}

/// The decimal rendering of a signed 64-bit integer takes at most 20 characters.
pub proof fn lemma_decimal_length(n: int)
    requires
        i64::MIN <= n <= i64::MAX,
    ensures
        decimal(n).len() <= 20,
{
    reveal_with_fuel(ten_to, 20);
    assert(ten_to(19) == 10_000_000_000_000_000_000);
    if n < 0 {
        lemma_decimal_nat_length((-n) as nat, 19);
    } else {
        lemma_decimal_nat_length(n as nat, 19);
    }
}

proof fn lemma_digits_from_front(s: Seq<char>)
    requires
        s.len() > 0,
        all_digits(s),
    ensures
        digits_value(s) == (s[0] as int - '0' as int) * ten_to((s.len() - 1) as nat) + digits_value(
            s.drop_first(),
        ),
        0 <= digits_value(s) < ten_to(s.len()),
    decreases s.len(),
{
    assert(is_digit(s[0]));
    assert(is_digit(s[s.len() - 1]));
    if s.len() == 1 {
        assert(s.drop_last() =~= Seq::<char>::empty());
        assert(s.drop_first() =~= Seq::<char>::empty());
        reveal_with_fuel(digits_value, 2);
        reveal_with_fuel(ten_to, 2);
        let d = s[0] as int - '0' as int;
        assert(ten_to(0) == 1);
        assert(d * 1 == d) by (nonlinear_arith);
    } else {
        let front = s.drop_last();
        assert forall|i: int| 0 <= i < front.len() implies is_digit(#[trigger] front[i]) by {
            assert(front[i] == s[i]);
        }
        lemma_digits_from_front(front);
        let rest = s.drop_first();
        assert(rest.drop_last() =~= front.drop_first());
        assert(rest.last() == s.last());
        let d = s[0] as int - '0' as int;
        let p = ten_to((s.len() - 2) as nat) as int;
        assert(ten_to((s.len() - 1) as nat) == 10 * p);
        assert(d * (10 * p) == (d * p) * 10) by (nonlinear_arith);
        assert(front[0] == s[0]);
        assert(digits_value(front) == d * p + digits_value(front.drop_first()));
        assert(digits_value(rest) == digits_value(front.drop_first()) * 10 + (s.last() as int
            - '0' as int));
        assert(digits_value(s) == digits_value(front) * 10 + (s.last() as int - '0' as int));
        assert(d * ten_to((s.len() - 1) as nat) == (d * p) * 10);
    }
}

/// The order of the first character that differs.
pub open spec fn chars_before(a: Seq<char>, b: Seq<char>) -> bool
    decreases a.len(),
{
    if b.len() == 0 {
        false
    } else if a.len() == 0 {
        true
    } else if a[0] != b[0] {
        a[0] < b[0]
    } else {
        chars_before(a.drop_first(), b.drop_first())
    }
}

/// Numbers with equally many digits are ordered as their digits are.
pub proof fn lemma_digits_order(a: Seq<char>, b: Seq<char>)
    requires
        a.len() == b.len(),
        all_digits(a),
        all_digits(b),
    ensures
        chars_before(a, b) == (digits_value(a) < digits_value(b)),
        a == b <==> digits_value(a) == digits_value(b),
    decreases a.len(),
{
    if a.len() == 0 {
        assert(a =~= b);
    } else {
        lemma_digits_from_front(a);
        lemma_digits_from_front(b);
        let x = a.drop_first();
        let y = b.drop_first();
        assert forall|i: int| 0 <= i < x.len() implies is_digit(#[trigger] x[i]) by {
            assert(x[i] == a[i + 1]);
        }
        assert forall|i: int| 0 <= i < y.len() implies is_digit(#[trigger] y[i]) by {
            assert(y[i] == b[i + 1]);
        }
        lemma_digits_order(x, y);
        let p = ten_to((a.len() - 1) as nat) as int;
        let d = a[0] as int - '0' as int;
        let e = b[0] as int - '0' as int;
        if x.len() > 0 {
            lemma_digits_from_front(x);
            lemma_digits_from_front(y);
        }
        assert(0 <= digits_value(x) < p && 0 <= digits_value(y) < p) by {
            if x.len() == 0 {
                reveal_with_fuel(ten_to, 1);
            }
        }
        if a[0] == b[0] {
            assert(a =~= seq![a[0]] + x);
            assert(b =~= seq![b[0]] + y);
        } else if d < e {
            assert(d * p + p <= e * p) by (nonlinear_arith)
                requires
                    d + 1 <= e,
                    p >= 0,
            ;
        } else {
            assert(e * p + p <= d * p) by (nonlinear_arith)
                requires
                    e + 1 <= d,
                    p >= 0,
            ;
        }
    }
}

proof fn lemma_leading_zeros(k: nat, s: Seq<char>)
    requires
        all_digits(s),
    ensures
        all_digits(zeros(k) + s),
        digits_value(zeros(k) + s) == digits_value(s),
    decreases s.len(),
{
    let padded = zeros(k) + s;
    assert forall|i: int| 0 <= i < padded.len() implies is_digit(#[trigger] padded[i]) by {
        if i >= k {
            assert(padded[i] == s[i - k]);
        }
    }
    if s.len() == 0 {
        assert(padded =~= zeros(k));
        lemma_zeros_value(k);
    } else {
        let front = s.drop_last();
        assert forall|i: int| 0 <= i < front.len() implies is_digit(#[trigger] front[i]) by {
            assert(front[i] == s[i]);
        }
        lemma_leading_zeros(k, front);
        assert(padded.drop_last() =~= zeros(k) + front);
    }
}

proof fn lemma_zeros_value(k: nat)
    ensures
        digits_value(zeros(k)) == 0,
    decreases k,
{
    if k > 0 {
        lemma_zeros_value((k - 1) as nat);
        assert(zeros(k).drop_last() =~= zeros((k - 1) as nat));
    }
}

/// A number that fits takes exactly `width` digits when it is padded.
pub proof fn lemma_padded(n: nat, width: nat)
    requires
        n < ten_to(width),
        width >= 1,
    ensures
        padded_decimal(n, width).len() == width,
        all_digits(padded_decimal(n, width)),
        digits_value(padded_decimal(n, width)) == n,
{
    lemma_decimal_nat(n);
    lemma_decimal_nat_length(n, width);
    let digits = decimal_nat(n);
    if digits.len() < width {
        lemma_leading_zeros((width - digits.len()) as nat, digits);
    }
}

/// A signed 64-bit integer that is not negative fits 20 digits.
pub proof fn lemma_fits_twenty(n: int)
    requires
        0 <= n <= i64::MAX,
    ensures
        n < ten_to(20),
{
    reveal_with_fuel(ten_to, 21);
    assert(ten_to(20) == 100_000_000_000_000_000_000);
}

/// The zero-padded decimal rendering of an integer, at least `width` characters
/// with the sign.
pub open spec fn padded_signed(n: int, width: nat) -> Seq<char> {
    if n < 0 {
        seq!['-'] + padded_decimal((-n) as nat, (width - 1) as nat)
    } else {
        padded_decimal(n as nat, width)
    }
}

/// The zero-padded decimal rendering of a signed integer.
pub fn padded_decimal_i64(n: i64, width: usize) -> (s: String)
    requires
        width >= 1,
    ensures
        s@ == padded_signed(n as int, width as nat),
{
    if n < 0 {
        let magnitude: u64 = (-(n as i128)) as u64;
        let mut s = String::new();
        s.push('-');
        s.append(padded_decimal_u64(magnitude, width - 1).as_str());
        assert(s@ =~= padded_signed(n as int, width as nat));
        s
    } else {
        padded_decimal_u64(n as u64, width)
    }
}

/// The unsigned 8-bit number that a text stands for: digits behind an optional
/// plus sign.
pub open spec fn small_value(s: Seq<char>) -> Option<int> {
    let value = if s.len() > 0 && s[0] == '+' {
        unsigned_value(s.drop_first())
    } else {
        unsigned_value(s)
    };
    match value {
        Some(value) if value <= 255 => Some(value),
        _ => None,
    }
}

proof fn lemma_unsigned_not_negative(s: Seq<char>)
    ensures
        unsigned_value(s) matches Some(value) ==> value >= 0,
{
    if all_digits(s) {
        lemma_digits_value_prefix(s, 0);
    }
}

/// Reads an unsigned 8-bit decimal.
pub fn parse_u8(s: &str) -> (value: Option<u8>)
    ensures
        match value {
            Some(v) => small_value(s@) == Some(v as int),
            None => small_value(s@) is None,
        },
{
    let chars = chars_of(s);
    if chars.len() > 0 && chars[0] == '-' {
        assert(!is_digit(s@[0]));
        return None;
    }
    proof {
        if chars@.len() > 0 && chars@[0] == '+' {
            lemma_unsigned_not_negative(s@.drop_first());
        } else {
            lemma_unsigned_not_negative(s@);
        }
    }
    match parse_i64(s) {
        Some(wide) => {
            if 0 <= wide && wide <= 255 {
                Some(wide as u8)
            } else {
                None
            }
        },
        None => None,
    }
}

/// A decimal rendering holds digits and a minus sign only.
pub proof fn lemma_decimal_chars(n: int)
    ensures
        forall|i: int|
            0 <= i < decimal(n).len() ==> is_digit(#[trigger] decimal(n)[i]) || decimal(n)[i]
                == '-',
{
    if n < 0 {
        lemma_decimal_nat((-n) as nat);
        let digits = decimal_nat((-n) as nat);
        assert forall|i: int| 0 <= i < decimal(n).len() implies is_digit(#[trigger] decimal(n)[i])
            || decimal(n)[i] == '-' by {
            if i > 0 {
                assert(decimal(n)[i] == digits[i - 1]);
            }
        }
    } else {
        lemma_decimal_nat(n as nat);
    }
}

/// Reading the decimal rendering of an integer gives the integer back.
pub proof fn lemma_decimal_round_trip(n: int)
    ensures
        signed_value(decimal(n)) == Some(n),
{
    if n < 0 {
        lemma_decimal_nat((-n) as nat);
        assert(decimal(n).drop_first() =~= decimal_nat((-n) as nat));
    } else {
        lemma_decimal_nat(n as nat);
        assert(is_digit(decimal(n)[0]));
    }
}

/// Two numbers written with a text between them that starts with neither a digit nor
/// a minus sign read back as those two numbers.
pub proof fn lemma_two_numbers(
    prefix: Seq<char>,
    middle: Seq<char>,
    first: int,
    second: int,
    other_first: int,
    other_second: int,
)
    requires
        middle.len() > 0,
        !is_digit(middle[0]),
        middle[0] != '-',
        prefix + decimal(first) + middle + decimal(second) == prefix + decimal(other_first)
            + middle + decimal(other_second),
    ensures
        first == other_first,
        second == other_second,
{
    let a = decimal(first);
    let b = decimal(other_first);
    let m = decimal(second);
    let n = decimal(other_second);
    let left = prefix + a + middle + m;
    let right = prefix + b + middle + n;
    lemma_decimal_chars(first);
    lemma_decimal_chars(other_first);
    if a.len() < b.len() {
        assert(left[(prefix.len() + a.len()) as int] == middle[0]);
        assert(right[(prefix.len() + a.len()) as int] == b[a.len() as int]);
    }
    if b.len() < a.len() {
        assert(right[(prefix.len() + b.len()) as int] == middle[0]);
        assert(left[(prefix.len() + b.len()) as int] == a[b.len() as int]);
    }
    assert forall|i: int| 0 <= i < a.len() implies a[i] == b[i] by {
        assert(left[prefix.len() + i] == a[i]);
        assert(right[prefix.len() + i] == b[i]);
    }
    assert(a =~= b);
    let behind = prefix.len() + a.len() + middle.len();
    assert(left.len() == behind + m.len());
    assert(right.len() == behind + n.len());
    assert forall|i: int| 0 <= i < m.len() implies m[i] == n[i] by {
        assert(left[behind + i] == m[i]);
        assert(right[behind + i] == n[i]);
    }
    assert(m =~= n);
    lemma_decimal_round_trip(first);
    lemma_decimal_round_trip(other_first);
    lemma_decimal_round_trip(second);
    lemma_decimal_round_trip(other_second);
}

/// A number written in decimal is read back as that number, whatever its sign, and
/// different numbers are written differently.
pub proof fn law_decimal_reads_back(n: int, m: int)
    ensures
        signed_value(decimal(n)) == Some(n),
        decimal(n) == decimal(m) ==> n == m,
        bounded_value(decimal(n), i64::MIN as int, i64::MAX as int) == (if i64::MIN <= n
            <= i64::MAX {
            Some(n)
        } else {
            None
        }),
{
    lemma_decimal_round_trip(n);
    lemma_decimal_round_trip(m);
}

/// A number with something behind it that starts with neither a digit nor a minus sign is
/// read as that number, and what is behind it as that.
pub proof fn lemma_number_ends(n: int, m: int, behind: Seq<char>, other_behind: Seq<char>)
    requires
        behind.len() > 0,
        other_behind.len() > 0,
        !is_digit(behind[0]) && behind[0] != '-',
        !is_digit(other_behind[0]) && other_behind[0] != '-',
        decimal(n) + behind == decimal(m) + other_behind,
    ensures
        n == m,
        behind == other_behind,
{
    let a = decimal(n);
    let b = decimal(m);
    let left = a + behind;
    let right = b + other_behind;
    lemma_decimal_chars(n);
    lemma_decimal_chars(m);
    if a.len() < b.len() {
        assert(left[a.len() as int] == behind[0]);
        assert(right[a.len() as int] == b[a.len() as int]);
    }
    if b.len() < a.len() {
        assert(right[b.len() as int] == other_behind[0]);
        assert(left[b.len() as int] == a[b.len() as int]);
    }
    assert forall|i: int| 0 <= i < a.len() implies a[i] == b[i] by {
        assert(left[i] == a[i]);
        assert(right[i] == b[i]);
    }
    assert(a =~= b);
    lemma_decimal_round_trip(n);
    lemma_decimal_round_trip(m);
    assert(left.skip(a.len() as int) =~= behind);
    assert(right.skip(a.len() as int) =~= other_behind);
}

} // verus!
