//! Text primitives: decimal numerals, delimited fields, white space, UTF-8.
//!
//! Strings are modelled by their characters (`Seq<char>`); where the byte
//! length of a string matters, by the bytes of its UTF-8 encoding.
use vstd::prelude::*;
use vstd::string::*;
use vstd::utf8::*;

verus! {

// ---------------------------------------------------------------------------
// Standard library functions
// ---------------------------------------------------------------------------

/// `std::string::String::push` appends the character to the end of the string.
pub assume_specification[ String::push ](s: &mut String, ch: char)
    ensures
        final(s)@ == old(s)@.push(ch),
;

/// Whether a character has the Unicode property `White_Space`.
pub open spec fn white_space(c: char) -> bool {
    ||| '\u{9}' <= c <= '\u{d}'
    ||| c == '\u{20}'
    ||| c == '\u{85}'
    ||| c == '\u{a0}'
    ||| c == '\u{1680}'
    ||| '\u{2000}' <= c <= '\u{200a}'
    ||| c == '\u{2028}'
    ||| c == '\u{2029}'
    ||| c == '\u{202f}'
    ||| c == '\u{205f}'
    ||| c == '\u{3000}'
}

/// `char::is_whitespace` tells whether a character has the Unicode property
/// `White_Space`.
pub assume_specification[ char::is_whitespace ](c: char) -> (r: bool)
    ensures
        r == white_space(c),
;

/// `std::str::from_utf8` accepts exactly the valid UTF-8 byte strings, and
/// returns the text that they encode.
#[verifier::external_body]
pub(crate) fn utf8_text(bytes: &[u8]) -> (r: Option<&str>)
    ensures
        r is Some <==> valid_utf8(bytes@),
        r matches Some(s) ==> encode_utf8(s@) == bytes@,
{
    std::str::from_utf8(bytes).ok()
}

// ---------------------------------------------------------------------------
// Small helpers
// ---------------------------------------------------------------------------

/// The characters of each string of a list.
pub open spec fn texts(list: Seq<String>) -> Seq<Seq<char>> {
    list.map_values(|s: String| s@)
}

/// The characters of an optional string.
pub open spec fn opt_text(o: Option<String>) -> Option<Seq<char>> {
    match o {
        Some(s) => Some(s@),
        None => None,
    }
}

/// The characters of an optional text.
pub open spec fn opt_str(o: Option<&str>) -> Option<Seq<char>> {
    match o {
        Some(s) => Some(s@),
        None => None,
    }
}

/// The encoding of two texts, one after the other, is their encodings, one after the
/// other.
pub proof fn lemma_encode_concat(a: Seq<char>, b: Seq<char>)
    ensures
        encode_utf8(a + b) == encode_utf8(a) + encode_utf8(b),
    decreases a.len(),
{
    if a.len() == 0 {
        assert(a + b =~= b);
        assert(encode_utf8(a) + encode_utf8(b) =~= encode_utf8(b));
    } else {
        assert((a + b).drop_first() =~= a.drop_first() + b);
        lemma_encode_concat(a.drop_first(), b);
        assert(encode_utf8(a + b) =~= encode_utf8(a) + encode_utf8(b));
    }
}

/// Whether two texts are equal.
pub fn same_text(a: &str, b: &str) -> (r: bool)
    ensures
        r == (a@ == b@),
{
    a.to_owned() == b.to_owned()
}

/// The number of bytes of a text.
pub fn byte_len(s: &str) -> (n: usize)
    ensures
        n == encode_utf8(s@).len(),
{
    s.as_bytes().len()
}

/// Three texts, one after the other.
pub fn concat3(a: &str, b: &str, c: &str) -> (r: String)
    ensures
        r@ == a@ + b@ + c@,
{
    let mut r = a.to_owned();
    r.append(b);
    r.append(c);
    r
}

/// Two texts, one after the other.
pub fn concat2(a: &str, b: &str) -> (r: String)
    ensures
        r@ == a@ + b@,
{
    let mut r = a.to_owned();
    r.append(b);
    r
}

/// The characters of a text, in order.
pub fn chars_of(s: &str) -> (v: Vec<char>)
    ensures
        v@ == s@,
{
    let mut v: Vec<char> = Vec::new();
    for c in it: s.chars()
        invariant
            v@ == s@.take(it.index()),
            it.seq() == s@,
    {
        v.push(c);
        assert(s@.take(it.index()).push(c) =~= s@.take(it.index() + 1));
    }
    assert(s@.take(s@.len() as int) =~= s@);
    v
}

// ---------------------------------------------------------------------------
// Byte positions
// ---------------------------------------------------------------------------

/// How many bytes the first `n` characters of a text take.
pub open spec fn offset(s: Seq<char>, n: nat) -> nat {
    encode_utf8(s.take(n as int)).len()
}

/// How many whole characters at the front of a text fit into so many bytes.
pub open spec fn fitting(s: Seq<char>, bytes: nat) -> nat
    decreases s.len(),
{
    if s.len() == 0 || encode_scalar(s[0] as u32).len() > bytes {
        0
    } else {
        1 + fitting(s.drop_first(), (bytes - encode_scalar(s[0] as u32).len()) as nat)
    }
}

/// One more character takes at least one more byte, and at most four.
pub proof fn lemma_offset_step(s: Seq<char>, n: nat)
    requires
        n < s.len(),
    ensures
        offset(s, n + 1) == offset(s, n) + encode_scalar(s[n as int] as u32).len(),
        1 <= encode_scalar(s[n as int] as u32).len() <= 4,
{
    let c = s[n as int];
    assert(s.take(n as int + 1) =~= s.take(n as int) + seq![c]);
    lemma_encode_concat(s.take(n as int), seq![c]);
    lemma_encode_char(c);
}

/// The encoding of a text of one character is the encoding of the character.
pub proof fn lemma_encode_char(c: char)
    ensures
        encode_utf8(seq![c]) == encode_scalar(c as u32),
{
    assert(seq![c].drop_first() =~= Seq::<char>::empty());
    assert(encode_utf8(Seq::<char>::empty()) =~= Seq::<u8>::empty());
    assert(encode_utf8(seq![c]) =~= encode_scalar(c as u32));
}

proof fn lemma_offset_front(s: Seq<char>, n: nat)
    requires
        0 < n <= s.len(),
    ensures
        offset(s, n) == encode_scalar(s[0] as u32).len() + offset(s.drop_first(), (n - 1) as nat),
{
    assert(s.take(n as int).drop_first() =~= s.drop_first().take(n - 1));
}

/// The characters that fit are those that end at or before the byte position; the next
/// one ends beyond it.
pub proof fn lemma_fitting(s: Seq<char>, bytes: nat)
    ensures
        fitting(s, bytes) <= s.len(),
        offset(s, fitting(s, bytes)) <= bytes,
        fitting(s, bytes) < s.len() ==> offset(s, fitting(s, bytes) + 1) > bytes,
    decreases s.len(),
{
    assert(s.take(0) =~= Seq::<char>::empty());
    assert(encode_utf8(Seq::<char>::empty()) =~= Seq::<u8>::empty());
    if s.len() > 0 {
        lemma_offset_step(s, 0);
        let w = encode_scalar(s[0] as u32).len();
        if w <= bytes {
            let rest = s.drop_first();
            let left = (bytes - w) as nat;
            lemma_fitting(rest, left);
            lemma_offset_front(s, fitting(s, bytes));
            if fitting(s, bytes) < s.len() {
                lemma_offset_front(s, fitting(s, bytes) + 1);
            }
        }
    }
}

/// No more characters fit than end at or before the byte position.
pub proof fn lemma_fitting_is(s: Seq<char>, bytes: nat, n: nat)
    requires
        n <= s.len(),
        offset(s, n) <= bytes,
        n < s.len() ==> offset(s, n + 1) > bytes,
    ensures
        fitting(s, bytes) == n,
{
    let f = fitting(s, bytes);
    lemma_fitting(s, bytes);
    if n < f {
        lemma_offset_monotonic(s, n + 1, f);
    }
    if f < n {
        lemma_offset_monotonic(s, f + 1, n);
    }
}

/// More characters take more bytes.
pub proof fn lemma_offset_monotonic(s: Seq<char>, a: nat, b: nat)
    requires
        a <= b <= s.len(),
    ensures
        offset(s, a) + (b - a) <= offset(s, b),
    decreases b - a,
{
    if a < b {
        lemma_offset_step(s, a);
        lemma_offset_monotonic(s, a + 1, b);
    }
}

/// At the end of some characters, exactly these fit.
pub proof fn lemma_fitting_offset(s: Seq<char>, n: nat)
    requires
        n <= s.len(),
    ensures
        fitting(s, offset(s, n)) == n,
{
    if n < s.len() {
        lemma_offset_step(s, n);
    }
    lemma_fitting_is(s, offset(s, n), n);
}

/// How many bytes the first characters of a text take.
pub fn byte_offset(s: &str, n: usize) -> (r: usize)
    requires
        n <= s@.len(),
    ensures
        r == offset(s@, n as nat),
{
    let head = s.substring_char(0, n);
    assert(head@ =~= s@.take(n as int));
    byte_len(head)
}

/// How many bytes a character takes.
fn char_width(c: char) -> (n: usize)
    ensures
        n == encode_scalar(c as u32).len(),
{
    let code: u32 = c as u32;
    if code <= 0x7F {
        1
    } else if code <= 0x7FF {
        2
    } else if code <= 0xFFFF {
        3
    } else {
        proof {
            char_is_scalar(c);
        }
        4
    }
}

/// How many whole characters at the front of a text fit into so many bytes.
pub fn chars_fitting(s: &str, bytes: usize) -> (n: usize)
    ensures
        n == fitting(s@, bytes as nat),
        n <= s@.len(),
{
    let v = chars_of(s);
    let mut n: usize = 0;
    let mut left: usize = bytes;
    proof {
        assert(s@.take(0) =~= Seq::<char>::empty());
        assert(encode_utf8(Seq::<char>::empty()) =~= Seq::<u8>::empty());
    }
    while n < v.len()
        invariant
            v@ == s@,
            n <= v.len(),
            left <= bytes,
            offset(s@, n as nat) == bytes - left,
        decreases v.len() - n,
    {
        proof {
            lemma_offset_step(s@, n as nat);
        }
        let w: usize = char_width(v[n]);
        if w > left {
            proof {
                lemma_fitting_is(s@, bytes as nat, n as nat);
            }
            return n;
        }
        left = left - w;
        n = n + 1;
    }
    proof {
        lemma_fitting_is(s@, bytes as nat, n as nat);
    }
    n
}

/// As much of the front of a text as fits into so many bytes.
pub fn cut(s: &str, bytes: usize) -> (r: &str)
    ensures
        r@ == s@.take(fitting(s@, bytes as nat) as int),
{
    let n: usize = chars_fitting(s, bytes);
    let r = s.substring_char(0, n);
    assert(r@ =~= s@.take(n as int));
    r
}

// ---------------------------------------------------------------------------
// Decimal numerals
// ---------------------------------------------------------------------------

/// The decimal numeral of a number, without leading zeros.
pub open spec fn decimal(n: nat) -> Seq<char>
    decreases n,
{
    if n < 10 {
        seq![digit_char(n)]
    } else {
        decimal(n / 10).push(digit_char(n % 10))
    }
}

/// The character of a decimal digit.
pub open spec fn digit_char(d: nat) -> char {
    (48 + d) as char
}

/// Whether a character is one of `0` to `9`.
pub open spec fn is_digit(c: char) -> bool {
    '0' <= c <= '9'
}

/// Whether a text holds decimal digits only.
pub open spec fn all_digits(s: Seq<char>) -> bool {
    forall|i: int| 0 <= i < s.len() ==> is_digit(#[trigger] s[i])
}

/// The number that a string of decimal digits stands for.
pub open spec fn decimal_value(s: Seq<char>) -> nat
    decreases s.len(),
{
    if s.len() == 0 {
        0
    } else {
        decimal_value(s.drop_last()) * 10 + (s.last() as nat - 48) as nat
    }
}

/// A numeral of the integer type `u64`: an optional plus sign, then one or more
/// decimal digits, whose value fits.
pub open spec fn parsed_u64(s: Seq<char>) -> Option<u64> {
    let digits = if s.len() > 0 && s[0] == '+' { s.skip(1) } else { s };
    if digits.len() > 0 && all_digits(digits) && decimal_value(digits) <= u64::MAX {
        Some(decimal_value(digits) as u64)
    } else {
        None
    }
}

/// Writes a number in decimal.
pub fn decimal_string(n: u64) -> (s: String)
    ensures
        s@ == decimal(n as nat),
    decreases n,
{
    if n < 10 {
        let mut s = String::new();
        let d: u8 = 48 + (n as u8);
        s.push(d as char);
        s
    } else {
        let mut s = decimal_string(n / 10);
        let d: u8 = 48 + ((n % 10) as u8);
        s.push(d as char);
        s
    }
}

proof fn lemma_decimal_value_monotonic(s: Seq<char>, i: int)
    requires
        0 <= i <= s.len(),
    ensures
        decimal_value(s.take(i)) <= decimal_value(s),
    decreases s.len(),
{
    if i == s.len() {
        assert(s.take(i) =~= s);
    } else {
        assert(s.drop_last().take(i) =~= s.take(i));
        lemma_decimal_value_monotonic(s.drop_last(), i);
    }
}

/// Reads a `u64` numeral.
pub fn parse_u64(s: &str) -> (r: Option<u64>)
    ensures
        r == parsed_u64(s@),
{
    let v = chars_of(s);
    let n: usize = v.len();
    let start: usize = if n > 0 && v[0] == '+' { 1 } else { 0 };
    let ghost digits = if s@.len() > 0 && s@[0] == '+' { s@.skip(1) } else { s@ };
    assert(digits =~= s@.skip(start as int));
    if start == n {
        return None;
    }
    let mut i: usize = start;
    let mut value: u64 = 0;
    while i < n
        invariant
            n == v.len(),
            v@ == s@,
            start <= i <= n,
            start <= 1,
            digits == s@.skip(start as int),
            digits.len() == n - start,
            digits == (if s@.len() > 0 && s@[0] == '+' { s@.skip(1) } else { s@ }),
            forall|j: int| 0 <= j < i - start ==> is_digit(#[trigger] digits[j]),
            value == decimal_value(digits.take(i - start)),
        decreases n - i,
    {
        let c: char = v[i];
        assert(digits[i - start] == c);
        if !('0' <= c && c <= '9') {
            assert(!is_digit(digits[i - start]));
            return None;
        }
        let d: u64 = (c as u64) - 48;
        let ghost k = i - start;
        assert(digits.take(k + 1).drop_last() =~= digits.take(k));
        assert(decimal_value(digits.take(k + 1)) == value * 10 + d);
        proof {
            lemma_decimal_value_monotonic(digits, k + 1);
        }
        if value > (u64::MAX - d) / 10 {
            return None;
        }
        value = value * 10 + d;
        i = i + 1;
    }
    assert(digits.take(n - start) =~= digits);
    Some(value)
}

/// A decimal numeral is never empty, and holds digits only.
pub proof fn lemma_decimal_digits(n: nat)
    ensures
        decimal(n).len() > 0,
        all_digits(decimal(n)),
    decreases n,
{
    if n >= 10 {
        lemma_decimal_digits(n / 10);
    }
}

proof fn lemma_decimal_value(n: nat)
    ensures
        decimal_value(decimal(n)) == n,
    decreases n,
{
    if n < 10 {
        assert(decimal(n).drop_last() =~= Seq::<char>::empty());
        assert(decimal(n).last() == digit_char(n));
        assert(decimal_value(decimal(n).drop_last()) == 0);
    } else {
        lemma_decimal_value(n / 10);
        assert(decimal(n).drop_last() =~= decimal(n / 10));
        assert(decimal(n).last() == digit_char(n % 10));
    }
}

/// Reading back the decimal numeral of a number gives the number.
pub proof fn decimal_round_trip(n: u64)
    ensures
        parsed_u64(decimal(n as nat)) == Some(n),
{
    lemma_decimal_digits(n as nat);
    lemma_decimal_value(n as nat);
    assert(is_digit(decimal(n as nat)[0]));
}

/// The decimal numeral of a `u64` has at most 20 digits.
pub proof fn lemma_decimal_len(n: u64)
    ensures
        decimal(n as nat).len() <= 20,
{
    reveal_with_fuel(decimal, 20);
}

// ---------------------------------------------------------------------------
// Delimited fields
// ---------------------------------------------------------------------------

/// The fields of a text between delimiters, `n` at most: the last field holds
/// whatever is left, delimiters included.
pub open spec fn fields(s: Seq<char>, delimiter: char, n: nat) -> Seq<Seq<char>>
    decreases n,
{
    match s.index_of_first(delimiter) {
        Some(i) if n > 1 => seq![s.take(i)] + fields(s.skip(i + 1), delimiter, (n - 1) as nat),
        _ => seq![s],
    }
}

/// Splits a text at the delimiter into `n` fields at most.
pub fn split_fields(s: &str, delimiter: char, n: usize) -> (r: Vec<String>)
    requires
        n > 0,
    ensures
        texts(r@) == fields(s@, delimiter, n as nat),
{
    let v = chars_of(s);
    let len: usize = v.len();
    let mut r: Vec<String> = Vec::new();
    let mut start: usize = 0;
    let mut i: usize = 0;
    assert(s@.skip(0) =~= s@);
    assert(texts(r@) + fields(s@, delimiter, n as nat) =~= fields(s@, delimiter, n as nat));
    while i < len && r.len() + 1 < n
        invariant
            len == v.len(),
            v@ == s@,
            start <= i <= len,
            r.len() < n,
            forall|j: int| start <= j < i ==> s@[j] != delimiter,
            texts(r@) + fields(s@.skip(start as int), delimiter, (n - r.len()) as nat) == fields(
                s@,
                delimiter,
                n as nat,
            ),
        decreases len - i,
    {
        if v[i] == delimiter {
            let ghost rest = s@.skip(start as int);
            let ghost before = texts(r@);
            let ghost left = (n - r.len()) as nat;
            proof {
                lemma_first_index(rest, delimiter, i - start);
                assert(rest.skip(i - start + 1) =~= s@.skip(i + 1));
                assert(rest.take(i - start) =~= s@.subrange(start as int, i as int));
            }
            let field = s.substring_char(start, i).to_owned();
            r.push(field);
            proof {
                assert(texts(r@) =~= before.push(field@));
                assert(before + fields(rest, delimiter, left) =~= texts(r@) + fields(
                    s@.skip(i + 1),
                    delimiter,
                    (left - 1) as nat,
                ));
            }
            start = i + 1;
        }
        i = i + 1;
    }
    let ghost rest = s@.skip(start as int);
    let ghost before = texts(r@);
    proof {
        if r.len() + 1 < n {
            assert(i == len);
            lemma_no_index(rest, delimiter);
        }
        assert(fields(rest, delimiter, (n - r.len()) as nat) == seq![rest]);
        assert(rest =~= s@.subrange(start as int, len as int));
    }
    let last = s.substring_char(start, len).to_owned();
    r.push(last);
    assert(texts(r@) =~= before + seq![rest]);
    r
}

/// The first place of a character is the one that no earlier place matches.
pub proof fn lemma_first_index(s: Seq<char>, c: char, i: int)
    requires
        0 <= i < s.len(),
        s[i] == c,
        forall|j: int| 0 <= j < i ==> s[j] != c,
    ensures
        s.index_of_first(c) == Some(i),
{
    s.index_of_first_ensures(c);
    assert(s.contains(c));
}

/// A character that is nowhere in a text has no first place.
pub proof fn lemma_no_index(s: Seq<char>, c: char)
    requires
        forall|j: int| 0 <= j < s.len() ==> s[j] != c,
    ensures
        s.index_of_first(c) is None,
{
    s.index_of_first_ensures(c);
}

/// Texts one after the other, with a separator between them.
pub open spec fn joined(list: Seq<Seq<char>>, separator: Seq<char>) -> Seq<char>
    decreases list.len(),
{
    if list.len() == 0 {
        Seq::empty()
    } else if list.len() == 1 {
        list[0]
    } else {
        joined(list.drop_last(), separator) + separator + list.last()
    }
}

/// Joins texts with a separator.
pub fn join(list: &Vec<String>, separator: &str) -> (r: String)
    ensures
        r@ == joined(texts(list@), separator@),
{
    let mut r = String::new();
    let mut i: usize = 0;
    assert(texts(list@.take(0)) =~= Seq::empty());
    while i < list.len()
        invariant
            i <= list.len(),
            r@ == joined(texts(list@.take(i as int)), separator@),
        decreases list.len() - i,
    {
        let ghost done = texts(list@.take(i as int));
        let ghost next = texts(list@.take(i + 1));
        if i > 0 {
            r.append(separator);
        }
        r.append(list[i].as_str());
        proof {
            assert(next.drop_last() =~= done);
            assert(next.last() == list@[i as int]@);
            if i == 0 {
                assert(r@ =~= next[0]);
            }
        }
        i = i + 1;
    }
    assert(list@.take(list@.len() as int) =~= list@);
    r
}

/// What follows a slash at the front of a text.
pub open spec fn after_slash(s: Seq<char>) -> Option<Seq<char>> {
    if s.len() > 0 && s[0] == '/' {
        Some(s.skip(1))
    } else {
        None
    }
}

/// Takes the slash off the front of a text, where there is one.
pub fn strip_slash(s: &str) -> (r: Option<String>)
    ensures
        opt_text(r) == after_slash(s@),
{
    let n: usize = s.unicode_len();
    if n > 0 && s.get_char(0) == '/' {
        let rest = s.substring_char(1, n).to_owned();
        assert(rest@ =~= s@.skip(1));
        Some(rest)
    } else {
        None
    }
}

// ---------------------------------------------------------------------------
// White space
// ---------------------------------------------------------------------------

/// A text without its leading white space.
pub open spec fn trim_start(s: Seq<char>) -> Seq<char>
    decreases s.len(),
{
    if s.len() > 0 && white_space(s[0]) {
        trim_start(s.skip(1))
    } else {
        s
    }
}

/// A text without its trailing white space.
pub open spec fn trim_end(s: Seq<char>) -> Seq<char>
    decreases s.len(),
{
    if s.len() > 0 && white_space(s.last()) {
        trim_end(s.drop_last())
    } else {
        s
    }
}

/// A text without white space at either end.
pub open spec fn trimmed(s: Seq<char>) -> Seq<char> {
    trim_end(trim_start(s))
}

/// How many characters stand before the first white space.
pub open spec fn word_len(s: Seq<char>) -> nat
    decreases s.len(),
{
    if s.len() > 0 && !white_space(s[0]) {
        1 + word_len(s.skip(1))
    } else {
        0
    }
}

/// The words of a text: the longest runs of characters without white space.
pub open spec fn words(s: Seq<char>) -> Seq<Seq<char>>
    decreases s.len(),
{
    proof {
        lemma_trim_start_len(s);
        lemma_word_len(trim_start(s));
    }
    let t = trim_start(s);
    if t.len() == 0 {
        seq![]
    } else {
        seq![t.take(word_len(t) as int)] + words(t.skip(word_len(t) as int))
    }
}

/// Trimming never lengthens a text, and leaves no white space in front.
pub proof fn lemma_trim_start_len(s: Seq<char>)
    ensures
        trim_start(s).len() <= s.len(),
        trim_start(s).len() > 0 ==> !white_space(trim_start(s)[0]),
    decreases s.len(),
{
    if s.len() > 0 && white_space(s[0]) {
        lemma_trim_start_len(s.skip(1));
    }
}

/// The first word lies inside its text, and is not empty where one starts.
pub proof fn lemma_word_len(s: Seq<char>)
    ensures
        word_len(s) <= s.len(),
        s.len() > 0 && !white_space(s[0]) ==> word_len(s) >= 1,
    decreases s.len(),
{
    if s.len() > 0 && !white_space(s[0]) {
        lemma_word_len(s.skip(1));
    }
}

proof fn lemma_trim_end(s: Seq<char>)
    ensures
        trim_end(s).len() <= s.len(),
        trim_end(s) == s.take(trim_end(s).len() as int),
        trim_end(trim_end(s)) == trim_end(s),
    decreases s.len(),
{
    if s.len() > 0 && white_space(s.last()) {
        lemma_trim_end(s.drop_last());
        let n = trim_end(s).len() as int;
        assert(s.drop_last().take(n) =~= s.take(n));
    } else {
        assert(s.take(s.len() as int) =~= s);
    }
}

/// Trimming a text that was trimmed changes nothing.
pub proof fn trimming_is_idempotent(s: Seq<char>)
    ensures
        trimmed(trimmed(s)) == trimmed(s),
{
    let t = trim_start(s);
    lemma_trim_start_len(s);
    lemma_trim_end(t);
    let r = trim_end(t);
    if r.len() > 0 {
        assert(r[0] == t[0]);
    }
    assert(trim_start(r) == r);
}

proof fn lemma_trim_start_step(s: Seq<char>, i: int)
    requires
        0 <= i < s.len(),
        white_space(s[i]),
    ensures
        trim_start(s.skip(i)) == trim_start(s.skip(i + 1)),
{
    assert(s.skip(i).skip(1) =~= s.skip(i + 1));
}

/// Removes the white space at both ends of a text.
pub fn trim_text(s: &str) -> (r: String)
    ensures
        r@ == trimmed(s@),
{
    let v = chars_of(s);
    let n: usize = v.len();
    let mut start: usize = 0;
    assert(s@.skip(0) =~= s@);
    while start < n && v[start].is_whitespace()
        invariant
            n == v.len(),
            v@ == s@,
            start <= n,
            trim_start(s@.skip(start as int)) == trim_start(s@),
        decreases n - start,
    {
        proof {
            lemma_trim_start_step(s@, start as int);
        }
        start = start + 1;
    }
    let ghost t = s@.skip(start as int);
    assert(trim_start(s@) == t) by {
        if start < n {
            assert(!white_space(t[0]));
        }
    }
    let mut end: usize = n;
    assert(s@.subrange(start as int, n as int) =~= t);
    while end > start && v[end - 1].is_whitespace()
        invariant
            n == v.len(),
            v@ == s@,
            start <= end <= n,
            trim_end(s@.subrange(start as int, end as int)) == trim_end(t),
        decreases end,
    {
        assert(s@.subrange(start as int, end as int).drop_last() =~= s@.subrange(
            start as int,
            end - 1,
        ));
        end = end - 1;
    }
    s.substring_char(start, end).to_owned()
}

/// Splits a text into its words.
pub fn split_words(s: &str) -> (r: Vec<String>)
    ensures
        texts(r@) == words(s@),
{
    let v = chars_of(s);
    let n: usize = v.len();
    let mut r: Vec<String> = Vec::new();
    let mut i: usize = 0;
    assert(s@.skip(0) =~= s@);
    assert(texts(r@) + words(s@) =~= words(s@));
    while i < n
        invariant
            n == v.len(),
            v@ == s@,
            i <= n,
            texts(r@) + words(s@.skip(i as int)) == words(s@),
        decreases n - i,
    {
        if v[i].is_whitespace() {
            proof {
                lemma_trim_start_step(s@, i as int);
                lemma_words_trim(s@.skip(i as int), s@.skip(i + 1));
            }
            i = i + 1;
        } else {
            let ghost rest = s@.skip(i as int);
            let mut end: usize = i;
            while end < n && !v[end].is_whitespace()
                invariant
                    n == v.len(),
                    v@ == s@,
                    i <= end <= n,
                    i < n,
                    !white_space(s@[i as int]),
                    rest == s@.skip(i as int),
                    word_len(rest) == (end - i) + word_len(s@.skip(end as int)),
                decreases n - end,
            {
                assert(s@.skip(end as int).skip(1) =~= s@.skip(end + 1));
                end = end + 1;
            }
            assert(word_len(s@.skip(end as int)) == 0);
            let ghost before = texts(r@);
            let word = s.substring_char(i, end).to_owned();
            r.push(word);
            proof {
                lemma_word_len(rest);
                assert(rest[0] == s@[i as int]);
                assert(trim_start(rest) == rest);
                assert(rest.take(end - i) =~= word@);
                assert(rest.skip(end - i) =~= s@.skip(end as int));
                assert(texts(r@) =~= before.push(word@));
                assert(before + words(rest) =~= texts(r@) + words(s@.skip(end as int)));
            }
            i = end;
        }
    }
    assert(s@.skip(n as int) =~= Seq::<char>::empty());
    assert(words(Seq::<char>::empty()) =~= seq![]);
    assert(texts(r@) + words(s@.skip(n as int)) =~= texts(r@));
    r
}

proof fn lemma_words_trim(a: Seq<char>, b: Seq<char>)
    requires
        trim_start(a) == trim_start(b),
    ensures
        words(a) == words(b),
{
}

// ---------------------------------------------------------------------------
// Laws
// ---------------------------------------------------------------------------

/// Whether a text holds white space only.
pub open spec fn blank(s: Seq<char>) -> bool {
    forall|i: int| 0 <= i < s.len() ==> white_space(#[trigger] s[i])
}

/// Whether a text is one word: some characters, none of which is white space.
pub open spec fn is_word(s: Seq<char>) -> bool {
    s.len() > 0 && forall|i: int| 0 <= i < s.len() ==> !white_space(#[trigger] s[i])
}

proof fn lemma_trim_start_blank(a: Seq<char>, t: Seq<char>)
    requires
        blank(a),
        t.len() > 0 ==> !white_space(t[0]),
    ensures
        trim_start(a + t) == t,
    decreases a.len(),
{
    if a.len() > 0 {
        assert((a + t)[0] == a[0]);
        assert((a + t).skip(1) =~= a.skip(1) + t);
        assert(blank(a.skip(1))) by {
            assert forall|i: int| 0 <= i < a.skip(1).len() implies white_space(
                #[trigger] a.skip(1)[i],
            ) by {
                assert(a.skip(1)[i] == a[i + 1]);
            }
        }
        lemma_trim_start_blank(a.skip(1), t);
    } else {
        assert(a + t =~= t);
    }
}

proof fn lemma_trim_end_blank(t: Seq<char>, b: Seq<char>)
    requires
        blank(b),
        t.len() > 0 ==> !white_space(t.last()),
    ensures
        trim_end(t + b) == t,
    decreases b.len(),
{
    if b.len() > 0 {
        assert((t + b).last() == b.last());
        assert((t + b).drop_last() =~= t + b.drop_last());
        assert(blank(b.drop_last()));
        lemma_trim_end_blank(t, b.drop_last());
    } else {
        assert(t + b =~= t);
    }
}

/// Trimming leaves what stands between the white space at both ends, as it is.
pub proof fn trimming_leaves_what_stands_between(a: Seq<char>, s: Seq<char>, b: Seq<char>)
    requires
        blank(a),
        blank(b),
        s.len() > 0 ==> !white_space(s[0]) && !white_space(s.last()),
    ensures
        trimmed(a + s + b) == s,
{
    if s.len() > 0 {
        assert(a + s + b =~= a + (s + b));
        assert((s + b)[0] == s[0]);
        lemma_trim_start_blank(a, s + b);
        lemma_trim_end_blank(s, b);
    } else {
        let e = Seq::<char>::empty();
        assert(a + s + b =~= (a + b) + e);
        assert forall|i: int| 0 <= i < (a + b).len() implies white_space(
            #[trigger] (a + b)[i],
        ) by {
            if i < a.len() {
                assert((a + b)[i] == a[i]);
            } else {
                assert((a + b)[i] == b[i - a.len()]);
            }
        }
        lemma_trim_start_blank(a + b, e);
        assert(trim_end(e) == e);
        assert(s =~= e);
    }
}

/// A text of white space has no words.
pub proof fn blank_text_has_no_words(s: Seq<char>)
    requires
        blank(s),
    ensures
        words(s) == Seq::<Seq<char>>::empty(),
{
    assert(s + Seq::empty() =~= s);
    lemma_trim_start_blank(s, Seq::empty());
}

proof fn lemma_word_len_is(w: Seq<char>, rest: Seq<char>)
    requires
        forall|i: int| 0 <= i < w.len() ==> !white_space(#[trigger] w[i]),
        rest.len() > 0 ==> white_space(rest[0]),
    ensures
        word_len(w + rest) == w.len(),
    decreases w.len(),
{
    if w.len() > 0 {
        assert((w + rest)[0] == w[0]);
        assert((w + rest).skip(1) =~= w.skip(1) + rest);
        assert forall|i: int| 0 <= i < w.skip(1).len() implies !white_space(
            #[trigger] w.skip(1)[i],
        ) by {
            assert(w.skip(1)[i] == w[i + 1]);
        }
        lemma_word_len_is(w.skip(1), rest);
    } else {
        assert(w + rest =~= rest);
    }
}

/// A text is split into words at white space, of which any amount may stand before and
/// between them: the first word comes first, and then the words of what follows it.
pub proof fn words_stand_between_white_space(a: Seq<char>, w: Seq<char>, rest: Seq<char>)
    requires
        blank(a),
        is_word(w),
        rest.len() > 0 ==> white_space(rest[0]),
    ensures
        words(a + w + rest) == seq![w] + words(rest),
{
    let t = w + rest;
    assert(t[0] == w[0]);
    assert(a + w + rest =~= a + t);
    lemma_trim_start_blank(a, t);
    lemma_word_len_is(w, rest);
    assert(t.take(w.len() as int) =~= w);
    assert(t.skip(w.len() as int) =~= rest);
}

/// A list of texts is joined by joining its parts: nothing comes before the first, and
/// nothing behind the last.
pub proof fn joining_goes_part_by_part(a: Seq<Seq<char>>, b: Seq<Seq<char>>, separator: Seq<char>)
    ensures
        joined(Seq::empty(), separator) == Seq::<char>::empty(),
        b.len() > 0 ==> joined(seq![b[0]], separator) == b[0],
        a.len() > 0 && b.len() > 0 ==> joined(a + b, separator) == joined(a, separator) + separator
            + joined(b, separator),
    decreases b.len(),
{
    if a.len() > 0 && b.len() > 0 {
        let all = a + b;
        assert(all.drop_last() =~= a + b.drop_last());
        assert(all.last() == b.last());
        if b.len() == 1 {
            assert(a + b.drop_last() =~= a);
        } else {
            joining_goes_part_by_part(a, b.drop_last(), separator);
            assert(joined(all, separator) =~= joined(a, separator) + separator + joined(
                b,
                separator,
            ));
        }
    }
}

/// A text is split at its first delimiters, until there are as many fields as asked for:
/// no field but the last holds a delimiter, and joining the fields gives the text again.
pub proof fn fields_make_up_the_text(s: Seq<char>, delimiter: char, n: nat)
    requires
        n > 0,
    ensures
        ({
            let parts = fields(s, delimiter, n);
            &&& 1 <= parts.len() <= n
            &&& joined(parts, seq![delimiter]) == s
            &&& forall|i: int|
                0 <= i < parts.len() - 1 ==> !(#[trigger] parts[i]).contains(delimiter)
            &&& parts.len() < n ==> !parts.last().contains(delimiter)
        }),
    decreases n,
{
    s.index_of_first_ensures(delimiter);
    let parts = fields(s, delimiter, n);
    match s.index_of_first(delimiter) {
        Some(i) => {
            if n > 1 {
                let head = s.take(i);
                let rest = s.skip(i + 1);
                let more = fields(rest, delimiter, (n - 1) as nat);
                fields_make_up_the_text(rest, delimiter, (n - 1) as nat);
                joining_goes_part_by_part(seq![head], more, seq![delimiter]);
                joining_goes_part_by_part(Seq::empty(), seq![head], seq![delimiter]);
                assert(s =~= head + seq![delimiter] + rest);
                assert(!head.contains(delimiter));
                assert forall|k: int| 0 <= k < parts.len() - 1 implies !(
                #[trigger] parts[k]).contains(delimiter) by {
                    if k > 0 {
                        assert(parts[k] == more[k - 1]);
                    }
                }
                assert(parts.last() == more.last());
            }
        },
        None => {
            assert(!s.contains(delimiter));
        },
    }
}

/// What follows a slash is the text without it; a text without a slash in front is no
/// command.
pub proof fn slash_marks_a_command(s: Seq<char>)
    ensures
        after_slash(seq!['/'] + s) == Some(s),
        s.len() == 0 || s[0] != '/' ==> after_slash(s) is None,
{
    assert((seq!['/'] + s).skip(1) =~= s);
}

/// A numeral has no leading zero, and its digits are those of the number: the last is
/// the number modulo ten, and those before are the numeral of a tenth of it.
pub proof fn numeral_is_shortest(n: nat)
    ensures
        n < 10 ==> decimal(n) == seq!["0123456789"@[n as int]],
        n >= 10 ==> decimal(n) == decimal(n / 10).push("0123456789"@[(n % 10) as int]),
        n > 0 ==> decimal(n)[0] != '0',
    decreases n,
{
    reveal_strlit("0123456789");
    if n >= 10 {
        numeral_is_shortest(n / 10);
        assert(decimal(n / 10).len() > 0) by {
            lemma_decimal_digits(n / 10);
        }
        assert(decimal(n)[0] == decimal(n / 10)[0]);
    }
}

/// A number may be read with a plus sign or zeros in front; what holds anything but
/// digits behind that, or nothing, is no number.
pub proof fn numbers_are_read_strictly(n: u64, s: Seq<char>)
    ensures
        parsed_u64(seq!['+'] + decimal(n as nat)) == Some(n),
        parsed_u64(seq!['0'] + decimal(n as nat)) == Some(n),
        parsed_u64(Seq::empty()) is None,
        parsed_u64(seq!['+']) is None,
        (exists|i: int|
            0 <= i < s.len() && !('0' <= #[trigger] s[i] <= '9') && (i > 0 || s[i] != '+'))
            ==> parsed_u64(s) is None,
        parsed_u64(s) matches Some(value) ==> {
            ||| value == decimal_value(s) && s.len() > 0 && s[0] != '+'
            ||| s.len() > 1 && s[0] == '+' && value == decimal_value(s.skip(1))
        },
{
    let d = decimal(n as nat);
    lemma_decimal_digits(n as nat);
    lemma_decimal_value(n as nat);
    assert((seq!['+'] + d).skip(1) =~= d);
    let z = seq!['0'] + d;
    lemma_leading_zero(d);
    assert forall|i: int| 0 <= i < z.len() implies is_digit(#[trigger] z[i]) by {
        if i > 0 {
            assert(z[i] == d[i - 1]);
        }
    }
    if exists|i: int|
        0 <= i < s.len() && !('0' <= #[trigger] s[i] <= '9') && (i > 0 || s[i] != '+') {
        let i = choose|i: int|
            0 <= i < s.len() && !('0' <= #[trigger] s[i] <= '9') && (i > 0 || s[i] != '+');
        if s[0] == '+' {
            assert(s.skip(1)[i - 1] == s[i]);
        }
    }
}

proof fn lemma_leading_zero(d: Seq<char>)
    ensures
        decimal_value(seq!['0'] + d) == decimal_value(d),
    decreases d.len(),
{
    let z = seq!['0'] + d;
    if d.len() == 0 {
        assert(z.drop_last() =~= Seq::<char>::empty());
        assert(decimal_value(z.drop_last()) == 0);
    } else {
        assert(z.drop_last() =~= seq!['0'] + d.drop_last());
        assert(z.last() == d.last());
        lemma_leading_zero(d.drop_last());
    }
}

/// The value of a numeral: each digit counts ten times as much as the one behind it.
pub proof fn digits_count_by_place(s: Seq<char>, d: nat)
    requires
        d < 10,
    ensures
        decimal_value(Seq::empty()) == 0,
        decimal_value(s.push("0123456789"@[d as int])) == 10 * decimal_value(s) + d,
{
    reveal_strlit("0123456789");
    let t = s.push("0123456789"@[d as int]);
    assert(t.drop_last() =~= s);
}

/// Lists of texts are seen text by text, in order, with nothing left out; and so is a text
/// that may be missing.
pub proof fn texts_are_seen_in_order(list: Seq<String>, i: int, s: String, t: &str)
    ensures
        texts(list).len() == list.len(),
        0 <= i < list.len() ==> texts(list)[i] == list[i]@,
        opt_text(Some(s)) == Some(s@),
        opt_text(None) is None,
        opt_str(Some(t)) == Some(t@),
        opt_str(None) is None,
{
}

} // verus!
