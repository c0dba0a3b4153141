//! JSON texts: strings and other values as the crate `serde_json` writes and reads them,
//! and what stands between the values of an object or a list.
use serde::de::IgnoredAny;
use serde_json::{Deserializer, Value};
use vstd::prelude::*;
use vstd::utf8::*;

use crate::codec;
use crate::text;

verus! {

// ---------------------------------------------------------------------------
// Writing
// ---------------------------------------------------------------------------

/// How a character is written in a JSON string.
pub open spec fn escape(c: char) -> Seq<char> {
    if c == '"' {
        seq!['\\', '"']
    } else if c == '\\' {
        seq!['\\', '\\']
    } else if c == '\u{8}' {
        seq!['\\', 'b']
    } else if c == '\u{9}' {
        seq!['\\', 't']
    } else if c == '\u{a}' {
        seq!['\\', 'n']
    } else if c == '\u{c}' {
        seq!['\\', 'f']
    } else if c == '\u{d}' {
        seq!['\\', 'r']
    } else if c <= '\u{1f}' {
        seq!['\\', 'u', '0', '0', codec::hex_char(c as int / 16), codec::hex_char(c as int % 16)]
    } else {
        seq![c]
    }
}

/// How characters are written in a JSON string, one after the other.
pub open spec fn escaped(s: Seq<char>) -> Seq<char>
    decreases s.len(),
{
    if s.len() == 0 {
        Seq::empty()
    } else {
        escape(s[0]) + escaped(s.skip(1))
    }
}

/// A text as a JSON string.
pub open spec fn quoted(s: Seq<char>) -> Seq<char> {
    seq!['"'] + escaped(s) + seq!['"']
}

/// A member of a JSON object whose value is a text.
pub open spec fn member_text(field: (Seq<char>, Seq<char>)) -> Seq<char> {
    quoted(field.0) + seq![':'] + quoted(field.1)
}

/// The members of a JSON object whose values are texts.
pub open spec fn members_text(fields: Seq<(Seq<char>, Seq<char>)>) -> Seq<char>
    decreases fields.len(),
{
    if fields.len() == 0 {
        Seq::empty()
    } else if fields.len() == 1 {
        member_text(fields[0])
    } else {
        member_text(fields[0]) + seq![','] + members_text(fields.skip(1))
    }
}

/// A JSON object whose values are texts, with its members in order and nothing between
/// them but what has to be there.
pub open spec fn object_text(fields: Seq<(Seq<char>, Seq<char>)>) -> Seq<char> {
    seq!['{'] + members_text(fields) + seq!['}']
}

/// `serde_json::Value::to_string` writes a text as a JSON string: in quotes, with quotes,
/// backslashes and control characters escaped, and any other character as it is.
#[verifier::external_body]
pub(crate) fn quote(s: &str) -> (r: String)
    ensures
        r@ == quoted(s@),
{
    Value::String(s.to_owned()).to_string()
}

// ---------------------------------------------------------------------------
// Values
// ---------------------------------------------------------------------------

/// What `serde_json` reads as a string at the front of some bytes, behind any white
/// space: the text, and how many bytes were read; `None` where there is no string.
pub uninterp spec fn json_text(bytes: Seq<u8>) -> Option<(Seq<char>, nat)>;

/// How many bytes `serde_json` passes over as a value at the front of some bytes, with any
/// white space before it; `None` where there is no value.
pub uninterp spec fn json_value(bytes: Seq<u8>) -> Option<nat>;

/// How `serde_json` describes why some bytes are not a JSON text; `None` where they are.
pub uninterp spec fn json_fault(bytes: Seq<u8>) -> Option<Seq<char>>;

/// A string that was read, with its text as characters.
pub open spec fn scan_view(r: Option<(String, usize)>) -> Option<(Seq<char>, nat)> {
    match r {
        Some((s, n)) => Some((s@, n as nat)),
        None => None,
    }
}

/// A number of bytes, if there is one.
pub open spec fn count_view(r: Option<usize>) -> Option<nat> {
    match r {
        Some(n) => Some(n as nat),
        None => None,
    }
}

/// `serde_json::StreamDeserializer` reads a string at the front of some bytes, and tells
/// where it ends. What comes out depends on the bytes alone; and a text that was written
/// as a JSON string is read back, whatever follows it.
#[verifier::external_body]
pub(crate) fn scan_text(bytes: &[u8]) -> (r: Option<(String, usize)>)
    ensures
        scan_view(r) == json_text(bytes@),
        r matches Some((_, n)) ==> n <= bytes@.len(),
        forall|s: Seq<char>|
            encode_utf8(#[trigger] quoted(s)).is_prefix_of(bytes@) ==> scan_view(r) == Some(
                (s, encode_utf8(quoted(s)).len()),
            ),
{
    let mut stream = Deserializer::from_slice(bytes).into_iter::<String>();
    let text = stream.next()?.ok()?;
    Some((text, stream.byte_offset()))
}

/// `serde_json::StreamDeserializer` passes over a value at the front of some bytes, and
/// tells where it ends. What comes out depends on the bytes alone.
#[verifier::external_body]
pub(crate) fn scan_value(bytes: &[u8]) -> (r: Option<usize>)
    ensures
        count_view(r) == json_value(bytes@),
        r matches Some(n) ==> n <= bytes@.len(),
{
    let mut stream = Deserializer::from_slice(bytes).into_iter::<IgnoredAny>();
    stream.next()?.ok()?;
    Some(stream.byte_offset())
}

/// `serde_json::from_slice`, which reads a whole JSON text, tells what is wrong with some
/// bytes, if anything. What comes out depends on the bytes alone; and an object whose
/// values are texts is a JSON text.
#[verifier::external_body]
pub(crate) fn find_fault(bytes: &[u8]) -> (r: Option<String>)
    ensures
        text::opt_text(r) == json_fault(bytes@),
        forall|fields: Seq<(Seq<char>, Seq<char>)>|
            bytes@ == encode_utf8(#[trigger] object_text(fields)) ==> r is None,
{
    serde_json::from_slice::<IgnoredAny>(bytes).err().map(|e| e.to_string())
}

/// The string at the front of some bytes, and the bytes behind it.
pub open spec fn text_at(s: Seq<u8>) -> Option<(Seq<char>, Seq<u8>)> {
    match json_text(s) {
        Some((x, n)) => if n <= s.len() {
            Some((x, s.skip(n as int)))
        } else {
            None
        },
        None => None,
    }
}

/// The bytes behind the value at the front of some bytes.
pub open spec fn value_at(s: Seq<u8>) -> Option<Seq<u8>> {
    match json_value(s) {
        Some(n) => if n <= s.len() {
            Some(s.skip(n as int))
        } else {
            None
        },
        None => None,
    }
}

/// A text and the bytes behind it, with the text as characters.
pub open spec fn text_view(r: Option<(String, &[u8])>) -> Option<(Seq<char>, Seq<u8>)> {
    match r {
        Some((x, rest)) => Some((x@, rest@)),
        None => None,
    }
}

/// Reads the string at the front of some bytes. A text that was written as a JSON string
/// is read back, whatever follows it.
pub fn read_text<'a>(s: &'a [u8]) -> (r: Option<(String, &'a [u8])>)
    ensures
        text_view(r) == text_at(s@),
        forall|x: Seq<char>, t: Seq<char>|
            s@ == encode_utf8(#[trigger] (quoted(x) + t)) ==> text_at(s@) == Some(
                (x, encode_utf8(t)),
            ),
{
    let scanned = scan_text(s);
    proof {
        assert forall|x: Seq<char>, t: Seq<char>|
            s@ == encode_utf8(#[trigger] (quoted(x) + t)) implies text_at(s@) == Some(
            (x, encode_utf8(t)),
        ) by {
            text::lemma_encode_concat(quoted(x), t);
            let n = encode_utf8(quoted(x)).len();
            assert(encode_utf8(quoted(x)).is_prefix_of(s@));
            assert(s@.skip(n as int) =~= encode_utf8(t));
        }
    }
    match scanned {
        None => None,
        Some((x, n)) => {
            let rest = &s[n..s.len()];
            assert(rest@ =~= s@.skip(n as int));
            Some((x, rest))
        },
    }
}

/// Passes over the value at the front of some bytes.
pub fn skip_value<'a>(s: &'a [u8]) -> (r: Option<&'a [u8]>)
    ensures
        match value_at(s@) {
            Some(rest) => r matches Some(t) && t@ == rest,
            None => r is None,
        },
{
    match scan_value(s) {
        None => None,
        Some(n) => {
            let rest = &s[n..s.len()];
            assert(rest@ =~= s@.skip(n as int));
            Some(rest)
        },
    }
}

// ---------------------------------------------------------------------------
// Between the values
// ---------------------------------------------------------------------------

/// The byte that opens an object: a brace.
pub const OPEN_OBJECT: u8 = 0x7b;

/// The byte that closes an object: a brace.
pub const CLOSE_OBJECT: u8 = 0x7d;

/// The byte that opens a list: a bracket.
pub const OPEN_LIST: u8 = 0x5b;

/// The byte that closes a list: a bracket.
pub const CLOSE_LIST: u8 = 0x5d;

/// The byte between a name and a value.
pub const COLON: u8 = 0x3a;

/// The byte between members.
pub const COMMA: u8 = 0x2c;

/// The byte at both ends of a string.
pub const QUOTE: u8 = 0x22;

/// Whether a byte is white space in a JSON text.
pub open spec fn is_space(b: u8) -> bool {
    b == 0x20 || b == 0x0a || b == 0x09 || b == 0x0d
}

/// The bytes behind any white space.
pub open spec fn after_space(s: Seq<u8>) -> Seq<u8>
    decreases s.len(),
{
    if s.len() > 0 && is_space(s[0]) {
        after_space(s.skip(1))
    } else {
        s
    }
}

/// Whether a byte comes next, behind any white space.
pub open spec fn starts(s: Seq<u8>, b: u8) -> bool {
    after_space(s).len() > 0 && after_space(s)[0] == b
}

/// The bytes behind the one that comes next.
pub open spec fn past(s: Seq<u8>) -> Seq<u8> {
    after_space(s).skip(1)
}

/// The bytes behind the literal `null`, if it comes next.
pub open spec fn null_at(s: Seq<u8>) -> Option<Seq<u8>> {
    let t = after_space(s);
    if t.len() >= 4 && t[0] == 0x6e && t[1] == 0x75 && t[2] == 0x6c && t[3] == 0x6c {
        Some(t.skip(4))
    } else {
        None
    }
}

/// White space only makes a text shorter.
pub proof fn lemma_after_space(s: Seq<u8>)
    ensures
        after_space(s).len() <= s.len(),
    decreases s.len(),
{
    if s.len() > 0 && is_space(s[0]) {
        lemma_after_space(s.skip(1));
    }
}

/// A character of the punctuation is found where it was written.
pub proof fn lemma_starts(c: char, t: Seq<char>)
    requires
        c == '{' || c == '}' || c == '[' || c == ']' || c == ':' || c == ',' || c == '"',
    ensures
        starts(encode_utf8(seq![c] + t), c as u8),
        past(encode_utf8(seq![c] + t)) == encode_utf8(t),
        after_space(encode_utf8(seq![c] + t)) == encode_utf8(seq![c] + t),
{
    let s = encode_utf8(seq![c] + t);
    text::lemma_encode_concat(seq![c], t);
    assert(is_ascii_chars(seq![c]));
    is_ascii_chars_encode_utf8(seq![c]);
    assert(encode_utf8(seq![c]) =~= seq![c as u8]);
    assert(s[0] == c as u8);
    assert(s.skip(1) =~= encode_utf8(t));
}

/// A string begins with a quote.
pub proof fn lemma_quoted_starts(x: Seq<char>, t: Seq<char>)
    ensures
        starts(encode_utf8(quoted(x) + t), QUOTE),
{
    assert(quoted(x) + t =~= seq!['"'] + (escaped(x) + seq!['"'] + t));
    lemma_starts('"', escaped(x) + seq!['"'] + t);
}

fn trim_space<'a>(s: &'a [u8]) -> (r: &'a [u8])
    ensures
        r@ == after_space(s@),
{
    let mut i: usize = 0;
    assert(s@.skip(0) =~= s@);
    while i < s.len() && (s[i] == 0x20 || s[i] == 0x0a || s[i] == 0x09 || s[i] == 0x0d)
        invariant
            i <= s.len(),
            after_space(s@) == after_space(s@.skip(i as int)),
        decreases s.len() - i,
    {
        assert(s@.skip(i as int).skip(1) =~= s@.skip(i + 1));
        assert(s@.skip(i as int)[0] == s@[i as int]);
        i = i + 1;
    }
    let r = &s[i..s.len()];
    assert(r@ =~= s@.skip(i as int));
    r
}

/// Passes over a byte, if it comes next.
pub fn eat<'a>(s: &'a [u8], b: u8) -> (r: Option<&'a [u8]>)
    ensures
        if starts(s@, b) {
            r matches Some(t) && t@ == past(s@)
        } else {
            r is None
        },
{
    let t = trim_space(s);
    if t.len() > 0 && t[0] == b {
        let rest = &t[1..t.len()];
        assert(rest@ =~= t@.skip(1));
        Some(rest)
    } else {
        None
    }
}

/// Passes over the literal `null`, if it comes next.
pub fn eat_null<'a>(s: &'a [u8]) -> (r: Option<&'a [u8]>)
    ensures
        match null_at(s@) {
            Some(rest) => r matches Some(t) && t@ == rest,
            None => r is None,
        },
{
    let t = trim_space(s);
    if t.len() >= 4 && t[0] == 0x6e && t[1] == 0x75 && t[2] == 0x6c && t[3] == 0x6c {
        let rest = &t[4..t.len()];
        assert(rest@ =~= t@.skip(4));
        Some(rest)
    } else {
        None
    }
}

/// Whether nothing but white space is left.
pub fn at_end(s: &[u8]) -> (b: bool)
    ensures
        b == (after_space(s@).len() == 0),
{
    trim_space(s).len() == 0
}

// ---------------------------------------------------------------------------
// Laws
// ---------------------------------------------------------------------------

/// White space is spaces, tabs and line ends, and nothing else: it is passed over, in any
/// amount, and what follows it is left as it is.
pub proof fn white_space_is_passed_over(w: Seq<u8>, t: Seq<u8>)
    requires
        forall|i: int|
            0 <= i < w.len() ==> #[trigger] w[i] == 0x20 || w[i] == 0x09 || w[i] == 0x0a || w[i]
                == 0x0d,
        t.len() > 0 ==> t[0] != 0x20 && t[0] != 0x09 && t[0] != 0x0a && t[0] != 0x0d,
    ensures
        after_space(w + t) == t,
    decreases w.len(),
{
    if w.len() > 0 {
        assert((w + t)[0] == w[0]);
        assert((w + t).skip(1) =~= w.skip(1) + t);
        assert forall|i: int| 0 <= i < w.skip(1).len() implies #[trigger] w.skip(1)[i] == 0x20
            || w.skip(1)[i] == 0x09 || w.skip(1)[i] == 0x0a || w.skip(1)[i] == 0x0d by {
            assert(w.skip(1)[i] == w[i + 1]);
        }
        white_space_is_passed_over(w.skip(1), t);
    } else {
        assert(w + t =~= t);
    }
}

/// What comes next is the first byte that is no white space, or the four of `null`; and it
/// is passed over exactly.
pub proof fn next_byte_is_found(w: Seq<u8>, b: u8, other: u8, t: Seq<u8>)
    requires
        forall|i: int|
            0 <= i < w.len() ==> #[trigger] w[i] == 0x20 || w[i] == 0x09 || w[i] == 0x0a || w[i]
                == 0x0d,
        b != 0x20 && b != 0x09 && b != 0x0a && b != 0x0d,
    ensures
        starts(w + (seq![b] + t), other) <==> other == b,
        past(w + (seq![b] + t)) == t,
        !starts(w, other),
        null_at(w + (seq![0x6eu8, 0x75u8, 0x6cu8, 0x6cu8] + t)) == Some(t),
        b != 0x6e ==> null_at(w + (seq![b] + t)) is None,
{
    let s = seq![b] + t;
    white_space_is_passed_over(w, s);
    assert(s.skip(1) =~= t);
    let e = Seq::<u8>::empty();
    white_space_is_passed_over(w, e);
    assert(w + e =~= w);
    let n = seq![0x6eu8, 0x75u8, 0x6cu8, 0x6cu8] + t;
    white_space_is_passed_over(w, n);
    assert(n.skip(4) =~= t);
}

/// A text or a value is followed by the bytes behind those that were read as such.
pub proof fn value_is_followed_by_the_rest(s: Seq<u8>, x: Seq<char>, n: nat)
    requires
        n <= s.len(),
    ensures
        json_text(s) == Some((x, n)) ==> text_at(s) == Some((x, s.skip(n as int))),
        json_text(s) is None ==> text_at(s) is None,
        json_value(s) == Some(n) ==> value_at(s) == Some(s.skip(n as int)),
        json_value(s) is None ==> value_at(s) is None,
{
}

} // verus!
