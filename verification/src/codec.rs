//! Base58 and hexadecimal, as the crates `base58` and `hex` write and read them.
use base58::{FromBase58, ToBase58};
use vstd::prelude::*;

use crate::numeral;
use crate::text;

verus! {

// ---------------------------------------------------------------------------
// Base58
// ---------------------------------------------------------------------------

/// The most bytes that a base58 token can stand for.
pub const BASE58_LIMIT: usize = 132;

/// The character of a base58 digit: `1` to `9`, the capital letters without `I`
/// and `O`, the small letters without `l`.
pub open spec fn base58_char(d: nat) -> char {
    if d < 9 {
        (49 + d) as char
    } else if d < 17 {
        (65 + (d - 9)) as char
    } else if d < 22 {
        (74 + (d - 17)) as char
    } else if d < 33 {
        (80 + (d - 22)) as char
    } else if d < 44 {
        (97 + (d - 33)) as char
    } else {
        (109 + (d - 44)) as char
    }
}

/// Whether a character is one of the 58.
pub open spec fn is_base58_char(c: char) -> bool {
    ||| '1' <= c <= '9'
    ||| 'A' <= c <= 'H'
    ||| 'J' <= c <= 'N'
    ||| 'P' <= c <= 'Z'
    ||| 'a' <= c <= 'k'
    ||| 'm' <= c <= 'z'
}

/// The digit that one of the 58 characters stands for.
pub open spec fn base58_digit(c: char) -> nat {
    if '1' <= c <= '9' {
        (c as int - 49) as nat
    } else if 'A' <= c <= 'H' {
        (c as int - 65 + 9) as nat
    } else if 'J' <= c <= 'N' {
        (c as int - 74 + 17) as nat
    } else if 'P' <= c <= 'Z' {
        (c as int - 80 + 22) as nat
    } else if 'a' <= c <= 'k' {
        (c as int - 97 + 33) as nat
    } else {
        (c as int - 109 + 44) as nat
    }
}

/// Whether a text is made of the 58 characters.
pub open spec fn is_base58(token: Seq<char>) -> bool {
    forall|i: int| 0 <= i < token.len() ==> is_base58_char(#[trigger] token[i])
}

/// The bytes of a byte string, as digits in base 256.
pub open spec fn byte_digits(bytes: Seq<u8>) -> Seq<nat> {
    bytes.map_values(|b: u8| b as nat)
}

/// Digits in base 256, as bytes.
pub open spec fn digit_bytes(digits: Seq<nat>) -> Seq<u8> {
    digits.map_values(|d: nat| d as u8)
}

/// The number that a base58 token stands for.
pub open spec fn base58_number(token: Seq<char>) -> nat {
    numeral::number(token.map_values(|c: char| base58_digit(c)), 58)
}

/// The base58 token of a byte string: a `1` for each leading zero byte, then the
/// bytes, read as one number, in base 58.
pub open spec fn base58_text(bytes: Seq<u8>) -> Seq<char> {
    numeral::copies(numeral::leading(bytes, 0u8), '1') + numeral::numeral(
        numeral::number(byte_digits(bytes), 256),
        58,
    ).map_values(|d: nat| base58_char(d))
}

/// The byte string that a token of base58 characters stands for: a zero byte for
/// each leading `1`, then the token's number in base 256.
pub open spec fn base58_value(token: Seq<char>) -> Seq<u8> {
    numeral::copies(numeral::leading(token, '1'), 0u8) + digit_bytes(
        numeral::numeral(base58_number(token), 256),
    )
}

/// What decoding a token gives: `None` where a character is not one of the 58, or
/// where the number has more than 132 bytes.
pub open spec fn base58_bytes(token: Seq<char>) -> Option<Seq<u8>> {
    if is_base58(token) && numeral::numeral(base58_number(token), 256).len() <= BASE58_LIMIT {
        Some(base58_value(token))
    } else {
        None
    }
}

/// Tokens whose number fits into 132 bytes, but not together with the zero bytes
/// that its leading `1`s ask for. The decoder cannot represent these.
pub open spec fn base58_overruns(token: Seq<char>) -> bool {
    base58_bytes(token) is Some && base58_value(token).len() > BASE58_LIMIT
}

/// How `base58` describes what is wrong with a token that it does not accept.
pub uninterp spec fn base58_fault(token: Seq<char>) -> Seq<char>;

/// `base58::ToBase58::to_base58` writes the token of a byte string. Its buffer
/// size is computed as a product with 138, which must not overflow.
#[verifier::external_body]
pub(crate) fn to_base58(bytes: &[u8]) -> (token: String)
    requires
        bytes@.len() * 138 <= usize::MAX,
    ensures
        token@ == base58_text(bytes@),
{
    bytes.to_base58()
}

/// `base58::FromBase58::from_base58` reads a token back. It fails exactly where a
/// character is foreign to base58 or the number needs more than 132 bytes, and
/// then the error, as `Debug` prints it, depends on the token alone. It panics on
/// tokens that overrun its buffer.
#[verifier::external_body]
pub(crate) fn from_base58(token: &str) -> (r: Result<Vec<u8>, String>)
    requires
        !base58_overruns(token@),
    ensures
        match base58_bytes(token@) {
            Some(bytes) => r matches Ok(v) && v@ == bytes,
            None => r matches Err(e) && e@ == base58_fault(token@),
        },
{
    token.from_base58().map_err(|e| format!("{:?}", e))
}

/// Whether a token overruns the decoder.
pub fn overruns(token: &str) -> (r: bool)
    ensures
        r == base58_overruns(token@),
{
    let v = text::chars_of(token);
    let n: usize = v.len();
    let mut ones: usize = 0;
    assert(token@.skip(0) =~= token@);
    while ones < n && v[ones] == '1'
        invariant
            n == v.len(),
            v@ == token@,
            ones <= n,
            numeral::leading(token@, '1') == ones + numeral::leading(token@.skip(ones as int), '1'),
        decreases n - ones,
    {
        assert(token@.skip(ones as int).skip(1) =~= token@.skip(ones + 1));
        ones = ones + 1;
    }
    let rest = token.substring_char(ones, n);
    proof {
        assert(rest@ =~= token@.skip(ones as int));
        assert(numeral::leading(rest@, '1') == 0);
        lemma_strip_ones(token@);
        assert(base58_value(rest@) =~= digit_bytes(
            numeral::numeral(base58_number(rest@), 256),
        ));
    }
    match from_base58(rest) {
        Ok(bytes) => ones > BASE58_LIMIT || ones + bytes.len() > BASE58_LIMIT,
        Err(_) => false,
    }
}

/// Without its leading `1`s a token stands for the same number.
proof fn lemma_strip_ones(token: Seq<char>)
    ensures
        base58_number(token.skip(numeral::leading(token, '1') as int)) == base58_number(token),
        is_base58(token.skip(numeral::leading(token, '1') as int)) == is_base58(token),
{
    let k = numeral::leading(token, '1');
    let rest = token.skip(k as int);
    numeral::lemma_leading(token, '1');
    let f = |c: char| base58_digit(c);
    assert(token.map_values(f) =~= numeral::copies(k, 0nat) + rest.map_values(f)) by {
        assert forall|i: int| 0 <= i < k implies token[i] == '1' by {
            assert(token[i] == (numeral::copies(k, '1') + rest)[i]);
        }
    }
    numeral::lemma_leading_zeros(k, rest.map_values(f), 58);
    if is_base58(rest) {
        assert forall|i: int| 0 <= i < token.len() implies is_base58_char(#[trigger] token[i]) by {
            if i < k {
                assert(token[i] == (numeral::copies(k, '1') + rest)[i]);
            } else {
                assert(token[i] == rest[i - k]);
            }
        }
    } else {
        let i = choose|i: int| 0 <= i < rest.len() && !is_base58_char(#[trigger] rest[i]);
        assert(!is_base58_char(token[i + k]));
    }
}

proof fn lemma_number_bound(digits: Seq<nat>)
    requires
        numeral::are_digits(digits, 58),
    ensures
        numeral::number(digits, 58) < vstd::arithmetic::power::pow(256, digits.len()),
    decreases digits.len(),
{
    vstd::arithmetic::power::lemma_pow0(256);
    if digits.len() > 0 {
        let rest = digits.drop_last();
        assert forall|i: int| 0 <= i < rest.len() implies #[trigger] rest[i] < 58 by {
            assert(digits[i] < 58);
        }
        lemma_number_bound(rest);
        assert(digits.last() < 58);
        reveal(vstd::arithmetic::power::pow);
        assert(vstd::arithmetic::power::pow(256, digits.len()) == 256
            * vstd::arithmetic::power::pow(256, rest.len()));
    }
}

proof fn lemma_numeral_bound(n: nat, k: nat)
    requires
        n < vstd::arithmetic::power::pow(256, k),
    ensures
        numeral::numeral(n, 256).len() <= k,
    decreases k,
{
    vstd::arithmetic::power::lemma_pow0(256);
    if n > 0 {
        reveal(vstd::arithmetic::power::pow);
        assert(k > 0);
        assert(vstd::arithmetic::power::pow(256, k) == 256 * vstd::arithmetic::power::pow(
            256,
            (k - 1) as nat,
        ));
        lemma_numeral_bound(n / 256, (k - 1) as nat);
    }
}

/// A token of at most 132 characters, or one that does not start with `1`, never
/// overruns the decoder.
pub proof fn ordinary_token_fits(token: Seq<char>)
    requires
        token.len() <= BASE58_LIMIT || token[0] != '1',
    ensures
        !base58_overruns(token),
{
    if is_base58(token) {
        let k = numeral::leading(token, '1');
        let rest = token.skip(k as int);
        numeral::lemma_leading(token, '1');
        lemma_strip_ones(token);
        let digits = rest.map_values(|c: char| base58_digit(c));
        assert forall|i: int| 0 <= i < digits.len() implies #[trigger] digits[i] < 58 by {
            assert(is_base58_char(token[i + k]));
            assert(token[i + k] == rest[i]);
        }
        lemma_number_bound(digits);
        lemma_numeral_bound(base58_number(rest), digits.len());
    }
}

/// A base58 token holds nothing but the 58 characters.
pub proof fn base58_text_chars(bytes: Seq<u8>)
    ensures
        is_base58(base58_text(bytes)),
{
    let n = numeral::number(byte_digits(bytes), 256);
    let d = numeral::numeral(n, 58);
    numeral::lemma_number_of_numeral(n, 58);
    let k = numeral::leading(bytes, 0u8);
    assert forall|i: int| 0 <= i < base58_text(bytes).len() implies is_base58_char(
        #[trigger] base58_text(bytes)[i],
    ) by {
        if i >= k {
            assert(d[i - k] < 58);
        }
    }
}

/// Reading the token of a byte string gives the byte string back.
pub proof fn base58_value_of_text(bytes: Seq<u8>)
    ensures
        base58_value(base58_text(bytes)) == bytes,
{
    let z = numeral::leading(bytes, 0u8);
    let tail = bytes.skip(z as int);
    numeral::lemma_leading(bytes, 0u8);
    let n = numeral::number(byte_digits(bytes), 256);
    assert(byte_digits(bytes) =~= numeral::copies(z, 0nat) + byte_digits(tail)) by {
        assert forall|i: int| 0 <= i < z implies bytes[i] == 0 by {
            assert(bytes[i] == (numeral::copies(z, 0u8) + tail)[i]);
        }
    }
    numeral::lemma_leading_zeros(z, byte_digits(tail), 256);
    if tail.len() > 0 {
        assert(tail[0] == bytes[z as int]);
    }
    numeral::lemma_numeral_of_number(byte_digits(tail), 256);

    let d = numeral::numeral(n, 58);
    numeral::lemma_number_of_numeral(n, 58);
    let chars = d.map_values(|d: nat| base58_char(d));
    let token = base58_text(bytes);
    let f = |c: char| base58_digit(c);
    assert forall|i: int| 0 <= i < d.len() implies base58_digit(#[trigger] chars[i]) == d[i] by {
        assert(d[i] < 58);
    }
    assert(token.map_values(f) =~= numeral::copies(z, 0nat) + d);
    numeral::lemma_leading_zeros(z, d, 58);
    if chars.len() > 0 {
        assert(d[0] < 58);
    }
    numeral::lemma_leading_run(z, chars, '1');
    assert(digit_bytes(byte_digits(tail)) =~= tail);
}

/// Decoding the token of a byte string of at most 132 bytes gives the byte string
/// back, and never overruns the decoder.
pub proof fn base58_round_trip(bytes: Seq<u8>)
    requires
        bytes.len() <= BASE58_LIMIT,
    ensures
        base58_bytes(base58_text(bytes)) == Some(bytes),
        !base58_overruns(base58_text(bytes)),
{
    base58_text_chars(bytes);
    base58_value_of_text(bytes);
}

/// The token of a byte string of more than 132 bytes, the first of them not zero, is
/// refused and not misread.
pub proof fn base58_refuses_long(bytes: Seq<u8>)
    requires
        bytes.len() > BASE58_LIMIT,
        bytes[0] != 0,
    ensures
        base58_bytes(base58_text(bytes)) is None,
{
    base58_value_of_text(bytes);
    let token = base58_text(bytes);
    if numeral::leading(token, '1') > 0 {
        assert(base58_value(token)[0] == 0);
    }
}

/// Different byte strings have different tokens.
pub proof fn base58_injective(a: Seq<u8>, b: Seq<u8>)
    requires
        base58_text(a) == base58_text(b),
    ensures
        a == b,
{
    base58_value_of_text(a);
    base58_value_of_text(b);
}

// ---------------------------------------------------------------------------
// Hexadecimal
// ---------------------------------------------------------------------------

/// The lower-case hexadecimal digit of a number below 16.
pub open spec fn hex_char(d: int) -> char {
    if d < 10 {
        (48 + d) as char
    } else {
        (87 + d) as char
    }
}

/// Whether a character is a hexadecimal digit, in either case.
pub open spec fn is_hex_char(c: char) -> bool {
    ||| '0' <= c <= '9'
    ||| 'a' <= c <= 'f'
    ||| 'A' <= c <= 'F'
}

/// The value of a hexadecimal digit.
pub open spec fn hex_digit(c: char) -> int {
    if '0' <= c <= '9' {
        c as int - 48
    } else if 'a' <= c <= 'f' {
        c as int - 87
    } else {
        c as int - 55
    }
}

/// Two lower-case digits for each byte.
pub open spec fn hex_text(bytes: Seq<u8>) -> Seq<char> {
    Seq::new(
        bytes.len() * 2,
        |i: int|
            if i % 2 == 0 {
                hex_char(bytes[i / 2] as int / 16)
            } else {
                hex_char(bytes[i / 2] as int % 16)
            },
    )
}

/// The bytes of a hexadecimal text: `None` where it has an odd length or holds
/// anything but digits.
pub open spec fn hex_bytes(s: Seq<char>) -> Option<Seq<u8>> {
    if s.len() % 2 == 0 && (forall|i: int| 0 <= i < s.len() ==> is_hex_char(#[trigger] s[i])) {
        Some(
            Seq::new(
                s.len() / 2,
                |i: int| (hex_digit(s[2 * i]) * 16 + hex_digit(s[2 * i + 1])) as u8,
            ),
        )
    } else {
        None
    }
}

/// `hex::encode` writes two lower-case digits for each byte.
#[verifier::external_body]
pub(crate) fn to_hex(bytes: &[u8]) -> (s: String)
    ensures
        s@ == hex_text(bytes@),
{
    hex::encode(bytes)
}

/// `hex::decode` accepts exactly the texts of even length that hold hexadecimal
/// digits only, of either case, and returns the bytes that they stand for.
#[verifier::external_body]
pub(crate) fn from_hex(s: &str) -> (r: Option<Vec<u8>>)
    ensures
        match hex_bytes(s@) {
            Some(bytes) => r matches Some(v) && v@ == bytes,
            None => r is None,
        },
{
    hex::decode(s).ok()
}

/// Reading the hexadecimal text of a byte string gives the byte string back.
pub proof fn hex_round_trip(bytes: Seq<u8>)
    ensures
        hex_bytes(hex_text(bytes)) == Some(bytes),
{
    let s = hex_text(bytes);
    lemma_hex_chars(bytes);
    let back = hex_bytes(s).unwrap();
    assert forall|i: int| 0 <= i < bytes.len() implies #[trigger] back[i] == bytes[i] by {
        assert((2 * i) / 2 == i && (2 * i + 1) / 2 == i);
        assert((2 * i) % 2 == 0 && (2 * i + 1) % 2 == 1);
        assert(hex_digit(s[2 * i]) == bytes[i] as int / 16);
        assert(hex_digit(s[2 * i + 1]) == bytes[i] as int % 16);
    }
    assert(back =~= bytes);
}

/// A hexadecimal text holds lower-case hexadecimal digits only.
pub proof fn lemma_hex_chars(bytes: Seq<u8>)
    ensures
        forall|i: int|
            0 <= i < hex_text(bytes).len() ==> {
                ||| '0' <= #[trigger] hex_text(bytes)[i] <= '9'
                ||| 'a' <= hex_text(bytes)[i] <= 'f'
            },
{
}

/// The digits are those of the two alphabets, in their order.
pub proof fn alphabets_are_in_order(d: nat)
    ensures
        d < 16 ==> hex_char(d as int) == "0123456789abcdef"@[d as int],
        d < 16 ==> hex_digit("0123456789abcdef"@[d as int]) == d,
        d < 16 ==> hex_digit("0123456789ABCDEF"@[d as int]) == d,
        d < 58 ==> base58_char(d)
            == "123456789ABCDEFGHJKLMNPQRSTUVWXYZabcdefghijkmnopqrstuvwxyz"@[d as int],
        d < 58 ==> base58_digit(base58_char(d)) == d && is_base58_char(base58_char(d)),
{
    reveal_strlit("0123456789abcdef");
    reveal_strlit("0123456789ABCDEF");
    reveal_strlit("123456789ABCDEFGHJKLMNPQRSTUVWXYZabcdefghijkmnopqrstuvwxyz");
}

} // verus!
