//! Invite codes: an onion address, a single-use nonce, the time of issue and a
//! suggested name, in one base58 token.
use vstd::prelude::*;
use vstd::utf8::*;

use crate::codec;
use crate::error::{invalid_invite, ChatError, ErrorView};
use crate::system;
use crate::text;

verus! {

/// How far into the future a code's time of issue may lie, in seconds.
pub const CLOCK_SKEW_SECS: u64 = 300;

/// The bytes of a valid onion address: 56 characters and the suffix.
pub const MIN_ADDRESS_BYTES: usize = 62;

/// Internal payload for an invite code.
#[derive(Debug)]
pub struct InvitePayload {
    /// The onion v3 address (e.g. "abc...xyz.onion").
    pub onion_address: String,
    /// Single-use nonce to prevent replay.
    pub nonce: [u8; 16],
    /// Issue time as Unix timestamp seconds.
    pub timestamp: u64,
    /// Suggested display name for the joiner.
    pub suggested_name: Option<String>,
}

/// An [`InvitePayload`] with its texts as characters.
#[verifier::ext_equal]
pub struct InviteView {
    pub onion_address: Seq<char>,
    pub nonce: Seq<u8>,
    pub timestamp: u64,
    pub suggested_name: Option<Seq<char>>,
}

impl View for InvitePayload {
    type V = InviteView;

    open spec fn view(&self) -> InviteView {
        InviteView {
            onion_address: self.onion_address@,
            nonce: self.nonce@,
            timestamp: self.timestamp,
            suggested_name: text::opt_text(self.suggested_name),
        }
    }
}

impl Clone for InvitePayload {
    fn clone(&self) -> (r: Self)
        ensures
            r@ == self@,
    {
        let suggested_name = match &self.suggested_name {
            Some(s) => Some(s.clone()),
            None => None,
        };
        InvitePayload {
            onion_address: self.onion_address.clone(),
            nonce: self.nonce,
            timestamp: self.timestamp,
            suggested_name,
        }
    }
}

/// The view of a decoding result.
pub open spec fn invite_result(r: Result<InvitePayload, ChatError>) -> Result<
    InviteView,
    ErrorView,
> {
    match r {
        Ok(p) => Ok(p@),
        Err(e) => Err(e@),
    }
}

// ---------------------------------------------------------------------------
// Model
// ---------------------------------------------------------------------------

/// Whether a text ends with another.
pub open spec fn ends_with(s: Seq<char>, suffix: Seq<char>) -> bool {
    s.len() >= suffix.len() && s.skip(s.len() - suffix.len()) == suffix
}

/// What is wrong with an onion address, if anything.
pub open spec fn address_fault(addr: Seq<char>) -> Option<Seq<char>> {
    if !ends_with(addr, ".onion"@) {
        Some("address must end with .onion"@)
    } else if encode_utf8(addr).len() < MIN_ADDRESS_BYTES {
        Some("address too short ("@ + text::decimal(encode_utf8(addr).len()) + " chars)"@)
    } else {
        None
    }
}

/// The suggested name, empty where there is none.
pub open spec fn shown_name(v: InviteView) -> Seq<char> {
    match v.suggested_name {
        Some(s) => s,
        None => Seq::empty(),
    }
}

/// The fields of an invite, joined by colons: the address, the nonce and the time of
/// issue, and the suggested name where there is one.
pub open spec fn invite_text(v: InviteView) -> Seq<char> {
    let fields = v.onion_address + ":"@ + codec::hex_text(v.nonce) + ":"@ + text::decimal(
        v.timestamp as nat,
    );
    match v.suggested_name {
        Some(name) => fields + ":"@ + name,
        None => fields,
    }
}

/// The token of an invite whose address is valid.
pub open spec fn invite_token(v: InviteView) -> Seq<char> {
    codec::base58_text(encode_utf8(invite_text(v)))
}

/// Invites that can be encoded, or are refused: the size of the encoder's buffer must
/// not overflow.
pub open spec fn encodable(v: InviteView) -> bool {
    address_fault(v.onion_address) is None ==> encode_utf8(invite_text(v)).len() * 138
        <= usize::MAX
}

/// The bytes of an invite's text beside its address and its name, at most: the
/// nonce, the time of issue and up to three colons.
pub const FIXED_BYTES: usize = 55;

/// The text of an invite is hardly longer than its address and its name.
pub proof fn lemma_invite_text_len(v: InviteView)
    requires
        v.nonce.len() == 16,
    ensures
        encode_utf8(invite_text(v)).len() <= encode_utf8(v.onion_address).len() + encode_utf8(
            shown_name(v),
        ).len() + FIXED_BYTES,
{
    let hex = codec::hex_text(v.nonce);
    let number = text::decimal(v.timestamp as nat);
    codec::lemma_hex_chars(v.nonce);
    assert(is_ascii_chars(hex));
    is_ascii_chars_encode_utf8(hex);
    text::lemma_decimal_digits(v.timestamp as nat);
    text::lemma_decimal_len(v.timestamp);
    assert(is_ascii_chars(number)) by {
        assert forall|i: int| 0 <= i < number.len() implies '\0' <= #[trigger] number[i]
            <= '\u{7f}' by {
            assert(text::is_digit(number[i]));
        }
    }
    is_ascii_chars_encode_utf8(number);
    reveal_strlit(":");
    assert(is_ascii_chars(":"@));
    is_ascii_chars_encode_utf8(":"@);
    let s1 = v.onion_address + ":"@;
    let s2 = s1 + hex;
    let s3 = s2 + ":"@;
    let s4 = s3 + number;
    let s5 = s4 + ":"@;
    text::lemma_encode_concat(v.onion_address, ":"@);
    text::lemma_encode_concat(s1, hex);
    text::lemma_encode_concat(s2, ":"@);
    text::lemma_encode_concat(s3, number);
    text::lemma_encode_concat(s4, ":"@);
    text::lemma_encode_concat(s5, shown_name(v));
}

/// The invite that a decoded text spells out, before its time is looked at.
pub open spec fn parsed_invite(s: Seq<char>) -> Result<InviteView, ErrorView> {
    let parts = text::fields(s, ':', 4);
    if parts.len() < 3 {
        Err(ErrorView::InvalidInvite("expected three or four colon-separated fields"@))
    } else if address_fault(parts[0]) is Some {
        Err(ErrorView::InvalidInvite(address_fault(parts[0]).unwrap()))
    } else if codec::hex_bytes(parts[1]) is None {
        Err(ErrorView::InvalidInvite("nonce is not valid hex"@))
    } else if codec::hex_bytes(parts[1]).unwrap().len() != 16 {
        Err(
            ErrorView::InvalidInvite(
                "nonce must be 16 bytes, got "@ + text::decimal(
                    codec::hex_bytes(parts[1]).unwrap().len(),
                ),
            ),
        )
    } else if text::parsed_u64(parts[2]) is None {
        Err(ErrorView::InvalidInvite("timestamp is not a valid u64"@))
    } else {
        Ok(
            InviteView {
                onion_address: parts[0],
                nonce: codec::hex_bytes(parts[1]).unwrap(),
                timestamp: text::parsed_u64(parts[2]).unwrap(),
                suggested_name: if parts.len() == 4 && parts[3].len() > 0 {
                    Some(parts[3])
                } else {
                    None
                },
            },
        )
    }
}

/// The invite that a token spells out, before its time is looked at.
pub open spec fn read_invite(token: Seq<char>) -> Result<InviteView, ErrorView> {
    if token.len() == 0 {
        Err(ErrorView::InvalidInvite("empty token"@))
    } else if codec::base58_overruns(token) {
        Err(ErrorView::InvalidInvite("bad base58: InvalidBase58Length"@))
    } else {
        match codec::base58_bytes(token) {
            None => Err(ErrorView::InvalidInvite("bad base58: "@ + codec::base58_fault(token))),
            Some(bytes) => if !valid_utf8(bytes) {
                Err(ErrorView::InvalidInvite("not valid UTF-8"@))
            } else {
                parsed_invite(decode_utf8(bytes))
            },
        }
    }
}

/// Whether an invite's time of issue lies further ahead than clocks may differ.
pub open spec fn from_the_future(timestamp: u64, now: u64) -> bool {
    timestamp > now + CLOCK_SKEW_SECS
}

/// Whether an invite has outlived its time to live. None, or zero, never ends.
pub open spec fn has_expired(timestamp: u64, ttl_secs: Option<u64>, now: u64) -> bool {
    ttl_secs matches Some(ttl) && ttl > 0 && now > timestamp + ttl
}

/// What decoding a token at a given time gives.
pub open spec fn decoded_invite(token: Seq<char>, ttl_secs: Option<u64>, now: u64) -> Result<
    InviteView,
    ErrorView,
> {
    match read_invite(token) {
        Err(e) => Err(e),
        Ok(v) => if from_the_future(v.timestamp, now) {
            Err(
                ErrorView::InvalidInvite(
                    "timestamp "@ + text::decimal(v.timestamp as nat)
                        + " is too far in the future (now "@ + text::decimal(now as nat) + ")"@,
                ),
            )
        } else if has_expired(v.timestamp, ttl_secs, now) {
            Err(ErrorView::InviteExpired { timestamp: v.timestamp })
        } else {
            Ok(v)
        },
    }
}

// ---------------------------------------------------------------------------
// Encoding and decoding
// ---------------------------------------------------------------------------

/// Checks that an onion address has the right suffix and is long enough.
pub fn validate_address(addr: &str) -> (r: Result<(), ChatError>)
    ensures
        match address_fault(addr@) {
            None => r is Ok,
            Some(message) => r matches Err(e) && e@ == ErrorView::InvalidInvite(message),
        },
{
    if !text_ends_with(addr, ".onion") {
        return Err(invalid_invite("address must end with .onion"));
    }
    let len: usize = text::byte_len(addr);
    if len < MIN_ADDRESS_BYTES {
        let number = text::decimal_string(len as u64);
        return Err(
            ChatError::InvalidInvite(
                text::concat3("address too short (", number.as_str(), " chars)"),
            ),
        );
    }
    Ok(())
}

fn text_ends_with(s: &str, suffix: &str) -> (r: bool)
    ensures
        r == ends_with(s@, suffix@),
{
    let n: usize = s.unicode_len();
    let m: usize = suffix.unicode_len();
    if n < m {
        return false;
    }
    let tail = s.substring_char(n - m, n);
    assert(tail@ =~= s@.skip(n - m));
    text::same_text(tail, suffix)
}

/// Encode an `InvitePayload` into a single base58 token.
///
/// Serialises the three fields with colons as delimiters (address:nonce_hex:ts), and
/// the suggested name as a fourth where there is one, then base58-encodes the result
/// into one contiguous string.
pub fn encode(payload: &InvitePayload) -> (r: Result<String, ChatError>)
    requires
        encodable(payload@),
    ensures
        match address_fault(payload@.onion_address) {
            None => r matches Ok(token) && token@ == invite_token(payload@),
            Some(message) => r matches Err(e) && e@ == ErrorView::InvalidInvite(message),
        },
{
    match validate_address(payload.onion_address.as_str()) {
        Err(e) => return Err(e),
        Ok(()) => {},
    }
    let joined = join_fields(payload);
    Ok(codec::to_base58(joined.as_str().as_bytes()))
}

/// Whether the token of an invite can be computed, if there is to be one.
pub fn can_encode(payload: &InvitePayload) -> (b: bool)
    ensures
        b == encodable(payload@),
{
    if validate_address(payload.onion_address.as_str()).is_err() {
        return true;
    }
    let joined = join_fields(payload);
    let limit: usize = usize::MAX / 138;
    assert(forall|x: int| x <= limit <==> #[trigger] (x * 138) <= usize::MAX);
    text::byte_len(joined.as_str()) <= limit
}

/// Joins the fields of an invite by colons.
fn join_fields(payload: &InvitePayload) -> (joined: String)
    ensures
        joined@ == invite_text(payload@),
{
    let mut joined = payload.onion_address.clone();
    let nonce_hex = codec::to_hex(&payload.nonce);
    let number = text::decimal_string(payload.timestamp);
    joined.append(":");
    joined.append(nonce_hex.as_str());
    joined.append(":");
    joined.append(number.as_str());
    match &payload.suggested_name {
        Some(name) => {
            joined.append(":");
            joined.append(name.as_str());
        },
        None => {},
    }
    joined
}

/// Decode a base58 token back into an `InvitePayload`.
///
/// If `ttl_secs` is `Some`, checks that the invite has not expired.
/// A `ttl_secs` of `0` means no expiry check.
/// Allows up to 300 s of clock skew into the future.
///
/// The time is read from the machine's clock: the result is the one that
/// [`decode_at`] gives for some time.
pub fn decode(token: &str, ttl_secs: Option<u64>) -> (r: Result<InvitePayload, ChatError>)
    ensures
        exists|now: u64| #[trigger]
            decoded_invite(token@, ttl_secs, now) == invite_result(r),
{
    let now: u64 = system::unix_time();
    decode_at(token, ttl_secs, now)
}

/// Decode a token, at a time given in seconds since the Unix epoch.
pub fn decode_at(token: &str, ttl_secs: Option<u64>, now: u64) -> (r: Result<
    InvitePayload,
    ChatError,
>)
    ensures
        invite_result(r) == decoded_invite(token@, ttl_secs, now),
{
    if token.unicode_len() == 0 {
        return Err(invalid_invite("empty token"));
    }
    if codec::overruns(token) {
        return Err(invalid_invite("bad base58: InvalidBase58Length"));
    }
    let bytes = match codec::from_base58(token) {
        Ok(bytes) => bytes,
        Err(fault) => {
            return Err(ChatError::InvalidInvite(text::concat2("bad base58: ", fault.as_str())));
        },
    };
    let decoded = match text::utf8_text(bytes.as_slice()) {
        Some(s) => s,
        None => return Err(invalid_invite("not valid UTF-8")),
    };
    proof {
        encode_utf8_decode_utf8(decoded@);
    }
    let payload = match parse_invite(decoded) {
        Ok(p) => p,
        Err(e) => return Err(e),
    };
    let timestamp: u64 = payload.timestamp;
    if timestamp > now && timestamp - now > CLOCK_SKEW_SECS {
        let t = text::decimal_string(timestamp);
        let n = text::decimal_string(now);
        let mut message = text::concat3("timestamp ", t.as_str(), " is too far in the future (now ");
        message.append(n.as_str());
        message.append(")");
        return Err(ChatError::InvalidInvite(message));
    }
    if let Some(ttl) = ttl_secs {
        if ttl > 0 && now > timestamp && now - timestamp > ttl {
            return Err(ChatError::InviteExpired { timestamp });
        }
    }
    Ok(payload)
}

/// Reads the colon-separated fields of an invite.
fn parse_invite(decoded: &str) -> (r: Result<InvitePayload, ChatError>)
    ensures
        invite_result(r) == parsed_invite(decoded@),
{
    let parts = text::split_fields(decoded, ':', 4);
    let ghost fields = text::fields(decoded@, ':', 4);
    assert(fields.len() == parts.len());
    assert forall|i: int| 0 <= i < parts.len() implies fields[i] == #[trigger] parts[i]@ by {
        assert(text::texts(parts@)[i] == parts@[i]@);
    }
    if parts.len() < 3 {
        return Err(invalid_invite("expected three or four colon-separated fields"));
    }
    assert(fields[0] == parts[0]@ && fields[1] == parts[1]@ && fields[2] == parts[2]@);
    let onion_address = parts[0].clone();
    match validate_address(onion_address.as_str()) {
        Err(e) => return Err(e),
        Ok(()) => {},
    }
    let nonce_bytes = match codec::from_hex(parts[1].as_str()) {
        Some(v) => v,
        None => return Err(invalid_invite("nonce is not valid hex")),
    };
    if nonce_bytes.len() != 16 {
        let n = text::decimal_string(nonce_bytes.len() as u64);
        return Err(
            ChatError::InvalidInvite(text::concat2("nonce must be 16 bytes, got ", n.as_str())),
        );
    }
    let nonce = array16(nonce_bytes.as_slice());
    let timestamp: u64 = match text::parse_u64(parts[2].as_str()) {
        Some(t) => t,
        None => return Err(invalid_invite("timestamp is not a valid u64")),
    };
    let suggested_name = if parts.len() == 4 && parts[3].as_str().unicode_len() > 0 {
        Some(parts[3].clone())
    } else {
        None
    };
    assert(parts.len() == 4 ==> fields[3] == parts[3]@);
    proof {
        lemma_field_count(decoded@, ':', 4);
    }
    Ok(InvitePayload { onion_address, nonce, timestamp, suggested_name })
}

/// Sixteen bytes as an array.
pub(crate) fn array16(bytes: &[u8]) -> (r: [u8; 16])
    requires
        bytes@.len() == 16,
    ensures
        r@ == bytes@,
{
    let mut r: [u8; 16] = [0; 16];
    let mut i: usize = 0;
    while i < 16
        invariant
            i <= 16,
            bytes@.len() == 16,
            forall|j: int| 0 <= j < i ==> r@[j] == bytes@[j],
        decreases 16 - i,
    {
        r[i] = bytes[i];
        i = i + 1;
    }
    assert(r@ =~= bytes@);
    r
}

proof fn lemma_field_count(s: Seq<char>, delimiter: char, n: nat)
    requires
        n > 0,
    ensures
        1 <= text::fields(s, delimiter, n).len() <= n,
    decreases n,
{
    match s.index_of_first(delimiter) {
        Some(i) if n > 1 => {
            lemma_field_count(s.skip(i + 1), delimiter, (n - 1) as nat);
        },
        _ => {},
    }
}

// ---------------------------------------------------------------------------
// Laws
// ---------------------------------------------------------------------------

proof fn lemma_first_field(a: Seq<char>, rest: Seq<char>, n: nat)
    requires
        n > 1,
        !a.contains(':'),
    ensures
        text::fields(a + ":"@ + rest, ':', n) == seq![a] + text::fields(
            rest,
            ':',
            (n - 1) as nat,
        ),
{
    reveal_strlit(":");
    let s = a + ":"@ + rest;
    assert forall|j: int| 0 <= j < a.len() implies s[j] != ':' by {
        assert(s[j] == a[j]);
        assert(a.contains(a[j]));
    }
    assert(s[a.len() as int] == ':');
    text::lemma_first_index(s, ':', a.len() as int);
    assert(s.take(a.len() as int) =~= a);
    assert(s.skip(a.len() as int + 1) =~= rest);
}

/// The fields of an invite's text, where the address holds no colon: three, or four
/// where a name is suggested.
proof fn lemma_invite_fields(v: InviteView)
    requires
        !v.onion_address.contains(':'),
    ensures
        ({
            let parts = text::fields(invite_text(v), ':', 4);
            &&& parts.len() == if v.suggested_name is Some {
                4nat
            } else {
                3nat
            }
            &&& parts[0] == v.onion_address
            &&& parts[1] == codec::hex_text(v.nonce)
            &&& parts[2] == text::decimal(v.timestamp as nat)
            &&& v.suggested_name matches Some(name) ==> parts[3] == name
        }),
{
    let hex = codec::hex_text(v.nonce);
    let number = text::decimal(v.timestamp as nat);
    codec::lemma_hex_chars(v.nonce);
    text::lemma_decimal_digits(v.timestamp as nat);
    assert(!hex.contains(':'));
    assert(!number.contains(':')) by {
        assert forall|i: int| 0 <= i < number.len() implies number[i] != ':' by {
            assert(text::is_digit(number[i]));
        }
    }
    let r2 = match v.suggested_name {
        Some(name) => number + ":"@ + name,
        None => number,
    };
    let r1 = hex + ":"@ + r2;
    assert(invite_text(v) =~= v.onion_address + ":"@ + r1);
    lemma_first_field(v.onion_address, r1, 4);
    lemma_first_field(hex, r2, 3);
    match v.suggested_name {
        Some(name) => {
            lemma_first_field(number, name, 2);
            assert(text::fields(name, ':', 1) == seq![name]);
        },
        None => {
            text::lemma_no_index(number, ':');
            assert(text::fields(number, ':', 2) == seq![number]);
        },
    }
}

/// A code gives back what was encoded: the address, the nonce, the time of issue
/// and the suggested name. The decoder reads up to 132 bytes; the address must
/// hold no colon, and an empty name is read as none.
pub proof fn invite_round_trip(v: InviteView, ttl_secs: Option<u64>, now: u64)
    requires
        address_fault(v.onion_address) is None,
        v.nonce.len() == 16,
        !v.onion_address.contains(':'),
        v.suggested_name != Some(Seq::<char>::empty()),
        encode_utf8(invite_text(v)).len() <= codec::BASE58_LIMIT,
    ensures
        !codec::base58_overruns(invite_token(v)),
        read_invite(invite_token(v)) == Ok::<InviteView, ErrorView>(v),
        !from_the_future(v.timestamp, now) && !has_expired(v.timestamp, ttl_secs, now)
            ==> decoded_invite(invite_token(v), ttl_secs, now) == Ok::<InviteView, ErrorView>(v),
{
    let s = invite_text(v);
    let bytes = encode_utf8(s);
    codec::base58_round_trip(bytes);
    encode_utf8_valid_utf8(s);
    encode_utf8_decode_utf8(s);
    lemma_invite_fields(v);
    codec::hex_round_trip(v.nonce);
    text::decimal_round_trip(v.timestamp);
    if bytes.len() == 0 {
        assert(decode_utf8(bytes) =~= Seq::<char>::empty());
        reveal_strlit(":");
        assert(s.len() > 0);
    }
    if invite_token(v).len() == 0 {
        assert(codec::base58_number(invite_token(v)) == 0);
        assert(codec::base58_value(invite_token(v)) =~= Seq::<u8>::empty());
    }
    let parts = text::fields(s, ':', 4);
    assert(parsed_invite(s) == Ok::<InviteView, ErrorView>(v)) by {
        if let Some(name) = v.suggested_name {
            if name.len() == 0 {
                assert(name =~= Seq::<char>::empty());
            }
        }
    }
}

/// Invites that differ in address, nonce, time of issue or name have different
/// tokens.
pub proof fn invite_token_distinguishes(a: InviteView, b: InviteView)
    requires
        a.nonce.len() == 16,
        b.nonce.len() == 16,
        !a.onion_address.contains(':'),
        !b.onion_address.contains(':'),
        invite_token(a) == invite_token(b),
    ensures
        a.onion_address == b.onion_address,
        a.nonce == b.nonce,
        a.timestamp == b.timestamp,
        a.suggested_name == b.suggested_name,
{
    codec::base58_injective(encode_utf8(invite_text(a)), encode_utf8(invite_text(b)));
    encode_utf8_decode_utf8(invite_text(a));
    encode_utf8_decode_utf8(invite_text(b));
    lemma_invite_fields(a);
    lemma_invite_fields(b);
    codec::hex_round_trip(a.nonce);
    codec::hex_round_trip(b.nonce);
    text::decimal_round_trip(a.timestamp);
    text::decimal_round_trip(b.timestamp);
}

/// A token is one contiguous word of letters and digits: no space, no line end, no
/// dot.
pub proof fn invite_token_is_contiguous(v: InviteView)
    ensures
        codec::is_base58(invite_token(v)),
        !invite_token(v).contains(' '),
        !invite_token(v).contains('\n'),
        !invite_token(v).contains('.'),
{
    codec::base58_text_chars(encode_utf8(invite_text(v)));
    assert forall|i: int| 0 <= i < invite_token(v).len() implies codec::is_base58_char(
        #[trigger] invite_token(v)[i],
    ) by {}
}

/// A code whose fields are in order is accepted exactly while its time of issue is
/// not more than 300 seconds ahead and its time to live, where there is one, has
/// not run out. Otherwise it is refused as coming from the future, or as expired.
pub proof fn invite_time_window(token: Seq<char>, ttl_secs: Option<u64>, now: u64)
    requires
        read_invite(token) is Ok,
    ensures
        ({
            let v = read_invite(token)->Ok_0;
            let r = decoded_invite(token, ttl_secs, now);
            &&& r is Ok <==> !(v.timestamp > now + 300) && !has_expired(
                v.timestamp,
                ttl_secs,
                now,
            )
            &&& r is Ok ==> r == read_invite(token)
            &&& v.timestamp > now + 300 ==> (r matches Err(ErrorView::InvalidInvite(_)))
            &&& has_expired(v.timestamp, ttl_secs, now) ==> r == Err::<InviteView, ErrorView>(
                ErrorView::InviteExpired { timestamp: v.timestamp },
            )
            &&& (ttl_secs is None || ttl_secs == Some(0u64)) ==> !has_expired(
                v.timestamp,
                ttl_secs,
                now,
            )
        }),
{
}

/// Once a code has expired, it stays expired.
pub proof fn invite_expiry_is_final(
    token: Seq<char>,
    ttl_secs: Option<u64>,
    now: u64,
    later: u64,
)
    requires
        now <= later,
        decoded_invite(token, ttl_secs, now) matches Err(ErrorView::InviteExpired { .. }),
    ensures
        decoded_invite(token, ttl_secs, later) == decoded_invite(token, ttl_secs, now),
{
}

/// A text ends with another exactly if it is some text with the other behind it.
pub proof fn ending_stands_behind(s: Seq<char>, suffix: Seq<char>)
    ensures
        ends_with(s, suffix) <==> exists|head: Seq<char>| s == #[trigger] (head + suffix),
{
    if ends_with(s, suffix) {
        let head = s.take(s.len() - suffix.len());
        assert(s =~= head + suffix);
    }
    if exists|head: Seq<char>| s == #[trigger] (head + suffix) {
        let head = choose|head: Seq<char>| s == #[trigger] (head + suffix);
        assert(s.skip(s.len() - suffix.len()) =~= suffix);
    }
}

/// An address is in order if it ends in `.onion` and has at least 56 bytes before that,
/// whatever they are, and not otherwise.
pub proof fn address_needs_suffix_and_length(head: Seq<char>, other: Seq<char>)
    requires
        forall|h: Seq<char>| other != #[trigger] (h + ".onion"@),
    ensures
        address_fault(head + ".onion"@) is None <==> encode_utf8(head).len() >= 56,
        encode_utf8(head).len() < 56 ==> address_fault(head + ".onion"@) == Some(
            "address too short ("@ + text::decimal(encode_utf8(head).len() + 6) + " chars)"@,
        ),
        address_fault(other) == Some("address must end with .onion"@),
{
    ending_stands_behind(head + ".onion"@, ".onion"@);
    ending_stands_behind(other, ".onion"@);
    text::lemma_encode_concat(head, ".onion"@);
    reveal_strlit(".onion");
    assert(is_ascii_chars(".onion"@));
    is_ascii_chars_encode_utf8(".onion"@);
}

/// The text of an invite: the address, the nonce as hexadecimal digits and the time of
/// issue as a numeral, with colons between them, and the name behind one more colon.
pub proof fn invite_spells_out_its_fields(v: InviteView, name: Seq<char>)
    ensures
        v.suggested_name is None ==> invite_text(v) == v.onion_address + ":"@ + codec::hex_text(
            v.nonce,
        ) + ":"@ + text::decimal(v.timestamp as nat),
        v.suggested_name == Some(name) ==> invite_text(v) == v.onion_address + ":"@
            + codec::hex_text(v.nonce) + ":"@ + text::decimal(v.timestamp as nat) + ":"@ + name,
        v.suggested_name is None ==> shown_name(v) == Seq::<char>::empty(),
        v.suggested_name == Some(name) ==> shown_name(v) == name,
{
}

/// Three fields, or four, make an invite: an address, 16 bytes in hexadecimal digits and
/// a number, each in order. Otherwise the first field that is not is the reason why there
/// is none. The name is whatever stands behind the third colon, colons and all, unless
/// it is empty.
pub proof fn fields_make_an_invite(
    address: Seq<char>,
    nonce: Seq<char>,
    time: Seq<char>,
    name: Option<Seq<char>>,
)
    requires
        !address.contains(':'),
        !nonce.contains(':'),
        !time.contains(':'),
    ensures
        ({
            let s = address + ":"@ + (nonce + ":"@ + match name {
                Some(n) => time + ":"@ + n,
                None => time,
            });
            let r = parsed_invite(s);
            match (address_fault(address), codec::hex_bytes(nonce), text::parsed_u64(time)) {
                (Some(fault), _, _) => r == Err::<InviteView, ErrorView>(
                    ErrorView::InvalidInvite(fault),
                ),
                (None, None, _) => r == Err::<InviteView, ErrorView>(
                    ErrorView::InvalidInvite("nonce is not valid hex"@),
                ),
                (None, Some(bytes), number) => if bytes.len() != 16 {
                    r == Err::<InviteView, ErrorView>(
                        ErrorView::InvalidInvite(
                            "nonce must be 16 bytes, got "@ + text::decimal(bytes.len()),
                        ),
                    )
                } else {
                    match number {
                        None => r == Err::<InviteView, ErrorView>(
                            ErrorView::InvalidInvite("timestamp is not a valid u64"@),
                        ),
                        Some(timestamp) => r matches Ok(v) && {
                            &&& v.onion_address == address
                            &&& v.nonce == bytes
                            &&& v.timestamp == timestamp
                            &&& v.suggested_name == match name {
                                Some(n) => if n.len() > 0 {
                                    Some(n)
                                } else {
                                    None
                                },
                                None => None,
                            }
                        },
                    }
                },
            }
        }),
{
    let r2 = match name {
        Some(n) => time + ":"@ + n,
        None => time,
    };
    lemma_first_field(address, nonce + ":"@ + r2, 4);
    lemma_first_field(nonce, r2, 3);
    match name {
        Some(n) => {
            lemma_first_field(time, n, 2);
            assert(text::fields(n, ':', 1) == seq![n]);
        },
        None => {
            assert forall|j: int| 0 <= j < time.len() implies time[j] != ':' by {
                assert(time.contains(time[j]));
            }
            text::lemma_no_index(time, ':');
            assert(text::fields(time, ':', 2) == seq![time]);
        },
    }
}

/// A text with less than two colons is no invite.
pub proof fn two_fields_make_no_invite(a: Seq<char>, b: Seq<char>)
    requires
        !a.contains(':'),
        !b.contains(':'),
    ensures
        parsed_invite(a) == Err::<InviteView, ErrorView>(
            ErrorView::InvalidInvite("expected three or four colon-separated fields"@),
        ),
        parsed_invite(a + ":"@ + b) == Err::<InviteView, ErrorView>(
            ErrorView::InvalidInvite("expected three or four colon-separated fields"@),
        ),
{
    assert forall|j: int| 0 <= j < a.len() implies a[j] != ':' by {
        assert(a.contains(a[j]));
    }
    assert forall|j: int| 0 <= j < b.len() implies b[j] != ':' by {
        assert(b.contains(b[j]));
    }
    text::lemma_no_index(a, ':');
    text::lemma_no_index(b, ':');
    lemma_first_field(a, b, 4);
    assert(text::fields(b, ':', 3) == seq![b]);
}

/// A token that is empty, too long for the decoder, not base58, or not text inside, is
/// refused, and each for its own reason.
pub proof fn unreadable_token_is_refused(token: Seq<char>)
    ensures
        token.len() == 0 ==> read_invite(token) == Err::<InviteView, ErrorView>(
            ErrorView::InvalidInvite("empty token"@),
        ),
        token.len() > 0 && codec::base58_overruns(token) ==> read_invite(token) == Err::<
            InviteView,
            ErrorView,
        >(ErrorView::InvalidInvite("bad base58: InvalidBase58Length"@)),
        token.len() > 0 && !codec::base58_overruns(token) ==> match codec::base58_bytes(token) {
            None => read_invite(token) == Err::<InviteView, ErrorView>(
                ErrorView::InvalidInvite("bad base58: "@ + codec::base58_fault(token)),
            ),
            Some(bytes) => {
                &&& !valid_utf8(bytes) ==> read_invite(token) == Err::<InviteView, ErrorView>(
                    ErrorView::InvalidInvite("not valid UTF-8"@),
                )
                &&& forall|s: Seq<char>|
                    #![trigger encode_utf8(s)]
                    bytes == encode_utf8(s) ==> read_invite(token) == parsed_invite(s)
            },
        },
{
    if let Some(bytes) = codec::base58_bytes(token) {
        assert forall|s: Seq<char>| #![trigger encode_utf8(s)] bytes == encode_utf8(s)
            && token.len() > 0 && !codec::base58_overruns(token) implies read_invite(token)
            == parsed_invite(s) by {
            encode_utf8_valid_utf8(s);
            encode_utf8_decode_utf8(s);
        }
    }
}

/// A token that does not spell out an invite is refused at any time, and for the same
/// reason. An invite is refused as coming from the future exactly if it is dated more
/// than 300 seconds ahead, and as expired exactly if its time to live is neither absent
/// nor zero and more seconds than that have passed; until then it is what it spells out.
pub proof fn time_decides_about_an_invite(token: Seq<char>, ttl_secs: Option<u64>, now: u64)
    ensures
        match read_invite(token) {
            Err(e) => decoded_invite(token, ttl_secs, now) == Err::<InviteView, ErrorView>(e),
            Ok(v) => {
                let ahead = v.timestamp > now + 300;
                let over = match ttl_secs {
                    Some(ttl) => ttl > 0 && now > v.timestamp + ttl,
                    None => false,
                };
                &&& from_the_future(v.timestamp, now) == ahead
                &&& has_expired(v.timestamp, ttl_secs, now) == over
                &&& ahead ==> decoded_invite(token, ttl_secs, now) == Err::<InviteView, ErrorView>(
                    ErrorView::InvalidInvite(
                        "timestamp "@ + text::decimal(v.timestamp as nat)
                            + " is too far in the future (now "@ + text::decimal(now as nat)
                            + ")"@,
                    ),
                )
                &&& over ==> decoded_invite(token, ttl_secs, now) == Err::<InviteView, ErrorView>(
                    ErrorView::InviteExpired { timestamp: v.timestamp },
                )
                &&& !ahead && !over ==> decoded_invite(token, ttl_secs, now) == Ok::<
                    InviteView,
                    ErrorView,
                >(v)
            },
        },
{
}

/// What is seen of an invite is its address, its nonce, its time of issue and its name,
/// and of a result the invite or the error, whichever it holds.
pub proof fn invites_are_seen_whole(p: InvitePayload, e: ChatError)
    ensures
        p@.onion_address == p.onion_address@,
        p@.nonce == p.nonce@,
        p@.timestamp == p.timestamp,
        p@.suggested_name == match p.suggested_name {
            Some(s) => Some(s@),
            None => None,
        },
        invite_result(Ok(p)) == Ok::<InviteView, ErrorView>(p@),
        invite_result(Err(e)) == Err::<InviteView, ErrorView>(e@),
{
}

/// An invite can be encoded if its text has no more bytes than the encoder's buffer, of
/// which 138 bytes are reckoned for each, can be asked for; and it need not be, if its
/// address is refused.
pub proof fn short_invites_can_be_encoded(v: InviteView)
    ensures
        address_fault(v.onion_address) is Some ==> encodable(v),
        encode_utf8(invite_text(v)).len() * 138 <= usize::MAX ==> encodable(v),
{
}

} // verus!
