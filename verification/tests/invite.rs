use chrono::Utc;
use ephemeral_chat::codec;
use ephemeral_chat::error::ChatError;
use ephemeral_chat::invite::{
    can_encode, decode, decode_at, encode, validate_address, InvitePayload,
};

fn make_payload(addr: &str, ts: u64) -> InvitePayload {
    InvitePayload {
        onion_address: addr.to_string(),
        nonce: [0x42u8; 16],
        timestamp: ts,
        suggested_name: None,
    }
}

// v3 onion: 56 chars + .onion
const ONION: &str = "vww6ybal6bd7szmgncyruucpgfkqahzddi37ktceo3ah7ngmcopnpyyd.onion";

fn to_token(text: &str) -> String {
    base58::ToBase58::to_base58(text.as_bytes())
}

fn message(r: Result<InvitePayload, ChatError>) -> String {
    r.unwrap_err().message()
}

// ---- round-trip ----

#[test]
fn roundtrip_basic() {
    let now = Utc::now().timestamp() as u64;
    let payload = make_payload(ONION, now);
    assert!(can_encode(&payload));
    let token = encode(&payload).unwrap();
    let decoded = decode(&token, None).unwrap();
    assert_eq!(decoded.onion_address, payload.onion_address);
    assert_eq!(decoded.nonce, payload.nonce);
    assert_eq!(decoded.timestamp, payload.timestamp);
}

#[test]
fn roundtrip_zero_nonce() {
    let payload = InvitePayload {
        onion_address: ONION.into(),
        nonce: [0u8; 16],
        timestamp: Utc::now().timestamp() as u64,
        suggested_name: None,
    };
    let token = encode(&payload).unwrap();
    let decoded = decode(&token, None).unwrap();
    assert_eq!(decoded.nonce, [0u8; 16]);
}

#[test]
fn roundtrip_ff_nonce() {
    let payload = InvitePayload {
        onion_address: ONION.into(),
        nonce: [0xFFu8; 16],
        timestamp: Utc::now().timestamp() as u64,
        suggested_name: None,
    };
    let token = encode(&payload).unwrap();
    let decoded = decode(&token, None).unwrap();
    assert_eq!(decoded.nonce, [0xFFu8; 16]);
}

#[test]
fn roundtrip_past_timestamp() {
    let payload = make_payload(ONION, 1_700_000_000);
    let token = encode(&payload).unwrap();
    let decoded = decode(&token, None).unwrap();
    assert_eq!(decoded.timestamp, 1_700_000_000);
}

#[test]
fn roundtrip_suggested_name() {
    let mut payload = make_payload(ONION, 1_700_000_000);
    payload.suggested_name = Some("al:ice".to_string());
    let token = encode(&payload).unwrap();
    let decoded = decode_at(&token, Some(300), 1_700_000_100).unwrap();
    assert_eq!(decoded.suggested_name, Some("al:ice".to_string()));
    assert_eq!(decoded.onion_address, ONION);
}

#[test]
fn empty_suggested_name_is_read_as_none() {
    let mut payload = make_payload(ONION, 1_700_000_000);
    payload.suggested_name = Some(String::new());
    let token = encode(&payload).unwrap();
    assert_eq!(decode(&token, None).unwrap().suggested_name, None);
}

#[test]
fn three_fields_are_enough() {
    let text = format!("{}:{}:{}", ONION, "00".repeat(16), 7);
    let decoded = decode(&to_token(&text), None).unwrap();
    assert_eq!(decoded.timestamp, 7);
    assert_eq!(decoded.suggested_name, None);
}

#[test]
fn upper_case_nonce_and_signed_timestamp_are_read() {
    let text = format!("{}:{}:+12:bob", ONION, "AbCdEF01".repeat(4));
    let decoded = decode(&to_token(&text), None).unwrap();
    assert_eq!(decoded.timestamp, 12);
    assert_eq!(decoded.nonce[0], 0xAB);
    assert_eq!(decoded.suggested_name, Some("bob".to_string()));
}

#[test]
fn code_beyond_the_decoder_is_refused() {
    let mut payload = make_payload(ONION, 1_700_000_000);
    payload.suggested_name = Some("x".repeat(40));
    let token = encode(&payload).unwrap();
    let err = message(decode(&token, None));
    assert_eq!(err, "invite code invalid: bad base58: InvalidBase58Length");
}

// ---- encoding properties ----

#[test]
fn token_is_contiguous_no_whitespace() {
    let payload = make_payload(ONION, Utc::now().timestamp() as u64);
    let token = encode(&payload).unwrap();
    assert!(!token.contains(' '));
    assert!(!token.contains('.'));
    assert!(!token.contains('\n'));
}

#[test]
fn token_is_deterministic() {
    let payload = make_payload(ONION, 12345);
    let t1 = encode(&payload).unwrap();
    let t2 = encode(&payload).unwrap();
    assert_eq!(t1, t2);
}

#[test]
fn token_spells_out_the_fields() {
    let mut payload = make_payload(ONION, 12345);
    payload.suggested_name = Some("bob".to_string());
    let token = encode(&payload).unwrap();
    let text = format!("{}:{}:12345:bob", ONION, "42".repeat(16));
    assert_eq!(token, to_token(&text));
    // Without a name there are three fields, with an empty one four.
    payload.suggested_name = None;
    let text = format!("{}:{}:12345", ONION, "42".repeat(16));
    assert_eq!(encode(&payload).unwrap(), to_token(&text));
    payload.suggested_name = Some(String::new());
    let text = format!("{}:{}:12345:", ONION, "42".repeat(16));
    assert_eq!(encode(&payload).unwrap(), to_token(&text));
}

#[test]
fn different_nonce_different_token() {
    let ts = Utc::now().timestamp() as u64;
    let p1 = make_payload(ONION, ts);
    let mut p2 = p1.clone();
    p2.nonce[0] = 0xFF;
    assert_ne!(encode(&p1).unwrap(), encode(&p2).unwrap());
}

// ---- decoding errors ----

#[test]
fn decode_empty_string() {
    assert!(matches!(decode("", None), Err(ChatError::InvalidInvite(_))));
    assert_eq!(message(decode("", None)), "invite code invalid: empty token");
}

#[test]
fn decode_invalid_base58() {
    // Contains chars not in base58 alphabet (0, O, I, l)
    assert!(matches!(
        decode("0OIl", None),
        Err(ChatError::InvalidInvite(_))
    ));
}

#[test]
fn decode_garbage_too_short() {
    let tiny = encode(&make_payload(ONION, 1)).unwrap();
    // Manually truncate to make it invalid
    assert!(matches!(
        decode(&tiny[..2], None),
        Err(ChatError::InvalidInvite(_))
    ));
}

#[test]
fn decode_non_onion_address() {
    let payload = InvitePayload {
        onion_address: "example.com".into(),
        nonce: [0u8; 16],
        timestamp: Utc::now().timestamp() as u64,
        suggested_name: None,
    };
    assert!(matches!(encode(&payload), Err(ChatError::InvalidInvite(_))));
}

#[test]
fn decode_short_address() {
    let payload = InvitePayload {
        onion_address: "x.onion".into(),
        nonce: [0u8; 16],
        timestamp: Utc::now().timestamp() as u64,
        suggested_name: None,
    };
    assert!(matches!(encode(&payload), Err(ChatError::InvalidInvite(_))));
}

#[test]
fn every_fault_is_named() {
    let prefix = "invite code invalid: ";
    let check = |text: &str, fault: &str| {
        let err = message(decode_at(&to_token(text), None, 1000));
        assert_eq!(err, format!("{}{}", prefix, fault));
    };
    let hex = "00".repeat(16);
    check("one:two", "expected three or four colon-separated fields");
    check("a:b:c", "address must end with .onion");
    check("short.onion:b:c", "address too short (11 chars)");
    check(&format!("{}:xyz:5", ONION), "nonce is not valid hex");
    check(&format!("{}:abc:5", ONION), "nonce is not valid hex");
    check(&format!("{}:abcd:5", ONION), "nonce must be 16 bytes, got 2");
    check(&format!("{}:{}:", ONION, hex), "timestamp is not a valid u64");
    check(&format!("{}:{}:-1", ONION, hex), "timestamp is not a valid u64");
    check(
        &format!("{}:{}:18446744073709551616", ONION, hex),
        "timestamp is not a valid u64",
    );
    check(
        &format!("{}:{}:1301", ONION, hex),
        "timestamp 1301 is too far in the future (now 1000)",
    );
    let bytes: [u8; 2] = [0xC3, 0x28];
    let token = base58::ToBase58::to_base58(&bytes[..]);
    assert_eq!(message(decode(&token, None)), format!("{}not valid UTF-8", prefix));
    assert_eq!(
        message(decode("0OIl", None)),
        format!("{}bad base58: InvalidBase58Character('0', 0)", prefix)
    );
}

#[test]
fn largest_timestamp_is_read() {
    let text = format!("{}:{}:18446744073709551615", ONION, "00".repeat(16));
    let decoded = decode_at(&to_token(&text), Some(u64::MAX), u64::MAX).unwrap();
    assert_eq!(decoded.timestamp, u64::MAX);
}

// ---- addresses ----

#[test]
fn addresses_are_checked() {
    assert!(validate_address(ONION).is_ok());
    assert_eq!(
        validate_address("example.com").unwrap_err().message(),
        "invite code invalid: address must end with .onion"
    );
    assert_eq!(
        validate_address("x.onion").unwrap_err().message(),
        "invite code invalid: address too short (7 chars)"
    );
    assert!(validate_address(&format!("{}.onion", "a".repeat(56))).is_ok());
    assert!(validate_address(&format!("{}.onion", "a".repeat(55))).is_err());
}

// ---- expiry / clock skew ----

#[test]
fn expired_invite() {
    let old_ts = (Utc::now().timestamp() - 600) as u64; // 10 min ago
    let payload = make_payload(ONION, old_ts);
    let token = encode(&payload).unwrap();
    // TTL 300s: invite expired 300s ago
    let err = decode(&token, Some(300)).unwrap_err();
    assert!(matches!(err, ChatError::InviteExpired { .. }));
}

#[test]
fn ttl_zero_skips_expiry() {
    let old_ts = (Utc::now().timestamp() - 999_999) as u64;
    let payload = make_payload(ONION, old_ts);
    let token = encode(&payload).unwrap();
    // TTL 0 = no expiry check
    assert!(decode(&token, Some(0)).is_ok());
}

#[test]
fn no_ttl_skips_expiry() {
    let old_ts = (Utc::now().timestamp() - 999_999) as u64;
    let payload = make_payload(ONION, old_ts);
    let token = encode(&payload).unwrap();
    assert!(decode(&token, None).is_ok());
}

#[test]
fn fresh_invite_with_ttl() {
    let now = Utc::now().timestamp() as u64;
    let payload = make_payload(ONION, now);
    let token = encode(&payload).unwrap();
    assert!(decode(&token, Some(600)).is_ok());
}

#[test]
fn future_beyond_skew_rejected() {
    let far_future = (Utc::now().timestamp() + 600) as u64; // +10 min, skew is 300s
    let payload = make_payload(ONION, far_future);
    let token = encode(&payload).unwrap();
    assert!(matches!(
        decode(&token, None),
        Err(ChatError::InvalidInvite(_))
    ));
}

#[test]
fn future_within_skew_accepted() {
    let near_future = (Utc::now().timestamp() + 60) as u64; // +60s < 300s skew
    let payload = make_payload(ONION, near_future);
    let token = encode(&payload).unwrap();
    assert!(decode(&token, None).is_ok());
}

#[test]
fn window_of_a_code_is_exact() {
    let token = encode(&make_payload(ONION, 1000)).unwrap();
    assert!(decode_at(&token, Some(300), 699).is_err());
    assert!(decode_at(&token, Some(300), 700).is_ok());
    assert!(decode_at(&token, Some(300), 1300).is_ok());
    let err = decode_at(&token, Some(300), 1301).unwrap_err();
    assert_eq!(err.message(), "invite expired (issued at 1000)");
    // once expired, always expired
    assert!(decode_at(&token, Some(300), u64::MAX).is_err());
}

#[test]
fn e2e_expired_invite_rejected() {
    let payload = InvitePayload {
        suggested_name: None,
        onion_address: "vww6ybal6bd7szmgncyruucpgfkqahzddi37ktceo3ah7ngmcopnpyyd.onion".into(),
        nonce: [0x42u8; 16],
        timestamp: 1_700_000_000,
    };
    let token = encode(&payload).unwrap();

    let result = decode(&token, Some(300));
    assert!(
        matches!(result, Err(ChatError::InviteExpired { .. })),
        "expected InviteExpired, got {result:?}"
    );
}

#[test]
fn e2e_double_join_nonce_reuse_detectable() {
    // Same payload → same token (deterministic)
    let ts = chrono::Utc::now().timestamp() as u64;
    let addr = "vww6ybal6bd7szmgncyruucpgfkqahzddi37ktceo3ah7ngmcopnpyyd.onion";

    let p1 = InvitePayload {
        suggested_name: None,
        onion_address: addr.into(),
        nonce: [0xDEu8; 16],
        timestamp: ts,
    };
    let p2 = InvitePayload {
        suggested_name: None,
        onion_address: addr.into(),
        nonce: [0xDEu8; 16],
        timestamp: ts,
    };
    assert_eq!(encode(&p1).unwrap(), encode(&p2).unwrap());

    // Different nonce → different token
    let mut p3 = p1.clone();
    p3.nonce[0] = 0xFF;
    assert_ne!(encode(&p1).unwrap(), encode(&p3).unwrap());
}

// ---- base58 ----

#[test]
fn tokens_that_overrun_the_decoder_are_found() {
    // 132 zero bytes still fit, 133 do not.
    assert!(!codec::overruns(&"1".repeat(132)));
    assert!(codec::overruns(&"1".repeat(133)));
    assert!(codec::overruns(&"1".repeat(500)));
    assert!(codec::overruns(&format!("{}z", "1".repeat(132))));
    assert!(!codec::overruns(&format!("{}z", "1".repeat(131))));
    // Too large a number, or a foreign character, is an error and no overrun.
    assert!(!codec::overruns(&"z".repeat(300)));
    assert!(!codec::overruns(&format!("{}0", "1".repeat(200))));
    assert!(!codec::overruns(""));
}

#[test]
fn tokens_that_overrun_the_decoder_are_refused() {
    for token in ["1".repeat(133), "1".repeat(500), format!("{}z", "1".repeat(132))] {
        let fault = "invite code invalid: bad base58: InvalidBase58Length";
        assert_eq!(message(decode_at(&token, None, 0)), fault);
        assert_eq!(message(decode(&token, Some(300))), fault);
    }
}

#[test]
fn token_of_ones_is_decoded() {
    // 132 leading ones stand for as many zero bytes, which are valid text.
    let err = decode_at(&"1".repeat(132), None, 0).unwrap_err();
    assert_eq!(
        err.message(),
        "invite code invalid: expected three or four colon-separated fields"
    );
}
