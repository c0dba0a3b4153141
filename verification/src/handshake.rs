//! The opening of a connection: a joiner proves that it holds an unused invite.
//!
//! The joiner writes 32 bytes, the nonce of its invite and a random discriminator.
//! The hub answers with one byte, which also says why a joiner is turned away, and
//! burns the nonce if it accepts.
use vstd::prelude::*;

use crate::codec;
use crate::error::{connection_error, invalid_invite, ChatError, ErrorView};
use crate::invite::array16;
use crate::types::PeerId;

verus! {

/// Handshake size: 16-byte nonce + 16-byte random peer discriminator.
pub const HANDSHAKE_LEN: usize = 32;

/// The byte with which a hub admits a peer.
pub const ACCEPT: u8 = 0;

/// The byte with which a hub turns a peer away without a reason.
pub const REJECT: u8 = 1;

/// The byte with which a hub turns a peer away whose code was used before.
pub const REJECT_USED: u8 = 2;

/// The byte with which a hub turns a peer away whose code has expired.
pub const REJECT_EXPIRED: u8 = 3;

/// The byte that tells a peer why it is turned away.
pub open spec fn refusal(reason: ErrorView) -> u8 {
    match reason {
        ErrorView::NonceReused => REJECT_USED,
        ErrorView::InviteExpired { .. } => REJECT_EXPIRED,
        _ => REJECT,
    }
}

/// The byte that tells a peer why it is turned away.
pub fn refusal_byte(reason: &ChatError) -> (byte: u8)
    ensures
        byte == refusal(reason@),
{
    match reason {
        ChatError::NonceReused => REJECT_USED,
        ChatError::InviteExpired { .. } => REJECT_EXPIRED,
        _ => REJECT,
    }
}

/// What a byte that turns a peer away tells it, whose code was issued at that time.
pub open spec fn refused(byte: u8, timestamp: u64) -> ErrorView {
    if byte == REJECT_USED {
        ErrorView::NonceReused
    } else if byte == REJECT_EXPIRED {
        ErrorView::InviteExpired { timestamp }
    } else {
        ErrorView::Connection("handshake rejected by hub"@)
    }
}

/// The error for a byte that turns a peer away, whose code was issued at that time.
pub fn refusal_error(byte: u8, timestamp: u64) -> (e: ChatError)
    ensures
        e@ == refused(byte, timestamp),
{
    if byte == REJECT_USED {
        ChatError::NonceReused
    } else if byte == REJECT_EXPIRED {
        ChatError::InviteExpired { timestamp }
    } else {
        connection_error("handshake rejected by hub")
    }
}

// ---------------------------------------------------------------------------
// Used nonces
// ---------------------------------------------------------------------------

/// The nonces that were used since the room opened. None occurs twice.
pub struct NonceSet {
    used: Vec<[u8; 16]>,
}

impl View for NonceSet {
    type V = Set<Seq<u8>>;

    closed spec fn view(&self) -> Set<Seq<u8>> {
        self.used@.map_values(|n: [u8; 16]| n@).to_set()
    }
}

/// Whether two nonces are the same.
pub fn same_nonce(a: &[u8; 16], b: &[u8; 16]) -> (r: bool)
    ensures
        r == (a@ == b@),
{
    let mut i: usize = 0;
    while i < 16
        invariant
            i <= 16,
            forall|j: int| 0 <= j < i ==> a@[j] == b@[j],
        decreases 16 - i,
    {
        if a[i] != b[i] {
            return false;
        }
        i = i + 1;
    }
    assert(a@ =~= b@);
    true
}

impl NonceSet {
    /// Each nonce is held once.
    #[verifier::type_invariant]
    spec fn inv(&self) -> bool {
        self.used@.map_values(|n: [u8; 16]| n@).no_duplicates()
    }

    /// The empty set.
    pub fn new() -> (s: Self)
        ensures
            s@ == Set::<Seq<u8>>::empty(),
    {
        let s = NonceSet { used: Vec::new() };
        assert(s@ =~= Set::<Seq<u8>>::empty());
        s
    }

    /// Whether a nonce was used.
    pub fn contains(&self, nonce: &[u8; 16]) -> (r: bool)
        ensures
            r == self@.contains(nonce@),
    {
        let ghost all = self.used@.map_values(|n: [u8; 16]| n@);
        let mut i: usize = 0;
        while i < self.used.len()
            invariant
                i <= self.used.len(),
                all == self.used@.map_values(|n: [u8; 16]| n@),
                forall|j: int| 0 <= j < i ==> all[j] != nonce@,
            decreases self.used.len() - i,
        {
            if same_nonce(&self.used[i], nonce) {
                assert(all[i as int] == nonce@);
                assert(all.contains(nonce@));
                return true;
            }
            i = i + 1;
        }
        assert(!all.contains(nonce@));
        false
    }

    /// Marks a nonce as used. Returns whether it was new.
    pub fn insert(&mut self, nonce: [u8; 16]) -> (fresh: bool)
        ensures
            fresh == !old(self)@.contains(nonce@),
            final(self)@ == old(self)@.insert(nonce@),
    {
        if self.contains(&nonce) {
            assert(self@.insert(nonce@) =~= self@);
            return false;
        }
        proof {
            use_type_invariant(&*self);
        }
        let ghost before = self.used@.map_values(|n: [u8; 16]| n@);
        let mut used: Vec<[u8; 16]> = Vec::new();
        std::mem::swap(&mut used, &mut self.used);
        used.push(nonce);
        proof {
            let after = used@.map_values(|n: [u8; 16]| n@);
            assert(after =~= before.push(nonce@));
            assert(after.to_set() =~= before.to_set().insert(nonce@)) by {
                assert forall|x: Seq<u8>| before.to_set().insert(nonce@).contains(x) implies
                    after.to_set().contains(x) by {
                    if x == nonce@ {
                        assert(after[before.len() as int] == x);
                    } else {
                        let i = choose|i: int| 0 <= i < before.len() && before[i] == x;
                        assert(after[i] == x);
                    }
                }
            }
            assert(after.no_duplicates()) by {
                assert forall|i: int, j: int|
                    0 <= i < after.len() && 0 <= j < after.len() && i != j implies after[i]
                    != after[j] by {
                    if i == before.len() {
                        assert(before.contains(before[j]));
                    } else if j == before.len() {
                        assert(before.contains(before[i]));
                    } else {
                        assert(before[i] != before[j]);
                    }
                }
            }
        }
        self.used = used;
        true
    }
}

// ---------------------------------------------------------------------------
// Greetings
// ---------------------------------------------------------------------------

/// The nonce in the bytes of a greeting.
pub open spec fn hello_nonce(hello: Seq<u8>) -> Seq<u8> {
    hello.subrange(0, 16)
}

/// The discriminator in the bytes of a greeting.
pub open spec fn hello_discriminator(hello: Seq<u8>) -> Seq<u8> {
    hello.subrange(16, 32)
}

/// What the hub makes of a greeting: the discriminator of an admitted peer, or the
/// reason why it is turned away.
pub open spec fn admission(used: Set<Seq<u8>>, hello: Seq<u8>) -> Result<Seq<u8>, ErrorView> {
    if hello.len() != HANDSHAKE_LEN {
        Err(ErrorView::InvalidInvite("handshake wrong length"@))
    } else if used.contains(hello_nonce(hello)) {
        Err(ErrorView::NonceReused)
    } else {
        Ok(hello_discriminator(hello))
    }
}

/// The nonces that are used once a greeting was answered.
pub open spec fn burned(used: Set<Seq<u8>>, hello: Seq<u8>) -> Set<Seq<u8>> {
    if admission(used, hello) is Ok {
        used.insert(hello_nonce(hello))
    } else {
        used
    }
}

/// The bytes with which a joiner opens a connection.
pub fn hello_bytes(nonce: &[u8; 16], discriminator: &[u8; 16]) -> (hello: Vec<u8>)
    ensures
        hello@ == nonce@ + discriminator@,
        hello@.len() == HANDSHAKE_LEN,
{
    let mut hello: Vec<u8> = Vec::new();
    hello.extend_from_slice(nonce);
    hello.extend_from_slice(discriminator);
    assert(hello@ =~= nonce@ + discriminator@);
    hello
}

/// Checks a greeting, and burns its nonce if the peer is admitted. Returns the
/// discriminator.
pub fn check_hello(hello: &[u8], nonces: &mut NonceSet) -> (r: Result<[u8; 16], ChatError>)
    ensures
        final(nonces)@ == burned(old(nonces)@, hello@),
        match admission(old(nonces)@, hello@) {
            Ok(discriminator) => r matches Ok(d) && d@ == discriminator,
            Err(fault) => r matches Err(e) && e@ == fault,
        },
{
    if hello.len() != HANDSHAKE_LEN {
        return Err(invalid_invite("handshake wrong length"));
    }
    let nonce = array16(&hello[0..16]);
    let discriminator = array16(&hello[16..32]);
    assert(nonce@ =~= hello_nonce(hello@));
    assert(discriminator@ =~= hello_discriminator(hello@));
    if nonces.insert(nonce) {
        Ok(discriminator)
    } else {
        assert(nonces@ =~= old(nonces)@);
        Err(ChatError::NonceReused)
    }
}

/// The identifier of a peer: its discriminator in base58.
pub fn peer_id(discriminator: &[u8; 16]) -> (id: PeerId)
    ensures
        id@ == codec::base58_text(discriminator@),
{
    PeerId(codec::to_base58(discriminator))
}

// ---------------------------------------------------------------------------
// Laws
// ---------------------------------------------------------------------------

/// The nonces that are admitted when greetings arrive one after the other.
pub open spec fn admitted(used: Set<Seq<u8>>, hellos: Seq<Seq<u8>>) -> Seq<Seq<u8>>
    decreases hellos.len(),
{
    if hellos.len() == 0 {
        Seq::empty()
    } else {
        let first = hellos[0];
        let rest = admitted(burned(used, first), hellos.skip(1));
        if admission(used, first) is Ok {
            seq![hello_nonce(first)] + rest
        } else {
            rest
        }
    }
}

/// The nonces that are used after greetings arrived one after the other.
pub open spec fn burned_all(used: Set<Seq<u8>>, hellos: Seq<Seq<u8>>) -> Set<Seq<u8>>
    decreases hellos.len(),
{
    if hellos.len() == 0 {
        used
    } else {
        burned_all(burned(used, hellos[0]), hellos.skip(1))
    }
}

/// Invites are single-use: however many greetings arrive, no nonce is admitted
/// twice, none that was used before is admitted, and what is admitted is exactly
/// what becomes used.
pub proof fn nonces_are_single_use(used: Set<Seq<u8>>, hellos: Seq<Seq<u8>>)
    ensures
        admitted(used, hellos).no_duplicates(),
        forall|i: int|
            0 <= i < admitted(used, hellos).len() ==> !used.contains(
                #[trigger] admitted(used, hellos)[i],
            ),
        forall|n: Seq<u8>| #[trigger]
            burned_all(used, hellos).contains(n) <==> used.contains(n) || admitted(
                used,
                hellos,
            ).contains(n),
    decreases hellos.len(),
{
    if hellos.len() > 0 {
        let first = hellos[0];
        let next = burned(used, first);
        let rest = admitted(next, hellos.skip(1));
        nonces_are_single_use(next, hellos.skip(1));
        let all = admitted(used, hellos);
        if admission(used, first) is Ok {
            let n0 = hello_nonce(first);
            assert(all =~= seq![n0] + rest);
            assert forall|i: int| 0 <= i < rest.len() implies rest[i] != n0 && !used.contains(
                #[trigger] rest[i],
            ) by {
                assert(!next.contains(rest[i]));
            }
            assert forall|i: int, j: int|
                0 <= i < all.len() && 0 <= j < all.len() && i != j implies all[i] != all[j] by {
                if i > 0 && j > 0 {
                    assert(rest[i - 1] != rest[j - 1]);
                } else if i == 0 {
                    assert(all[j] == rest[j - 1]);
                } else {
                    assert(all[i] == rest[i - 1]);
                }
            }
            assert forall|n: Seq<u8>| #[trigger]
                burned_all(used, hellos).contains(n) <==> used.contains(n) || all.contains(n) by {
                assert(burned_all(next, hellos.skip(1)).contains(n) <==> next.contains(n)
                    || rest.contains(n));
                if rest.contains(n) {
                    let i = choose|i: int| 0 <= i < rest.len() && rest[i] == n;
                    assert(all[i + 1] == n);
                }
                if n == n0 {
                    assert(all[0] == n);
                }
                if all.contains(n) && n != n0 {
                    let i = choose|i: int| 0 <= i < all.len() && all[i] == n;
                    assert(rest[i - 1] == n);
                }
            }
        } else {
            assert(all == rest);
            assert forall|n: Seq<u8>| #[trigger]
                burned_all(used, hellos).contains(n) <==> used.contains(n) || all.contains(n) by {
                assert(burned_all(next, hellos.skip(1)).contains(n) <==> next.contains(n)
                    || rest.contains(n));
            }
        }
    }
}

/// Using a code a second time is answered with "nonce already used", whatever the
/// discriminator.
pub proof fn reused_nonce_refused(
    used: Set<Seq<u8>>,
    nonce: Seq<u8>,
    first: Seq<u8>,
    second: Seq<u8>,
)
    requires
        nonce.len() == 16,
        first.len() == 16,
        second.len() == 16,
        admission(used, nonce + first) is Ok,
    ensures
        admission(burned(used, nonce + first), nonce + second) == Err::<Seq<u8>, ErrorView>(
            ErrorView::NonceReused,
        ),
{
    assert(hello_nonce(nonce + first) =~= nonce);
    assert(hello_nonce(nonce + second) =~= nonce);
}

/// A greeting with a nonce that was never used is admitted, under the identity of
/// its discriminator.
pub proof fn fresh_nonce_admitted(used: Set<Seq<u8>>, nonce: Seq<u8>, discriminator: Seq<u8>)
    requires
        nonce.len() == 16,
        discriminator.len() == 16,
        !used.contains(nonce),
    ensures
        admission(used, nonce + discriminator) == Ok::<Seq<u8>, ErrorView>(discriminator),
        burned(used, nonce + discriminator) == used.insert(nonce),
{
    assert(hello_nonce(nonce + discriminator) =~= nonce);
    assert(hello_discriminator(nonce + discriminator) =~= discriminator);
}

/// A greeting that is turned away changes nothing.
pub proof fn refused_greeting_burns_nothing(used: Set<Seq<u8>>, hello: Seq<u8>)
    requires
        admission(used, hello) is Err,
    ensures
        burned(used, hello) == used,
{
}

/// Peers with different discriminators have different identifiers.
pub proof fn peer_ids_distinct(a: Seq<u8>, b: Seq<u8>)
    requires
        codec::base58_text(a) == codec::base58_text(b),
    ensures
        a == b,
{
    codec::base58_injective(a, b);
}

/// A greeting of any length but 32 is refused as such; one of 32 bytes is refused exactly
/// if its first 16 were used before, and otherwise its last 16 are the discriminator.
pub proof fn greeting_is_judged_by_its_nonce(used: Set<Seq<u8>>, hello: Seq<u8>)
    ensures
        hello.len() != 32 ==> admission(used, hello) == Err::<Seq<u8>, ErrorView>(
            ErrorView::InvalidInvite("handshake wrong length"@),
        ),
        hello.len() == 32 && used.contains(hello.subrange(0, 16)) ==> admission(used, hello)
            == Err::<Seq<u8>, ErrorView>(ErrorView::NonceReused),
        hello.len() == 32 && !used.contains(hello.subrange(0, 16)) ==> admission(used, hello)
            == Ok::<Seq<u8>, ErrorView>(hello.subrange(16, 32)),
        admission(used, hello) is Ok ==> burned(used, hello) == used.insert(
            hello.subrange(0, 16),
        ),
{
}

/// What the hub says when it turns a peer away, the peer hears: that its code was used,
/// that it has expired, or neither; and only the byte zero lets it in.
pub proof fn refusal_is_understood(reason: ErrorView, timestamp: u64)
    ensures
        refusal(reason) != ACCEPT,
        ACCEPT == 0,
        reason == ErrorView::NonceReused ==> refused(refusal(reason), timestamp)
            == ErrorView::NonceReused,
        reason is InviteExpired ==> refused(refusal(reason), timestamp)
            == (ErrorView::InviteExpired { timestamp }),
        !(reason is InviteExpired) && reason != ErrorView::NonceReused ==> refused(
            refusal(reason),
            timestamp,
        ) == ErrorView::Connection("handshake rejected by hub"@),
        refused(REJECT, timestamp) == ErrorView::Connection("handshake rejected by hub"@),
{
}

} // verus!
