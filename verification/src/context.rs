//! Device context: the session, the root security material and the frame
//! counters, and their layout in flash.
use vstd::prelude::*;

verus! {

/// Whether every byte of `s` is `b`.
pub open spec fn all_bytes(s: Seq<u8>, b: u8) -> bool {
    forall|i: int| 0 <= i < s.len() ==> #[trigger] s[i] == b
}

/// Whether every byte of `s` is `b`.
fn is_all(s: &[u8], b: u8) -> (r: bool)
    ensures
        r == all_bytes(s@, b),
{
    let mut i: usize = 0;
    while i < s.len()
        invariant
            i <= s@.len(),
            forall|j: int| 0 <= j < i ==> s@[j] == b,
        decreases s@.len() - i,
    {
        if s[i] != b {
            return false;
        }
        i += 1;
    }
    true
}

/// Copies `src` into `out` from `offset` on.
fn copy_into<const N: usize>(out: &mut [u8; N], offset: usize, src: &[u8])
    requires
        offset + src@.len() <= N,
    ensures
        final(out)@ == old(out)@.subrange(0, offset as int) + src@ + old(out)@.subrange(
            offset + src@.len(),
            N as int,
        ),
{
    let mut i: usize = 0;
    while i < src.len()
        invariant
            offset + src@.len() <= N,
            i <= src@.len(),
            out@.len() == N,
            out@ == old(out)@.subrange(0, offset as int) + src@.subrange(0, i as int) + old(out)@.subrange(
                offset + i,
                N as int,
            ),
        decreases src@.len() - i,
    {
        out[offset + i] = src[i];
        i += 1;
        assert(out@ =~= old(out)@.subrange(0, offset as int) + src@.subrange(0, i as int) + old(out)@.subrange(
            offset + i,
            N as int,
        ));
    }
    assert(src@.subrange(0, i as int) =~= src@);
}

/// Copies `N` bytes of `src` from `offset` on.
fn take_array<const N: usize>(src: &[u8], offset: usize) -> (r: [u8; N])
    requires
        offset + N <= src@.len(),
    ensures
        r@ == src@.subrange(offset as int, offset + N),
{
    let mut out = [0u8; N];
    let mut i: usize = 0;
    let len = src.len();
    while i < N
        invariant
            offset + N <= src@.len(),
            len == src@.len(),
            i <= N,
            out@.len() == N,
            forall|j: int| 0 <= j < i ==> out@[j] == src@[offset + j],
        decreases N - i,
    {
        out[i] = src[offset + i];
        i += 1;
    }
    assert(out@ =~= src@.subrange(offset as int, offset + N));
    out
}

/// Little-endian bytes of `x`.
pub open spec fn le_bytes(x: u32) -> Seq<u8> {
    seq![
        (x % 256) as u8,
        ((x / 256) % 256) as u8,
        ((x / 65536) % 256) as u8,
        (x / 16777216) as u8,
    ]
}

/// The number whose little-endian bytes are `b` (4 bytes).
pub open spec fn from_le(b: Seq<u8>) -> u32 {
    (b[0] + 256 * b[1] + 65536 * b[2] + 16777216 * b[3]) as u32
}

fn u32_to_le(x: u32) -> (r: [u8; 4])
    ensures
        r@ == le_bytes(x),
{
    let r = [(x % 256) as u8, ((x / 256) % 256) as u8, ((x / 65536) % 256) as u8, (x / 16777216) as u8];
    assert(r@ =~= le_bytes(x));
    r
}

fn u32_from_le(b: &[u8], offset: usize) -> (r: u32)
    requires
        offset + 4 <= b@.len(),
    ensures
        r == from_le(b@.subrange(offset as int, offset + 4)),
{
    let r = b[offset] as u32 + 256 * (b[offset + 1] as u32) + 65536 * (b[offset + 2] as u32) + 16777216 * (
    b[offset + 3] as u32);
    r
}

proof fn lemma_le_roundtrip(x: u32)
    ensures
        from_le(le_bytes(x)) == x,
{
    let b = le_bytes(x);
    assert(b[0] == x % 256);
    assert(b[1] == (x / 256) % 256);
    assert(b[2] == (x / 65536) % 256);
    assert(b[3] == x / 16777216);
    assert(x % 256 + 256 * ((x / 256) % 256) + 65536 * ((x / 65536) % 256) + 16777216 * (x / 16777216) == x)
        by (nonlinear_arith);
}

proof fn lemma_from_le_roundtrip(b: Seq<u8>)
    requires
        b.len() == 4,
    ensures
        le_bytes(from_le(b)) == b,
{
    let x = from_le(b);
    let (b0, b1, b2, b3) = (b[0] as int, b[1] as int, b[2] as int, b[3] as int);
    assert(x == b0 + 256 * b1 + 65536 * b2 + 16777216 * b3);
    assert(x % 256 == b0 && (x / 256) % 256 == b1 && (x / 65536) % 256 == b2 && x / 16777216 == b3)
        by (nonlinear_arith)
        requires
            x == b0 + 256 * b1 + 65536 * b2 + 16777216 * b3,
            0 <= b0 < 256,
            0 <= b1 < 256,
            0 <= b2 < 256,
            0 <= b3 < 256,
    ;
    assert(le_bytes(x) =~= b);
}

/// Session of an activated device.
pub struct Session {
    pub session_root_key: [u8; 32],
    pub telemetry_up: u32,
    pub state_up: u32,
    pub state_down: u32,
}

impl Default for Session {
    fn default() -> (r: Session)
        ensures
            all_bytes(r.session_root_key@, 0),
            r.telemetry_up == 0,
            r.state_up == 0,
            r.state_down == 0,
    {
        Session { session_root_key: [0u8; 32], telemetry_up: 0, state_up: 0, state_down: 0 }
    }
}

impl Session {
    /// A session is activated once it has a session root key.
    pub open spec fn activated(&self) -> bool {
        !all_bytes(self.session_root_key@, 0)
    }

    pub fn is_activated(&self) -> (r: bool)
        ensures
            r == self.activated(),
    {
        !is_all(&self.session_root_key, 0)
    }
}

/// Keys and identity of a device, kept in flash.
pub struct RootSecurity {
    pub public_key: [u8; 32],
    pub secret_key: [u8; 32],
    pub short_id: [u8; 4],
    pub pin: [u8; 4],
    pub server_public_key: [u8; 32],
    pub root_key: [u8; 32],
}

/// Flash layout of the root security: the fields one after the other.
pub open spec fn root_security_bytes(r: RootSecurity) -> Seq<u8> {
    r.public_key@ + r.secret_key@ + r.short_id@ + r.pin@ + r.server_public_key@ + r.root_key@
}

impl RootSecurity {
    pub const LENGTH: usize = 136;

    /// Erased flash reads as `0xff`: the root security has never been
    /// written.
    pub fn is_empty(&self) -> (r: bool)
        ensures
            r == all_bytes(self.public_key@, 255),
    {
        is_all(&self.public_key, 255)
    }

    /// Whether the key exchange has given the server's public key.
    pub fn has_server_public_key(&self) -> (r: bool)
        ensures
            r == !all_bytes(self.server_public_key@, 0),
    {
        !is_all(&self.server_public_key, 0)
    }

    /// Root security of a new device: its key pair and short ID, and a PIN
    /// made of the little-endian bytes of `pin`. No server key or root key
    /// is known yet.
    pub fn new(public_key: [u8; 32], secret_key: [u8; 32], short_id: [u8; 4], pin: u32) -> (r: RootSecurity)
        ensures
            r.public_key == public_key,
            r.secret_key == secret_key,
            r.short_id == short_id,
            r.pin@ == le_bytes(pin),
            all_bytes(r.server_public_key@, 0),
            all_bytes(r.root_key@, 0),
    {
        RootSecurity {
            public_key,
            secret_key,
            short_id,
            pin: u32_to_le(pin),
            server_public_key: [0u8; 32],
            root_key: [0u8; 32],
        }
    }

    /// The flash image of the root security.
    pub fn to_bytes(&self) -> (r: [u8; 136])
        ensures
            r@ == root_security_bytes(*self),
    {
        let mut out = [0u8; 136];
        copy_into(&mut out, 0, &self.public_key);
        copy_into(&mut out, 32, &self.secret_key);
        copy_into(&mut out, 64, &self.short_id);
        copy_into(&mut out, 68, &self.pin);
        copy_into(&mut out, 72, &self.server_public_key);
        copy_into(&mut out, 104, &self.root_key);
        assert(out@ =~= root_security_bytes(*self));
        out
    }

    /// The root security held by a flash image.
    pub fn from_bytes(value: &[u8; 136]) -> (r: RootSecurity)
        ensures
            r.public_key@ == value@.subrange(0, 32),
            r.secret_key@ == value@.subrange(32, 64),
            r.short_id@ == value@.subrange(64, 68),
            r.pin@ == value@.subrange(68, 72),
            r.server_public_key@ == value@.subrange(72, 104),
            r.root_key@ == value@.subrange(104, 136),
    {
        RootSecurity {
            public_key: take_array(value, 0),
            secret_key: take_array(value, 32),
            short_id: take_array(value, 64),
            pin: take_array(value, 68),
            server_public_key: take_array(value, 72),
            root_key: take_array(value, 104),
        }
    }
}

/// Frame counters of a device, kept in flash.
pub struct Counters {
    pub activation_request_counter: u32,
    pub activation_response_counter: u32,
    pub last_key_exchange_request_nonce: u32,
}

/// Flash layout of the counters: each little-endian, one after the other.
pub open spec fn counters_bytes(c: Counters) -> Seq<u8> {
    le_bytes(c.activation_request_counter) + le_bytes(c.activation_response_counter) + le_bytes(
        c.last_key_exchange_request_nonce,
    )
}

impl Default for Counters {
    fn default() -> (r: Counters)
        ensures
            r.activation_request_counter == 0,
            r.activation_response_counter == 0,
            r.last_key_exchange_request_nonce == 0,
    {
        Counters {
            activation_request_counter: 0,
            activation_response_counter: 0,
            last_key_exchange_request_nonce: 0,
        }
    }
}

impl Counters {
    pub const LENGTH: usize = 12;

    /// The flash image of the counters.
    pub fn to_bytes(&self) -> (r: [u8; 12])
        ensures
            r@ == counters_bytes(*self),
    {
        let mut out = [0u8; 12];
        copy_into(&mut out, 0, &u32_to_le(self.activation_request_counter));
        copy_into(&mut out, 4, &u32_to_le(self.activation_response_counter));
        copy_into(&mut out, 8, &u32_to_le(self.last_key_exchange_request_nonce));
        assert(out@ =~= counters_bytes(*self));
        out
    }

    /// The counters held by a flash image.
    pub fn from_bytes(value: &[u8; 12]) -> (r: Counters)
        ensures
            r.activation_request_counter == from_le(value@.subrange(0, 4)),
            r.activation_response_counter == from_le(value@.subrange(4, 8)),
            r.last_key_exchange_request_nonce == from_le(value@.subrange(8, 12)),
    {
        Counters {
            activation_request_counter: u32_from_le(value, 0),
            activation_response_counter: u32_from_le(value, 4),
            last_key_exchange_request_nonce: u32_from_le(value, 8),
        }
    }
}

/// Reading back what was written gives the root security that was written.
pub proof fn lemma_root_security_roundtrip(r: RootSecurity)
    ensures
        ({
            let b = root_security_bytes(r);
            &&& b.len() == RootSecurity::LENGTH
            &&& b.subrange(0, 32) == r.public_key@
            &&& b.subrange(32, 64) == r.secret_key@
            &&& b.subrange(64, 68) == r.short_id@
            &&& b.subrange(68, 72) == r.pin@
            &&& b.subrange(72, 104) == r.server_public_key@
            &&& b.subrange(104, 136) == r.root_key@
        }),
{
    let b = root_security_bytes(r);
    assert(b.subrange(0, 32) =~= r.public_key@);
    assert(b.subrange(32, 64) =~= r.secret_key@);
    assert(b.subrange(64, 68) =~= r.short_id@);
    assert(b.subrange(68, 72) =~= r.pin@);
    assert(b.subrange(72, 104) =~= r.server_public_key@);
    assert(b.subrange(104, 136) =~= r.root_key@);
}

/// Writing back a root security read from flash gives the same image.
pub proof fn lemma_root_security_bytes_roundtrip(value: Seq<u8>, r: RootSecurity)
    requires
        value.len() == RootSecurity::LENGTH,
        r.public_key@ == value.subrange(0, 32),
        r.secret_key@ == value.subrange(32, 64),
        r.short_id@ == value.subrange(64, 68),
        r.pin@ == value.subrange(68, 72),
        r.server_public_key@ == value.subrange(72, 104),
        r.root_key@ == value.subrange(104, 136),
    ensures
        root_security_bytes(r) == value,
{
    assert(root_security_bytes(r) =~= value);
}

/// Reading back written counters gives the counters that were written.
pub proof fn lemma_counters_roundtrip(c: Counters)
    ensures
        ({
            let b = counters_bytes(c);
            &&& b.len() == Counters::LENGTH
            &&& from_le(b.subrange(0, 4)) == c.activation_request_counter
            &&& from_le(b.subrange(4, 8)) == c.activation_response_counter
            &&& from_le(b.subrange(8, 12)) == c.last_key_exchange_request_nonce
        }),
{
    let b = counters_bytes(c);
    assert(b.subrange(0, 4) =~= le_bytes(c.activation_request_counter));
    assert(b.subrange(4, 8) =~= le_bytes(c.activation_response_counter));
    assert(b.subrange(8, 12) =~= le_bytes(c.last_key_exchange_request_nonce));
    lemma_le_roundtrip(c.activation_request_counter);
    lemma_le_roundtrip(c.activation_response_counter);
    lemma_le_roundtrip(c.last_key_exchange_request_nonce);
}

/// Writing back counters read from flash gives the same image.
pub proof fn lemma_counters_bytes_roundtrip(value: Seq<u8>, c: Counters)
    requires
        value.len() == Counters::LENGTH,
        c.activation_request_counter == from_le(value.subrange(0, 4)),
        c.activation_response_counter == from_le(value.subrange(4, 8)),
        c.last_key_exchange_request_nonce == from_le(value.subrange(8, 12)),
    ensures
        counters_bytes(c) == value,
{
    lemma_from_le_roundtrip(value.subrange(0, 4));
    lemma_from_le_roundtrip(value.subrange(4, 8));
    lemma_from_le_roundtrip(value.subrange(8, 12));
    assert(counters_bytes(c) =~= value);
}

} // verus!
