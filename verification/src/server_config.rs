//! Server configuration: logging, key pair, database, API, MQTT, integrations
//! and geolocation settings, and the hexadecimal form of the key pair.
use vstd::prelude::*;
use vstd::string::StringExecFns;

use crate::hex::{HexError, ascii_bytes, decode, hex_chars, hex_decode, lemma_hex_roundtrip};

verus! {

/// Logging settings.
#[derive(Debug, Clone)]
pub struct Logging {
    pub level: String,
}

impl Default for Logging {
    /// Log level `info`.
    fn default() -> (r: Logging)
        ensures
            r.level@ == "info"@,
    {
        Logging { level: String::from_str("info") }
    }
}

/// The server's key pair.
#[derive(Default, Debug, Clone, Copy)]
pub struct Keypair {
    pub public_key: [u8; 32],
    pub secret_key: [u8; 32],
}

/// Database settings.
#[derive(Default, Debug, Clone)]
pub struct Database {
    pub path: String,
}

/// API settings.
#[derive(Default, Debug, Clone)]
pub struct Api {
    pub bind: String,
}

/// MQTT connection of the server.
#[derive(Default, Debug, Clone)]
pub struct Mqtt {
    pub server: String,
    pub client_id: String,
    pub username: String,
    pub password: String,
}

/// Home Assistant integration settings.
#[derive(Default, Debug, Clone)]
pub struct HomeAssistant {
    pub enabled: bool,
    pub mqtt_server: String,
    pub mqtt_username: String,
    pub mqtt_password: String,
}

/// Integration settings.
#[derive(Default, Debug, Clone)]
pub struct Integration {
    pub home_assistant: HomeAssistant,
}

/// Google geolocation settings.
#[derive(Default, Debug, Clone)]
pub struct GeolocationGoogle {
    pub api_key: String,
}

/// Geolocation settings.
#[derive(Debug, Clone)]
pub struct Geolocation {
    pub wifi_backend: String,
    pub google: GeolocationGoogle,
}

impl Default for Geolocation {
    /// The `beacondb` backend, no Google API key.
    fn default() -> (r: Geolocation)
        ensures
            r.wifi_backend@ == "beacondb"@,
            r.google.api_key@.len() == 0,
    {
        Geolocation {
            wifi_backend: String::from_str("beacondb"),
            google: GeolocationGoogle { api_key: String::new() },
        }
    }
}

/// Server configuration.
#[derive(Debug, Clone)]
pub struct Configuration {
    pub logging: Logging,
    pub keypair: Keypair,
    pub database: Database,
    pub api: Api,
    pub mqtt: Mqtt,
    pub integration: Integration,
    pub geolocation: Geolocation,
}

impl Default for Configuration {
    /// Every section at its default.
    fn default() -> (r: Configuration)
        ensures
            r.logging.level@ == "info"@,
            r.keypair.public_key@ == Seq::new(32, |i: int| 0u8),
            r.keypair.secret_key@ == Seq::new(32, |i: int| 0u8),
            r.database.path@.len() == 0,
            r.api.bind@.len() == 0,
            r.mqtt.server@.len() == 0,
            r.mqtt.client_id@.len() == 0,
            r.mqtt.username@.len() == 0,
            r.mqtt.password@.len() == 0,
            !r.integration.home_assistant.enabled,
            r.integration.home_assistant.mqtt_server@.len() == 0,
            r.integration.home_assistant.mqtt_username@.len() == 0,
            r.integration.home_assistant.mqtt_password@.len() == 0,
            r.geolocation.wifi_backend@ == "beacondb"@,
            r.geolocation.google.api_key@.len() == 0,
    {
        let keypair = Keypair { public_key: [0u8; 32], secret_key: [0u8; 32] };
        assert(keypair.public_key@ =~= Seq::new(32, |i: int| 0u8));
        assert(keypair.secret_key@ =~= Seq::new(32, |i: int| 0u8));
        Configuration {
            logging: Logging::default(),
            keypair,
            database: Database { path: String::new() },
            api: Api { bind: String::new() },
            mqtt: Mqtt {
                server: String::new(),
                client_id: String::new(),
                username: String::new(),
                password: String::new(),
            },
            integration: Integration {
                home_assistant: HomeAssistant {
                    enabled: false,
                    mqtt_server: String::new(),
                    mqtt_username: String::new(),
                    mqtt_password: String::new(),
                },
            },
            geolocation: Geolocation::default(),
        }
    }
}

/// Text `t` without its leading `0x` prefixes (each one taken off in turn).
pub open spec fn strip_0x(t: Seq<u8>) -> Seq<u8>
    decreases t.len(),
{
    if t.len() >= 2 && t[0] == 48u8 && t[1] == 120u8 {
        strip_0x(t.subrange(2, t.len() as int))
    } else {
        t
    }
}

/// What the hexadecimal text `t` of a key gives: the 32 bytes it holds after
/// its `0x` prefixes, or why it holds none.
pub open spec fn key_hex(t: Seq<u8>) -> Result<Seq<u8>, HexError> {
    match hex_decode(strip_0x(t)) {
        Err(e) => Err(e),
        Ok(b) => if b.len() == 32 {
            Ok(b)
        } else {
            Err(HexError::InvalidStringLength)
        },
    }
}

/// Number of bytes that the leading `0x` prefixes of `t` take from `i` on.
spec fn prefix_end(t: Seq<u8>, i: int) -> int
    decreases t.len() - i,
{
    if 0 <= i && i + 2 <= t.len() && t[i] == 48u8 && t[i + 1] == 120u8 {
        prefix_end(t, i + 2)
    } else {
        i
    }
}

proof fn lemma_prefix_end(t: Seq<u8>, i: int)
    requires
        0 <= i <= t.len(),
    ensures
        i <= prefix_end(t, i) <= t.len(),
        strip_0x(t.subrange(i, t.len() as int)) == t.subrange(prefix_end(t, i), t.len() as int),
    decreases t.len() - i,
{
    let s = t.subrange(i, t.len() as int);
    if i + 2 <= t.len() && t[i] == 48u8 && t[i + 1] == 120u8 {
        lemma_prefix_end(t, i + 2);
        assert(s.subrange(2, s.len() as int) =~= t.subrange(i + 2, t.len() as int));
    }
}

/// The 32-byte key that hexadecimal text `s` holds. Leading `0x` prefixes are
/// taken off; the rest must decode to exactly 32 bytes.
pub fn key_from_hex(s: &str) -> (r: Result<[u8; 32], HexError>)
    ensures
        match key_hex(vstd::utf8::encode_utf8(s@)) {
            Ok(b) => r matches Ok(k) && k@ == b,
            Err(e) => r == Err::<[u8; 32], HexError>(e),
        },
{
    let t = s.as_bytes();
    let ghost tt = t@;
    let mut i: usize = 0;
    proof {
        lemma_prefix_end(tt, 0);
        assert(tt.subrange(0, tt.len() as int) =~= tt);
    }
    while t.len() - i >= 2 && t[i] == 48u8 && t[i + 1] == 120u8
        invariant
            tt == t@,
            i <= t@.len(),
            prefix_end(tt, i as int) == prefix_end(tt, 0),
        decreases t@.len() - i,
    {
        i = i + 2;
    }
    let mut rest: Vec<u8> = Vec::new();
    let mut j: usize = i;
    while j < t.len()
        invariant
            tt == t@,
            i <= j <= t@.len(),
            rest@ == tt.subrange(i as int, j as int),
        decreases t@.len() - j,
    {
        rest.push(t[j]);
        j = j + 1;
    }
    proof {
        assert(prefix_end(tt, i as int) == i as int);
        assert(rest@ =~= tt.subrange(prefix_end(tt, 0), tt.len() as int));
    }
    let b = decode(rest.as_slice())?;
    if b.len() != 32 {
        return Err(HexError::InvalidStringLength);
    }
    let mut key = [0u8; 32];
    let mut k: usize = 0;
    while k < 32
        invariant
            b@.len() == 32,
            key@.len() == 32,
            k <= 32,
            forall|m: int| 0 <= m < k ==> key@[m] == b@[m],
        decreases 32 - k,
    {
        key[k] = b[k];
        k = k + 1;
    }
    assert(key@ =~= b@);
    Ok(key)
}


/// A key written as hexadecimal text (as the configuration file holds it) is
/// read back unchanged, with or without a `0x` prefix.
pub proof fn lemma_key_hex_roundtrip(key: Seq<u8>)
    requires
        key.len() == 32,
    ensures
        key_hex(vstd::utf8::encode_utf8(hex_chars(key))) == Ok::<Seq<u8>, HexError>(key),
        key_hex(seq![48u8, 120u8] + vstd::utf8::encode_utf8(hex_chars(key))) == Ok::<Seq<u8>, HexError>(
            key,
        ),
{
    lemma_hex_roundtrip(key);
    let t = ascii_bytes(hex_chars(key));
    // hexadecimal text holds no `x`, so no prefix is taken off
    assert(t.len() >= 2 ==> t[1] != 120u8);
    assert(strip_0x(t) == t);
    let p = seq![48u8, 120u8] + t;
    assert(p.subrange(2, p.len() as int) =~= t);
    assert(strip_0x(p) == strip_0x(t));
}

} // verus!
