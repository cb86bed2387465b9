//! WiFi geolocation input: the access points a device reports, the form in
//! which each geolocation backend takes their MAC addresses, and the choice
//! of backend.
use vstd::prelude::*;
use vstd::string::StringExecFns;

use crate::hex::{digit, encode, hex_chars, hex_digit, push_char};

verus! {

/// An access point seen by a device: its MAC address and signal strength
/// (dBm).
#[derive(Debug, Clone, Copy)]
pub struct Bssid {
    pub bssid: [u8; 6],
    pub rssi: i16,
}

/// Why a location cannot be resolved.
#[derive(Debug, Clone, Copy, PartialEq, Eq, Structural)]
pub enum WifiError {
    /// The buffer is empty or not made of 7-byte records.
    InvalidInput,
    /// The configured backend is unknown.
    UnexpectedBackend,
}

/// Whether a buffer is made of whole access-point records: 6 bytes of MAC
/// address and the signal strength, negated, in a seventh.
pub open spec fn records_ok(b: Seq<u8>) -> bool {
    b.len() != 0 && b.len() % 7 == 0
}

/// Access point `i` of buffer `b`.
pub open spec fn record_matches(b: Seq<u8>, i: int, ap: Bssid) -> bool {
    &&& ap.bssid@ == b.subrange(7 * i, 7 * i + 6)
    &&& ap.rssi == -(b[7 * i + 6] as int)
}

/// The access points that a device reports in `buffer`.
pub fn parse_bssids(buffer: &[u8]) -> (r: Result<Vec<Bssid>, WifiError>)
    ensures
        !records_ok(buffer@) ==> r == Err::<Vec<Bssid>, WifiError>(WifiError::InvalidInput),
        records_ok(buffer@) ==> (r matches Ok(v) && v@.len() == buffer@.len() / 7 && forall|i: int|
            0 <= i < v@.len() ==> record_matches(buffer@, i, #[trigger] v@[i])),
{
    let n = buffer.len();
    if n == 0 || n % 7 != 0 {
        return Err(WifiError::InvalidInput);
    }
    let mut out: Vec<Bssid> = Vec::new();
    let mut k: usize = 0;
    while k < n / 7
        invariant
            n == buffer@.len(),
            n % 7 == 0,
            k <= n / 7,
            out@.len() == k,
            forall|i: int| 0 <= i < k ==> record_matches(buffer@, i, #[trigger] out@[i]),
        decreases n / 7 - k,
    {
        let base = 7 * k;
        let mut mac = [0u8; 6];
        let mut j: usize = 0;
        while j < 6
            invariant
                n == buffer@.len(),
                base + 7 <= n,
                mac@.len() == 6,
                j <= 6,
                forall|m: int| 0 <= m < j ==> mac@[m] == buffer@[base + m],
            decreases 6 - j,
        {
            mac[j] = buffer[base + j];
            j += 1;
        }
        let strength: i16 = buffer[base + 6] as i16;
        let ap = Bssid { bssid: mac, rssi: -strength };
        assert(ap.bssid@ =~= buffer@.subrange(7 * k, 7 * k + 6));
        out.push(ap);
        k += 1;
    }
    Ok(out)
}

/// MAC address as `beacondb` takes it: twelve lowercase hexadecimal digits.
pub fn beacondb_mac_address(ap: &Bssid) -> (r: String)
    ensures
        r@ == hex_chars(ap.bssid@),
{
    encode(&ap.bssid)
}

/// MAC address as Google takes it: lowercase hexadecimal pairs separated by
/// colons.
pub open spec fn colon_hex(b: Seq<u8>) -> Seq<char> {
    Seq::new(
        (3 * b.len() - 1) as nat,
        |k: int|
            if k % 3 == 2 {
                ':'
            } else if k % 3 == 0 {
                hex_digit(b[k / 3] / 16)
            } else {
                hex_digit(b[k / 3] % 16)
            },
    )
}

pub fn google_mac_address(ap: &Bssid) -> (r: String)
    ensures
        r@ == colon_hex(ap.bssid@),
{
    let b = ap.bssid;
    let mut out = String::new();
    let mut i: usize = 0;
    while i < 6
        invariant
            i <= 6,
            b@.len() == 6,
            out@.len() == if i == 0 { 0 } else { 3 * i - 1 },
            forall|k: int| 0 <= k < out@.len() ==> #[trigger] out@[k] == colon_hex(b@)[k],
        decreases 6 - i,
    {
        let ghost before = out@;
        if i > 0 {
            push_char(&mut out, ':');
        }
        push_char(&mut out, digit(b[i] / 16));
        push_char(&mut out, digit(b[i] % 16));
        proof {
            let ii = i as int;
            assert forall|k: int| 0 <= k < out@.len() implies #[trigger] out@[k] == colon_hex(b@)[k] by {
                if k < before.len() {
                    assert(out@[k] == before[k]);
                } else if ii > 0 && k == 3 * ii - 1 {
                    assert(k % 3 == 2) by (nonlinear_arith)
                        requires
                            k == 3 * ii - 1,
                            ii > 0,
                    ;
                } else if k == 3 * ii {
                    assert(k / 3 == ii && k % 3 == 0) by (nonlinear_arith)
                        requires
                            k == 3 * ii,
                    ;
                } else {
                    assert(k == 3 * ii + 1);
                    assert(k / 3 == ii && k % 3 == 1) by (nonlinear_arith)
                        requires
                            k == 3 * ii + 1,
                    ;
                }
            }
        }
        i += 1;
    }
    assert(out@ =~= colon_hex(b@));
    out
}

/// Geolocation backends.
#[derive(Debug, Clone, Copy, PartialEq, Eq, Structural)]
pub enum WifiBackend {
    Beacondb,
    Google,
}

/// The backend that the configuration names.
pub fn wifi_backend(name: &str) -> (r: Result<WifiBackend, WifiError>)
    ensures
        name@ == "beacondb"@ ==> r == Ok::<WifiBackend, WifiError>(WifiBackend::Beacondb),
        name@ == "google"@ ==> r == Ok::<WifiBackend, WifiError>(WifiBackend::Google),
        name@ != "beacondb"@ && name@ != "google"@ ==> r == Err::<WifiBackend, WifiError>(
            WifiError::UnexpectedBackend,
        ),
{
    proof {
        reveal_strlit("beacondb");
        reveal_strlit("google");
        assert("beacondb"@[0] != "google"@[0]);
    }
    let s = String::from_str(name);
    if s == String::from_str("beacondb") {
        Ok(WifiBackend::Beacondb)
    } else if s == String::from_str("google") {
        Ok(WifiBackend::Google)
    } else {
        Err(WifiError::UnexpectedBackend)
    }
}

} // verus!
