//! Hexadecimal text of byte strings, and fixed-size byte arrays that are
//! written as such text.
use vstd::prelude::*;
use vstd::string::StringExecFns;

verus! {

/// `String::push`: appends character `c` to `s`.
#[verifier::external_body]
pub(crate) fn push_char(s: &mut String, c: char)
    ensures
        final(s)@ == old(s)@.push(c),
{
    s.push(c)
}

/// Lowercase hexadecimal digit of `n` (0 to 15).
pub open spec fn hex_digit(n: u8) -> char {
    if n < 10 {
        (n + 48) as char
    } else {
        (n + 87) as char
    }
}

/// Hexadecimal text of `b`: two lowercase digits per byte, high digit first.
pub open spec fn hex_chars(b: Seq<u8>) -> Seq<char> {
    Seq::new(
        2 * b.len(),
        |i: int|
            if i % 2 == 0 {
                hex_digit(b[i / 2] / 16)
            } else {
                hex_digit(b[i / 2] % 16)
            },
    )
}

pub(crate) fn digit(n: u8) -> (c: char)
    requires
        n < 16,
    ensures
        c == hex_digit(n),
{
    if n < 10 {
        (n + 48) as char
    } else {
        (n + 87) as char
    }
}

/// Appends the hexadecimal text of `b` to `out`.
pub(crate) fn append_hex(out: &mut String, b: &[u8])
    ensures
        final(out)@ == old(out)@ + hex_chars(b@),
{
    let mut i: usize = 0;
    while i < b.len()
        invariant
            i <= b@.len(),
            out@ == old(out)@ + hex_chars(b@.subrange(0, i as int)),
        decreases b@.len() - i,
    {
        let ghost before = out@;
        push_char(out, digit(b[i] / 16));
        push_char(out, digit(b[i] % 16));
        i += 1;
        proof {
            let s = b@.subrange(0, i as int);
            let p = b@.subrange(0, i - 1);
            assert(hex_chars(s) =~= hex_chars(p) + seq![hex_digit(b@[i - 1] / 16), hex_digit(b@[i - 1] % 16)])
                by {
                assert forall|k: int| 0 <= k < 2 * p.len() implies #[trigger] hex_chars(s)[k] == hex_chars(p)[k] by {
                    assert(s[k / 2] == p[k / 2]);
                }
            }
            assert(out@ =~= old(out)@ + hex_chars(s));
        }
    }
    assert(b@.subrange(0, i as int) =~= b@);
}

/// Hexadecimal text of `b`.
pub fn encode(b: &[u8]) -> (r: String)
    ensures
        r@ == hex_chars(b@),
{
    let mut out = String::new();
    append_hex(&mut out, b);
    assert(out@ =~= hex_chars(b@));
    out
}

/// Value of the hexadecimal digit with ASCII code `c` (either case).
pub open spec fn hex_value(c: u8) -> Option<u8> {
    if 48 <= c <= 57 {
        Some((c - 48) as u8)
    } else if 97 <= c <= 102 {
        Some((c - 87) as u8)
    } else if 65 <= c <= 70 {
        Some((c - 55) as u8)
    } else {
        None
    }
}

fn value(c: u8) -> (r: Option<u8>)
    ensures
        r == hex_value(c),
{
    if 48 <= c && c <= 57 {
        Some(c - 48)
    } else if 97 <= c && c <= 102 {
        Some(c - 87)
    } else if 65 <= c && c <= 70 {
        Some(c - 55)
    } else {
        None
    }
}

/// Why hexadecimal text does not decode.
#[derive(Debug, Clone, Copy, PartialEq, Eq, Structural)]
pub enum HexError {
    /// The byte at `index` (as a character) is no hexadecimal digit.
    InvalidHexCharacter { c: char, index: usize },
    /// The text has an odd number of bytes.
    OddLength,
    /// The text decodes to the wrong number of bytes.
    InvalidStringLength,
}

/// Index of the first byte, from `i` on, that is no hexadecimal digit.
pub open spec fn first_invalid_from(t: Seq<u8>, i: int) -> Option<int>
    decreases t.len() - i,
{
    if i < 0 || i >= t.len() {
        None
    } else if hex_value(t[i]) is None {
        Some(i)
    } else {
        first_invalid_from(t, i + 1)
    }
}

/// The bytes of hexadecimal text `t` (two digits per byte).
pub open spec fn hex_decode(t: Seq<u8>) -> Result<Seq<u8>, HexError> {
    if t.len() % 2 != 0 {
        Err(HexError::OddLength)
    } else {
        match first_invalid_from(t, 0) {
            Some(i) => Err(HexError::InvalidHexCharacter { c: t[i] as char, index: i as usize }),
            None => Ok(
                Seq::new(
                    (t.len() / 2) as nat,
                    |i: int| (hex_value(t[2 * i])->0 * 16 + hex_value(t[2 * i + 1])->0) as u8,
                ),
            ),
        }
    }
}

proof fn lemma_first_invalid(t: Seq<u8>, i: int)
    requires
        0 <= i <= t.len(),
    ensures
        first_invalid_from(t, i) matches Some(k) ==> i <= k < t.len() && hex_value(t[k]) is None && forall|
            j: int,
        | i <= j < k ==> hex_value(#[trigger] t[j]) is Some,
        first_invalid_from(t, i) is None ==> forall|j: int| i <= j < t.len() ==> hex_value(#[trigger] t[j]) is Some,
    decreases t.len() - i,
{
    if i < t.len() && hex_value(t[i]) is Some {
        lemma_first_invalid(t, i + 1);
    }
}

/// The bytes of hexadecimal text `t`.
pub fn decode(t: &[u8]) -> (r: Result<Vec<u8>, HexError>)
    ensures
        match hex_decode(t@) {
            Ok(b) => r matches Ok(v) && v@ == b,
            Err(e) => r == Err::<Vec<u8>, HexError>(e),
        },
{
    if t.len() % 2 != 0 {
        return Err(HexError::OddLength);
    }
    proof {
        lemma_first_invalid(t@, 0);
    }
    let mut out: Vec<u8> = Vec::new();
    let mut i: usize = 0;
    while i < t.len()
        invariant
            t@.len() % 2 == 0,
            i <= t@.len(),
            i % 2 == 0,
            forall|j: int| 0 <= j < i ==> hex_value(#[trigger] t@[j]) is Some,
            first_invalid_from(t@, i as int) == first_invalid_from(t@, 0),
            out@.len() == i / 2,
            forall|k: int|
                0 <= k < i / 2 ==> #[trigger] out@[k] == (hex_value(t@[2 * k])->0 * 16 + hex_value(
                    t@[2 * k + 1],
                )->0) as u8,
        decreases t@.len() - i,
    {
        let hi = match value(t[i]) {
            Some(v) => v,
            None => return Err(HexError::InvalidHexCharacter { c: t[i] as char, index: i }),
        };
        let lo = match value(t[i + 1]) {
            Some(v) => v,
            None => {
                proof {
                    assert(first_invalid_from(t@, i as int) == first_invalid_from(t@, i + 1));
                }
                return Err(HexError::InvalidHexCharacter { c: t[i + 1] as char, index: i + 1 });
            },
        };
        out.push(hi * 16 + lo);
        proof {
            assert(first_invalid_from(t@, i as int) == first_invalid_from(t@, i + 2));
        }
        i += 2;
    }
    proof {
        lemma_first_invalid(t@, 0);
        assert(out@ =~= hex_decode(t@)->Ok_0);
    }
    Ok(out)
}

/// Bytes of the ASCII text `cs`.
pub open spec fn ascii_bytes(cs: Seq<char>) -> Seq<u8> {
    cs.map_values(|c: char| c as u8)
}

/// Decoding the hexadecimal text of `b` gives `b` back.
pub proof fn lemma_hex_roundtrip(b: Seq<u8>)
    ensures
        vstd::utf8::is_ascii_chars(hex_chars(b)),
        vstd::utf8::encode_utf8(hex_chars(b)) == ascii_bytes(hex_chars(b)),
        hex_decode(ascii_bytes(hex_chars(b))) == Ok::<Seq<u8>, HexError>(b),
{
    let cs = hex_chars(b);
    let t = ascii_bytes(cs);
    assert(vstd::utf8::is_ascii_chars(cs));
    vstd::utf8::is_ascii_chars_encode_utf8(cs);
    assert(vstd::utf8::encode_utf8(cs) =~= t);
    assert forall|j: int| 0 <= j < t.len() implies hex_value(#[trigger] t[j]) == Some(
        (if j % 2 == 0 {
            b[j / 2] / 16
        } else {
            b[j / 2] % 16
        }) as u8,
    ) by {
    }
    lemma_first_invalid(t, 0);
    if first_invalid_from(t, 0) is Some {
        let k = first_invalid_from(t, 0)->0;
        assert(hex_value(t[k]) is Some);
    }
    assert forall|i: int| 0 <= i < b.len() implies (hex_value(t[2 * i])->0 * 16 + hex_value(t[2 * i + 1])->0) as u8
        == b[i] by {
        assert(hex_value(t[2 * i]) == Some((b[i] / 16) as u8));
        assert(hex_value(t[2 * i + 1]) == Some((b[i] % 16) as u8));
    }
    assert(hex_decode(t)->Ok_0 =~= b);
}

/// A fixed-size byte array, written as hexadecimal text.
#[derive(Clone, Copy, Debug)]
pub struct HexArray<const SIZE: usize>([u8; SIZE]);

impl<const SIZE: usize> View for HexArray<SIZE> {
    type V = Seq<u8>;

    closed spec fn view(&self) -> Seq<u8> {
        self.0@
    }
}

/// The first `n` bytes of `v`, padded with zeros.
pub open spec fn padded(v: Seq<u8>, n: nat) -> Seq<u8> {
    Seq::new(
        n,
        |i: int|
            if i < v.len() {
                v[i]
            } else {
                0u8
            },
    )
}

impl<const SIZE: usize> HexArray<SIZE> {
    /// The array holding `value`.
    pub fn new(value: [u8; SIZE]) -> (r: Self)
        ensures
            r@ == value@,
    {
        HexArray(value)
    }

    /// The array of zeros.
    pub fn zero() -> (r: Self)
        ensures
            r@ == Seq::new(SIZE as nat, |i: int| 0u8),
    {
        let r = HexArray([0u8; SIZE]);
        assert(r@ =~= Seq::new(SIZE as nat, |i: int| 0u8));
        r
    }

    /// Whether every byte is 0.
    pub fn is_empty(&self) -> (r: bool)
        ensures
            r == (forall|i: int| 0 <= i < self@.len() ==> #[trigger] self@[i] == 0u8),
    {
        let mut i: usize = 0;
        while i < SIZE
            invariant
                i <= SIZE,
                self@.len() == SIZE,
                forall|j: int| 0 <= j < i ==> self@[j] == 0u8,
            decreases SIZE - i,
        {
            if self.0[i] != 0 {
                return false;
            }
            i += 1;
        }
        true
    }

    /// The bytes, as a vector.
    pub fn as_vec(&self) -> (r: Vec<u8>)
        ensures
            r@ == self@,
            r@.len() == SIZE,
    {
        let mut out: Vec<u8> = Vec::new();
        let mut i: usize = 0;
        while i < SIZE
            invariant
                i <= SIZE,
                self@.len() == SIZE,
                out@ == self@.subrange(0, i as int),
            decreases SIZE - i,
        {
            out.push(self.0[i]);
            i += 1;
            assert(out@ =~= self@.subrange(0, i as int));
        }
        out
    }

    /// The bytes, as an array.
    pub fn to_array(&self) -> (r: [u8; SIZE])
        ensures
            r@ == self@,
    {
        self.0
    }

    /// The first `SIZE` bytes of `value`, padded with zeros.
    pub fn from_slice(value: &[u8]) -> (r: Self)
        ensures
            r@ == padded(value@, SIZE as nat),
    {
        let mut b = [0u8; SIZE];
        let mut i: usize = 0;
        while i < SIZE && i < value.len()
            invariant
                i <= SIZE,
                i <= value@.len(),
                b@.len() == SIZE,
                forall|j: int| 0 <= j < i ==> b@[j] == value@[j],
                forall|j: int| i <= j < SIZE ==> b@[j] == 0u8,
            decreases SIZE - i,
        {
            b[i] = value[i];
            i += 1;
        }
        let r = HexArray(b);
        assert(r@ =~= padded(value@, SIZE as nat));
        r
    }

    /// Lowercase hexadecimal text of the bytes.
    pub fn to_string(&self) -> (r: String)
        ensures
            r@ == hex_chars(self@),
    {
        encode(&self.0)
    }

    /// The array that hexadecimal text `s` holds; it must decode to exactly
    /// `SIZE` bytes.
    pub fn from_str(s: &str) -> (r: Result<Self, HexError>)
        ensures
            match hex_decode(vstd::utf8::encode_utf8(s@)) {
                Err(e) => r == Err::<Self, HexError>(e),
                Ok(b) => if b.len() == SIZE {
                    r matches Ok(a) && a@ == b
                } else {
                    r == Err::<Self, HexError>(HexError::InvalidStringLength)
                },
            },
    {
        let b = decode(s.as_bytes())?;
        if b.len() != SIZE {
            return Err(HexError::InvalidStringLength);
        }
        let r = Self::from_slice(b.as_slice());
        assert(r@ =~= b@);
        Ok(r)
    }
}

/// An array holds exactly `SIZE` bytes, so taking its first `SIZE` bytes
/// (as `from_slice` does) gives it back.
pub proof fn lemma_hex_array_size<const SIZE: usize>(a: HexArray<SIZE>)
    ensures
        a@.len() == SIZE,
        padded(a@, SIZE as nat) == a@,
{
    assert(padded(a@, SIZE as nat) =~= a@);
}

impl<const SIZE: usize> Default for HexArray<SIZE> {
    fn default() -> (r: Self)
        ensures
            r@ == Seq::new(SIZE as nat, |i: int| 0u8),
    {
        Self::zero()
    }
}

} // verus!
