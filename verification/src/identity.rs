//! Identities, passphrases, and their text form.
//!
//! A peer is addressed by a 32-byte public identifier and authenticated
//! by a 32-byte passphrase.  Both round-trip through a canonical
//! lowercase-hex text form for manual entry and for the rendezvous
//! payload `"<peer_id>#<passphrase>"`.  Passphrases are compared in
//! constant time: the comparison below touches every byte on every
//! path, whatever the input.

use vstd::prelude::*;
use vstd::slice::slice_to_vec;

use crate::text::{lemma_ascii_bytes_utf8, string_from_utf8};

verus! {

/// Length in bytes of a peer identifier and of a passphrase.
pub const KEY_LEN: usize = 32;

/// The lowercase hex character of a nibble.
pub open spec fn spec_hex_char(v: u8) -> char
    recommends
        v < 16,
{
    if v == 0 {
        '0'
    } else if v == 1 {
        '1'
    } else if v == 2 {
        '2'
    } else if v == 3 {
        '3'
    } else if v == 4 {
        '4'
    } else if v == 5 {
        '5'
    } else if v == 6 {
        '6'
    } else if v == 7 {
        '7'
    } else if v == 8 {
        '8'
    } else if v == 9 {
        '9'
    } else if v == 10 {
        'a'
    } else if v == 11 {
        'b'
    } else if v == 12 {
        'c'
    } else if v == 13 {
        'd'
    } else if v == 14 {
        'e'
    } else {
        'f'
    }
}

/// Whether `c` is a hex digit (either case).
pub open spec fn spec_hex_digit_ok(c: char) -> bool {
    ('0' as u32 <= c as u32 && c as u32 <= '9' as u32) || ('a' as u32 <= c as u32 && c as u32
        <= 'f' as u32) || ('A' as u32 <= c as u32 && c as u32 <= 'F' as u32)
}

/// The value of the hex digit `c`.
pub open spec fn spec_hex_digit(c: char) -> u8
    recommends
        spec_hex_digit_ok(c),
{
    if '0' as u32 <= c as u32 && c as u32 <= '9' as u32 {
        (c as u32 - '0' as u32) as u8
    } else if 'a' as u32 <= c as u32 && c as u32 <= 'f' as u32 {
        (c as u32 - 'a' as u32 + 10) as u8
    } else {
        (c as u32 - 'A' as u32 + 10) as u8
    }
}

/// The lowercase hex rendering of a byte string: two characters per byte.
pub open spec fn spec_bytes_to_hex(b: Seq<u8>) -> Seq<char> {
    Seq::new(
        2 * b.len(),
        |i: int|
            if i % 2 == 0 {
                spec_hex_char((b[i / 2] / 16) as u8)
            } else {
                spec_hex_char((b[i / 2] % 16) as u8)
            },
    )
}

/// Whether `s` is a well-formed hex string: even length, hex digits only.
pub open spec fn spec_hex_text_ok(s: Seq<char>) -> bool {
    s.len() % 2 == 0 && (forall|i: int| 0 <= i < s.len() ==> spec_hex_digit_ok(#[trigger] s[i]))
}

/// The bytes a well-formed hex string denotes.
pub open spec fn spec_hex_to_bytes(s: Seq<char>) -> Seq<u8>
    recommends
        spec_hex_text_ok(s),
{
    Seq::new(
        (s.len() / 2) as nat,
        |i: int| (16 * spec_hex_digit(s[2 * i]) + spec_hex_digit(s[2 * i + 1])) as u8,
    )
}

/// Every nibble's hex character is a hex digit, and reads back as itself.
pub proof fn lemma_hex_char_digit(v: u8)
    requires
        v < 16,
    ensures
        spec_hex_digit_ok(spec_hex_char(v)),
        spec_hex_digit(spec_hex_char(v)) == v,
{
}

/// Hex round-trip: rendering bytes and parsing the text yields the
/// bytes unchanged.
pub proof fn lemma_hex_round_trip(b: Seq<u8>)
    ensures
        spec_hex_text_ok(spec_bytes_to_hex(b)),
        spec_hex_to_bytes(spec_bytes_to_hex(b)) == b,
{
    let h = spec_bytes_to_hex(b);
    assert forall|i: int| 0 <= i < h.len() implies spec_hex_digit_ok(#[trigger] h[i]) by {
        if i % 2 == 0 {
            lemma_hex_char_digit((b[i / 2] / 16) as u8);
        } else {
            lemma_hex_char_digit((b[i / 2] % 16) as u8);
        }
    }
    assert forall|i: int| 0 <= i < b.len() implies spec_hex_to_bytes(h)[i] == b[i] by {
        lemma_hex_char_digit((b[i] / 16) as u8);
        lemma_hex_char_digit((b[i] % 16) as u8);
        assert((2 * i) / 2 == i && (2 * i + 1) / 2 == i);
        assert(h[2 * i] == spec_hex_char((b[i] / 16) as u8));
        assert(h[2 * i + 1] == spec_hex_char((b[i] % 16) as u8));
        assert(16 * (b[i] / 16) + b[i] % 16 == b[i]);
    }
    assert(spec_hex_to_bytes(h) =~= b);
}

/// The ASCII byte of a nibble's lowercase hex character.
fn hex_ascii(v: u8) -> (r: u8)
    requires
        v < 16,
    ensures
        r < 0x80,
        r as char == spec_hex_char(v),
{
    if v < 10 {
        48 + v
    } else {
        87 + v
    }
}

/// The value of a hex digit, or `None` for any other character.
fn hex_digit_val(c: char) -> (r: Option<u8>)
    ensures
        spec_hex_digit_ok(c) ==> r == Some(spec_hex_digit(c)),
        !spec_hex_digit_ok(c) ==> r is None,
{
    let u = c as u32;
    if 48 <= u && u <= 57 {
        Some((u - 48) as u8)
    } else if 97 <= u && u <= 102 {
        Some((u - 97 + 10) as u8)
    } else if 65 <= u && u <= 70 {
        Some((u - 65 + 10) as u8)
    } else {
        None
    }
}

/// Renders bytes as their canonical lowercase hex text.
pub fn bytes_to_hex(bytes: &Vec<u8>) -> (s: String)
    requires
        2 * bytes@.len() <= usize::MAX,
    ensures
        s@ == spec_bytes_to_hex(bytes@),
{
    let n = bytes.len();
    let mut out: Vec<u8> = Vec::new();
    for i in 0..n
        invariant
            n == bytes@.len(),
            2 * n <= usize::MAX,
            out@.len() == 2 * i,
            forall|j: int| 0 <= j < out@.len() ==> #[trigger] out@[j] < 0x80,
            forall|j: int|
                0 <= j < out@.len() ==> #[trigger] out@[j] as char == spec_bytes_to_hex(bytes@)[j],
    {
        let b = bytes[i];
        out.push(hex_ascii(b / 16));
        out.push(hex_ascii(b % 16));
        proof {
            assert((2 * i as int) / 2 == i as int && (2 * i as int + 1) / 2 == i as int);
        }
    }
    proof {
        lemma_ascii_bytes_utf8(out@);
        assert(vstd::utf8::decode_utf8(out@) =~= spec_bytes_to_hex(bytes@));
    }
    let s = string_from_utf8(out);
    s.unwrap()
}

/// Parses hex text into bytes; `None` exactly on odd length or a
/// non-hex character.
pub fn hex_to_bytes(s: &str) -> (r: Option<Vec<u8>>)
    ensures
        spec_hex_text_ok(s@) ==> (r matches Some(v) && v@ == spec_hex_to_bytes(s@)),
        !spec_hex_text_ok(s@) ==> r is None,
{
    let n = s.unicode_len();
    if n % 2 != 0 {
        return None;
    }
    let mut out: Vec<u8> = Vec::new();
    let mut i: usize = 0;
    while i < n / 2
        invariant
            n == s@.len(),
            n % 2 == 0,
            i <= n / 2,
            out@.len() == i,
            forall|j: int| 0 <= j < 2 * i ==> spec_hex_digit_ok(#[trigger] s@[j]),
            forall|j: int|
                0 <= j < i ==> #[trigger] out@[j] == 16 * spec_hex_digit(s@[2 * j])
                    + spec_hex_digit(s@[2 * j + 1]),
        decreases n / 2 - i,
    {
        let c_hi = s.get_char(2 * i);
        let c_lo = s.get_char(2 * i + 1);
        let hi = match hex_digit_val(c_hi) {
            Some(v) => v,
            None => {
                return None;
            },
        };
        let lo = match hex_digit_val(c_lo) {
            Some(v) => v,
            None => {
                return None;
            },
        };
        out.push(16 * hi + lo);
        i = i + 1;
    }
    proof {
        assert(spec_hex_text_ok(s@));
        assert(out@ =~= spec_hex_to_bytes(s@));
    }
    Some(out)
}

/// Compares two equal-length byte strings in constant time.
///
/// Every byte is visited on every run: there is no early exit, so the
/// time taken does not depend on the position of the first difference.
pub fn constant_time_eq_bytes(a: &Vec<u8>, b: &Vec<u8>) -> (r: bool)
    requires
        a@.len() == b@.len(),
    ensures
        r == (a@ == b@),
{
    let n = a.len();
    let mut diff: u8 = 0;
    for i in 0..n
        invariant
            n == a@.len() == b@.len(),
            (diff == 0) <==> (forall|j: int| 0 <= j < i ==> a@[j] == b@[j]),
    {
        let x = a[i];
        let y = b[i];
        proof {
            assert(((diff | (x ^ y)) == 0) <==> (diff == 0 && x == y)) by (bit_vector);
        }
        diff = diff | (x ^ y);
    }
    proof {
        if forall|j: int| 0 <= j < a@.len() ==> a@[j] == b@[j] {
            assert(a@ =~= b@);
        }
    }
    diff == 0
}

/// Fills `bytes` in place with fresh randomness.
///
/// Relies on `rand::fill`: it overwrites every element of the slice
/// with output of the thread-local generator.  Nothing is promised of
/// the values: they are random.
#[verifier::external_body]
fn fill_random(bytes: &mut Vec<u8>)
    ensures
        final(bytes)@.len() == old(bytes)@.len(),
{
    rand::fill(bytes.as_mut_slice());
}

/// Draws `KEY_LEN` fresh random bytes for a key or passphrase.
pub fn random_key_bytes() -> (r: Vec<u8>)
    ensures
        r@.len() == KEY_LEN,
{
    let mut bytes: Vec<u8> = Vec::new();
    bytes.resize(KEY_LEN, 0u8);
    fill_random(&mut bytes);
    bytes
}

/// A peer's public identifier: 32 bytes, rendered as 64 hex characters.
pub struct PeerId {
    bytes: Vec<u8>,
}

impl View for PeerId {
    type V = Seq<u8>;

    closed spec fn view(&self) -> Seq<u8> {
        self.bytes@
    }
}

impl PeerId {
    /// Well-formed: exactly `KEY_LEN` bytes.
    pub open spec fn wf(&self) -> bool {
        self@.len() == KEY_LEN
    }

    /// Wraps raw identifier bytes; `None` unless exactly `KEY_LEN` long.
    pub fn from_bytes(bytes: Vec<u8>) -> (r: Option<PeerId>)
        ensures
            bytes@.len() == KEY_LEN ==> (r matches Some(p) && p@ == bytes@ && p.wf()),
            bytes@.len() != KEY_LEN ==> r is None,
    {
        if bytes.len() == KEY_LEN {
            Some(PeerId { bytes })
        } else {
            None
        }
    }

    /// Parses the 64-hex-character text form.
    pub fn from_hex(s: &str) -> (r: Option<PeerId>)
        ensures
            spec_key_text_ok(s@) ==> (r matches Some(p) && p@ == spec_hex_to_bytes(s@) && p.wf()),
            !spec_key_text_ok(s@) ==> r is None,
    {
        match hex_to_bytes(s) {
            Some(bytes) => PeerId::from_bytes(bytes),
            None => None,
        }
    }

    /// Renders the canonical lowercase hex text form.
    pub fn to_hex(&self) -> (s: String)
        requires
            self.wf(),
        ensures
            s@ == spec_bytes_to_hex(self@),
    {
        bytes_to_hex(&self.bytes)
    }

    /// The raw identifier bytes.
    pub fn as_bytes(&self) -> (r: &Vec<u8>)
        ensures
            r@ == self@,
    {
        &self.bytes
    }

    /// Whether two identifiers are the same peer.
    pub fn same_as(&self, other: &PeerId) -> (r: bool)
        ensures
            r == (self@ == other@),
    {
        if self.bytes.len() != other.bytes.len() {
            return false;
        }
        constant_time_eq_bytes(&self.bytes, &other.bytes)
    }
}

impl Clone for PeerId {
    fn clone(&self) -> (r: Self)
        ensures
            r@ == self@,
    {
        PeerId { bytes: slice_to_vec(self.bytes.as_slice()) }
    }
}

/// A 32-byte shared secret, never derived from the identity keypair.
///
/// It has no derived equality: the only comparison offered is the
/// constant-time `matches`.
pub struct Passphrase {
    bytes: Vec<u8>,
}

impl View for Passphrase {
    type V = Seq<u8>;

    closed spec fn view(&self) -> Seq<u8> {
        self.bytes@
    }
}

impl Passphrase {
    /// Well-formed: exactly `KEY_LEN` bytes.
    pub open spec fn wf(&self) -> bool {
        self@.len() == KEY_LEN
    }

    /// Draws a fresh random passphrase.
    pub fn generate() -> (r: Passphrase)
        ensures
            r.wf(),
    {
        Passphrase { bytes: random_key_bytes() }
    }

    /// Wraps raw secret bytes; `None` unless exactly `KEY_LEN` long.
    pub fn from_bytes(bytes: Vec<u8>) -> (r: Option<Passphrase>)
        ensures
            bytes@.len() == KEY_LEN ==> (r matches Some(p) && p@ == bytes@ && p.wf()),
            bytes@.len() != KEY_LEN ==> r is None,
    {
        if bytes.len() == KEY_LEN {
            Some(Passphrase { bytes })
        } else {
            None
        }
    }

    /// Parses the 64-hex-character text form.
    pub fn from_hex(s: &str) -> (r: Option<Passphrase>)
        ensures
            spec_key_text_ok(s@) ==> (r matches Some(p) && p@ == spec_hex_to_bytes(s@) && p.wf()),
            !spec_key_text_ok(s@) ==> r is None,
    {
        match hex_to_bytes(s) {
            Some(bytes) => Passphrase::from_bytes(bytes),
            None => None,
        }
    }

    /// Renders the canonical lowercase hex text form.
    pub fn to_hex(&self) -> (s: String)
        requires
            self.wf(),
        ensures
            s@ == spec_bytes_to_hex(self@),
    {
        bytes_to_hex(&self.bytes)
    }

    /// The raw secret bytes, as written on the wire during the handshake.
    pub fn as_bytes(&self) -> (r: &Vec<u8>)
        ensures
            r@ == self@,
    {
        &self.bytes
    }

    /// Constant-time check that `received` is exactly this passphrase.
    ///
    /// True if and only if the bytes agree; the comparison touches
    /// every byte whatever the first difference.
    pub fn matches(&self, received: &Vec<u8>) -> (r: bool)
        ensures
            r == (received@ == self@),
    {
        if received.len() != self.bytes.len() {
            return false;
        }
        constant_time_eq_bytes(received, &self.bytes)
    }
}

impl Clone for Passphrase {
    fn clone(&self) -> (r: Self)
        ensures
            r@ == self@,
    {
        Passphrase { bytes: slice_to_vec(self.bytes.as_slice()) }
    }
}

/// Whether `s` is the text form of a 32-byte key: 64 hex characters.
pub open spec fn spec_key_text_ok(s: Seq<char>) -> bool {
    spec_hex_text_ok(s) && s.len() == 2 * KEY_LEN
}

/// Why a secret address was rejected.
#[derive(Clone, Copy, Debug, PartialEq, Eq, Structural)]
pub enum AddressError {
    /// The peer identifier field is empty.
    EmptyNodeId,
    /// The passphrase field is empty.
    EmptyPassphrase,
    /// The peer identifier is not 64 hex characters.
    InvalidNodeId,
    /// The passphrase is not 64 hex characters.
    InvalidPassphrase,
    /// A rendezvous payload has no `#` separator.
    MissingSeparator,
}

/// What parsing an identifier/passphrase pair of text fields yields.
pub open spec fn spec_parse_address(id: Seq<char>, pass: Seq<char>) -> Result<
    (Seq<u8>, Seq<u8>),
    AddressError,
> {
    if id.len() == 0 {
        Err(AddressError::EmptyNodeId)
    } else if pass.len() == 0 {
        Err(AddressError::EmptyPassphrase)
    } else if !spec_key_text_ok(id) {
        Err(AddressError::InvalidNodeId)
    } else if !spec_key_text_ok(pass) {
        Err(AddressError::InvalidPassphrase)
    } else {
        Ok((spec_hex_to_bytes(id), spec_hex_to_bytes(pass)))
    }
}

/// Everything a dialer needs to reach and authenticate to a peer.
pub struct SecretAddress {
    pub peer_node_id: PeerId,
    pub peer_passphrase: Passphrase,
}

impl SecretAddress {
    /// Well-formed: both fields are full-length keys.
    pub open spec fn wf(&self) -> bool {
        self.peer_node_id.wf() && self.peer_passphrase.wf()
    }

    /// Parses the two text fields of an address form.
    ///
    /// Rejected before any network activity: empty fields first, then
    /// fields that are not 64 hex characters.
    pub fn from_string(peer_node_id: String, peer_passphrase: String) -> (r: Result<
        SecretAddress,
        AddressError,
    >)
        ensures
            match spec_parse_address(peer_node_id@, peer_passphrase@) {
                Ok(parts) => r matches Ok(a) && a.peer_node_id@ == parts.0 && a.peer_passphrase@
                    == parts.1 && a.wf(),
                Err(e) => r == Err::<SecretAddress, AddressError>(e),
            },
    {
        if peer_node_id.as_str().unicode_len() == 0 {
            return Err(AddressError::EmptyNodeId);
        }
        if peer_passphrase.as_str().unicode_len() == 0 {
            return Err(AddressError::EmptyPassphrase);
        }
        let id = match PeerId::from_hex(peer_node_id.as_str()) {
            Some(p) => p,
            None => {
                return Err(AddressError::InvalidNodeId);
            },
        };
        let pass = match Passphrase::from_hex(peer_passphrase.as_str()) {
            Some(p) => p,
            None => {
                return Err(AddressError::InvalidPassphrase);
            },
        };
        Ok(SecretAddress { peer_node_id: id, peer_passphrase: pass })
    }

    /// Parses a rendezvous payload `"<peer_id>#<passphrase>"`, split on
    /// the first `#`.
    pub fn from_join_payload(payload: &str) -> (r: Result<SecretAddress, AddressError>)
        ensures
            match payload@.index_of_first('#') {
                Some(cut) => match spec_parse_address(
                    payload@.take(cut),
                    payload@.skip(cut + 1),
                ) {
                    Ok(parts) => r matches Ok(a) && a.peer_node_id@ == parts.0
                        && a.peer_passphrase@ == parts.1 && a.wf(),
                    Err(e) => r == Err::<SecretAddress, AddressError>(e),
                },
                None => r == Err::<SecretAddress, AddressError>(AddressError::MissingSeparator),
            },
    {
        let n = payload.unicode_len();
        let mut cut: usize = 0;
        let mut found = false;
        while cut < n && !found
            invariant
                n == payload@.len(),
                cut <= n,
                found ==> cut < n && payload@[cut as int] == '#',
                forall|j: int| 0 <= j < cut ==> payload@[j] != '#',
            decreases n - cut, (if found { 0int } else { 1int }),
        {
            if payload.get_char(cut) == '#' {
                found = true;
            } else {
                cut = cut + 1;
            }
        }
        proof {
            payload@.index_of_first_ensures('#');
            if found {
                assert(payload@.contains('#')) by {
                    assert(payload@[cut as int] == '#');
                }
                let idx = payload@.index_of_first('#').unwrap();
                assert(idx <= cut as int);
                assert(cut as int <= idx);
                assert(payload@.index_of_first('#') == Some(cut as int));
            } else {
                assert(forall|j: int| 0 <= j < payload@.len() ==> payload@[j] != '#');
                assert(!payload@.contains('#'));
                assert(payload@.index_of_first('#') is None);
            }
        }
        if !found {
            return Err(AddressError::MissingSeparator);
        }
        let id_part = payload.substring_char(0, cut);
        let pass_part = payload.substring_char(cut + 1, n);
        proof {
            assert(id_part@ =~= payload@.take(cut as int));
            assert(pass_part@ =~= payload@.skip(cut as int + 1));
        }
        SecretAddress::from_string(id_part.to_owned(), pass_part.to_owned())
    }
}

} // verus!
