//! Trojan authentication: a client shows the SHA-224 of a password, in
//! lower-case hexadecimal.

use sha2::{Digest, Sha224};
use vstd::prelude::*;

verus! {

/// The length of a password hash on the wire: 28 bytes in hexadecimal.
pub const PASSWORD_HASH_LENGTH: usize = 56;

/// The SHA-224 digest of `data`.
pub uninterp spec fn sha224(data: Seq<u8>) -> Seq<u8>;

/// `Sha224::digest` of the crate sha2: the SHA-224 digest of `data`, which
/// has 28 bytes.
#[verifier::external_body]
fn sha224_digest(data: &[u8]) -> (digest: Vec<u8>)
    ensures
        digest@ == sha224(data@),
        digest@.len() == 28,
{
    Sha224::digest(data).to_vec()
}

/// The ASCII code of the lower-case hexadecimal digit of value `n`.
pub open spec fn spec_hex_digit(n: int) -> u8 {
    if n < 10 {
        (0x30 + n) as u8
    } else {
        (0x61 + n - 10) as u8
    }
}

/// `bytes` in lower-case hexadecimal, two digits for each byte, high digit
/// first.
pub open spec fn spec_hex_encode(bytes: Seq<u8>) -> Seq<u8>
    decreases bytes.len(),
{
    if bytes.len() == 0 {
        Seq::empty()
    } else {
        spec_hex_encode(bytes.drop_last()).push(spec_hex_digit(bytes.last() as int / 16)).push(
            spec_hex_digit(bytes.last() as int % 16),
        )
    }
}

/// The hash under which `password` is known: the hexadecimal form of its
/// SHA-224 digest.
pub open spec fn spec_password_hash(password: Seq<u8>) -> Seq<u8> {
    spec_hex_encode(sha224(password))
}

/// The hexadecimal form has two digits for each byte.
pub proof fn lemma_hex_encode_len(bytes: Seq<u8>)
    ensures
        spec_hex_encode(bytes).len() == 2 * bytes.len(),
    decreases bytes.len(),
{
    if bytes.len() > 0 {
        lemma_hex_encode_len(bytes.drop_last());
    }
}

fn hex_digit(n: u8) -> (d: u8)
    requires
        n < 16,
    ensures
        d == spec_hex_digit(n as int),
{
    if n < 10 {
        0x30 + n
    } else {
        0x61 + (n - 10)
    }
}

/// `bytes` in lower-case hexadecimal; see [`spec_hex_encode`].
pub fn hex_encode(bytes: &[u8]) -> (out: Vec<u8>)
    ensures
        out@ == spec_hex_encode(bytes@),
{
    let mut out: Vec<u8> = Vec::new();
    let mut i: usize = 0;
    while i < bytes.len()
        invariant
            i <= bytes@.len(),
            out@ == spec_hex_encode(bytes@.take(i as int)),
        decreases bytes@.len() - i,
    {
        let b: u8 = bytes[i];
        assert(bytes@.take(i + 1).drop_last() =~= bytes@.take(i as int));
        out.push(hex_digit(b / 16));
        out.push(hex_digit(b % 16));
        i = i + 1;
    }
    assert(bytes@.take(i as int) =~= bytes@);
    out
}

/// The hash under which a password with the bytes `password` is known.
pub fn password_hash(password: &[u8]) -> (hash: Vec<u8>)
    ensures
        hash@ == spec_password_hash(password@),
        hash@.len() == PASSWORD_HASH_LENGTH,
{
    let digest: Vec<u8> = sha224_digest(password);
    proof {
        lemma_hex_encode_len(digest@);
    }
    hex_encode(digest.as_slice())
}

/// Whether `a` and `b` hold the same bytes. Slices of one length are
/// compared byte by byte to the end, whatever they hold.
pub fn constant_time_eq(a: &[u8], b: &[u8]) -> (r: bool)
    ensures
        r == (a@ == b@),
{
    if a.len() != b.len() {
        return false;
    }
    let mut result: u8 = 0;
    let mut i: usize = 0;
    assert(a@.take(0) =~= b@.take(0));
    while i < a.len()
        invariant
            i <= a@.len() == b@.len(),
            (result == 0) == (a@.take(i as int) == b@.take(i as int)),
        decreases a@.len() - i,
    {
        let x: u8 = a[i];
        let y: u8 = b[i];
        let ghost before = result;
        result = result | (x ^ y);
        proof {
            assert((before | (x ^ y)) == 0 <==> (before == 0 && x == y)) by (bit_vector);
            let ai = a@.take(i as int);
            let bi = b@.take(i as int);
            let an = a@.take(i + 1);
            let bn = b@.take(i + 1);
            assert(an.drop_last() =~= ai);
            assert(bn.drop_last() =~= bi);
            if ai == bi && x == y {
                assert(an =~= bn);
            }
            if an == bn {
                assert(an[i as int] == bn[i as int]);
                assert(ai =~= bi);
            }
        }
        i = i + 1;
    }
    assert(a@.take(i as int) =~= a@);
    assert(b@.take(i as int) =~= b@);
    result == 0
}

/// The passwords that open the server, kept as their hashes.
#[derive(Debug)]
pub struct TrojanAuthenticationManager {
    valid_hashes: Vec<Vec<u8>>,
}

/// The hashes of `passwords`, in their order.
pub open spec fn spec_password_hashes(passwords: Seq<String>) -> Seq<Seq<u8>> {
    Seq::new(
        passwords.len(),
        |i: int| spec_password_hash(vstd::utf8::encode_utf8(passwords[i]@)),
    )
}

impl View for TrojanAuthenticationManager {
    type V = Seq<Seq<u8>>;

    closed spec fn view(&self) -> Seq<Seq<u8>> {
        Seq::new(self.valid_hashes@.len(), |i: int| self.valid_hashes@[i]@)
    }
}

impl TrojanAuthenticationManager {
    /// A manager that knows the hashes of `passwords`.
    pub fn new(passwords: Vec<String>) -> (m: Self)
        ensures
            m@ == spec_password_hashes(passwords@),
    {
        let mut valid_hashes: Vec<Vec<u8>> = Vec::new();
        let mut i: usize = 0;
        while i < passwords.len()
            invariant
                i <= passwords@.len(),
                valid_hashes@.len() == i,
                forall|j: int|
                    0 <= j < i ==> (#[trigger] valid_hashes@[j])@ == spec_password_hash(
                        vstd::utf8::encode_utf8(passwords@[j]@),
                    ),
            decreases passwords@.len() - i,
        {
            let hash: Vec<u8> = password_hash(passwords[i].as_str().as_bytes());
            valid_hashes.push(hash);
            i = i + 1;
        }
        let m = TrojanAuthenticationManager { valid_hashes };
        assert(m@ =~= spec_password_hashes(passwords@));
        m
    }

    /// Whether `received_hash` is the hash of one of the passwords.
    pub fn verify_password_hash(&self, received_hash: &str) -> (ok: bool)
        ensures
            ok == self@.contains(vstd::utf8::encode_utf8(received_hash@)),
    {
        self.verify_hash_bytes(received_hash.as_bytes())
    }

    /// Whether `received` is the hash of one of the passwords.
    pub fn verify_hash_bytes(&self, received: &[u8]) -> (ok: bool)
        ensures
            ok == self@.contains(received@),
    {
        let mut i: usize = 0;
        while i < self.valid_hashes.len()
            invariant
                i <= self.valid_hashes@.len(),
                forall|j: int| 0 <= j < i ==> self@[j] != received@,
            decreases self.valid_hashes@.len() - i,
        {
            if constant_time_eq(self.valid_hashes[i].as_slice(), received) {
                assert(self@[i as int] == received@);
                return true;
            }
            i = i + 1;
        }
        false
    }
}

} // verus!
