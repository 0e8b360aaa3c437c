//! Big-endian integers on byte sequences, and the two ways a frame can fail
//! to decode.

use vstd::prelude::*;
use vstd::utf8::{decode_utf8, valid_utf8};

verus! {

/// Why a frame could not be decoded.
#[derive(Clone, Copy, Debug, PartialEq, Eq, Structural)]
pub enum CodecError {
    /// The input ended before the frame did.
    Truncated,
    /// A tag, a version or a length is not one the protocol knows, or a
    /// domain name is not UTF-8.
    MalformedFrame,
}

/// `256^n`.
pub open spec fn pow256(n: nat) -> nat
    decreases n,
{
    if n == 0 {
        1
    } else {
        256 * pow256((n - 1) as nat)
    }
}

/// The number that `bytes` spells in base 256, most significant byte first.
pub open spec fn be_nat(bytes: Seq<u8>) -> nat
    decreases bytes.len(),
{
    if bytes.len() == 0 {
        0
    } else {
        be_nat(bytes.drop_last()) * 256 + bytes.last() as nat
    }
}

/// The `n` low base-256 digits of `v`, most significant first.
pub open spec fn be_bytes(v: nat, n: nat) -> Seq<u8>
    decreases n,
{
    if n == 0 {
        Seq::empty()
    } else {
        be_bytes(v / 256, (n - 1) as nat).push((v % 256) as u8)
    }
}

/// The powers of 256 at the widths that the formats use.
pub proof fn lemma_pow256_values()
    ensures
        pow256(0) == 1,
        pow256(1) == 0x100,
        pow256(2) == 0x1_0000,
        pow256(4) == 0x1_0000_0000,
        pow256(16) == 0x1_0000_0000_0000_0000_0000_0000_0000_0000,
{
    reveal_with_fuel(pow256, 17);
}

/// `n` digits take `n` bytes.
pub proof fn lemma_be_bytes_len(v: nat, n: nat)
    ensures
        be_bytes(v, n).len() == n,
    decreases n,
{
    if n > 0 {
        lemma_be_bytes_len(v / 256, (n - 1) as nat);
    }
}

/// A sequence of `n` bytes spells a number below `256^n`.
pub proof fn lemma_be_nat_bound(bytes: Seq<u8>)
    ensures
        be_nat(bytes) < pow256(bytes.len()),
    decreases bytes.len(),
{
    if bytes.len() > 0 {
        lemma_be_nat_bound(bytes.drop_last());
    }
}

/// Decoding what was encoded gives the number back, when it fits.
pub proof fn lemma_be_nat_of_bytes(v: nat, n: nat)
    requires
        v < pow256(n),
    ensures
        be_nat(be_bytes(v, n)) == v,
    decreases n,
{
    if n > 0 {
        let rest = be_bytes(v / 256, (n - 1) as nat);
        lemma_be_bytes_len(v / 256, (n - 1) as nat);
        lemma_be_nat_of_bytes(v / 256, (n - 1) as nat);
        assert(be_bytes(v, n).drop_last() =~= rest);
    }
}

/// Encoding what was decoded gives the bytes back.
pub proof fn lemma_be_bytes_of_nat(bytes: Seq<u8>)
    ensures
        be_bytes(be_nat(bytes), bytes.len()) == bytes,
    decreases bytes.len(),
{
    if bytes.len() > 0 {
        lemma_be_bytes_of_nat(bytes.drop_last());
        assert(be_bytes(be_nat(bytes), bytes.len()) =~= bytes);
    }
}

/// Decoding one more byte.
pub proof fn lemma_be_nat_push(bytes: Seq<u8>, b: u8)
    ensures
        be_nat(bytes.push(b)) == be_nat(bytes) * 256 + b as nat,
{
    assert(bytes.push(b).drop_last() =~= bytes);
}

/// What is left of `bytes` from `pos` on; nothing when `pos` is past the end.
pub open spec fn tail(bytes: Seq<u8>, pos: int) -> Seq<u8> {
    if 0 <= pos <= bytes.len() {
        bytes.subrange(pos, bytes.len() as int)
    } else {
        Seq::empty()
    }
}

/// Whether a read at `pos` that returned `got` agrees with `want`, which is
/// what the format says of the bytes from `pos` on: the same value and the
/// position moved by the bytes used, or the same error.
pub open spec fn read_matches<T>(
    got: Result<(T, usize), CodecError>,
    want: Result<(T, nat), CodecError>,
    pos: usize,
    len: nat,
) -> bool {
    match got {
        Ok((v, next)) => want == Ok::<(T, nat), CodecError>((v, (next - pos) as nat)) && pos
            <= next <= len,
        Err(e) => want == Err::<(T, nat), CodecError>(e),
    }
}

/// [`read_matches`] for a value that is compared by its view.
pub open spec fn read_matches_view<T: View>(
    got: Result<(T, usize), CodecError>,
    want: Result<(T::V, nat), CodecError>,
    pos: usize,
    len: nat,
) -> bool {
    match got {
        Ok((v, next)) => want == Ok::<(T::V, nat), CodecError>((v@, (next - pos) as nat)) && pos
            <= next <= len,
        Err(e) => want == Err::<(T::V, nat), CodecError>(e),
    }
}

/// The byte at `pos`, or `Truncated` past the end.
pub fn get_u8(buf: &[u8], pos: usize) -> (r: Result<u8, CodecError>)
    ensures
        buf@.len() <= usize::MAX,
        r == (if pos < buf@.len() {
            Ok::<u8, CodecError>(buf@[pos as int])
        } else {
            Err::<u8, CodecError>(CodecError::Truncated)
        }),
{
    if pos < buf.len() {
        Ok(buf[pos])
    } else {
        Err(CodecError::Truncated)
    }
}

/// The `n` bytes from `pos` read as one big-endian number, or `Truncated`
/// when fewer than `n` are left.
pub fn get_be(buf: &[u8], pos: usize, n: usize) -> (r: Result<u128, CodecError>)
    requires
        n <= 16,
    ensures
        r == (if pos + n <= buf@.len() {
            Ok::<u128, CodecError>(be_nat(buf@.subrange(pos as int, pos + n)) as u128)
        } else {
            Err::<u128, CodecError>(CodecError::Truncated)
        }),
        r is Ok ==> be_nat(buf@.subrange(pos as int, pos + n)) < pow256(n as nat),
        buf@.len() <= usize::MAX,
        r is Ok ==> r->Ok_0 == be_nat(buf@.subrange(pos as int, pos + n)),
{
    if pos > buf.len() || n > buf.len() - pos {
        return Err(CodecError::Truncated);
    }
    let len: usize = buf.len();
    let mut acc: u128 = 0;
    let mut i: usize = 0;
    while i < n
        invariant
            i <= n <= 16,
            pos + n <= buf@.len() == len,
            acc == be_nat(buf@.subrange(pos as int, pos + i)),
            acc < pow256(i as nat),
        decreases n - i,
    {
        let b: u8 = buf[pos + i];
        proof {
            let prefix = buf@.subrange(pos as int, pos + i);
            lemma_be_nat_push(prefix, b);
            assert(buf@.subrange(pos as int, pos + i + 1) =~= prefix.push(b));
            lemma_pow256_step(i as nat, n as nat);
        }
        acc = acc * 256 + b as u128;
        i = i + 1;
    }
    Ok(acc)
}

/// `256^(i+1)` stays within sixteen bytes while `i < n <= 16`.
proof fn lemma_pow256_step(i: nat, n: nat)
    requires
        i < n <= 16,
    ensures
        pow256(i + 1) == 256 * pow256(i),
        pow256(i + 1) <= 0x1_0000_0000_0000_0000_0000_0000_0000_0000,
{
    reveal_with_fuel(pow256, 17);
}

/// A big-endian `u16` at `pos`.
pub fn get_u16(buf: &[u8], pos: usize) -> (r: Result<u16, CodecError>)
    ensures
        r == (if pos + 2 <= buf@.len() {
            Ok::<u16, CodecError>(be_nat(buf@.subrange(pos as int, pos + 2)) as u16)
        } else {
            Err::<u16, CodecError>(CodecError::Truncated)
        }),
        r is Ok ==> r->Ok_0 == be_nat(buf@.subrange(pos as int, pos + 2)),
        buf@.len() <= usize::MAX,
{
    proof {
        lemma_pow256_values();
    }
    match get_be(buf, pos, 2) {
        Ok(v) => Ok(v as u16),
        Err(e) => Err(e),
    }
}

/// A big-endian `u32` at `pos`.
pub fn get_u32(buf: &[u8], pos: usize) -> (r: Result<u32, CodecError>)
    ensures
        r == (if pos + 4 <= buf@.len() {
            Ok::<u32, CodecError>(be_nat(buf@.subrange(pos as int, pos + 4)) as u32)
        } else {
            Err::<u32, CodecError>(CodecError::Truncated)
        }),
        r is Ok ==> r->Ok_0 == be_nat(buf@.subrange(pos as int, pos + 4)),
        buf@.len() <= usize::MAX,
{
    proof {
        lemma_pow256_values();
    }
    match get_be(buf, pos, 4) {
        Ok(v) => Ok(v as u32),
        Err(e) => Err(e),
    }
}

/// A big-endian `u128` at `pos`.
pub fn get_u128(buf: &[u8], pos: usize) -> (r: Result<u128, CodecError>)
    ensures
        r == (if pos + 16 <= buf@.len() {
            Ok::<u128, CodecError>(be_nat(buf@.subrange(pos as int, pos + 16)) as u128)
        } else {
            Err::<u128, CodecError>(CodecError::Truncated)
        }),
        r is Ok ==> r->Ok_0 == be_nat(buf@.subrange(pos as int, pos + 16)),
        buf@.len() <= usize::MAX,
{
    get_be(buf, pos, 16)
}

/// Appends the `n` low bytes of `v`, most significant first.
pub fn put_be(out: &mut Vec<u8>, v: u128, n: usize)
    ensures
        final(out)@ == old(out)@ + be_bytes(v as nat, n as nat),
    decreases n,
{
    if n > 0 {
        put_be(out, v / 256, n - 1);
        out.push((v % 256) as u8);
        assert(out@ =~= old(out)@ + be_bytes(v as nat, n as nat));
    } else {
        assert(out@ =~= old(out)@ + be_bytes(v as nat, n as nat));
    }
}

/// Appends one byte.
pub fn put_u8(out: &mut Vec<u8>, v: u8)
    ensures
        final(out)@ == old(out)@.push(v),
{
    out.push(v);
}

/// Appends `v` as two bytes, high byte first.
pub fn put_u16(out: &mut Vec<u8>, v: u16)
    ensures
        final(out)@ == old(out)@ + be_bytes(v as nat, 2),
{
    put_be(out, v as u128, 2);
}

/// Appends a copy of `src`.
pub fn put_slice(out: &mut Vec<u8>, src: &[u8])
    ensures
        final(out)@ == old(out)@ + src@,
{
    let mut i: usize = 0;
    while i < src.len()
        invariant
            i <= src@.len(),
            out@ == old(out)@ + src@.subrange(0, i as int),
        decreases src@.len() - i,
    {
        out.push(src[i]);
        i = i + 1;
        assert(out@ =~= old(out)@ + src@.subrange(0, i as int));
    }
    assert(src@.subrange(0, src@.len() as int) =~= src@);
}

/// A copy of `buf[from..to]`.
pub fn copy_range(buf: &[u8], from: usize, to: usize) -> (out: Vec<u8>)
    requires
        from <= to <= buf@.len(),
    ensures
        out@ == buf@.subrange(from as int, to as int),
{
    let mut out: Vec<u8> = Vec::new();
    let mut i: usize = from;
    while i < to
        invariant
            from <= i <= to <= buf@.len(),
            out@ == buf@.subrange(from as int, i as int),
        decreases to - i,
    {
        out.push(buf[i]);
        i = i + 1;
        assert(out@ =~= buf@.subrange(from as int, i as int));
    }
    out
}

/// A copy of `src`.
pub fn copy_bytes(src: &Vec<u8>) -> (out: Vec<u8>)
    ensures
        out@ == src@,
{
    let out: Vec<u8> = copy_range(src.as_slice(), 0, src.len());
    assert(out@ =~= src@);
    out
}

/// `String::from_utf8` of std: the string that `bytes` encode, and `None`
/// exactly when they are not UTF-8.
#[verifier::external_body]
pub(crate) fn string_from_utf8(bytes: Vec<u8>) -> (r: Option<String>)
    ensures
        r is Some == valid_utf8(bytes@),
        r matches Some(s) ==> s@ == decode_utf8(bytes@),
{
    String::from_utf8(bytes).ok()
}

} // verus!
