//! Authenticate: a user id and a token derived from the TLS session.

use super::command_type::CommandType;
use crate::protocol::tuic::header::{spec_write_header, Header};
use crate::wire::{
    be_bytes, be_nat, get_u128, lemma_be_bytes_len, lemma_be_nat_of_bytes, lemma_pow256_values,
    put_be, put_slice, read_matches_view, tail, CodecError,
};
use subtle::ConstantTimeEq;
use zeroize::Zeroize;
use vstd::prelude::*;

verus! {

/// The length of a user id on the wire.
pub const UUID_LEN: usize = 16;

/// The length of a token.
pub const TOKEN_LEN: usize = 32;

/// An Authenticate command.
#[derive(Debug, PartialEq, Eq)]
pub struct Authenticate {
    pub header: Header,
    /// The user id, its first byte in the highest byte.
    pub uuid: u128,
    pub token: [u8; 32],
}

/// An [`Authenticate`] as a value of specifications.
pub struct AuthenticateView {
    pub header: Header,
    pub uuid: u128,
    pub token: Seq<u8>,
}

impl View for Authenticate {
    type V = AuthenticateView;

    open spec fn view(&self) -> AuthenticateView {
        AuthenticateView { header: self.header, uuid: self.uuid, token: self.token@ }
    }
}

/// The bytes of `a`, header included: 16 bytes of user id, 32 of token.
pub open spec fn spec_write_authenticate(a: AuthenticateView) -> Seq<u8> {
    spec_write_header(a.header) + be_bytes(a.uuid as nat, 16) + a.token
}

/// What reading the body of an Authenticate from `bytes` gives.
pub open spec fn spec_read_authenticate(header: Header, bytes: Seq<u8>) -> Result<
    (AuthenticateView, nat),
    CodecError,
> {
    if bytes.len() < 48 {
        Err(CodecError::Truncated)
    } else {
        Ok(
            (
                AuthenticateView {
                    header,
                    uuid: be_nat(bytes.subrange(0, 16)) as u128,
                    token: bytes.subrange(16, 48),
                },
                48,
            ),
        )
    }
}

/// `ConstantTimeEq::ct_eq` of the crate subtle on two byte slices, turned
/// into a `bool`: whether the two hold the same bytes. The comparison looks
/// at every byte of slices of one length, whatever they hold.
#[verifier::external_body]
pub(crate) fn ct_eq(a: &[u8], b: &[u8]) -> (r: bool)
    ensures
        r == (a@ == b@),
{
    a.ct_eq(b).into()
}

/// `Zeroize::zeroize` of the crate zeroize on a token: afterwards every
/// byte of the token is 0.
#[verifier::external_body]
fn zeroize_token(token: &mut [u8; 32])
    ensures
        forall|i: int| 0 <= i < 32 ==> final(token)@[i] == 0,
    opens_invariants none
    no_unwind
{
    token.zeroize();
}

impl Drop for Authenticate {
    fn drop(&mut self)
        opens_invariants none
        no_unwind
    {
        zeroize_token(&mut self.token);
    }
}

impl Authenticate {
    /// The command with which user `uuid` shows `token`.
    pub fn new(uuid: u128, token: [u8; 32]) -> (a: Self)
        ensures
            a == (Authenticate { header: Header::new(CommandType::Authenticate), uuid, token }),
    {
        Authenticate { header: Header::new(CommandType::Authenticate), uuid, token }
    }

    /// Reads the body at `pos`, behind a header already read; on success
    /// also gives the position behind it.
    pub fn read_from(header: Header, buf: &[u8], pos: usize) -> (r: Result<
        (Authenticate, usize),
        CodecError,
    >)
        ensures
            read_matches_view(
                r,
                spec_read_authenticate(header, tail(buf@, pos as int)),
                pos,
                buf@.len(),
            ),
    {
        let uuid: u128 = match get_u128(buf, pos) {
            Ok(v) => v,
            Err(e) => {
                return Err(e);
            },
        };
        let from: usize = pos + UUID_LEN;
        let len: usize = buf.len();
        if len - from < TOKEN_LEN {
            return Err(CodecError::Truncated);
        }
        let mut token: [u8; 32] = [0u8; 32];
        let mut i: usize = 0;
        while i < TOKEN_LEN
            invariant
                i <= TOKEN_LEN,
                from + TOKEN_LEN <= buf@.len() == len,
                forall|j: int| 0 <= j < i ==> token@[j] == buf@[from + j],
            decreases TOKEN_LEN - i,
        {
            token[i] = buf[from + i];
            i = i + 1;
        }
        proof {
            let rest = tail(buf@, pos as int);
            assert(rest.subrange(0, 16) =~= buf@.subrange(pos as int, pos + 16));
            assert(rest.subrange(16, 48) =~= token@);
        }
        Ok((Authenticate { header, uuid, token }, from + TOKEN_LEN))
    }

    /// Appends the command, header included.
    pub fn write_to_buf(&self, buf: &mut Vec<u8>)
        ensures
            final(buf)@ == old(buf)@ + spec_write_authenticate(self@),
    {
        self.header.write_to(buf);
        put_be(buf, self.uuid, UUID_LEN);
        put_slice(buf, self.token.as_slice());
        assert(buf@ =~= old(buf)@ + spec_write_authenticate(self@));
    }

    /// Wipes the token: afterwards every byte of it is 0. The same happens
    /// when the command is dropped.
    pub fn zeroize(&mut self)
        ensures
            final(self).header == old(self).header,
            final(self).uuid == old(self).uuid,
            forall|i: int| 0 <= i < 32 ==> final(self).token@[i] == 0,
    {
        zeroize_token(&mut self.token);
    }

    /// The user id.
    pub fn uuid(&self) -> (id: u128)
        ensures
            id == self.uuid,
    {
        self.uuid
    }

    /// Whether `expected` is the token of this command. The comparison
    /// takes the same steps whatever the two tokens hold.
    pub fn verify_token(&self, expected: &[u8; 32]) -> (ok: bool)
        ensures
            ok == (self.token@ == expected@),
    {
        ct_eq(self.token.as_slice(), expected.as_slice())
    }
}

/// The body of an Authenticate reads back as it was written.
pub proof fn lemma_authenticate_round_trip(a: AuthenticateView, rest: Seq<u8>)
    requires
        a.token.len() == 32,
    ensures
        spec_read_authenticate(a.header, be_bytes(a.uuid as nat, 16) + a.token + rest) == Ok::<
            (AuthenticateView, nat),
            CodecError,
        >((a, 48)),
{
    let bytes = be_bytes(a.uuid as nat, 16) + a.token + rest;
    lemma_pow256_values();
    lemma_be_bytes_len(a.uuid as nat, 16);
    lemma_be_nat_of_bytes(a.uuid as nat, 16);
    assert(bytes.subrange(0, 16) =~= be_bytes(a.uuid as nat, 16));
    assert(bytes.subrange(16, 48) =~= a.token);
}

} // verus!
