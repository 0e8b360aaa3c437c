//! Dissociate: the client is done with a UDP association.

use super::command_type::CommandType;
use crate::protocol::tuic::header::{spec_write_header, Header};
use crate::wire::{
    be_bytes, be_nat, get_u16, lemma_be_bytes_len, lemma_be_nat_of_bytes, lemma_pow256_values,
    put_u16, read_matches, tail, CodecError,
};
use vstd::prelude::*;

verus! {

/// A Dissociate command.
#[derive(Debug, Eq, PartialEq, Clone, Copy, Structural)]
pub struct Dissociate {
    pub header: Header,
    pub asso_id: u16,
}

/// The bytes of `d`, header included.
pub open spec fn spec_write_dissociate(d: Dissociate) -> Seq<u8> {
    spec_write_header(d.header) + be_bytes(d.asso_id as nat, 2)
}

/// What reading the body of a Dissociate from `bytes` gives.
pub open spec fn spec_read_dissociate(header: Header, bytes: Seq<u8>) -> Result<
    (Dissociate, nat),
    CodecError,
> {
    if bytes.len() < 2 {
        Err(CodecError::Truncated)
    } else {
        Ok((Dissociate { header, asso_id: be_nat(bytes.subrange(0, 2)) as u16 }, 2))
    }
}

impl Dissociate {
    /// The command to drop association `asso_id`.
    pub fn new(asso_id: u16) -> (d: Self)
        ensures
            d == (Dissociate { header: Header::new(CommandType::Dissociate), asso_id }),
    {
        Dissociate { header: Header::new(CommandType::Dissociate), asso_id }
    }

    /// Reads the body at `pos`, behind a header already read; on success
    /// also gives the position behind it.
    pub fn read_from(header: Header, buf: &[u8], pos: usize) -> (r: Result<
        (Dissociate, usize),
        CodecError,
    >)
        ensures
            read_matches(r, spec_read_dissociate(header, tail(buf@, pos as int)), pos, buf@.len()),
    {
        match get_u16(buf, pos) {
            Ok(asso_id) => {
                assert(tail(buf@, pos as int).subrange(0, 2) =~= buf@.subrange(
                    pos as int,
                    pos + 2,
                ));
                Ok((Dissociate { header, asso_id }, pos + 2))
            },
            Err(e) => Err(e),
        }
    }

    /// Reads the body at the start of `buf`, behind a header already read.
    pub fn read_from_buf(header: Header, buf: &[u8]) -> (r: Result<(Dissociate, usize), CodecError>)
        ensures
            read_matches(r, spec_read_dissociate(header, buf@), 0, buf@.len()),
    {
        assert(tail(buf@, 0) =~= buf@);
        Dissociate::read_from(header, buf, 0)
    }

    /// Appends the command, header included.
    pub fn write_to_buf(&self, buf: &mut Vec<u8>)
        ensures
            final(buf)@ == old(buf)@ + spec_write_dissociate(*self),
    {
        self.header.write_to(buf);
        put_u16(buf, self.asso_id);
        assert(buf@ =~= old(buf)@ + spec_write_dissociate(*self));
    }

    /// The association to drop.
    pub fn assoc_id(&self) -> (id: u16)
        ensures
            id == self.asso_id,
    {
        self.asso_id
    }
}

/// The body of a Dissociate reads back as it was written.
pub proof fn lemma_dissociate_round_trip(d: Dissociate, rest: Seq<u8>)
    ensures
        spec_read_dissociate(d.header, be_bytes(d.asso_id as nat, 2) + rest) == Ok::<
            (Dissociate, nat),
            CodecError,
        >((d, 2)),
{
    let bytes = be_bytes(d.asso_id as nat, 2) + rest;
    lemma_pow256_values();
    lemma_be_bytes_len(d.asso_id as nat, 2);
    lemma_be_nat_of_bytes(d.asso_id as nat, 2);
    assert(bytes.subrange(0, 2) =~= be_bytes(d.asso_id as nat, 2));
}

} // verus!
