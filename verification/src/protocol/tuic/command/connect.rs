//! Connect: open a TCP relay to an address.

use super::command_type::CommandType;
use crate::protocol::tuic::address::{
    lemma_address_round_trip, spec_read_address, spec_write_address, Address, AddressView,
};
use crate::protocol::tuic::header::{spec_write_header, Header};
use crate::wire::{read_matches_view, tail, CodecError};
use vstd::prelude::*;

verus! {

/// A Connect command.
#[derive(Debug, PartialEq, Eq)]
pub struct Connect {
    pub header: Header,
    pub address: Address,
}

/// A [`Connect`] as a value of specifications.
pub struct ConnectView {
    pub header: Header,
    pub address: AddressView,
}

impl View for Connect {
    type V = ConnectView;

    open spec fn view(&self) -> ConnectView {
        ConnectView { header: self.header, address: self.address@ }
    }
}

/// The bytes of `c`, header included.
pub open spec fn spec_write_connect(c: ConnectView) -> Seq<u8> {
    spec_write_header(c.header) + spec_write_address(c.address)
}

/// What reading the body of a Connect from `bytes` gives.
pub open spec fn spec_read_connect(header: Header, bytes: Seq<u8>) -> Result<
    (ConnectView, nat),
    CodecError,
> {
    match spec_read_address(bytes) {
        Ok((address, n)) => Ok((ConnectView { header, address }, n)),
        Err(e) => Err(e),
    }
}

impl Connect {
    /// The command to connect to `address`.
    pub fn new(address: Address) -> (c: Self)
        ensures
            c == (Connect { header: Header::new(CommandType::Connect), address }),
    {
        Connect { header: Header::new(CommandType::Connect), address }
    }

    /// Where to connect.
    pub fn address(&self) -> (a: &Address)
        ensures
            *a == self.address,
    {
        &self.address
    }

    /// Reads the body at `pos`, behind a header already read; on success
    /// also gives the position behind it.
    pub fn read_from(header: Header, buf: &[u8], pos: usize) -> (r: Result<
        (Connect, usize),
        CodecError,
    >)
        ensures
            read_matches_view(
                r,
                spec_read_connect(header, tail(buf@, pos as int)),
                pos,
                buf@.len(),
            ),
            r matches Ok((c, _)) ==> c.address@.wf(),
    {
        match Address::read_from(buf, pos) {
            Ok((address, next)) => Ok((Connect { header, address }, next)),
            Err(e) => Err(e),
        }
    }

    /// Reads the body at the start of `buf`, behind a header already read.
    pub fn read_from_buf(header: Header, buf: &[u8]) -> (r: Result<(Connect, usize), CodecError>)
        ensures
            read_matches_view(r, spec_read_connect(header, buf@), 0, buf@.len()),
            r matches Ok((c, _)) ==> c.address@.wf(),
    {
        assert(tail(buf@, 0) =~= buf@);
        Connect::read_from(header, buf, 0)
    }

    /// Appends the command, header included.
    pub fn write_to_buf(&self, buf: &mut Vec<u8>)
        requires
            self.address@.wf(),
        ensures
            final(buf)@ == old(buf)@ + spec_write_connect(self@),
    {
        self.header.write_to(buf);
        self.address.write_to_buf(buf);
        assert(buf@ =~= old(buf)@ + spec_write_connect(self@));
    }
}

/// The body of a Connect reads back as it was written.
pub proof fn lemma_connect_round_trip(c: ConnectView, rest: Seq<u8>)
    requires
        c.address.wf(),
    ensures
        spec_read_connect(c.header, spec_write_address(c.address) + rest) == Ok::<
            (ConnectView, nat),
            CodecError,
        >((c, spec_write_address(c.address).len())),
{
    lemma_address_round_trip(c.address, rest);
}

} // verus!
