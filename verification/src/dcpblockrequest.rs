//! The block of a request: option, suboption and a raw value.

use vstd::prelude::*;
use crate::wire::{be16, padding, push_all, push_be16, push_padding};

verus! {

/// The wire form of a block request: option, suboption, the value's length
/// in two big-endian bytes, the value, and a zero byte after an odd length.
pub open spec fn request_wire(option: u8, suboption: u8, value: Seq<u8>) -> Seq<u8> {
    seq![option, suboption] + be16(value.len() as u16) + value + padding(value.len())
}

/// One block of a request.
pub struct DCPBlockRequest {
    pub option: u8,
    pub suboption: u8,
    pub payload: Vec<u8>,
}

impl DCPBlockRequest {
    /// The wire form of this block request.
    pub open spec fn wire(&self) -> Seq<u8> {
        request_wire(self.option, self.suboption, self.payload@)
    }

    /// Whether the value's length fits the sixteen-bit length field.
    pub open spec fn fits(&self) -> bool {
        self.payload@.len() <= 0xFFFF
    }

    pub fn new(option: u8, suboption: u8, payload: Vec<u8>) -> (request: DCPBlockRequest)
        ensures
            request.option == option,
            request.suboption == suboption,
            request.payload == payload,
    {
        DCPBlockRequest { option, suboption, payload }
    }

    /// Encodes the block request. The length field holds the value's length
    /// before padding, and the encoding has an even number of bytes.
    pub fn compile(&self) -> (packet: Vec<u8>)
        requires
            self.fits(),
        ensures
            packet@ == self.wire(),
            packet@.len() == 4 + self.payload@.len() + self.payload@.len() % 2,
            packet@.len() % 2 == 0,
    {
        let mut packet: Vec<u8> = Vec::new();
        packet.push(self.option);
        packet.push(self.suboption);
        let paylen: usize = self.payload.len();
        push_be16(&mut packet, paylen as u16);
        push_all(&mut packet, self.payload.as_slice());
        push_padding(&mut packet, paylen);
        assert(packet@ =~= self.wire());
        packet
    }
}

/// The encoding of a block request covers an even number of bytes, whatever
/// the length of its value.
pub proof fn lemma_request_wire_even(option: u8, suboption: u8, value: Seq<u8>)
    ensures
        request_wire(option, suboption, value).len() == 4 + value.len() + value.len() % 2,
        request_wire(option, suboption, value).len() % 2 == 0,
{
}

} // verus!
