//! The block of a response: option, suboption, status and a value.

use vstd::prelude::*;
use crate::error::DcpError;
use crate::wire::{be16, be16_value, copy_range, padding, push_all, push_be16, push_padding, read_be16};

verus! {

/// A block as the contracts see it.
pub struct BlockView {
    pub option: u8,
    pub suboption: u8,
    pub length: u16,
    pub status: u16,
    pub payload: Seq<u8>,
}

/// One block of a response. `length` counts the status and the value, not
/// the four bytes before them and not the padding.
pub struct DCPBlock {
    pub option: u8,
    pub suboption: u8,
    pub length: u16,
    pub status: u16,
    pub payload: Vec<u8>,
}

impl View for DCPBlock {
    type V = BlockView;

    open spec fn view(&self) -> BlockView {
        BlockView {
            option: self.option,
            suboption: self.suboption,
            length: self.length,
            status: self.status,
            payload: self.payload@,
        }
    }
}

/// The wire form of a block: option, suboption, the length of status and
/// value in two big-endian bytes, the status in two big-endian bytes, the
/// value, and a zero byte after an odd length.
pub open spec fn block_wire(option: u8, suboption: u8, status: u16, value: Seq<u8>) -> Seq<u8> {
    seq![option, suboption] + be16((value.len() + 2) as u16) + be16(status) + value + padding(
        value.len(),
    )
}

/// The number of bytes that a block with length field `length` takes in a
/// chain of blocks: the four leading bytes, status and value, and the padding.
pub open spec fn consumed_span(length: u16) -> int {
    length + length % 2 + 4
}

/// The block at the start of `bytes`, if its length field is at least two
/// and the bytes reach to the end of its value.
pub open spec fn block_parse(bytes: Seq<u8>) -> Option<BlockView> {
    if bytes.len() < 4 {
        None
    } else {
        let length = be16_value(bytes[2], bytes[3]);
        if length < 2 || 4 + length > bytes.len() {
            None
        } else {
            Some(
                BlockView {
                    option: bytes[0],
                    suboption: bytes[1],
                    length,
                    status: be16_value(bytes[4], bytes[5]),
                    payload: bytes.subrange(6, 4 + length),
                },
            )
        }
    }
}

impl DCPBlock {
    /// The wire form of this block. The length field is taken from the
    /// value, not from `length`.
    pub open spec fn wire(&self) -> Seq<u8> {
        block_wire(self.option, self.suboption, self.status, self.payload@)
    }

    /// Whether status and value together fit the sixteen-bit length field.
    pub open spec fn fits(&self) -> bool {
        self.payload@.len() + 2 <= 0xFFFF
    }

    pub fn new(option: u8, suboption: u8, status: u16, payload: Vec<u8>) -> (block: DCPBlock)
        requires
            payload@.len() + 2 <= 0xFFFF,
        ensures
            block.option == option,
            block.suboption == suboption,
            block.length == payload@.len() + 2,
            block.status == status,
            block.payload == payload,
    {
        let length: u16 = (payload.len() + 2) as u16;
        DCPBlock { option, suboption, length, status, payload }
    }

    /// Decodes the block at the start of `block`. Bytes after the value are
    /// not looked at.
    pub fn parse(block: &[u8]) -> (parsed: Result<DCPBlock, DcpError>)
        ensures
            match parsed {
                Ok(b) => block_parse(block@) == Some(b@),
                Err(e) => block_parse(block@) is None && e == DcpError::FramingError,
            },
    {
        if block.len() < 4 {
            return Err(DcpError::FramingError);
        }
        let option: u8 = block[0];
        let suboption: u8 = block[1];
        let length: u16 = read_be16(block[2], block[3]);
        if length < 2 || block.len() - 4 < length as usize {
            return Err(DcpError::FramingError);
        }
        let status: u16 = read_be16(block[4], block[5]);
        let payload_end: usize = 4 + length as usize;
        let payload: Vec<u8> = copy_range(block, 6, payload_end);
        Ok(DCPBlock { option, suboption, length, status, payload })
    }

    /// Encodes the block. The length field counts status and value before
    /// padding, and the encoding has an even number of bytes.
    pub fn compile(&self) -> (packet: Vec<u8>)
        requires
            self.fits(),
        ensures
            packet@ == self.wire(),
            packet@.len() == consumed_span((self.payload@.len() + 2) as u16),
            packet@.len() % 2 == 0,
    {
        let mut packet: Vec<u8> = Vec::new();
        packet.push(self.option);
        packet.push(self.suboption);
        let paylen: usize = self.payload.len();
        push_be16(&mut packet, (paylen + 2) as u16);
        push_be16(&mut packet, self.status);
        push_all(&mut packet, self.payload.as_slice());
        push_padding(&mut packet, paylen);
        assert(packet@ =~= self.wire());
        packet
    }
}

/// Decoding an encoded block gives back option, suboption, status and value,
/// with the length of status and value in the length field. The padding byte
/// is no part of the value, and bytes that follow the block change nothing.
pub proof fn lemma_block_round_trip(
    option: u8,
    suboption: u8,
    status: u16,
    value: Seq<u8>,
    rest: Seq<u8>,
)
    requires
        value.len() + 2 <= 0xFFFF,
    ensures
        block_parse(block_wire(option, suboption, status, value) + rest) == Some(
            BlockView {
                option,
                suboption,
                length: (value.len() + 2) as u16,
                status,
                payload: value,
            },
        ),
        block_wire(option, suboption, status, value).len() == consumed_span(
            (value.len() + 2) as u16,
        ),
{
    let bytes = block_wire(option, suboption, status, value) + rest;
    let length = (value.len() + 2) as u16;
    assert(bytes[0] == option);
    assert(bytes[1] == suboption);
    assert(bytes[2] == be16(length)[0]);
    assert(bytes[3] == be16(length)[1]);
    assert(bytes[4] == be16(status)[0]);
    assert(bytes[5] == be16(status)[1]);
    assert(be16_value(bytes[2], bytes[3]) == length);
    assert(be16_value(bytes[4], bytes[5]) == status);
    assert(bytes.subrange(6, 4 + length) =~= value);
}

/// A block request and the block with the same option, suboption and value
/// differ on the wire by the status alone: the block's length field is
/// larger by two, and the two status bytes stand before the value.
pub proof fn lemma_block_wire_of_request(option: u8, suboption: u8, status: u16, value: Seq<u8>)
    requires
        value.len() + 2 <= 0xFFFF,
    ensures
        block_wire(option, suboption, status, value) == seq![option, suboption] + be16(
            (value.len() + 2) as u16,
        ) + be16(status) + crate::dcpblockrequest::request_wire(option, suboption, value).skip(4),
{
    let request = crate::dcpblockrequest::request_wire(option, suboption, value);
    assert(request.skip(4) =~= value + padding(value.len()));
    assert(block_wire(option, suboption, status, value) =~= seq![option, suboption] + be16(
        (value.len() + 2) as u16,
    ) + be16(status) + request.skip(4));
}

} // verus!
