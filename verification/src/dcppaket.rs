//! The packet: a header of twelve bytes and a payload of blocks.

use vstd::prelude::*;
use crate::error::DcpError;
use crate::wire::{be16, be16_value, be32, be32_value, copy_range, push_all, push_be16, push_be32, read_be16, read_be32};

verus! {

/// The number of bytes of the packet header.
pub const HEADER_LEN: usize = 12;

/// A packet as the contracts see it.
pub struct PacketView {
    pub frameid: u16,
    pub serviceid: u8,
    pub service_type: u8,
    pub xid: u32,
    pub response_delay: u16,
    pub length: u32,
    pub payload: Seq<u8>,
}

/// A packet. A request carries one block request as its payload, a response
/// any number of blocks. `length` is what the header's length field said, or
/// for a packet made here the payload's length.
pub struct DCPPacket {
    pub frameid: u16,
    pub serviceid: u8,
    pub service_type: u8,
    pub xid: u32,
    pub response_delay: u16,
    pub length: u32,
    pub payload: Vec<u8>,
}

impl View for DCPPacket {
    type V = PacketView;

    open spec fn view(&self) -> PacketView {
        PacketView {
            frameid: self.frameid,
            serviceid: self.serviceid,
            service_type: self.service_type,
            xid: self.xid,
            response_delay: self.response_delay,
            length: self.length,
            payload: self.payload@,
        }
    }
}

/// The wire form of a packet: frame id, service id, service type,
/// transaction id, response delay and the payload's length, the integers
/// big-endian, and then the payload.
pub open spec fn packet_wire(
    frameid: u16,
    serviceid: u8,
    service_type: u8,
    xid: u32,
    response_delay: u16,
    payload: Seq<u8>,
) -> Seq<u8> {
    be16(frameid) + seq![serviceid, service_type] + be32(xid) + be16(response_delay) + be16(
        payload.len() as u16,
    ) + payload
}

/// The packet that `data` holds, if `data` has the twelve bytes of a header.
/// The payload is all that follows the header, whatever the length field says.
pub open spec fn packet_parse(data: Seq<u8>) -> Option<PacketView> {
    if data.len() < 12 {
        None
    } else {
        Some(
            PacketView {
                frameid: be16_value(data[0], data[1]),
                serviceid: data[2],
                service_type: data[3],
                xid: be32_value(data[4], data[5], data[6], data[7]),
                response_delay: be16_value(data[8], data[9]),
                length: be16_value(data[10], data[11]) as u32,
                payload: data.skip(12),
            },
        )
    }
}

impl DCPPacket {
    /// The wire form of this packet. The length field is taken from the
    /// payload, not from `length`.
    pub open spec fn wire(&self) -> Seq<u8> {
        packet_wire(
            self.frameid,
            self.serviceid,
            self.service_type,
            self.xid,
            self.response_delay,
            self.payload@,
        )
    }

    /// Whether the payload's length fits the sixteen-bit length field.
    pub open spec fn fits(&self) -> bool {
        self.payload@.len() <= 0xFFFF
    }

    pub fn new(
        frameid: u16,
        serviceid: u8,
        service_type: u8,
        xid: u32,
        response_delay: u16,
        payload: Vec<u8>,
    ) -> (packet: DCPPacket)
        requires
            payload@.len() <= 0xFFFF,
        ensures
            packet.frameid == frameid,
            packet.serviceid == serviceid,
            packet.service_type == service_type,
            packet.xid == xid,
            packet.response_delay == response_delay,
            packet.length == payload@.len(),
            packet.payload == payload,
    {
        let length: u32 = payload.len() as u32;
        DCPPacket { frameid, serviceid, service_type, xid, response_delay, length, payload }
    }

    /// Decodes the header and takes the rest of `data` as the payload.
    pub fn parse(data: &[u8]) -> (parsed: Result<DCPPacket, DcpError>)
        ensures
            match parsed {
                Ok(p) => packet_parse(data@) == Some(p@),
                Err(e) => packet_parse(data@) is None && e == DcpError::FramingError,
            },
    {
        if data.len() < HEADER_LEN {
            return Err(DcpError::FramingError);
        }
        let frameid: u16 = read_be16(data[0], data[1]);
        let serviceid: u8 = data[2];
        let service_type: u8 = data[3];
        let xid: u32 = read_be32(data[4], data[5], data[6], data[7]);
        let response_delay: u16 = read_be16(data[8], data[9]);
        let length: u16 = read_be16(data[10], data[11]);
        let payload: Vec<u8> = copy_range(data, HEADER_LEN, data.len());
        assert(payload@ =~= data@.skip(12));
        Ok(
            DCPPacket {
                frameid,
                serviceid,
                service_type,
                xid,
                response_delay,
                length: length as u32,
                payload,
            },
        )
    }

    /// Whether the packet is a response.
    pub fn validate(&self) -> (valid: bool)
        ensures
            valid == (self.service_type == 1),
    {
        self.service_type == 1
    }

    /// Encodes the packet, with the payload's length in the length field.
    pub fn compile(&self) -> (packet: Vec<u8>)
        requires
            self.fits(),
        ensures
            packet@ == self.wire(),
            packet@.len() == 12 + self.payload@.len(),
    {
        let mut packet: Vec<u8> = Vec::new();
        push_be16(&mut packet, self.frameid);
        packet.push(self.serviceid);
        packet.push(self.service_type);
        push_be32(&mut packet, self.xid);
        push_be16(&mut packet, self.response_delay);
        push_be16(&mut packet, self.payload.len() as u16);
        push_all(&mut packet, self.payload.as_slice());
        assert(packet@ =~= self.wire());
        packet
    }
}

/// Decoding an encoded packet gives back every field, and in `length` the
/// payload's length.
pub proof fn lemma_packet_round_trip(
    frameid: u16,
    serviceid: u8,
    service_type: u8,
    xid: u32,
    response_delay: u16,
    payload: Seq<u8>,
)
    requires
        payload.len() <= 0xFFFF,
    ensures
        packet_parse(packet_wire(frameid, serviceid, service_type, xid, response_delay, payload))
            == Some(
            PacketView {
                frameid,
                serviceid,
                service_type,
                xid,
                response_delay,
                length: payload.len() as u32,
                payload,
            },
        ),
{
    let data = packet_wire(frameid, serviceid, service_type, xid, response_delay, payload);
    let length = payload.len() as u16;
    assert(data[0] == be16(frameid)[0] && data[1] == be16(frameid)[1]);
    assert(data[2] == serviceid && data[3] == service_type);
    assert(data[4] == be32(xid)[0] && data[5] == be32(xid)[1]);
    assert(data[6] == be32(xid)[2] && data[7] == be32(xid)[3]);
    assert(data[8] == be16(response_delay)[0] && data[9] == be16(response_delay)[1]);
    assert(data[10] == be16(length)[0] && data[11] == be16(length)[1]);
    assert(be16_value(data[0], data[1]) == frameid);
    assert(be32_value(data[4], data[5], data[6], data[7]) == xid);
    assert(be16_value(data[8], data[9]) == response_delay);
    assert(be16_value(data[10], data[11]) == length);
    assert(data.skip(12) =~= payload);
}

/// A packet whose `length` is stale is encoded as if it were right: the
/// length field on the wire comes from the payload, and so does the `length`
/// that decoding gives.
pub proof fn lemma_length_recomputed(packet: PacketView)
    requires
        packet.payload.len() <= 0xFFFF,
    ensures
        packet_parse(
            packet_wire(
                packet.frameid,
                packet.serviceid,
                packet.service_type,
                packet.xid,
                packet.response_delay,
                packet.payload,
            ),
        ) == Some(PacketView { length: packet.payload.len() as u32, ..packet }),
{
    lemma_packet_round_trip(
        packet.frameid,
        packet.serviceid,
        packet.service_type,
        packet.xid,
        packet.response_delay,
        packet.payload,
    );
}

/// Bytes that follow an encoded packet are decoded as the end of its
/// payload, while `length` still gives the length of the payload that was
/// encoded. A frame that was filled up is decoded so.
pub proof fn lemma_packet_parse_filled(
    frameid: u16,
    serviceid: u8,
    service_type: u8,
    xid: u32,
    response_delay: u16,
    payload: Seq<u8>,
    fill: Seq<u8>,
)
    requires
        payload.len() <= 0xFFFF,
    ensures
        packet_parse(
            packet_wire(frameid, serviceid, service_type, xid, response_delay, payload) + fill,
        ) == Some(
            PacketView {
                frameid,
                serviceid,
                service_type,
                xid,
                response_delay,
                length: payload.len() as u32,
                payload: payload + fill,
            },
        ),
{
    let data = packet_wire(frameid, serviceid, service_type, xid, response_delay, payload) + fill;
    let length = payload.len() as u16;
    assert(data[0] == be16(frameid)[0] && data[1] == be16(frameid)[1]);
    assert(data[2] == serviceid && data[3] == service_type);
    assert(data[4] == be32(xid)[0] && data[5] == be32(xid)[1]);
    assert(data[6] == be32(xid)[2] && data[7] == be32(xid)[3]);
    assert(data[8] == be16(response_delay)[0] && data[9] == be16(response_delay)[1]);
    assert(data[10] == be16(length)[0] && data[11] == be16(length)[1]);
    assert(be16_value(data[0], data[1]) == frameid);
    assert(be32_value(data[4], data[5], data[6], data[7]) == xid);
    assert(be16_value(data[8], data[9]) == response_delay);
    assert(be16_value(data[10], data[11]) == length);
    assert(data.skip(12) =~= payload + fill);
}

} // verus!
