//! The Ethernet envelope around a packet. The frames themselves are laid
//! out and taken apart by `pnet`; this module holds their fields as plain
//! values and states what the two calls into `pnet` do to the bytes.

use vstd::prelude::*;
use pnet::packet::ethernet::{EtherType, Ethernet, EthernetPacket, MutableEthernetPacket};
use pnet::packet::FromPacket;
use pnet::util::MacAddr;
use crate::error::DcpError;
use crate::wire::be16;
use crate::wire::be16_value;

verus! {

/// The number of bytes before the payload: two addresses and the EtherType.
pub const ETHERNET_HEADER_LEN: usize = 14;

/// The least number of bytes of a frame that is built here. A shorter frame
/// is filled up with zero bytes.
pub const MIN_FRAME_LEN: usize = 42;

/// A frame as the contracts see it.
pub struct FrameView {
    pub destination: Seq<u8>,
    pub source: Seq<u8>,
    pub ethertype: u16,
    pub payload: Seq<u8>,
}

/// The fields of an Ethernet frame. Each address has six bytes.
pub struct EthernetFrame {
    pub destination: Vec<u8>,
    pub source: Vec<u8>,
    pub ethertype: u16,
    pub payload: Vec<u8>,
}

impl View for EthernetFrame {
    type V = FrameView;

    open spec fn view(&self) -> FrameView {
        FrameView {
            destination: self.destination@,
            source: self.source@,
            ethertype: self.ethertype,
            payload: self.payload@,
        }
    }
}

/// `n` zero bytes.
pub open spec fn zeros(n: nat) -> Seq<u8> {
    Seq::new(n, |i: int| 0u8)
}

/// The fourteen bytes before the payload: destination, source, and the
/// EtherType in two big-endian bytes.
pub open spec fn frame_header(frame: FrameView) -> Seq<u8> {
    frame.destination + frame.source + be16(frame.ethertype)
}

/// The number of bytes of the frame that carries `payload_len` bytes.
pub open spec fn frame_len(payload_len: nat) -> nat {
    if 14 + payload_len < 42 {
        42
    } else {
        14 + payload_len
    }
}

/// The wire form of a frame: header, payload, and zero bytes up to the
/// least frame length.
pub open spec fn frame_wire(frame: FrameView) -> Seq<u8> {
    frame_header(frame) + frame.payload + zeros(
        (frame_len(frame.payload.len()) - 14 - frame.payload.len()) as nat,
    )
}

/// The fields of the frame that `bytes` holds, if `bytes` has the fourteen
/// bytes of a header. The payload is all that follows the header.
pub open spec fn frame_parse(bytes: Seq<u8>) -> Option<FrameView> {
    if bytes.len() < 14 {
        None
    } else {
        Some(
            FrameView {
                destination: bytes.subrange(0, 6),
                source: bytes.subrange(6, 12),
                ethertype: be16_value(bytes[12], bytes[13]),
                payload: bytes.skip(14),
            },
        )
    }
}

/// Writes the fields of `frame` into `buffer` by `MutableEthernetPacket::new`
/// and `populate` of `pnet`. Trusted: the destination goes to bytes 0 to 5,
/// the source to bytes 6 to 11, the EtherType big-endian to bytes 12 and 13,
/// and the payload to the bytes from 14 on; the bytes of the buffer after the
/// payload stay as they were. `populate` stops the program where the payload
/// does not fit the buffer, so the buffer must hold header and payload.
#[verifier::external_body]
fn ethernet_populate(buffer: &mut Vec<u8>, frame: &EthernetFrame)
    requires
        frame.destination@.len() == 6,
        frame.source@.len() == 6,
        old(buffer)@.len() >= 14 + frame.payload@.len(),
    ensures
        final(buffer)@ == frame_header(frame@) + frame.payload@ + old(buffer)@.skip(
            14 + frame.payload@.len() as int,
        ),
{
    let d = &frame.destination;
    let s = &frame.source;
    let fields = Ethernet {
        destination: MacAddr::new(d[0], d[1], d[2], d[3], d[4], d[5]),
        source: MacAddr::new(s[0], s[1], s[2], s[3], s[4], s[5]),
        ethertype: EtherType(frame.ethertype),
        payload: frame.payload.clone(),
    };
    if let Some(mut packet) = MutableEthernetPacket::new(buffer.as_mut_slice()) {
        packet.populate(&fields);
    }
}

/// Reads the fields of the frame in `bytes` by `EthernetPacket::new` and
/// `from_packet` of `pnet`. Trusted: `new` gives a packet exactly where
/// `bytes` has fourteen bytes or more; the destination is bytes 0 to 5, the
/// source bytes 6 to 11, the EtherType the big-endian value of bytes 12 and
/// 13, and the payload all bytes from 14 on.
#[verifier::external_body]
fn ethernet_fields(bytes: &[u8]) -> (fields: Option<EthernetFrame>)
    ensures
        match fields {
            Some(frame) => frame_parse(bytes@) == Some(frame@),
            None => frame_parse(bytes@) is None,
        },
{
    let fields = EthernetPacket::new(bytes)?.from_packet();
    Some(
        EthernetFrame {
            destination: fields.destination.octets().to_vec(),
            source: fields.source.octets().to_vec(),
            ethertype: fields.ethertype.0,
            payload: fields.payload,
        },
    )
}

/// A vector of `n` zero bytes.
fn zero_buffer(n: usize) -> (buffer: Vec<u8>)
    ensures
        buffer@ == zeros(n as nat),
{
    let mut buffer: Vec<u8> = Vec::new();
    let mut i: usize = 0;
    while i < n
        invariant
            i <= n,
            buffer@ == zeros(i as nat),
        decreases n - i,
    {
        buffer.push(0u8);
        i += 1;
        assert(buffer@ =~= zeros(i as nat));
    }
    buffer
}

impl EthernetFrame {
    /// Whether both addresses have six bytes.
    pub open spec fn well_formed(&self) -> bool {
        self.destination@.len() == 6 && self.source@.len() == 6
    }

    /// Whether the frame can be laid out in memory.
    pub open spec fn fits(&self) -> bool {
        14 + self.payload@.len() <= usize::MAX
    }

    pub fn new(destination: Vec<u8>, source: Vec<u8>, ethertype: u16, payload: Vec<u8>) -> (frame:
        EthernetFrame)
        ensures
            frame.destination == destination,
            frame.source == source,
            frame.ethertype == ethertype,
            frame.payload == payload,
    {
        EthernetFrame { destination, source, ethertype, payload }
    }

    /// Encodes the frame: header, payload, and zero bytes up to the least
    /// frame length.
    pub fn compile(&self) -> (bytes: Vec<u8>)
        requires
            self.well_formed(),
            self.fits(),
        ensures
            bytes@ == frame_wire(self@),
            bytes@.len() == frame_len(self.payload@.len()),
    {
        let needed: usize = ETHERNET_HEADER_LEN + self.payload.len();
        let size: usize = if needed < MIN_FRAME_LEN {
            MIN_FRAME_LEN
        } else {
            needed
        };
        let mut buffer: Vec<u8> = zero_buffer(size);
        ethernet_populate(&mut buffer, self);
        assert(buffer@ =~= frame_wire(self@));
        buffer
    }

    /// Decodes the header and takes the rest of `bytes` as the payload.
    pub fn parse(bytes: &[u8]) -> (parsed: Result<EthernetFrame, DcpError>)
        ensures
            match parsed {
                Ok(frame) => frame_parse(bytes@) == Some(frame@) && frame.well_formed(),
                Err(e) => frame_parse(bytes@) is None && e == DcpError::FramingError,
            },
    {
        match ethernet_fields(bytes) {
            Some(frame) => Ok(frame),
            None => Err(DcpError::FramingError),
        }
    }
}

/// Decoding an encoded frame gives back addresses and EtherType, and as
/// payload the frame's payload followed by the zero bytes that filled the
/// frame up.
pub proof fn lemma_frame_round_trip(frame: FrameView)
    requires
        frame.destination.len() == 6,
        frame.source.len() == 6,
    ensures
        frame_parse(frame_wire(frame)) == Some(
            FrameView {
                payload: frame.payload + zeros(
                    (frame_len(frame.payload.len()) - 14 - frame.payload.len()) as nat,
                ),
                ..frame
            },
        ),
{
    let bytes = frame_wire(frame);
    let fill = zeros((frame_len(frame.payload.len()) - 14 - frame.payload.len()) as nat);
    assert(bytes.subrange(0, 6) =~= frame.destination);
    assert(bytes.subrange(6, 12) =~= frame.source);
    assert(bytes[12] == be16(frame.ethertype)[0]);
    assert(bytes[13] == be16(frame.ethertype)[1]);
    assert(bytes.skip(14) =~= frame.payload + fill);
}

} // verus!
