//! The record of one device, and how the blocks of a response fill it.

use vstd::prelude::*;
use vstd::slice::slice_subrange;
use vstd::utf8::{decode_utf8, valid_utf8};
use crate::dcpblock::{block_parse, block_wire, consumed_span, lemma_block_round_trip, BlockView, DCPBlock};
use crate::error::DcpError;
use crate::utils::{dotted_decimal, dotted_decimal_bytes_to_string};
use crate::wire::copy_range;

verus! {

/// A device record as the contracts see it.
pub struct DeviceView {
    pub ip: Seq<char>,
    pub mac: Seq<char>,
    pub netmask: Seq<char>,
    pub gateway: Seq<char>,
    pub family: Seq<char>,
    pub nameofstation: Seq<char>,
}

/// What one response tells about a device. A field that no block of the
/// response filled is empty. `mac` comes from the frame's source address.
#[derive(Debug)]
pub struct Device {
    pub ip: String,
    pub mac: String,
    pub netmask: String,
    pub gateway: String,
    pub family: String,
    pub nameofstation: String,
}

impl View for Device {
    type V = DeviceView;

    open spec fn view(&self) -> DeviceView {
        DeviceView {
            ip: self.ip@,
            mac: self.mac@,
            netmask: self.netmask@,
            gateway: self.gateway@,
            family: self.family@,
            nameofstation: self.nameofstation@,
        }
    }
}

/// The record with every field empty.
pub open spec fn empty_device() -> DeviceView {
    DeviceView {
        ip: Seq::empty(),
        mac: Seq::empty(),
        netmask: Seq::empty(),
        gateway: Seq::empty(),
        family: Seq::empty(),
        nameofstation: Seq::empty(),
    }
}

impl Default for Device {
    fn default() -> (device: Device)
        ensures
            device@ == empty_device(),
    {
        Device {
            ip: String::new(),
            mac: String::new(),
            netmask: String::new(),
            gateway: String::new(),
            family: String::new(),
            nameofstation: String::new(),
        }
    }
}

/// `value` without the zero bytes at its end.
pub open spec fn strip_nuls(value: Seq<u8>) -> Seq<u8>
    decreases value.len(),
{
    if value.len() > 0 && value.last() == 0 {
        strip_nuls(value.drop_last())
    } else {
        value
    }
}

/// The record after one block. A station-name block sets the name to its
/// value, a device-family block sets the family to its value without the
/// zero bytes at its end, and an address block sets address, netmask and
/// gateway from the twelve bytes after the first two of its value. A block
/// of any other kind leaves the record as it is. Nothing comes back where a
/// text is no UTF-8 or an address block has fewer than fourteen bytes.
pub open spec fn fold_block(device: DeviceView, block: BlockView) -> Option<DeviceView> {
    if block.option == 2 && block.suboption == 2 {
        if valid_utf8(block.payload) {
            Some(DeviceView { nameofstation: decode_utf8(block.payload), ..device })
        } else {
            None
        }
    } else if block.option == 1 && block.suboption == 2 {
        if block.payload.len() >= 14 {
            Some(
                DeviceView {
                    ip: dotted_decimal(block.payload.subrange(2, 6)),
                    netmask: dotted_decimal(block.payload.subrange(6, 10)),
                    gateway: dotted_decimal(block.payload.subrange(10, 14)),
                    ..device
                },
            )
        } else {
            None
        }
    } else if block.option == 2 && block.suboption == 1 {
        if valid_utf8(strip_nuls(block.payload)) {
            Some(DeviceView { family: decode_utf8(strip_nuls(block.payload)), ..device })
        } else {
            None
        }
    } else {
        Some(device)
    }
}

/// The record after the chain of blocks at the start of `blocks`, of which
/// `remaining` bytes are declared. The walk goes on while more than six
/// bytes are declared, and moves on by each block's consumed span. Nothing
/// comes back where a block does not decode, cannot be folded, or spans
/// more than is declared or more than `blocks` holds.
pub open spec fn walk_blocks(blocks: Seq<u8>, remaining: int, device: DeviceView) -> Option<
    DeviceView,
>
    decreases remaining,
{
    if remaining <= 6 {
        Some(device)
    } else {
        match block_parse(blocks) {
            None => None,
            Some(block) => {
                let span = consumed_span(block.length);
                if span > remaining || span > blocks.len() {
                    None
                } else {
                    match fold_block(device, block) {
                        None => None,
                        Some(next) => walk_blocks(blocks.skip(span), remaining - span, next),
                    }
                }
            },
        }
    }
}

/// The number of bytes that the walk over `blocks` passes, with `remaining`
/// bytes declared: the consumed spans of the blocks it visits.
pub open spec fn walked_span(blocks: Seq<u8>, remaining: int) -> int
    decreases remaining,
{
    if remaining <= 6 {
        0
    } else {
        match block_parse(blocks) {
            None => 0,
            Some(block) => {
                let span = consumed_span(block.length);
                if span > remaining || span > blocks.len() {
                    0
                } else {
                    span + walked_span(blocks.skip(span), remaining - span)
                }
            },
        }
    }
}

/// Decodes UTF-8 by `String::from_utf8` of std. Trusted: the call succeeds
/// exactly on valid UTF-8, and the text it gives holds the characters that
/// the bytes encode.
#[verifier::external_body]
fn text_from_utf8(bytes: Vec<u8>) -> (text: Option<String>)
    ensures
        match text {
            Some(t) => valid_utf8(bytes@) && t@ == decode_utf8(bytes@),
            None => !valid_utf8(bytes@),
        },
{
    match String::from_utf8(bytes) {
        Ok(text) => Some(text),
        Err(_) => None,
    }
}

/// `value` without the zero bytes at its end.
fn without_trailing_nuls(value: &[u8]) -> (text: Vec<u8>)
    ensures
        text@ == strip_nuls(value@),
{
    let mut end: usize = value.len();
    assert(value@.subrange(0, end as int) =~= value@);
    while end > 0 && value[end - 1] == 0
        invariant
            end <= value@.len(),
            strip_nuls(value@) == strip_nuls(value@.subrange(0, end as int)),
        decreases end,
    {
        assert(value@.subrange(0, end as int).drop_last() =~= value@.subrange(0, end - 1));
        end -= 1;
    }
    copy_range(value, 0, end)
}

/// Decodes the block at the start of `blocks` and folds it into `device`.
/// Returns the block's consumed span: its length field, one more if that
/// is odd, and the four bytes before status and value. On an error the
/// record is left as it was.
pub fn process_blocks(blocks: &[u8], device: &mut Device) -> (consumed: Result<usize, DcpError>)
    ensures
        match consumed {
            Ok(span) => match block_parse(blocks@) {
                Some(block) => fold_block(old(device)@, block) == Some(final(device)@) && span
                    == consumed_span(block.length),
                None => false,
            },
            Err(e) => e == DcpError::FramingError && final(device)@ == old(device)@ && (match block_parse(
                blocks@,
            ) {
                Some(block) => fold_block(old(device)@, block) is None,
                None => true,
            }),
        },
{
    let dcpblock: DCPBlock = match DCPBlock::parse(blocks) {
        Ok(b) => b,
        Err(_) => {
            return Err(DcpError::FramingError);
        },
    };
    let length: usize = dcpblock.length as usize;
    let span: usize = length + length % 2 + 4;
    if dcpblock.option == 2 && dcpblock.suboption == 2 {
        match text_from_utf8(dcpblock.payload) {
            Some(name) => {
                device.nameofstation = name;
            },
            None => {
                return Err(DcpError::FramingError);
            },
        }
    } else if dcpblock.option == 1 && dcpblock.suboption == 2 {
        if dcpblock.payload.len() < 14 {
            return Err(DcpError::FramingError);
        }
        let value: &[u8] = dcpblock.payload.as_slice();
        device.ip = dotted_decimal_bytes_to_string(slice_subrange(value, 2, 6));
        device.netmask = dotted_decimal_bytes_to_string(slice_subrange(value, 6, 10));
        device.gateway = dotted_decimal_bytes_to_string(slice_subrange(value, 10, 14));
    } else if dcpblock.option == 2 && dcpblock.suboption == 1 {
        let text: Vec<u8> = without_trailing_nuls(dcpblock.payload.as_slice());
        match text_from_utf8(text) {
            Some(family) => {
                device.family = family;
            },
            None => {
                return Err(DcpError::FramingError);
            },
        }
    }
    Ok(span)
}

/// Walks the chain of blocks in `payload`, of which `length` bytes are
/// declared, and folds each block into `device`.
pub fn walk_payload(payload: &[u8], length: u32, initial: Device) -> (walked: Result<
    Device,
    DcpError,
>)
    ensures
        match walked {
            Ok(found) => walk_blocks(payload@, length as int, initial@) == Some(found@),
            Err(e) => walk_blocks(payload@, length as int, initial@) is None && e
                == DcpError::FramingError,
        },
{
    let ghost start = initial@;
    let mut device: Device = initial;
    let mut cursor: usize = 0;
    let mut remaining: usize = length as usize;
    assert(payload@.skip(0) =~= payload@);
    while remaining > 6
        invariant
            cursor <= payload@.len(),
            start == initial@,
            walk_blocks(payload@, length as int, start) == walk_blocks(
                payload@.skip(cursor as int),
                remaining as int,
                device@,
            ),
        decreases remaining,
    {
        let rest: &[u8] = slice_subrange(payload, cursor, payload.len());
        assert(rest@ =~= payload@.skip(cursor as int));
        let span: usize = match process_blocks(rest, &mut device) {
            Ok(span) => span,
            Err(_) => {
                return Err(DcpError::FramingError);
            },
        };
        if span > remaining || span > payload.len() - cursor {
            return Err(DcpError::FramingError);
        }
        assert(payload@.skip(cursor as int).skip(span as int) =~= payload@.skip(cursor + span));
        cursor += span;
        remaining -= span;
    }
    Ok(device)
}

/// Whether blocks with this option and suboption fill a field of the record.
pub open spec fn is_recognized(option: u8, suboption: u8) -> bool {
    (option == 2 && suboption == 2) || (option == 1 && suboption == 2) || (option == 2
        && suboption == 1)
}

/// A walk that begins at an encoded block folds that block and goes on
/// behind it, with the block's consumed span taken off what is declared.
pub proof fn lemma_walk_step(
    option: u8,
    suboption: u8,
    status: u16,
    value: Seq<u8>,
    rest: Seq<u8>,
    remaining: int,
    device: DeviceView,
)
    requires
        value.len() + 2 <= 0xFFFF,
        remaining > 6,
        remaining >= consumed_span((value.len() + 2) as u16),
    ensures
        walk_blocks(block_wire(option, suboption, status, value) + rest, remaining, device)
            == match fold_block(
            device,
            BlockView {
                option,
                suboption,
                length: (value.len() + 2) as u16,
                status,
                payload: value,
            },
        ) {
            Some(next) => walk_blocks(
                rest,
                remaining - consumed_span((value.len() + 2) as u16),
                next,
            ),
            None => None,
        },
{
    let wire = block_wire(option, suboption, status, value);
    let span = consumed_span((value.len() + 2) as u16);
    lemma_block_round_trip(option, suboption, status, value, rest);
    assert((wire + rest).skip(span) =~= rest);
}

/// A block of a kind that fills no field is passed over: the walk goes on
/// behind it with the record as it was, at the place where the next block
/// begins.
pub proof fn lemma_unknown_block_skipped(
    option: u8,
    suboption: u8,
    status: u16,
    value: Seq<u8>,
    rest: Seq<u8>,
    remaining: int,
    device: DeviceView,
)
    requires
        !is_recognized(option, suboption),
        value.len() + 2 <= 0xFFFF,
        remaining > 6,
        remaining >= consumed_span((value.len() + 2) as u16),
    ensures
        walk_blocks(block_wire(option, suboption, status, value) + rest, remaining, device)
            == walk_blocks(rest, remaining - consumed_span((value.len() + 2) as u16), device),
{
    lemma_walk_step(option, suboption, status, value, rest, remaining, device);
}

/// What is declared never falls below zero: a walk that succeeds from
/// `remaining` declared bytes has taken off no more than that.
pub proof fn lemma_walk_within_declared(blocks: Seq<u8>, remaining: int, device: DeviceView)
    requires
        remaining >= 0,
        walk_blocks(blocks, remaining, device) is Some,
    ensures
        walked_span(blocks, remaining) <= remaining,
        walked_span(blocks, remaining) <= blocks.len(),
        remaining - walked_span(blocks, remaining) <= 6,
    decreases remaining,
{
    if remaining > 6 {
        let block = block_parse(blocks).unwrap();
        let span = consumed_span(block.length);
        let next = fold_block(device, block).unwrap();
        lemma_walk_within_declared(blocks.skip(span), remaining - span, next);
    }
}

/// Bytes behind what is declared are not walked: where no more is declared
/// than `blocks` holds, bytes that follow `blocks` change nothing.
pub proof fn lemma_walk_ignores_trailing(
    blocks: Seq<u8>,
    extra: Seq<u8>,
    remaining: int,
    device: DeviceView,
)
    requires
        0 <= remaining <= blocks.len(),
    ensures
        walk_blocks(blocks + extra, remaining, device) == walk_blocks(blocks, remaining, device),
    decreases remaining,
{
    if remaining > 6 {
        let longer = blocks + extra;
        assert(longer[0] == blocks[0] && longer[1] == blocks[1]);
        assert(longer[2] == blocks[2] && longer[3] == blocks[3]);
        assert(longer[4] == blocks[4] && longer[5] == blocks[5]);
        match block_parse(blocks) {
            Some(block) => {
                let span = consumed_span(block.length);
                assert(longer.subrange(6, 4 + block.length) =~= blocks.subrange(
                    6,
                    4 + block.length,
                ));
                assert(block_parse(longer) == Some(block));
                if span <= remaining {
                    assert(longer.skip(span) =~= blocks.skip(span) + extra);
                    match fold_block(device, block) {
                        Some(next) => {
                            lemma_walk_ignores_trailing(
                                blocks.skip(span),
                                extra,
                                remaining - span,
                                next,
                            );
                        },
                        None => {},
                    }
                }
            },
            None => {},
        }
    }
}

} // verus!
