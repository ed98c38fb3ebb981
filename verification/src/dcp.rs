//! The client: the requests it sends, what it makes of a received frame,
//! and the bookkeeping of one exchange. The client sends and receives
//! nothing itself. A request comes back as the bytes of a frame, and the
//! caller hands in the frames that arrive while the listen window is open.

use vstd::prelude::*;
use vstd::utf8::encode_utf8;
use vstd::string::StringSliceAdditionalSpecFns;
use rand::RngCore;
use crate::constants;
use crate::dcpblockrequest::{request_wire, DCPBlockRequest};
use crate::dcppaket::{lemma_packet_parse_filled, packet_parse, packet_wire, DCPPacket, PacketView};
use crate::device::{empty_device, lemma_walk_ignores_trailing, walk_blocks, walk_payload, DeviceView};
pub use crate::device::Device;
use crate::error::DcpError;
use crate::ethernet::{frame_len, frame_parse, frame_wire, lemma_frame_round_trip, zeros, EthernetFrame, FrameView};
use crate::pattern::{is_valid_station_name, lower_bytes, name_matches, push_lower};
use crate::utils::{address_parse, address_text, mac_address_bytes_to_string, mac_address_string_to_bytes};

verus! {

/// The message for the status byte of a set response.
pub open spec fn response_text(choice: int) -> Seq<char> {
    if choice == 0 {
        "Code 00: Set successful"@
    } else if choice == 1 {
        "Code 01: Option unsupported"@
    } else if choice == 2 {
        "Code 02: Suboption unsupported or no DataSet available"@
    } else if choice == 3 {
        "Code 03: Suboption not set"@
    } else if choice == 4 {
        "Code 04: Resource Error"@
    } else if choice == 5 {
        "Code 05: SET not possible by local reasons"@
    } else if choice == 6 {
        "Code 06: In operation, SET not possible"@
    } else {
        "unknown"@
    }
}

/// The message for the status byte of a set response.
pub fn get_responsecode(choice: i32) -> (text: String)
    ensures
        text@ == response_text(choice as int),
{
    let result: &'static str = match choice {
        0 => "Code 00: Set successful",
        1 => "Code 01: Option unsupported",
        2 => "Code 02: Suboption unsupported or no DataSet available",
        3 => "Code 03: Suboption not set",
        4 => "Code 04: Resource Error",
        5 => "Code 05: SET not possible by local reasons",
        6 => "Code 06: In operation, SET not possible",
        _ => "unknown",
    };
    result.to_owned()
}

/// What a received frame turned out to be.
#[derive(Debug)]
pub enum RequestResult {
    /// The response of a device to an identify request.
    Device(Device),
    /// The message for the status of a set request.
    Status(String),
    /// A frame of another protocol, or a packet that is no response.
    Ignored,
}

/// A `RequestResult` as the contracts see it.
pub enum ResultView {
    Device(DeviceView),
    Status(Seq<char>),
    Ignored,
}

impl View for RequestResult {
    type V = ResultView;

    open spec fn view(&self) -> ResultView {
        match self {
            RequestResult::Device(d) => ResultView::Device(d@),
            RequestResult::Status(s) => ResultView::Status(s@),
            RequestResult::Ignored => ResultView::Ignored,
        }
    }
}

/// What the packet of a frame from `source` is. A packet that is no
/// response is left aside. A response whose payload begins with the control
/// option reports on a set request: its message is that of the byte at the
/// status offset. Any other response is the record of a device, with the
/// frame's source as its hardware address and its blocks folded in. Nothing
/// comes back where the status byte is missing or the walk over the blocks
/// fails.
pub open spec fn classify_packet(source: Seq<u8>, packet: PacketView) -> Option<ResultView> {
    if packet.service_type != 1 {
        Some(ResultView::Ignored)
    } else if packet.payload.len() > 0 && packet.payload[0] == 5 {
        if packet.payload.len() > 6 {
            Some(ResultView::Status(response_text(packet.payload[6] as int)))
        } else {
            None
        }
    } else {
        match walk_blocks(
            packet.payload,
            packet.length as int,
            DeviceView { mac: address_text(source), ..empty_device() },
        ) {
            Some(device) => Some(ResultView::Device(device)),
            None => None,
        }
    }
}

/// What a received frame is. A frame with another EtherType is left
/// aside. Nothing comes back where the frame is shorter than an Ethernet
/// header, its payload is shorter than a packet header, or the packet
/// cannot be classified.
pub open spec fn classify(frame: Seq<u8>) -> Option<ResultView> {
    match frame_parse(frame) {
        None => None,
        Some(envelope) => if envelope.ethertype != 0x8892 {
            Some(ResultView::Ignored)
        } else {
            match packet_parse(envelope.payload) {
                None => None,
                Some(packet) => classify_packet(envelope.source, packet),
            }
        },
    }
}

/// Decodes a received frame and says what it is.
pub fn read_response(frame: &[u8]) -> (result: Result<RequestResult, DcpError>)
    ensures
        match result {
            Ok(r) => classify(frame@) == Some(r@),
            Err(e) => classify(frame@) is None && e == DcpError::FramingError,
        },
{
    let envelope: EthernetFrame = match EthernetFrame::parse(frame) {
        Ok(envelope) => envelope,
        Err(_) => {
            return Err(DcpError::FramingError);
        },
    };
    if envelope.ethertype != constants::ETHER_TYPE {
        return Ok(RequestResult::Ignored);
    }
    let dcppaket: DCPPacket = match DCPPacket::parse(envelope.payload.as_slice()) {
        Ok(packet) => packet,
        Err(_) => {
            return Err(DcpError::FramingError);
        },
    };
    if !dcppaket.validate() {
        return Ok(RequestResult::Ignored);
    }
    let blocks: &[u8] = dcppaket.payload.as_slice();
    if blocks.len() > 0 && blocks[0] == constants::CONTROL_OPTION {
        if blocks.len() <= constants::STATUS_OFFSET {
            return Err(DcpError::FramingError);
        }
        let response: String = get_responsecode(blocks[constants::STATUS_OFFSET] as i32);
        return Ok(RequestResult::Status(response));
    }
    let mut device: Device = Device::default();
    device.mac = mac_address_bytes_to_string(envelope.source.as_slice());
    match walk_payload(blocks, dcppaket.length, device) {
        Ok(found) => Ok(RequestResult::Device(found)),
        Err(_) => Err(DcpError::FramingError),
    }
}

/// The transaction id on the wire: one more than the client's, wrapping
/// round at the largest value.
pub open spec fn wire_xid(xid: u32) -> u32 {
    if xid == u32::MAX {
        0
    } else {
        (xid + 1) as u32
    }
}

/// Whether the block request of a value of `len` bytes fits the payload of
/// a packet.
pub open spec fn value_fits(len: nat) -> bool {
    4 + len + len % 2 <= 0xFFFF
}

/// The frame of a request, or why there is none. The value is too long
/// where its block request does not fit a packet. An address is invalid
/// where its text does not parse or does not stand for six bytes. Else the
/// frame carries, under the protocol's EtherType, the packet of the request
/// with the value's block request as its payload.
pub open spec fn request_frame(
    source_text: Seq<char>,
    destination_text: Seq<char>,
    frame_id: u16,
    service_id: u8,
    xid: u32,
    option: u8,
    suboption: u8,
    value: Seq<u8>,
    response_delay: u16,
) -> Result<Seq<u8>, DcpError> {
    if !value_fits(value.len()) {
        Err(DcpError::ValueTooLong)
    } else {
        match (
            address_parse(encode_utf8(source_text)),
            address_parse(encode_utf8(destination_text)),
        ) {
            (Some(source), Some(destination)) => if source.len() == 6 && destination.len() == 6 {
                Ok(
                    frame_wire(
                        FrameView {
                            destination,
                            source,
                            ethertype: 0x8892,
                            payload: packet_wire(
                                frame_id,
                                service_id,
                                0,
                                wire_xid(xid),
                                response_delay,
                                request_wire(option, suboption, value),
                            ),
                        },
                    ),
                )
            } else {
                Err(DcpError::InvalidAddress)
            },
            _ => Err(DcpError::InvalidAddress),
        }
    }
}

/// The bytes of a built frame, or the error, as the contracts see them.
pub open spec fn frame_result(built: Result<Vec<u8>, DcpError>) -> Result<Seq<u8>, DcpError> {
    match built {
        Ok(frame) => Ok(frame@),
        Err(e) => Err(e),
    }
}

/// The kind of an exchange: what is listened for after the request.
#[derive(Clone, Copy, Debug, PartialEq, Eq, Structural)]
pub enum ExchangeKind {
    /// One device is asked to identify itself.
    Identify,
    /// All devices are asked to identify themselves.
    IdentifyAll,
    /// A device is told to set something and reports a status.
    SetRequest,
}

/// What the caller is to do next in an exchange.
#[derive(Clone, Copy, Debug, PartialEq, Eq, Structural)]
pub enum Action {
    /// Wait for the next frame and hand it in.
    Listen,
    /// The listen window has closed: take the result.
    Finish,
}

/// An exchange as the contracts see it.
pub struct ExchangeView {
    pub kind: ExchangeKind,
    pub request: Seq<u8>,
    pub devices: Seq<DeviceView>,
    pub message: Seq<char>,
}

/// One exchange: the frame of its request, which the caller sends once,
/// and what the frames received since then have brought. `devices` holds
/// the record of every device response in the order of arrival, `message`
/// the message of the latest status response.
#[derive(Debug)]
pub struct Exchange {
    pub kind: ExchangeKind,
    pub request: Vec<u8>,
    pub devices: Vec<Device>,
    pub message: String,
}

impl View for Exchange {
    type V = ExchangeView;

    open spec fn view(&self) -> ExchangeView {
        ExchangeView {
            kind: self.kind,
            request: self.request@,
            devices: self.devices@.map_values(|d: Device| d@),
            message: self.message@,
        }
    }
}

/// The exchange that begins with the request `frame`.
pub open spec fn opened(kind: ExchangeKind, frame: Seq<u8>) -> ExchangeView {
    ExchangeView { kind, request: frame, devices: Seq::empty(), message: Seq::empty() }
}

/// The exchange after one received frame. An identify exchange takes up
/// the record of a device response, a set exchange the message of a status
/// response. Any other frame, and one that does not decode, changes nothing.
pub open spec fn received(before: ExchangeView, result: Option<ResultView>) -> ExchangeView {
    match result {
        Some(ResultView::Device(device)) => if before.kind == ExchangeKind::SetRequest {
            before
        } else {
            ExchangeView { devices: before.devices.push(device), ..before }
        },
        Some(ResultView::Status(message)) => if before.kind == ExchangeKind::SetRequest {
            ExchangeView { message, ..before }
        } else {
            before
        },
        _ => before,
    }
}

/// The exchange that a built request begins, or the error of the request.
pub open spec fn begun(kind: ExchangeKind, frame: Result<Seq<u8>, DcpError>) -> Result<
    ExchangeView,
    DcpError,
> {
    match frame {
        Ok(f) => Ok(opened(kind, f)),
        Err(e) => Err(e),
    }
}

/// A begun exchange, or the error, as the contracts see them.
pub open spec fn exchange_result(begun: Result<Exchange, DcpError>) -> Result<
    ExchangeView,
    DcpError,
> {
    match begun {
        Ok(exchange) => Ok(exchange@),
        Err(e) => Err(e),
    }
}

/// The value of a blink request: the reserved qualifier and the blink value.
pub open spec fn blink_value() -> Seq<u8> {
    constants::QUALIFIER_RESERVED@ + constants::LED_BLINK_VALUE@
}

/// The value of a request that names a station: the qualifier for a
/// permanent value and the name in lower case.
pub open spec fn station_name_value(name: Seq<char>) -> Seq<u8> {
    constants::QUALIFIER_STORE_PERMANENT@ + lower_bytes(encode_utf8(name))
}

impl Exchange {
    /// Opens the exchange that begins with the request `frame`.
    pub fn open(kind: ExchangeKind, frame: Vec<u8>) -> (exchange: Exchange)
        ensures
            exchange@ == opened(kind, frame@),
    {
        let exchange = Exchange { kind, request: frame, devices: Vec::new(), message: String::new() };
        assert(exchange@.devices =~= Seq::empty());
        exchange
    }

    /// Says what to do when `elapsed_ms` milliseconds have passed since the
    /// request was sent: listen while the window is open, finish once it
    /// has closed. Nothing that has arrived ends an exchange early.
    pub fn poll(&self, elapsed_ms: u64) -> (action: Action)
        ensures
            action == (if elapsed_ms < 2000 {
                Action::Listen
            } else {
                Action::Finish
            }),
    {
        if elapsed_ms < constants::LISTEN_WINDOW_MS {
            Action::Listen
        } else {
            Action::Finish
        }
    }

    /// Takes up one received frame.
    pub fn receive(&mut self, frame: &[u8])
        ensures
            final(self)@ == received(old(self)@, classify(frame@)),
    {
        match read_response(frame) {
            Ok(RequestResult::Device(device)) => {
                if self.kind != ExchangeKind::SetRequest {
                    self.devices.push(device);
                    assert(self@.devices =~= old(self)@.devices.push(device@));
                }
            },
            Ok(RequestResult::Status(message)) => {
                if self.kind == ExchangeKind::SetRequest {
                    self.message = message;
                }
            },
            Ok(RequestResult::Ignored) => {},
            Err(_) => {},
        }
    }

    /// The result of an identify exchange: the record of the first device
    /// response, if there was one.
    pub fn first_device(self) -> (device: Option<Device>)
        ensures
            match device {
                Some(d) => self@.devices.len() > 0 && d@ == self@.devices[0],
                None => self@.devices.len() == 0,
            },
    {
        let mut devices: Vec<Device> = self.devices;
        if devices.len() > 0 {
            Some(devices.remove(0))
        } else {
            None
        }
    }
}

/// A random number from `rand::thread_rng` and `next_u32` of `rand`.
/// Nothing is known of the number. The call stops the program only where
/// the system gives the generator no seed.
#[verifier::external_body]
fn random_u32() -> u32 {
    rand::thread_rng().next_u32()
}

/// The client: the hardware address that its requests come from, as text,
/// and its transaction id. The transaction id of a response is not held
/// against it: any response that arrives while an exchange listens counts
/// for that exchange.
#[derive(Debug)]
pub struct Dcphandler {
    pub _xid: u32,
    pub src_mac: String,
}

impl Dcphandler {
    /// A client with a random transaction id.
    pub fn new(src_mac: String) -> (handler: Dcphandler)
        ensures
            handler.src_mac == src_mac,
    {
        Dcphandler::with_xid(src_mac, random_u32())
    }

    /// A client with the given transaction id.
    pub fn with_xid(src_mac: String, xid: u32) -> (handler: Dcphandler)
        ensures
            handler.src_mac == src_mac,
            handler._xid == xid,
    {
        Dcphandler { _xid: xid, src_mac }
    }

    /// The frame of a request as the contracts see it.
    pub open spec fn frame_of(
        &self,
        destination_text: Seq<char>,
        frame_id: u16,
        service_id: u8,
        option: u8,
        suboption: u8,
        value: Seq<u8>,
        response_delay: u16,
    ) -> Result<Seq<u8>, DcpError> {
        request_frame(
            self.src_mac@,
            destination_text,
            frame_id,
            service_id,
            self._xid,
            option,
            suboption,
            value,
            response_delay,
        )
    }

    /// Builds the frame of a request to `dst_mac`: the value, or no bytes
    /// where there is none, in a block request, that in a packet of service
    /// type request, and that in an Ethernet frame from the client's address.
    pub fn send_request(
        &self,
        dst_mac: &str,
        frame_id: u16,
        service_id: u8,
        option: u8,
        suboption: u8,
        valuepayload: Option<Vec<u8>>,
        response_delay: u16,
    ) -> (built: Result<Vec<u8>, DcpError>)
        ensures
            frame_result(built) == self.frame_of(
                dst_mac@,
                frame_id,
                service_id,
                option,
                suboption,
                match valuepayload {
                    Some(value) => value@,
                    None => Seq::empty(),
                },
                response_delay,
            ),
    {
        let xid: u32 = self._xid.wrapping_add(1);
        let payload: Vec<u8> = match valuepayload {
            Some(value) => value,
            None => Vec::new(),
        };
        if payload.len() > 0xFFFF || 4 + payload.len() + payload.len() % 2 > 0xFFFF {
            return Err(DcpError::ValueTooLong);
        }
        let dcpblockrequestpayload: Vec<u8> = DCPBlockRequest::new(
            option,
            suboption,
            payload,
        ).compile();
        let dcppacket: DCPPacket = DCPPacket::new(
            frame_id,
            service_id,
            constants::SERVICE_TYPE_REQUEST,
            xid,
            response_delay,
            dcpblockrequestpayload,
        );
        let dcppacketpayload: Vec<u8> = dcppacket.compile();
        let smac: Vec<u8> = match mac_address_string_to_bytes(self.src_mac.as_str()) {
            Ok(bytes) => bytes,
            Err(_) => {
                return Err(DcpError::InvalidAddress);
            },
        };
        let tmac: Vec<u8> = match mac_address_string_to_bytes(dst_mac) {
            Ok(bytes) => bytes,
            Err(_) => {
                return Err(DcpError::InvalidAddress);
            },
        };
        if smac.len() != 6 || tmac.len() != 6 {
            return Err(DcpError::InvalidAddress);
        }
        let frame: EthernetFrame = EthernetFrame::new(
            tmac,
            smac,
            constants::ETHER_TYPE,
            dcppacketpayload,
        );
        Ok(frame.compile())
    }

    /// The exchange of an identify request and its frame, as the contracts
    /// see them: a request for all options.
    pub open spec fn identify_exchange(&self, kind: ExchangeKind, destination_text: Seq<char>) -> Result<
        ExchangeView,
        DcpError,
    > {
        begun(
            kind,
            self.frame_of(
                destination_text,
                constants::FRAME_ID_IDENTIFY_REQUEST,
                constants::SERVICE_ID_IDENTIFY,
                constants::OPTION_ALL.0,
                constants::OPTION_ALL.1,
                Seq::empty(),
                constants::RESPONSE_DELAY,
            ),
        )
    }

    /// The exchange of a set request and its frame, as the contracts see
    /// them.
    pub open spec fn set_exchange(
        &self,
        destination_text: Seq<char>,
        option: (u8, u8),
        value: Seq<u8>,
    ) -> Result<ExchangeView, DcpError> {
        begun(
            ExchangeKind::SetRequest,
            self.frame_of(
                destination_text,
                constants::FRAME_ID_GET_SET,
                constants::SERVICE_ID_SET,
                option.0,
                option.1,
                value,
                constants::SET_RESPONSE_DELAY,
            ),
        )
    }

    /// The exchange that names a station: none, with the pattern error,
    /// where the name did not match the naming pattern.
    pub open spec fn station_name_exchange(
        &self,
        destination_text: Seq<char>,
        name: Seq<char>,
        matched: bool,
    ) -> Result<ExchangeView, DcpError> {
        if !matched {
            Err(DcpError::InvalidPattern)
        } else {
            self.set_exchange(
                destination_text,
                constants::OPTION_NAME_OF_STATION,
                station_name_value(name),
            )
        }
    }

    /// Begins the exchange that asks the device at `mac` to identify itself.
    /// Its result is the first device response of the listen window.
    pub fn identify(&self, mac: &str) -> (begun: Result<Exchange, DcpError>)
        ensures
            exchange_result(begun) == self.identify_exchange(ExchangeKind::Identify, mac@),
    {
        let (option, suboption) = constants::OPTION_ALL;
        match self.send_request(
            mac,
            constants::FRAME_ID_IDENTIFY_REQUEST,
            constants::SERVICE_ID_IDENTIFY,
            option,
            suboption,
            None,
            constants::RESPONSE_DELAY,
        ) {
            Ok(frame) => Ok(Exchange::open(ExchangeKind::Identify, frame)),
            Err(e) => Err(e),
        }
    }

    /// Builds the frame that tells the device at `mac` to go back to its
    /// factory settings. No response is listened for.
    pub fn factory_reset(&self, mac: &str) -> (built: Result<Vec<u8>, DcpError>)
        ensures
            frame_result(built) == self.frame_of(
                mac@,
                constants::FRAME_ID_GET_SET,
                constants::SERVICE_ID_SET,
                constants::OPTION_RESET_FACTORY.0,
                constants::OPTION_RESET_FACTORY.1,
                constants::QUALIFIER_RESERVED@,
                constants::RESPONSE_DELAY,
            ),
    {
        let (option, suboption) = constants::OPTION_RESET_FACTORY;
        let mut value: Vec<u8> = Vec::new();
        value.push(constants::QUALIFIER_RESERVED[0]);
        value.push(constants::QUALIFIER_RESERVED[1]);
        assert(value@ =~= constants::QUALIFIER_RESERVED@);
        self.send_request(
            mac,
            constants::FRAME_ID_GET_SET,
            constants::SERVICE_ID_SET,
            option,
            suboption,
            Some(value),
            constants::RESPONSE_DELAY,
        )
    }

    /// Begins the exchange that asks all devices to identify themselves,
    /// by a request to the multicast address. Its result is the record of
    /// every device response of the listen window, one device twice where
    /// it answered twice.
    pub fn identify_all(&self) -> (begun: Result<Exchange, DcpError>)
        ensures
            exchange_result(begun) == self.identify_exchange(
                ExchangeKind::IdentifyAll,
                constants::PROFINET_MULTICAST_MAC_IDENTIFY@,
            ),
    {
        let dsc_mac: &str = constants::PROFINET_MULTICAST_MAC_IDENTIFY;
        let (option, suboption) = constants::OPTION_ALL;
        match self.send_request(
            dsc_mac,
            constants::FRAME_ID_IDENTIFY_REQUEST,
            constants::SERVICE_ID_IDENTIFY,
            option,
            suboption,
            None,
            constants::RESPONSE_DELAY,
        ) {
            Ok(frame) => Ok(Exchange::open(ExchangeKind::IdentifyAll, frame)),
            Err(e) => Err(e),
        }
    }

    /// Begins the exchange that makes the device at `mac` flash its LED.
    /// Its result is the message of the latest status response.
    pub fn blink(&self, mac: String) -> (begun: Result<Exchange, DcpError>)
        ensures
            exchange_result(begun) == self.set_exchange(
                mac@,
                constants::OPTION_BLINK_LED,
                blink_value(),
            ),
    {
        let mut value: Vec<u8> = Vec::new();
        value.push(constants::QUALIFIER_RESERVED[0]);
        value.push(constants::QUALIFIER_RESERVED[1]);
        value.push(constants::LED_BLINK_VALUE[0]);
        value.push(constants::LED_BLINK_VALUE[1]);
        assert(value@ =~= blink_value());
        let (option, suboption) = constants::OPTION_BLINK_LED;
        match self.send_request(
            mac.as_str(),
            constants::FRAME_ID_GET_SET,
            constants::SERVICE_ID_SET,
            option,
            suboption,
            Some(value),
            constants::SET_RESPONSE_DELAY,
        ) {
            Ok(frame) => Ok(Exchange::open(ExchangeKind::SetRequest, frame)),
            Err(e) => Err(e),
        }
    }

    /// Begins the exchange that names the station at `mac`, given whether
    /// the name matched the naming pattern. A name that did not match is
    /// refused and no frame is built.
    pub fn station_name_request(&self, mac: &str, name: &str, matched: bool) -> (begun: Result<
        Exchange,
        DcpError,
    >)
        ensures
            exchange_result(begun) == self.station_name_exchange(mac@, name@, matched),
    {
        if !matched {
            return Err(DcpError::InvalidPattern);
        }
        let mut value: Vec<u8> = Vec::new();
        value.push(constants::QUALIFIER_STORE_PERMANENT[0]);
        value.push(constants::QUALIFIER_STORE_PERMANENT[1]);
        assert(value@ =~= constants::QUALIFIER_STORE_PERMANENT@);
        push_lower(&mut value, name.as_bytes());
        let (option, suboption) = constants::OPTION_NAME_OF_STATION;
        match self.send_request(
            mac,
            constants::FRAME_ID_GET_SET,
            constants::SERVICE_ID_SET,
            option,
            suboption,
            Some(value),
            constants::SET_RESPONSE_DELAY,
        ) {
            Ok(frame) => Ok(Exchange::open(ExchangeKind::SetRequest, frame)),
            Err(e) => Err(e),
        }
    }

    /// Begins the exchange that names the station at `mac`. A name that
    /// does not follow the naming pattern is refused and no frame is built.
    /// Its result is the message of the latest status response.
    pub fn set_name_of_station(&self, mac: String, name: String) -> (begun: Result<
        Exchange,
        DcpError,
    >)
        ensures
            exchange_result(begun) == self.station_name_exchange(mac@, name@, name_matches(name@)),
    {
        let matched: bool = is_valid_station_name(name.as_str());
        self.station_name_request(mac.as_str(), name.as_str(), matched)
    }
}

/// The frame that carries a packet with the given payload under the
/// protocol's EtherType.
pub open spec fn packet_frame(
    destination: Seq<u8>,
    source: Seq<u8>,
    frame_id: u16,
    service_id: u8,
    service_type: u8,
    xid: u32,
    response_delay: u16,
    payload: Seq<u8>,
) -> Seq<u8> {
    frame_wire(
        FrameView {
            destination,
            source,
            ethertype: constants::ETHER_TYPE,
            payload: packet_wire(frame_id, service_id, service_type, xid, response_delay, payload),
        },
    )
}

/// What a frame made here is taken for when it is received: its packet,
/// with the bytes that filled the frame up behind the payload, from its
/// source address.
proof fn lemma_classify_packet_frame(
    destination: Seq<u8>,
    source: Seq<u8>,
    frame_id: u16,
    service_id: u8,
    service_type: u8,
    xid: u32,
    response_delay: u16,
    payload: Seq<u8>,
)
    requires
        destination.len() == 6,
        source.len() == 6,
        payload.len() <= 0xFFFF,
    ensures
        classify(
            packet_frame(
                destination,
                source,
                frame_id,
                service_id,
                service_type,
                xid,
                response_delay,
                payload,
            ),
        ) == classify_packet(
            source,
            PacketView {
                frameid: frame_id,
                serviceid: service_id,
                service_type,
                xid,
                response_delay,
                length: payload.len() as u32,
                payload: payload + zeros((frame_len(12 + payload.len()) - 26 - payload.len()) as nat),
            },
        ),
{
    let packet = packet_wire(frame_id, service_id, service_type, xid, response_delay, payload);
    let envelope = FrameView { destination, source, ethertype: constants::ETHER_TYPE, payload: packet };
    let fill = zeros((frame_len(12 + payload.len()) - 26 - payload.len()) as nat);
    lemma_frame_round_trip(envelope);
    lemma_packet_parse_filled(
        frame_id,
        service_id,
        service_type,
        xid,
        response_delay,
        payload,
        fill,
    );
}

/// A request is never taken for a response: a frame whose packet has a
/// service type other than response is left aside, whatever it carries.
/// So a client that hears its own request, or that of another client, does
/// not count it.
pub proof fn lemma_request_is_ignored(
    destination: Seq<u8>,
    source: Seq<u8>,
    frame_id: u16,
    service_id: u8,
    service_type: u8,
    xid: u32,
    response_delay: u16,
    payload: Seq<u8>,
)
    requires
        destination.len() == 6,
        source.len() == 6,
        payload.len() <= 0xFFFF,
        service_type != constants::SERVICE_TYPE_RESPONSE,
    ensures
        classify(
            packet_frame(
                destination,
                source,
                frame_id,
                service_id,
                service_type,
                xid,
                response_delay,
                payload,
            ),
        ) == Some(ResultView::Ignored),
{
    lemma_classify_packet_frame(
        destination,
        source,
        frame_id,
        service_id,
        service_type,
        xid,
        response_delay,
        payload,
    );
}

/// A response whose blocks do not begin with the control option is read
/// back as the record of its sender: the source address as text, and the
/// blocks folded in as far as the payload's length declares them. The
/// bytes that filled the frame up are not walked.
pub proof fn lemma_device_response_read_back(
    destination: Seq<u8>,
    source: Seq<u8>,
    frame_id: u16,
    service_id: u8,
    xid: u32,
    response_delay: u16,
    blocks: Seq<u8>,
)
    requires
        destination.len() == 6,
        source.len() == 6,
        blocks.len() <= 0xFFFF,
        blocks.len() == 0 || blocks[0] != constants::CONTROL_OPTION,
    ensures
        classify(
            packet_frame(
                destination,
                source,
                frame_id,
                service_id,
                constants::SERVICE_TYPE_RESPONSE,
                xid,
                response_delay,
                blocks,
            ),
        ) == match walk_blocks(
            blocks,
            blocks.len() as int,
            DeviceView { mac: address_text(source), ..empty_device() },
        ) {
            Some(device) => Some(ResultView::Device(device)),
            None => None,
        },
{
    let fill = zeros((frame_len(12 + blocks.len()) - 26 - blocks.len()) as nat);
    lemma_classify_packet_frame(
        destination,
        source,
        frame_id,
        service_id,
        constants::SERVICE_TYPE_RESPONSE,
        xid,
        response_delay,
        blocks,
    );
    lemma_walk_ignores_trailing(
        blocks,
        fill,
        blocks.len() as int,
        DeviceView { mac: address_text(source), ..empty_device() },
    );
    if blocks.len() > 0 {
        assert((blocks + fill)[0] == blocks[0]);
    } else {
        assert(fill.len() > 0);
        assert((blocks + fill)[0] == 0);
    }
}

/// A response whose payload begins with the control option and reaches to
/// the status byte is read back as the message of that byte.
pub proof fn lemma_status_response_read_back(
    destination: Seq<u8>,
    source: Seq<u8>,
    frame_id: u16,
    service_id: u8,
    xid: u32,
    response_delay: u16,
    blocks: Seq<u8>,
)
    requires
        destination.len() == 6,
        source.len() == 6,
        6 < blocks.len() <= 0xFFFF,
        blocks[0] == constants::CONTROL_OPTION,
    ensures
        classify(
            packet_frame(
                destination,
                source,
                frame_id,
                service_id,
                constants::SERVICE_TYPE_RESPONSE,
                xid,
                response_delay,
                blocks,
            ),
        ) == Some(ResultView::Status(response_text(blocks[6] as int))),
{
    let fill = zeros((frame_len(12 + blocks.len()) - 26 - blocks.len()) as nat);
    lemma_classify_packet_frame(
        destination,
        source,
        frame_id,
        service_id,
        constants::SERVICE_TYPE_RESPONSE,
        xid,
        response_delay,
        blocks,
    );
    assert((blocks + fill)[0] == blocks[0]);
    assert((blocks + fill)[6] == blocks[6]);
}

} // verus!
