use profidcp::dcp::{get_responsecode, read_response, RequestResult};
use profidcp::dcpblock::DCPBlock;
use profidcp::dcppaket::DCPPacket;
use profidcp::device::{process_blocks, walk_payload, Device};
use profidcp::error::DcpError;
use profidcp::ethernet::EthernetFrame;

const SOURCE: [u8; 6] = [0x00, 0x1b, 0x1b, 0x9a, 0xbc, 0xde];

fn block(option: u8, suboption: u8, value: &[u8]) -> Vec<u8> {
    DCPBlock::new(option, suboption, 0, value.to_vec()).compile()
}

fn packet(service_type: u8, length: u16, payload: &[u8]) -> Vec<u8> {
    let mut bytes = vec![0xFE, 0xFE, 5, service_type, 0, 0, 0, 9, 0, 0];
    bytes.push((length / 256) as u8);
    bytes.push((length % 256) as u8);
    bytes.extend_from_slice(payload);
    bytes
}

fn frame(ethertype: u16, packet: &[u8]) -> Vec<u8> {
    let mut bytes = vec![0x01, 0x02, 0x03, 0x04, 0x05, 0x06];
    bytes.extend_from_slice(&SOURCE);
    bytes.push((ethertype / 256) as u8);
    bytes.push((ethertype % 256) as u8);
    bytes.extend_from_slice(packet);
    bytes
}

fn response(payload: &[u8]) -> Vec<u8> {
    frame(0x8892, &packet(1, payload.len() as u16, payload))
}

fn device_of(bytes: &[u8]) -> Device {
    match read_response(bytes) {
        Ok(RequestResult::Device(device)) => device,
        other => panic!("no device: {:?}", other),
    }
}

fn error_of(bytes: &[u8]) -> DcpError {
    match read_response(bytes) {
        Err(e) => e,
        other => panic!("no error: {:?}", other),
    }
}

#[test]
fn status_messages() {
    assert_eq!(get_responsecode(0), "Code 00: Set successful");
    assert_eq!(get_responsecode(1), "Code 01: Option unsupported");
    assert_eq!(
        get_responsecode(2),
        "Code 02: Suboption unsupported or no DataSet available"
    );
    assert_eq!(get_responsecode(3), "Code 03: Suboption not set");
    assert_eq!(get_responsecode(4), "Code 04: Resource Error");
    assert_eq!(get_responsecode(5), "Code 05: SET not possible by local reasons");
    assert_eq!(get_responsecode(6), "Code 06: In operation, SET not possible");
    assert_eq!(get_responsecode(7), "unknown");
    assert_eq!(get_responsecode(99), "unknown");
    assert_eq!(get_responsecode(-1), "unknown");
    assert_eq!(get_responsecode(255), "unknown");
}

#[test]
fn response_without_blocks_gives_the_source_address_alone() {
    let device = device_of(&response(&[]));
    assert_eq!(device.mac, "00:1b:1b:9a:bc:de");
    assert_eq!(device.ip, "");
    assert_eq!(device.netmask, "");
    assert_eq!(device.gateway, "");
    assert_eq!(device.family, "");
    assert_eq!(device.nameofstation, "");
}

#[test]
fn response_with_one_block() {
    let device = device_of(&response(&block(2, 2, b"plc-1")));
    assert_eq!(device.nameofstation, "plc-1");
    assert_eq!(device.mac, "00:1b:1b:9a:bc:de");
    assert_eq!(device.family, "");
    assert_eq!(device.ip, "");
}

#[test]
fn response_with_three_blocks_and_an_unknown_one_between() {
    let mut payload = block(2, 1, b"ET200");
    payload.extend(block(2, 3, &[0x00, 0x2a, 0x01]));
    payload.extend(block(2, 2, b"io-7"));
    let device = device_of(&response(&payload));
    assert_eq!(device.family, "ET200");
    assert_eq!(device.nameofstation, "io-7");
    assert_eq!(device.ip, "");
}

#[test]
fn unknown_blocks_leave_the_record_alone() {
    let mut payload = block(0x80, 0x01, &[1, 2, 3, 4, 5]);
    payload.extend(block(5, 1, &[]));
    payload.extend(block(2, 3, &[9; 7]));
    payload.extend(block(1, 1, &[0xaa; 6]));
    let device = device_of(&response(&payload));
    assert_eq!(device.mac, "00:1b:1b:9a:bc:de");
    assert_eq!(device.ip, "");
    assert_eq!(device.netmask, "");
    assert_eq!(device.gateway, "");
    assert_eq!(device.family, "");
    assert_eq!(device.nameofstation, "");
}

#[test]
fn end_to_end_device_record() {
    let mut payload = block(2, 1, b"S7-1200\0\0");
    payload.extend(block(2, 2, b"plc-1"));
    payload.extend(block(1, 2, &[0, 0, 192, 168, 0, 10, 255, 255, 255, 0, 192, 168, 0, 1]));
    assert_eq!(payload.len(), 48);
    let device = device_of(&response(&payload));
    assert_eq!(device.family, "S7-1200");
    assert_eq!(device.nameofstation, "plc-1");
    assert_eq!(device.ip, "192.168.0.10");
    assert_eq!(device.netmask, "255.255.255.0");
    assert_eq!(device.gateway, "192.168.0.1");
    assert_eq!(device.mac, "00:1b:1b:9a:bc:de");
}

#[test]
fn bytes_after_the_declared_length_are_not_walked() {
    let mut payload = block(2, 2, b"plc-1");
    let declared = payload.len() as u16;
    payload.extend_from_slice(&[0; 18]);
    let device = device_of(&frame(0x8892, &packet(1, declared, &payload)));
    assert_eq!(device.nameofstation, "plc-1");
    let mut second = block(2, 2, b"one");
    let declared = second.len() as u16;
    second.extend(block(2, 2, b"two"));
    let device = device_of(&frame(0x8892, &packet(1, declared, &second)));
    assert_eq!(device.nameofstation, "one");
}

#[test]
fn a_later_block_of_the_same_kind_wins() {
    let mut payload = block(2, 2, b"first");
    payload.extend(block(2, 2, b"second"));
    let device = device_of(&response(&payload));
    assert_eq!(device.nameofstation, "second");
}

#[test]
fn six_declared_bytes_are_not_walked() {
    let mut payload = block(2, 2, b"a1");
    payload.extend(block(2, 2, b""));
    assert_eq!(payload.len(), 14);
    let device = device_of(&response(&payload));
    assert_eq!(device.nameofstation, "a1");
    let device = device_of(&response(&[2, 2, 0xFF, 0xFF, 0, 0]));
    assert_eq!(device.nameofstation, "");
}

#[test]
fn family_loses_its_trailing_zero_bytes_only() {
    let device = device_of(&response(&block(2, 1, b"a\0b\0\0\0")));
    assert_eq!(device.family, "a\0b");
    let device = device_of(&response(&block(2, 1, b"\0\0\0")));
    assert_eq!(device.family, "");
    let device = device_of(&response(&block(2, 2, b"n\0\0")));
    assert_eq!(device.nameofstation, "n\0\0");
}

#[test]
fn text_is_decoded_as_utf8() {
    let device = device_of(&response(&block(2, 2, "pl\u{107}-\u{20ac}".as_bytes())));
    assert_eq!(device.nameofstation, "pl\u{107}-\u{20ac}");
    let device = device_of(&response(&block(2, 1, "f\u{e4}m\0".as_bytes())));
    assert_eq!(device.family, "f\u{e4}m");
}

#[test]
fn invalid_utf8_is_a_framing_error() {
    assert_eq!(error_of(&response(&block(2, 2, &[b'a', 0xFF]))), DcpError::FramingError);
    assert_eq!(error_of(&response(&block(2, 1, &[0xC3, 0x28, 0]))), DcpError::FramingError);
}

#[test]
fn short_address_block_is_a_framing_error() {
    let value = [0, 0, 192, 168, 0, 10, 255, 255, 255, 0, 192, 168, 0];
    assert_eq!(error_of(&response(&block(1, 2, &value))), DcpError::FramingError);
}

#[test]
fn long_address_block_uses_its_first_fourteen_bytes() {
    let value = [9, 9, 10, 0, 0, 1, 255, 0, 0, 0, 10, 0, 0, 254, 77, 77];
    let device = device_of(&response(&block(1, 2, &value)));
    assert_eq!(device.ip, "10.0.0.1");
    assert_eq!(device.netmask, "255.0.0.0");
    assert_eq!(device.gateway, "10.0.0.254");
}

#[test]
fn length_past_the_buffer_is_a_framing_error() {
    let payload = [2, 2, 0, 100, 0, 0, b'a', b'b'];
    assert_eq!(
        error_of(&frame(0x8892, &packet(1, 20, &payload))),
        DcpError::FramingError
    );
    assert_eq!(
        error_of(&frame(0x8892, &packet(1, 40, &block(2, 2, b"plc-1")))),
        DcpError::FramingError
    );
}

#[test]
fn block_beyond_the_declared_length_is_a_framing_error() {
    let payload = block(2, 2, b"plc-1");
    assert_eq!(payload.len(), 12);
    assert_eq!(
        error_of(&frame(0x8892, &packet(1, 8, &payload))),
        DcpError::FramingError
    );
    assert_eq!(
        error_of(&frame(0x8892, &packet(1, 11, &payload[..11]))),
        DcpError::FramingError
    );
    assert_eq!(
        error_of(&frame(0x8892, &packet(1, 12, &payload[..11]))),
        DcpError::FramingError
    );
}

#[test]
fn block_with_length_below_two_is_a_framing_error() {
    let payload = [2, 2, 0, 1, 0, 0, 0, 0];
    assert_eq!(error_of(&response(&payload)), DcpError::FramingError);
}

#[test]
fn set_response_gives_the_status_message() {
    let cases: [(u8, &str); 4] = [
        (0, "Code 00: Set successful"),
        (4, "Code 04: Resource Error"),
        (6, "Code 06: In operation, SET not possible"),
        (99, "unknown"),
    ];
    for (code, message) in cases {
        let bytes = response(&[5, 4, 0, 3, 5, 3, code, 0]);
        match read_response(&bytes) {
            Ok(RequestResult::Status(text)) => assert_eq!(text, message),
            other => panic!("no status: {:?}", other),
        }
    }
}

#[test]
fn set_response_reads_the_status_whatever_the_declared_length() {
    let bytes = frame(0x8892, &packet(1, 0, &[5, 4, 0, 3, 2, 2, 1]));
    match read_response(&bytes) {
        Ok(RequestResult::Status(text)) => assert_eq!(text, "Code 01: Option unsupported"),
        other => panic!("no status: {:?}", other),
    }
}

#[test]
fn set_response_without_status_byte_is_a_framing_error() {
    assert_eq!(error_of(&response(&[5, 4, 0, 3, 5, 3])), DcpError::FramingError);
    assert_eq!(error_of(&response(&[5])), DcpError::FramingError);
}

#[test]
fn requests_are_ignored() {
    let payload = block(2, 2, b"plc-1");
    let mut service_type = 0u8;
    loop {
        let bytes = frame(0x8892, &packet(service_type, payload.len() as u16, &payload));
        let result = read_response(&bytes);
        if service_type == 1 {
            assert!(matches!(result, Ok(RequestResult::Device(_))));
        } else {
            assert!(matches!(result, Ok(RequestResult::Ignored)));
        }
        if service_type == 255 {
            break;
        }
        service_type += 1;
    }
}

#[test]
fn frames_of_other_protocols_are_ignored() {
    let payload = block(2, 2, b"plc-1");
    let inner = packet(1, payload.len() as u16, &payload);
    assert!(matches!(read_response(&frame(0x0800, &inner)), Ok(RequestResult::Ignored)));
    assert!(matches!(read_response(&frame(0x8100, &inner)), Ok(RequestResult::Ignored)));
    assert!(matches!(read_response(&frame(0x0806, &[1, 2])), Ok(RequestResult::Ignored)));
}

#[test]
fn short_frames_are_framing_errors() {
    assert_eq!(error_of(&[]), DcpError::FramingError);
    assert_eq!(error_of(&[0; 13]), DcpError::FramingError);
    assert_eq!(error_of(&frame(0x8892, &[])), DcpError::FramingError);
    assert_eq!(
        error_of(&frame(0x8892, &[0xFE, 0xFE, 5, 1, 0, 0, 0, 1, 0, 0, 0])),
        DcpError::FramingError
    );
}

#[test]
fn response_in_a_compiled_frame_is_read_back() {
    let payload = block(2, 2, b"plc-1");
    let inner = DCPPacket::new(0xFEFE, 5, 1, 77, 0, payload).compile();
    let bytes = EthernetFrame::new(vec![1; 6], SOURCE.to_vec(), 0x8892, inner).compile();
    assert_eq!(bytes.len(), 42);
    let device = device_of(&bytes);
    assert_eq!(device.nameofstation, "plc-1");
    assert_eq!(device.mac, "00:1b:1b:9a:bc:de");
}

#[test]
fn process_blocks_returns_the_consumed_span() {
    let mut device = Device::default();
    let mut chain = block(2, 2, b"plc-1");
    chain.extend(block(2, 1, b"S7"));
    assert_eq!(process_blocks(&chain, &mut device), Ok(12));
    assert_eq!(device.nameofstation, "plc-1");
    assert_eq!(device.family, "");
    assert_eq!(process_blocks(&chain[12..], &mut device), Ok(8));
    assert_eq!(device.family, "S7");
    assert_eq!(process_blocks(&[7, 7, 0, 2, 0, 0], &mut device), Ok(6));
    assert_eq!(process_blocks(&[7, 7, 0, 3, 0, 0, 1], &mut device), Ok(8));
    assert_eq!(device.nameofstation, "plc-1");
}

#[test]
fn process_blocks_leaves_the_record_on_an_error() {
    let mut device = Device::default();
    device.nameofstation = "kept".to_string();
    device.ip = "1.2.3.4".to_string();
    assert_eq!(
        process_blocks(&block(2, 2, &[0xFF, 0xFE]), &mut device),
        Err(DcpError::FramingError)
    );
    assert_eq!(
        process_blocks(&block(1, 2, &[0; 13]), &mut device),
        Err(DcpError::FramingError)
    );
    assert_eq!(process_blocks(&[2, 2, 0], &mut device), Err(DcpError::FramingError));
    assert_eq!(device.nameofstation, "kept");
    assert_eq!(device.ip, "1.2.3.4");
}

#[test]
fn walk_payload_keeps_what_the_record_held() {
    let mut start = Device::default();
    start.mac = "aa:bb:cc:dd:ee:ff".to_string();
    start.family = "old".to_string();
    let chain = block(2, 2, b"new-name");
    let device = walk_payload(&chain, chain.len() as u32, start).unwrap();
    assert_eq!(device.mac, "aa:bb:cc:dd:ee:ff");
    assert_eq!(device.family, "old");
    assert_eq!(device.nameofstation, "new-name");
}

#[test]
fn default_device_is_empty() {
    let device = Device::default();
    assert_eq!(device.ip, "");
    assert_eq!(device.mac, "");
    assert_eq!(device.netmask, "");
    assert_eq!(device.gateway, "");
    assert_eq!(device.family, "");
    assert_eq!(device.nameofstation, "");
}
