//! The numbers of the protocol.

use vstd::prelude::*;

verus! {

/// The multicast address that an identify-all request goes to.
pub const PROFINET_MULTICAST_MAC_IDENTIFY: &'static str = "01:0e:cf:00:00:00";

/// The response-delay hint of an identify request.
pub const RESPONSE_DELAY: u16 = 0x0080;

/// The response-delay hint of a set request.
pub const SET_RESPONSE_DELAY: u16 = 7;

/// The EtherType of the protocol's frames.
pub const ETHER_TYPE: u16 = 0x8892;

/// The value that makes a device flash its LED.
pub const LED_BLINK_VALUE: [u8; 2] = [0x01, 0x00];

/// The listen window of one exchange, in milliseconds.
pub const LISTEN_WINDOW_MS: u64 = 2000;

/// The option of a block that controls a device or reports on a set request.
pub const CONTROL_OPTION: u8 = 5;

/// The place in a response's payload of the status byte of a set request.
pub const STATUS_OFFSET: usize = 6;

/// Frame id of get and set exchanges.
pub const FRAME_ID_GET_SET: u16 = 0xfefd;

/// Frame id of identify requests.
pub const FRAME_ID_IDENTIFY_REQUEST: u16 = 0xfefe;

/// The qualifier of a value that the device is to keep over a restart.
pub const QUALIFIER_STORE_PERMANENT: [u8; 2] = [0x00, 0x01];

/// The qualifier of a reset of the communication parameters.
pub const QUALIFIER_RESET_COMMUNICATION: [u8; 2] = [0x00, 0x04];

/// The qualifier of a value that the device is to drop at a restart.
pub const QUALIFIER_STORE_TEMPORARY: [u8; 2] = [0x00, 0x00];

/// The qualifier of a control block that needs none.
pub const QUALIFIER_RESERVED: [u8; 2] = [0x00, 0x00];

/// Service type of a request.
pub const SERVICE_TYPE_REQUEST: u8 = 0;

/// Service type of a response.
pub const SERVICE_TYPE_RESPONSE: u8 = 1;

pub const SERVICE_ID_GET: u8 = 3;

pub const SERVICE_ID_SET: u8 = 4;

pub const SERVICE_ID_IDENTIFY: u8 = 5;

/// Option and suboption of the blocks.
pub const OPTION_IP_ADDRESS: (u8, u8) = (1, 2);

pub const OPTION_DEVICE_FAMILY: (u8, u8) = (2, 1);

pub const OPTION_NAME_OF_STATION: (u8, u8) = (2, 2);

pub const OPTION_DEVICE_ID: (u8, u8) = (2, 3);

pub const OPTION_BLINK_LED: (u8, u8) = (5, 3);

pub const OPTION_RESET_FACTORY: (u8, u8) = (5, 5);

pub const OPTION_RESET_TO_FACTORY: (u8, u8) = (5, 6);

pub const OPTION_ALL: (u8, u8) = (0xFF, 0xFF);

} // verus!
