use vstd::prelude::*;

verus! {

pub const INVALID: u8 = 0;
pub const SUCCESS: u8 = 1;
pub const DATA_BUFFER_ERROR: u8 = 2;
pub const BABBLE_DETECTED_ERROR: u8 = 3;
pub const USB_TRANSACTION_ERROR: u8 = 4;
pub const TRB_ERROR: u8 = 5;
pub const STALL_ERROR: u8 = 6;
pub const RESOURCE_ERROR: u8 = 7;
pub const BANDWIDTH_ERROR: u8 = 8;
pub const NO_SLOTS_AVAILABLE_ERROR: u8 = 9;
pub const INVALID_STREAM_TYPE_ERROR: u8 = 10;
pub const SLOT_NOT_ENABLED_ERROR: u8 = 11;
pub const ENDPOINT_NOT_ENABLED_ERROR: u8 = 12;
pub const SHORT_PACKET: u8 = 13;
pub const RING_UNDERRUN: u8 = 14;
pub const RING_OVERRUN: u8 = 15;
pub const VF_EVENT_RING_FULL_ERROR: u8 = 16;
pub const PARAMETER_ERROR: u8 = 17;
pub const BANDWIDTH_OVERRUN_ERROR: u8 = 18;
pub const CONTEXT_STATE_ERROR: u8 = 19;
pub const NO_PING_RESPONSE_ERROR: u8 = 20;
pub const EVENT_RING_FULL_ERROR: u8 = 21;
pub const INCOMPATIBLE_DEVICE_ERROR: u8 = 22;
pub const MISSED_SERVICE_ERROR: u8 = 23;
pub const COMMAND_RING_STOPPED: u8 = 24;
pub const COMMAND_ABORTED: u8 = 25;
pub const STOPPED: u8 = 26;
pub const STOPPED_LENGTH_INVALID: u8 = 27;
pub const STOPPED_SHORT_PACKET: u8 = 28;
pub const MAX_EXIT_LATENCY_TOO_LARGE_ERROR: u8 = 29;
pub const ISOCH_BUFFER_OVERRUN: u8 = 31;
pub const EVENT_LOST_ERROR: u8 = 32;
pub const UNDEFINED_ERROR: u8 = 33;
pub const INVALID_STREAM_ID_ERROR: u8 = 34;
pub const SECONDARY_BANDWIDTH_ERROR: u8 = 35;
pub const SPLIT_TRANSACTION_ERROR: u8 = 36;

} // verus!
