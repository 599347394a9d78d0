//! Command codes of the protocol.
use vstd::prelude::*;

verus! {

pub const CMD_USERTEMP_RRQ: u16 = 9;
pub const CMD_OPTIONS_RRQ: u16 = 11;
pub const CMD_ATTLOG_RRQ: u16 = 13;
pub const CMD_GET_FREE_SIZES: u16 = 50;
pub const CMD_CONNECT: u16 = 1000;
pub const CMD_EXIT: u16 = 1001;
pub const CMD_ENABLEDEVICE: u16 = 1002;
pub const CMD_DISABLEDEVICE: u16 = 1003;
pub const CMD_VERSION: u16 = 1100;
pub const CMD_SERIALNUMBER: u16 = 1101;
pub const CMD_AUTH: u16 = 1102;
pub const CMD_PREPARE_DATA: u16 = 1500;
pub const CMD_DATA: u16 = 1501;
pub const CMD_FREE_DATA: u16 = 1502;
pub const CMD_DATA_WRRQ: u16 = 1503;
pub const CMD_DATA_RDY: u16 = 1504;
pub const CMD_ACK_OK: u16 = 2000;
pub const CMD_ACK_ERROR: u16 = 2001;
pub const CMD_ACK_DATA: u16 = 2002;
pub const CMD_ACK_UNAUTH: u16 = 2005;

/// Function selector of a bulk read of the user directory.
pub const FCT_USER: u32 = 5;

/// Function selector of a bulk read of the attendance log.
pub const FCT_ATTLOG: u32 = 1;

} // verus!
