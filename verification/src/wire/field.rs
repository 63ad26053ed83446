//! Field numbers of the request and response envelopes.

use vstd::prelude::*;

verus! {

pub const HEADER: u32 = 1;

pub const ERROR: u32 = 2;

pub const PING: u32 = 10;

pub const DEVICE_INFORMATION_QUERY: u32 = 100;

pub const DEVICE_AUTHENTICATION_QUERY: u32 = 101;

pub const SYSTEM_CONFIGURATION_QUERY: u32 = 102;

pub const MEDIA_CATALOG_QUERY: u32 = 103;

pub const USER_CONFIGURATION_QUERY: u32 = 104;

pub const USER_CONFIGURATION_UPDATE: u32 = 200;

pub const OVERLAY_LAYOUT: u32 = 201;

pub const METRIC_BATCH: u32 = 300;

pub const PONG: u32 = 10;

pub const DEVICE_INFORMATION: u32 = 500;

pub const DEVICE_AUTHENTICATION: u32 = 501;

pub const SYSTEM_CONFIGURATION: u32 = 502;

pub const MEDIA_CATALOG: u32 = 503;

pub const USER_CONFIGURATION: u32 = 504;

pub const ACKNOWLEDGEMENT: u32 = 600;

pub const TRANSFER_BEGIN_STATUS: u32 = 800;

pub const TRANSFER_CHUNK_STATUS: u32 = 801;

pub const TRANSFER_END_STATUS: u32 = 802;

pub const MEDIA_READ_CHUNK: u32 = 805;

pub const ASYNCHRONOUS_EVENT: u32 = 987;

/// Every field number a response may carry as its body.
pub const RESPONSE_BODIES: [u32; 12] = [
    PONG,
    DEVICE_INFORMATION,
    DEVICE_AUTHENTICATION,
    SYSTEM_CONFIGURATION,
    MEDIA_CATALOG,
    USER_CONFIGURATION,
    ACKNOWLEDGEMENT,
    TRANSFER_BEGIN_STATUS,
    TRANSFER_CHUNK_STATUS,
    TRANSFER_END_STATUS,
    MEDIA_READ_CHUNK,
    ASYNCHRONOUS_EVENT,
];

/// Whether a response may carry field `number` as its body.
pub open spec fn is_body(number: u32) -> bool {
    exists|i: int| 0 <= i < 12 && #[trigger] RESPONSE_BODIES@[i] == number
}

/// Whether a response may carry field `number` as its body.
pub fn is_response_body(number: u32) -> (known: bool)
    ensures
        known == is_body(number),
{
    let mut i: usize = 0;
    while i < 12
        invariant
            i <= 12,
            forall|j: int| 0 <= j < i ==> #[trigger] RESPONSE_BODIES@[j] != number,
        decreases 12 - i,
    {
        if RESPONSE_BODIES[i] == number {
            assert(RESPONSE_BODIES@[i as int] == number);
            return true;
        }
        i = i + 1;
    }
    false
}

} // verus!
