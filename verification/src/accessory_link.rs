//! The Apple accessory battery session over classic Bluetooth `L2CAP`: the
//! packets the host sends, and what each event on the channel leads to.

use vstd::prelude::*;

use crate::bluez::{complete_battery_packet, is_complete_battery_packet, AppleAccessoryPacket};
use crate::text::{decimal, text_with_number};
use crate::timestamp::Timestamp;

verus! {

/// The `L2CAP` protocol/service multiplexer of the accessory channel.
pub const APPLE_ACCESSORY_PSM: u16 = 0x1001;

/// Seconds allowed for the channel to connect.
pub const CONNECT_TIMEOUT_SECONDS: u64 = 4;

/// Seconds without a packet after which notifications are requested again.
pub const RECEIVE_TIMEOUT_SECONDS: u64 = 20;

/// Seconds to wait before reconnecting a dropped channel.
pub const RECONNECT_DELAY_SECONDS: u64 = 4;

/// Milliseconds between the handshake and the notification request.
pub const HANDSHAKE_PAUSE_MILLIS: u64 = 60;

/// The handshake that opens an accessory session.
pub open spec fn handshake_bytes() -> Seq<u8> {
    seq![
        0x00u8, 0x00u8, 0x04u8, 0x00u8, 0x01u8, 0x00u8, 0x02u8, 0x00u8, 0x00u8, 0x00u8, 0x00u8,
        0x00u8, 0x00u8, 0x00u8, 0x00u8, 0x00u8,
    ]
}

/// The request that asks the accessory for battery notifications.
pub open spec fn request_notifications_bytes() -> Seq<u8> {
    seq![0x04u8, 0x00u8, 0x04u8, 0x00u8, 0x0fu8, 0x00u8, 0xffu8, 0xffu8, 0xffu8, 0xffu8]
}

/// The handshake that opens an accessory session.
pub fn handshake_packet() -> (r: Vec<u8>)
    ensures
        r@ == handshake_bytes(),
{
    let r = vec![
        0x00u8, 0x00u8, 0x04u8, 0x00u8, 0x01u8, 0x00u8, 0x02u8, 0x00u8, 0x00u8, 0x00u8, 0x00u8,
        0x00u8, 0x00u8, 0x00u8, 0x00u8, 0x00u8,
    ];
    assert(r@ =~= handshake_bytes());
    r
}

/// The request that asks the accessory for battery notifications.
pub fn request_notifications_packet() -> (r: Vec<u8>)
    ensures
        r@ == request_notifications_bytes(),
{
    let r = vec![0x04u8, 0x00u8, 0x04u8, 0x00u8, 0x0fu8, 0x00u8, 0xffu8, 0xffu8, 0xffu8, 0xffu8];
    assert(r@ =~= request_notifications_bytes());
    r
}

/// The failure of a send that wrote fewer bytes than the packet holds.
pub open spec fn partial_send_text(expected: usize, sent: usize) -> Seq<char> {
    "L2CAP packet was only partially sent: expected "@ + decimal(expected as nat) + " bytes, sent "@
        + decimal(sent as nat)
}

/// Whether a send of `expected` bytes that wrote `sent` of them succeeded.
pub fn send_outcome(expected: usize, sent: usize) -> (r: Result<(), String>)
    ensures
        expected == sent <==> r is Ok,
        r matches Err(m) ==> m@ == partial_send_text(expected, sent),
{
    if sent == expected {
        Ok(())
    } else {
        let mut m = text_with_number(
            "L2CAP packet was only partially sent: expected ",
            expected as u64,
            " bytes, sent ",
        );
        let tail = text_with_number("", sent as u64, "");
        proof {
            reveal_strlit("");
        }
        m.append(tail.as_str());
        assert(m@ =~= partial_send_text(expected, sent));
        Err(m)
    }
}

/// The receive buffer for a channel MTU: at least 64 bytes.
pub fn receive_buffer_len(mtu: u16) -> (r: usize)
    ensures
        r == if mtu < 64 {
            64
        } else {
            mtu as usize
        },
{
    if mtu < 64 {
        64
    } else {
        mtu as usize
    }
}

/// What happened on an open accessory channel.
#[derive(Debug, Clone, PartialEq, Eq)]
pub enum LinkEvent {
    /// A packet arrived at the given time.
    Received {
        /// The packet's bytes.
        packet: Vec<u8>,
        /// When it arrived.
        at: Timestamp,
    },
    /// Receiving failed; the text says why.
    ReceiveFailed(String),
    /// No packet arrived within the receive timeout.
    TimedOut,
}

/// What the session does next.
#[derive(Debug, Clone, PartialEq, Eq)]
pub enum LinkAction {
    /// Keep the packet as the latest exact battery notification, then listen on.
    Store(AppleAccessoryPacket),
    /// Ignore the packet and listen on.
    Ignore,
    /// Request notifications again, then listen on.
    RequestNotifications,
    /// End the session with this failure.
    Close(String),
}

/// What an event on an open channel leads to: a complete battery
/// notification is stored with its arrival time, any other packet is
/// ignored, a silent channel is asked for notifications again, and a
/// receive failure closes the session.
pub fn link_step(event: LinkEvent) -> (r: LinkAction)
    ensures
        match event {
            LinkEvent::Received { packet, at } => if complete_battery_packet(packet@) {
                r matches LinkAction::Store(p) && p.payload@ == packet@ && p.observed_at == at
            } else {
                r == LinkAction::Ignore
            },
            LinkEvent::ReceiveFailed(detail) => r matches LinkAction::Close(m) && m@
                == "L2CAP receive failed: "@ + detail@,
            LinkEvent::TimedOut => r == LinkAction::RequestNotifications,
        },
{
    match event {
        LinkEvent::Received { packet, at } => {
            if is_complete_battery_packet(packet.as_slice()) {
                LinkAction::Store(AppleAccessoryPacket { payload: packet, observed_at: at })
            } else {
                LinkAction::Ignore
            }
        },
        LinkEvent::ReceiveFailed(detail) => {
            let mut m = String::from_str("L2CAP receive failed: ");
            m.append(detail.as_str());
            LinkAction::Close(m)
        },
        LinkEvent::TimedOut => LinkAction::RequestNotifications,
    }
}

} // verus!
