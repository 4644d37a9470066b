//! Servers announce themselves on the local network. An announcement is the
//! handshake, a colon, and the address of the server.

use crate::utils::decimal::{decimal_text, format_decimal};
use crate::utils::text::{has_prefix, join2, strip_prefix};
use vstd::prelude::*;

verus! {

/// The port on which announcements arrive.
pub const BROADCAST_PORT: u16 = 23333;

/// What an announcement begins with.
pub const HANDSHAKE_MESSAGE: &'static str = "SHIKIYUZU CIALLO";

/// The address that `message` announces, if it is an announcement.
pub open spec fn announced(message: Seq<char>) -> Option<Seq<char>> {
    if has_prefix(message, HANDSHAKE_MESSAGE@ + ":"@) {
        Some(message.skip((HANDSHAKE_MESSAGE@ + ":"@).len() as int))
    } else {
        None
    }
}

/// Reads an announcement: [`announced`].
pub fn parse_announcement(message: &str) -> (address: Option<String>)
    ensures
        address.deep_view() == announced(message@),
{
    let opening = join2(HANDSHAKE_MESSAGE, ":");
    strip_prefix(message, opening.as_str())
}

/// The address on which to listen for announcements: every interface, the
/// broadcast port.
pub fn listen_address() -> (address: String)
    ensures
        address@ == "0.0.0.0:"@ + decimal_text(BROADCAST_PORT as nat),
{
    let port = format_decimal(BROADCAST_PORT as u64);
    join2("0.0.0.0:", port.as_str())
}

} // verus!
