//! Where to find the relay of a game server.
//!
//! When the player connects to a game server, the client connects to the relay that runs on
//! the same host, on the relay's own port. A game server on the player's own machine has no
//! relay to connect to.

use crate::decimal::{decimal, to_decimal};
use crate::shared::PROXICHAT_PORT;
use crate::text::{chars_of, find, span};
use vstd::prelude::*;
use vstd::string::{StrSliceExecFns, StringExecFns};

verus! {

/// The host that a target of the game's `connect` command names: what stands before the
/// first colon.
pub open spec fn host_of(target: Seq<char>) -> Seq<char> {
    target.take(span(target, ':'))
}

/// The name of the player's own machine.
pub open spec fn local_host() -> Seq<char> {
    "localhost"@
}

/// A host and the relay's port, as an address.
pub open spec fn with_port(host: Seq<char>) -> Seq<char> {
    host + ":"@ + decimal(PROXICHAT_PORT as int)
}

/// The address of the relay for a target of the game's `connect` command: the host of the
/// target and the relay's port; none for the player's own machine.
pub open spec fn relay_address_of(target: Seq<char>) -> Option<Seq<char>> {
    if host_of(target) == local_host() {
        None
    } else {
        Some(with_port(host_of(target)))
    }
}

/// An address, if there is one, as a sequence of characters.
pub open spec fn address_view(address: Option<String>) -> Option<Seq<char>> {
    match address {
        Some(text) => Some(text@),
        None => None,
    }
}

/// Puts the relay's port behind a host.
pub fn address_on_port(host: &str) -> (address: String)
    ensures
        address@ == with_port(host@),
{
    let port = to_decimal(PROXICHAT_PORT as i64);
    String::from_str(host).concat(":").concat(port.as_str())
}

/// Tells the address of the relay for a target of the game's `connect` command, or that
/// there is none to connect to.
pub fn relay_address(target: &str) -> (address: Option<String>)
    ensures
        address_view(address) == relay_address_of(target@),
{
    let chars = chars_of(target);
    let colon = find(&chars, 0, chars.len(), ':');
    proof {
        assert(chars@.subrange(0, chars@.len() as int) =~= target@);
    }
    let host = target.substring_char(0, colon);
    if String::from_str(host) == String::from_str("localhost") {
        None
    } else {
        Some(address_on_port(host))
    }
}

} // verus!
