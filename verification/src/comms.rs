//! What the parts of the program tell one another: the status that the control panel shows,
//! and the commands that it sends.

use vstd::prelude::*;
use vstd::string::StringExecFns;

verus! {

/// The status of the voice connection, as the control panel shows it.
#[derive(Debug)]
pub struct SharedComms {
    /// Whether the player is in a voice channel.
    pub connected: bool,
    /// The name of the game server that the player is on.
    pub server_name: String,
    /// The names of the players in the voice channel.
    pub members: Vec<String>,
}

/// What the control panel asks for.
#[derive(Debug)]
pub struct SendComms {
    /// Whether the player's microphone is to be muted.
    pub mute: bool,
    /// Whether the player is to hear nobody.
    pub deaf: bool,
    /// The name under which the server is to be known from now on, if the player set one.
    pub name_overwrite: Option<String>,
    /// Whether the server is to be known under its own name again.
    pub reset_server_name: bool,
}

/// A command of the control panel as a mathematical value.
pub ghost struct SendCommsView {
    pub mute: bool,
    pub deaf: bool,
    pub name_overwrite: Option<Seq<char>>,
    pub reset_server_name: bool,
}

impl View for SendComms {
    type V = SendCommsView;

    open spec fn view(&self) -> SendCommsView {
        SendCommsView {
            mute: self.mute,
            deaf: self.deaf,
            name_overwrite: match self.name_overwrite {
                Some(name) => Some(name@),
                None => None,
            },
            reset_server_name: self.reset_server_name,
        }
    }
}

/// The names of the clients that are connected to the relay, as its console shows them.
#[derive(Debug, Clone)]
pub struct Comms {
    pub connected: Vec<String>,
}

impl SharedComms {
    /// Notes whether the player is in a voice channel. Nothing else changes.
    pub fn update_connection_status(&mut self, is_connected: bool)
        ensures
            final(self).connected == is_connected,
            final(self).server_name == old(self).server_name,
            final(self).members == old(self).members,
    {
        self.connected = is_connected;
    }
}

impl Default for SharedComms {
    /// The status before anything is known: not connected, nobody in the channel, and the
    /// name of the test server.
    fn default() -> (shared: SharedComms)
        ensures
            !shared.connected,
            shared.server_name@ == "catornot-test"@,
            shared.members@.len() == 0,
    {
        SharedComms {
            connected: false,
            server_name: String::from_str("catornot-test"),
            members: Vec::new(),
        }
    }
}

impl Default for SendComms {
    /// The command that asks for nothing.
    fn default() -> (command: SendComms)
        ensures
            command@ == (SendCommsView {
                mute: false,
                deaf: false,
                name_overwrite: None,
                reset_server_name: false,
            }),
    {
        SendComms { mute: false, deaf: false, name_overwrite: None, reset_server_name: false }
    }
}

impl Comms {
    /// The list with nobody on it.
    pub fn new() -> (comms: Comms)
        ensures
            comms.connected@.len() == 0,
    {
        Comms { connected: Vec::new() }
    }
}

impl Default for Comms {
    fn default() -> (comms: Comms)
        ensures
            comms.connected@.len() == 0,
    {
        Comms::new()
    }
}

} // verus!
