//! The control panel: what it shows, and what the player's clicks do.
//!
//! The panel draws nothing here. Whoever draws it asks what to show, reports the clicks of
//! each frame, and sends on the command that comes back.

use crate::comms::{SendComms, SendCommsView, SharedComms};
use vstd::prelude::*;
use vstd::string::StringExecFns;

verus! {

/// The state of the control panel.
#[derive(Debug)]
pub struct Window {
    /// Whether the player's microphone is muted.
    pub muted: bool,
    /// Whether the player hears nobody.
    pub deafen: bool,
    /// What stands in the field for the server's name.
    pub name_overwrite: String,
}

/// The state of the control panel as a mathematical value.
pub ghost struct WindowView {
    pub muted: bool,
    pub deafen: bool,
    pub name_overwrite: Seq<char>,
}

impl View for Window {
    type V = WindowView;

    open spec fn view(&self) -> WindowView {
        WindowView {
            muted: self.muted,
            deafen: self.deafen,
            name_overwrite: self.name_overwrite@,
        }
    }
}

/// The buttons that the player clicked in one frame.
#[derive(Debug, Clone, Copy, PartialEq, Eq, Structural)]
pub struct Clicks {
    /// The button that mutes and unmutes.
    pub mute: bool,
    /// The button that deafens and undeafens.
    pub deafen: bool,
    /// The button that puts the name in the field in place of the server's.
    pub push_overwrite: bool,
    /// The button that brings the server's own name back.
    pub reset: bool,
}

/// What the panel shows in one frame.
#[derive(Debug)]
pub struct Labels {
    /// Whether the player is connected, and to which server.
    pub connect_text: String,
    /// The label of the button that mutes and unmutes.
    pub text_mute: String,
    /// The label of the button that deafens and undeafens.
    pub text_deafen: String,
    /// Whether to warn that the server is too old for the voice chat to work reliably.
    pub outdated: bool,
}

/// The name that a server has while nobody has given it one: such a server is out of date.
pub open spec fn unnamed_server() -> Seq<char> {
    "Unnamed Northstar Server"@
}

impl WindowView {
    /// The line that says whether the player is connected.
    pub open spec fn connect_text(connected: bool, server_name: Seq<char>) -> Seq<char> {
        if connected {
            "Connected to "@ + server_name
        } else {
            "Disconnected"@
        }
    }

    /// The label of the button that mutes and unmutes: what a click on it will do.
    pub open spec fn text_mute(self) -> Seq<char> {
        if self.muted {
            "Unmute"@
        } else {
            " Mute "@
        }
    }

    /// The label of the button that deafens and undeafens: what a click on it will do.
    pub open spec fn text_deafen(self) -> Seq<char> {
        if self.deafen {
            "Undeafen"@
        } else {
            " Deafen "@
        }
    }

    /// Whether the clicks of a frame call for a command: every click does, but the one that
    /// pushes a name while the field is empty.
    pub open spec fn speaks(self, clicks: Clicks) -> bool {
        clicks.mute || clicks.deafen || clicks.reset || (clicks.push_overwrite
            && self.name_overwrite.len() > 0)
    }

    /// The panel after the clicks of a frame: each of the two toggles flips if it was
    /// clicked, and a reset puts the server's name in the field.
    pub open spec fn clicked(self, clicks: Clicks, server_name: Seq<char>) -> WindowView {
        WindowView {
            muted: self.muted != clicks.mute,
            deafen: self.deafen != clicks.deafen,
            name_overwrite: if clicks.reset {
                server_name
            } else {
                self.name_overwrite
            },
        }
    }

    /// The command that the clicks of a frame call for, if they call for one: the toggles as
    /// they stand after the clicks, the name that stood in the field if it was pushed and
    /// not empty, and whether the server's own name was asked back.
    pub open spec fn command(self, clicks: Clicks) -> Option<SendCommsView> {
        if self.speaks(clicks) {
            Some(
                SendCommsView {
                    mute: self.muted != clicks.mute,
                    deaf: self.deafen != clicks.deafen,
                    name_overwrite: if clicks.push_overwrite && self.name_overwrite.len() > 0 {
                        Some(self.name_overwrite)
                    } else {
                        None
                    },
                    reset_server_name: clicks.reset,
                },
            )
        } else {
            None
        }
    }
}

/// A command, if there is one, as a mathematical value.
pub open spec fn command_view(command: Option<SendComms>) -> Option<SendCommsView> {
    match command {
        Some(c) => Some(c@),
        None => None,
    }
}

impl Window {
    /// The panel as it opens: nothing muted, nobody deafened, the field empty.
    pub fn new() -> (window: Window)
        ensures
            window@ == (WindowView { muted: false, deafen: false, name_overwrite: Seq::empty() }),
    {
        Window { muted: false, deafen: false, name_overwrite: String::new() }
    }

    /// Tells what the panel shows for the given status of the connection.
    pub fn labels(&self, shared: &SharedComms) -> (labels: Labels)
        ensures
            labels.connect_text@ == WindowView::connect_text(
                shared.connected,
                shared.server_name@,
            ),
            labels.text_mute@ == self@.text_mute(),
            labels.text_deafen@ == self@.text_deafen(),
            labels.outdated == (shared.server_name@ == unnamed_server()),
    {
        let connect_text = if shared.connected {
            String::from_str("Connected to ").concat(shared.server_name.as_str())
        } else {
            String::from_str("Disconnected")
        };
        let text_mute = if self.muted {
            String::from_str("Unmute")
        } else {
            String::from_str(" Mute ")
        };
        let text_deafen = if self.deafen {
            String::from_str("Undeafen")
        } else {
            String::from_str(" Deafen ")
        };
        let outdated = shared.server_name == String::from_str("Unnamed Northstar Server");
        Labels { connect_text, text_mute, text_deafen, outdated }
    }

    /// Takes the clicks of one frame and the server's name, and returns the command to send,
    /// if the clicks call for one.
    pub fn update(&mut self, clicks: Clicks, server_name: &String) -> (command: Option<SendComms>)
        ensures
            final(self)@ == old(self)@.clicked(clicks, server_name@),
            command_view(command) == old(self)@.command(clicks),
    {
        let mut should_send = false;
        if clicks.mute {
            self.muted = !self.muted;
            should_send = true;
        }
        if clicks.deafen {
            self.deafen = !self.deafen;
            should_send = true;
        }
        let mut name_overwrite: Option<String> = None;
        if clicks.push_overwrite && !self.name_overwrite.as_str().is_empty() {
            name_overwrite = Some(self.name_overwrite.clone());
            should_send = true;
        }
        if clicks.reset {
            self.name_overwrite = server_name.clone();
            should_send = true;
        }
        if should_send {
            Some(
                SendComms {
                    mute: self.muted,
                    deaf: self.deafen,
                    name_overwrite,
                    reset_server_name: clicks.reset,
                },
            )
        } else {
            None
        }
    }
}

} // verus!
