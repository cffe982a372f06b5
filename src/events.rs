//! What the device event handler does for each event of the device layer.
use vstd::prelude::*;
use crate::toy::ToyPower;

verus! {

/// An event of the device layer, with what the handler knows when it decides.
#[derive(Clone, Copy, Debug, PartialEq, Eq, Structural)]
pub enum ClientEvent {
    DeviceAdded,
    /// A device went away; `was_online` tells whether it was in the map of online toys.
    DeviceRemoved { was_online: bool },
    ScanningFinished,
    ServerConnect,
    ServerDisconnect,
    PingTimeout,
    Error,
}

/// One thing the handler must do.
#[derive(Clone, Copy, Debug, PartialEq, Eq, Structural)]
pub enum ClientAction {
    /// Settle, read the battery, build the toy with its table, insert it, and announce it.
    RegisterToy,
    /// Tell the supervisor and the observers that the toy is gone.
    AnnounceRemoval,
    /// Start a new device scan.
    StartScan,
    /// Leave the event loop: the server is gone.
    StopHandling,
}

/// The actions for an event, given whether a scan follows a disconnect.
pub open spec fn client_actions(e: ClientEvent, scan_on_disconnect: bool) -> Seq<ClientAction> {
    match e {
        ClientEvent::DeviceAdded => seq![ClientAction::RegisterToy],
        ClientEvent::DeviceRemoved { was_online } => if !was_online {
            Seq::empty()
        } else if scan_on_disconnect {
            seq![ClientAction::AnnounceRemoval, ClientAction::StartScan]
        } else {
            seq![ClientAction::AnnounceRemoval]
        },
        ClientEvent::ServerDisconnect => seq![ClientAction::StopHandling],
        ClientEvent::PingTimeout => seq![ClientAction::StopHandling],
        _ => Seq::empty(),
    }
}

/// Decides what the handler does for one event: an added device is registered; a removed
/// device that was online is announced, then a scan starts when configured; the server
/// going away or a ping timeout ends the handler; anything else is only logged.
pub fn client_event_actions(e: ClientEvent, scan_on_disconnect: bool) -> (r: Vec<ClientAction>)
    ensures
        r@ == client_actions(e, scan_on_disconnect),
{
    let mut acts: Vec<ClientAction> = Vec::new();
    match e {
        ClientEvent::DeviceAdded => acts.push(ClientAction::RegisterToy),
        ClientEvent::DeviceRemoved { was_online } => {
            if was_online {
                acts.push(ClientAction::AnnounceRemoval);
                if scan_on_disconnect {
                    acts.push(ClientAction::StartScan);
                }
            }
        },
        ClientEvent::ServerDisconnect => acts.push(ClientAction::StopHandling),
        ClientEvent::PingTimeout => acts.push(ClientAction::StopHandling),
        _ => {},
    }
    assert(acts@ =~= client_actions(e, scan_on_disconnect));
    acts
}

/// A toy's power state: no battery, a battery whose reading failed (pending), or the
/// battery level that was read.
pub fn toy_power(has_battery: bool, reading: Option<i32>) -> (r: ToyPower)
    ensures
        r == if !has_battery {
            ToyPower::NoBattery
        } else {
            match reading {
                Some(level) => ToyPower::Battery(level),
                None => ToyPower::Pending,
            }
        },
{
    if !has_battery {
        ToyPower::NoBattery
    } else {
        match reading {
            Some(level) => ToyPower::Battery(level),
            None => ToyPower::Pending,
        }
    }
}

} // verus!
