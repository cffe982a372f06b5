use vibecheck_core::events::{client_event_actions, toy_power, ClientAction, ClientEvent};
use vibecheck_core::toy::ToyPower;

#[test]
fn added_device_is_registered() {
    assert_eq!(client_event_actions(ClientEvent::DeviceAdded, false), vec![ClientAction::RegisterToy]);
}

#[test]
fn removed_device_is_announced_then_scanned_for() {
    assert_eq!(
        client_event_actions(ClientEvent::DeviceRemoved { was_online: true }, true),
        vec![ClientAction::AnnounceRemoval, ClientAction::StartScan]
    );
    assert_eq!(
        client_event_actions(ClientEvent::DeviceRemoved { was_online: true }, false),
        vec![ClientAction::AnnounceRemoval]
    );
    assert!(client_event_actions(ClientEvent::DeviceRemoved { was_online: false }, true).is_empty());
}

#[test]
fn server_loss_stops_the_handler() {
    assert_eq!(client_event_actions(ClientEvent::ServerDisconnect, false), vec![ClientAction::StopHandling]);
    assert_eq!(client_event_actions(ClientEvent::PingTimeout, true), vec![ClientAction::StopHandling]);
    assert!(client_event_actions(ClientEvent::Error, true).is_empty());
    assert!(client_event_actions(ClientEvent::ScanningFinished, true).is_empty());
    assert!(client_event_actions(ClientEvent::ServerConnect, true).is_empty());
}

#[test]
fn power_from_battery_reading() {
    assert_eq!(toy_power(false, None), ToyPower::NoBattery);
    assert_eq!(toy_power(true, None), ToyPower::Pending);
    assert_eq!(toy_power(true, Some(8000)), ToyPower::Battery(8000));
}
