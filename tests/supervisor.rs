use vibecheck_core::dispatch::{dispatch_signal, ToySig};
use vibecheck_core::features::{VCFeatureType, VCToyFeature, VCToyFeatures};
use vibecheck_core::rate_limiter::ToyRateLimiter;
use vibecheck_core::supervisor::{SupervisorAction, TmSig, ToyManagementEvent, ToyManager, ToyUpdate};

fn ev_add(id: u32) -> ToyManagementEvent {
    ToyManagementEvent::Tu(ToyUpdate::AddToy(id))
}

#[test]
fn lifecycle_of_one_toy() {
    let mut m = ToyManager::new();
    assert_eq!(m.handle_event(ToyManagementEvent::Sig(TmSig::StartListening)), vec![SupervisorAction::StartOscListener]);
    assert_eq!(m.handle_event(ev_add(1)), vec![SupervisorAction::SpawnDispatcher(1)]);
    assert_eq!(
        m.handle_event(ToyManagementEvent::Tu(ToyUpdate::AlterToy(1))),
        vec![SupervisorAction::BroadcastUpdate(1)]
    );
    // The dispatcher of toy 1 takes the broadcast update.
    let mut table = VCToyFeatures::new();
    table.features.push(VCToyFeature::new("/a".to_string(), 0, VCFeatureType::Vibrator));
    let mut new_table = VCToyFeatures::new();
    new_table.features.push(VCToyFeature::new("/b".to_string(), 0, VCFeatureType::Vibrator));
    let mut lim = ToyRateLimiter::new(10);
    dispatch_signal(ToySig::UpdateToy(1, new_table), 1, &mut table, &vec![], 0, &mut lim);
    assert_eq!(table.features[0].osc_parameters[0].parameter, "/b");
    assert_eq!(
        m.handle_event(ToyManagementEvent::Tu(ToyUpdate::RemoveToy(1))),
        vec![SupervisorAction::AbortDispatcher(1)]
    );
    assert_eq!(m.handle_event(ToyManagementEvent::Sig(TmSig::StopListening)), vec![SupervisorAction::CloseBroadcast]);
    assert!(!m.is_listening());
}

#[test]
fn start_spawns_every_online_toy_and_stop_aborts_them() {
    let mut m = ToyManager::new();
    assert!(m.handle_event(ev_add(4)).is_empty());
    assert!(m.handle_event(ev_add(7)).is_empty());
    assert!(m.handle_event(ev_add(4)).is_empty());
    assert_eq!(m.online_count(), 2);
    let acts = m.handle_event(ToyManagementEvent::Sig(TmSig::StartListening));
    assert_eq!(acts.len(), 3);
    assert!(acts.contains(&SupervisorAction::SpawnDispatcher(4)));
    assert!(acts.contains(&SupervisorAction::SpawnDispatcher(7)));
    assert_eq!(acts[2], SupervisorAction::StartOscListener);
    assert!(m.handle_event(ToyManagementEvent::Sig(TmSig::StartListening)).is_empty());
    let stop = m.handle_event(ToyManagementEvent::Sig(TmSig::TMHReset));
    assert_eq!(stop.len(), 3);
    assert!(stop.contains(&SupervisorAction::AbortDispatcher(4)));
    assert!(stop.contains(&SupervisorAction::AbortDispatcher(7)));
    assert_eq!(stop[2], SupervisorAction::CloseBroadcast);
    assert!(m.is_online(4) && m.is_online(7));
}

#[test]
fn stop_and_reset_while_idle_do_nothing() {
    let mut m = ToyManager::new();
    assert!(m.handle_event(ToyManagementEvent::Sig(TmSig::StopListening)).is_empty());
    assert!(m.handle_event(ToyManagementEvent::Sig(TmSig::TMHReset)).is_empty());
    assert!(!m.is_listening());
}

#[test]
fn re_adding_a_running_toy_restarts_its_dispatcher() {
    let mut m = ToyManager::new();
    m.handle_event(ToyManagementEvent::Sig(TmSig::StartListening));
    m.handle_event(ev_add(2));
    assert_eq!(
        m.handle_event(ev_add(2)),
        vec![SupervisorAction::AbortDispatcher(2), SupervisorAction::SpawnDispatcher(2)]
    );
    assert!(m.handle_event(ToyManagementEvent::Tu(ToyUpdate::RemoveToy(9))).is_empty());
}

#[test]
fn altering_an_unknown_toy_while_listening_starts_it() {
    let mut m = ToyManager::new();
    m.handle_event(ToyManagementEvent::Sig(TmSig::StartListening));
    assert_eq!(
        m.handle_event(ToyManagementEvent::Tu(ToyUpdate::AlterToy(9))),
        vec![SupervisorAction::SpawnDispatcher(9), SupervisorAction::BroadcastUpdate(9)]
    );
    assert!(m.is_online(9));
    assert_eq!(
        m.handle_event(ToyManagementEvent::Sig(TmSig::StopListening)),
        vec![SupervisorAction::AbortDispatcher(9), SupervisorAction::CloseBroadcast]
    );
}

#[test]
fn altering_while_idle_updates_the_map_only() {
    let mut m = ToyManager::new();
    assert!(m.handle_event(ToyManagementEvent::Tu(ToyUpdate::AlterToy(5))).is_empty());
    assert!(m.is_online(5));
    assert!(!m.is_listening());
    assert_eq!(
        m.handle_event(ToyManagementEvent::Sig(TmSig::StartListening)),
        vec![SupervisorAction::SpawnDispatcher(5), SupervisorAction::StartOscListener]
    );
}
