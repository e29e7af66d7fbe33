use idle_bridge::discovery::BindAction;
use idle_bridge::discovery::DiscoveryState;
use idle_bridge::discovery::SessionEvent;

fn advertise(name: u32, interface: &str, version: u32) -> SessionEvent {
    SessionEvent::GlobalAdvertised {
        name,
        interface: interface.to_string(),
        version,
    }
}

fn run(events: Vec<SessionEvent>) -> DiscoveryState {
    let mut state = DiscoveryState::initial();
    for event in &events {
        let (next, _action) = state.step(event);
        state = next;
    }
    state
}

#[test]
fn initial_state_is_not_ready() {
    let state = DiscoveryState::initial();
    assert!(!state.is_ready());
}

#[test]
fn ready_with_inhibit_manager_first_and_unrelated_globals_between() {
    let events = vec![
        advertise(1, "wl_output", 4),
        advertise(2, "zwp_idle_inhibit_manager_v1", 1),
        advertise(3, "wl_seat", 7),
        advertise(4, "wl_compositor", 5),
        advertise(5, "wl_shm", 1),
    ];
    assert!(run(events).is_ready());
}

#[test]
fn ready_with_surface_factory_first() {
    let events = vec![
        advertise(1, "wl_compositor", 5),
        advertise(2, "wl_output", 4),
        advertise(3, "zwp_idle_inhibit_manager_v1", 1),
    ];
    assert!(run(events).is_ready());
}

#[test]
fn ready_when_both_arrive_back_to_back() {
    let events = vec![
        advertise(1, "wl_compositor", 1),
        advertise(2, "zwp_idle_inhibit_manager_v1", 1),
    ];
    assert!(run(events).is_ready());
}

#[test]
fn never_ready_when_only_surface_factory_is_advertised() {
    let mut events = vec![advertise(1, "wl_compositor", 5)];
    for name in 2..100u32 {
        events.push(advertise(name, "wl_output", 4));
    }
    let mut state = DiscoveryState::initial();
    for event in &events {
        let (next, _action) = state.step(event);
        state = next;
        assert!(!state.is_ready());
    }
}

#[test]
fn never_ready_when_only_inhibit_manager_is_advertised() {
    let mut events = vec![advertise(1, "zwp_idle_inhibit_manager_v1", 1)];
    for name in 2..100u32 {
        events.push(advertise(name, "wl_data_device_manager", 3));
    }
    let mut state = DiscoveryState::initial();
    for event in &events {
        let (next, _action) = state.step(event);
        state = next;
        assert!(!state.is_ready());
    }
}

#[test]
fn matching_adverts_demand_bind_actions() {
    let state = DiscoveryState::initial();
    let (state, action) = state.step(&advertise(9, "zwp_idle_inhibit_manager_v1", 2));
    assert_eq!(action, BindAction::BindInhibitManager { name: 9, version: 2 });
    let (state, action) = state.step(&advertise(4, "wl_output", 4));
    assert_eq!(action, BindAction::NoAction);
    let (state, action) = state.step(&advertise(7, "wl_compositor", 6));
    assert_eq!(action, BindAction::BindSurfaceFactory { name: 7, version: 6 });
    assert!(state.is_ready());
}

#[test]
fn repeated_advertisement_is_bound_again() {
    let state = DiscoveryState::initial();
    let (state, first) = state.step(&advertise(1, "wl_compositor", 5));
    assert_eq!(first, BindAction::BindSurfaceFactory { name: 1, version: 5 });
    let (state, second) = state.step(&advertise(2, "wl_compositor", 6));
    assert_eq!(second, BindAction::BindSurfaceFactory { name: 2, version: 6 });
    assert!(!state.is_ready());
}

#[test]
fn removals_and_object_events_are_ignored() {
    let events = vec![
        SessionEvent::GlobalRemoved { name: 1 },
        SessionEvent::ObjectEvent,
        advertise(2, "zwp_idle_inhibit_manager_v1", 1),
        SessionEvent::GlobalRemoved { name: 2 },
        advertise(3, "wl_compositor", 4),
    ];
    assert!(run(events).is_ready());
}

#[test]
fn ready_state_absorbs_further_events() {
    let state = run(vec![
        advertise(1, "wl_compositor", 1),
        advertise(2, "zwp_idle_inhibit_manager_v1", 1),
    ]);
    let (state, action) = state.step(&advertise(3, "wl_compositor", 1));
    assert_eq!(action, BindAction::NoAction);
    assert!(state.is_ready());
}

#[test]
fn interface_name_must_match_exactly() {
    let events = vec![
        advertise(1, "wl_compositor_extra", 1),
        advertise(2, "zwp_idle_inhibit_manager", 1),
        advertise(3, "WL_COMPOSITOR", 1),
    ];
    assert!(!run(events).is_ready());
}
