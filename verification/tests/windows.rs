use window_actions::{
    ActionDataID, GeneratorIndex, HandleEvent, IcedMessage, IcedState, PaSource, PactlActionGenerator,
    WLIcedMessage,
};

fn state() -> IcedState {
    let g = PactlActionGenerator::new(
        window_actions::pactl::parse_loopback_id(b"42\n").ok().unwrap(),
        &vec![PaSource::new(1, "mic".to_string()), PaSource::new(8, "headset".to_string())],
    );
    IcedState::new(vec![g])
}

fn gi() -> GeneratorIndex {
    GeneratorIndex::new(0, "Pactl Action".to_string())
}

/// Builds a stored action by binding one to the window `scratch`; returns its key.
fn stored_action(s: &mut IcedState, scratch: u64) -> u64 {
    s.update(IcedMessage::Wayland(WLIcedMessage::ChangeActiveActionType(
        GeneratorIndex::new(0, "Pactl Action".to_string()),
        scratch,
        None,
    )));
    *s.wayland().handle(scratch).unwrap().active_actions().last().unwrap()
}

fn bound(s: &IcedState, hk: u64) -> Vec<u64> {
    s.wayland().handle(hk).unwrap().active_actions().clone()
}

#[test]
fn new_state_offers_each_generator() {
    let s = state();
    assert_eq!(s.generators_state().len(), 1);
    assert_eq!(s.generators_state()[0].index, 0);
    assert_eq!(s.generators_state()[0].name, "Pactl Action");
    assert!(s.view_rows().is_empty());
}

#[test]
fn new_windows_get_distinct_keys() {
    let mut s = state();
    let a = s.on_new_toplevel().unwrap();
    let b = s.on_new_toplevel().unwrap();
    assert_ne!(a, b);
    let h = s.wayland().handle(b).unwrap();
    assert_eq!(h.get_title(), "");
    assert!(!h.is_active());
    assert!(h.active_actions().is_empty());
}

#[test]
fn title_event_sets_title_and_announces_window() {
    let mut s = state();
    let hk = s.on_new_toplevel().unwrap();
    let out = s.on_handle_event(hk, HandleEvent::Title("Firefox".to_string()));
    assert!(matches!(out.notify, Some(IcedMessage::NewWlEvent(k)) if k == hk));
    assert!(out.commands.is_empty());
    assert_eq!(s.wayland().handle(hk).unwrap().get_title(), "Firefox");
}

#[test]
fn title_event_of_unknown_window_announces_nothing() {
    let mut s = state();
    let out = s.on_handle_event(99, HandleEvent::Title("x".to_string()));
    assert!(out.notify.is_none());
}

#[test]
fn app_id_event_sets_app_id() {
    let mut s = state();
    let hk = s.on_new_toplevel().unwrap();
    let out = s.on_handle_event(hk, HandleEvent::AppId("org.mozilla.firefox".to_string()));
    assert!(out.notify.is_none());
    assert_eq!(s.wayland().handle(hk).unwrap().app_id(), "org.mozilla.firefox");
}

#[test]
fn choosing_generator_binds_new_action() {
    let mut s = state();
    let hk = s.on_new_toplevel().unwrap();
    s.update(IcedMessage::Wayland(WLIcedMessage::ChangeActiveActionType(gi(), hk, None)));
    let keys = bound(&s, hk);
    assert_eq!(keys.len(), 1);
    let a = s.actions().get(keys[0]).unwrap();
    assert_eq!(a.get_generator().index, 0);
    assert!(a.command().is_none());
}

#[test]
fn activation_runs_configured_actions_once() {
    let mut s = state();
    let hk = s.on_new_toplevel().unwrap();
    s.update(IcedMessage::Wayland(WLIcedMessage::ChangeActiveActionType(gi(), hk, None)));
    s.update(IcedMessage::Wayland(WLIcedMessage::ChangeActiveActionType(gi(), hk, None)));
    let keys = bound(&s, hk);
    s.update(IcedMessage::UpdateAction(keys[0], ActionDataID::new(0, 8, "headset".to_string())));
    // the second action stays unconfigured and runs nothing
    let out = s.on_handle_event(hk, HandleEvent::State(vec![2, 0, 0, 0]));
    assert_eq!(out.commands, vec!["pactl move-source-output 42 8".to_string()]);
    assert!(s.wayland().handle(hk).unwrap().is_active());
    let again = s.on_handle_event(hk, HandleEvent::State(vec![2, 0, 0, 0]));
    assert!(again.commands.is_empty());
}

#[test]
fn deactivation_runs_deactivation_actions_only() {
    let mut s = state();
    let hk = s.on_new_toplevel().unwrap();
    s.update(IcedMessage::Wayland(WLIcedMessage::ChangeActiveActionType(gi(), hk, None)));
    let keys = bound(&s, hk);
    s.update(IcedMessage::UpdateAction(keys[0], ActionDataID::new(0, 1, "mic".to_string())));
    s.on_handle_event(hk, HandleEvent::State(vec![2, 0, 0, 0]));
    let out = s.on_handle_event(hk, HandleEvent::State(vec![1, 0, 0, 0]));
    assert!(out.commands.is_empty());
    assert!(!s.wayland().handle(hk).unwrap().is_active());
}

#[test]
fn state_without_activation_on_inactive_window_does_nothing() {
    let mut s = state();
    let hk = s.on_new_toplevel().unwrap();
    let out = s.on_handle_event(hk, HandleEvent::State(vec![]));
    assert!(out.commands.is_empty());
    assert!(!s.wayland().handle(hk).unwrap().is_active());
}

#[test]
fn closing_window_forgets_it_and_redraws() {
    let mut s = state();
    let a = s.on_new_toplevel().unwrap();
    let b = s.on_new_toplevel().unwrap();
    let out = s.on_handle_event(a, HandleEvent::Closed);
    assert!(matches!(out.notify, Some(IcedMessage::Noop)));
    assert!(s.wayland().handle(a).is_none());
    assert!(s.wayland().handle(b).is_some());
}

#[test]
fn closing_unknown_window_still_redraws() {
    let mut s = state();
    let out = s.on_handle_event(5, HandleEvent::Closed);
    assert!(matches!(out.notify, Some(IcedMessage::Noop)));
}

#[test]
fn remove_action_unbinds_first_binding() {
    let mut s = state();
    let hk = s.on_new_toplevel().unwrap();
    let scratch = s.on_new_toplevel().unwrap();
    let k7 = stored_action(&mut s, scratch);
    let k9 = stored_action(&mut s, scratch);
    s.update(IcedMessage::Wayland(WLIcedMessage::AddAction(hk, k7)));
    s.update(IcedMessage::Wayland(WLIcedMessage::AddAction(hk, k9)));
    s.update(IcedMessage::Wayland(WLIcedMessage::AddAction(hk, k7)));
    s.update(IcedMessage::Wayland(WLIcedMessage::RemoveAction(hk, k7)));
    assert_eq!(bound(&s, hk), vec![k9, k7]);
}

#[test]
fn change_type_replaces_action_in_place() {
    let g1 = PactlActionGenerator::new("1".to_string(), &Vec::new());
    let g2 = PactlActionGenerator::new("2".to_string(), &Vec::new());
    let mut s = IcedState::new(vec![g1, g2]);
    let hk = s.on_new_toplevel().unwrap();
    let scratch = s.on_new_toplevel().unwrap();
    let k1000 = stored_action(&mut s, scratch);
    let k2000 = stored_action(&mut s, scratch);
    s.update(IcedMessage::Wayland(WLIcedMessage::AddAction(hk, k1000)));
    s.update(IcedMessage::Wayland(WLIcedMessage::ChangeActiveActionType(
        GeneratorIndex::new(0, "Pactl Action".to_string()),
        hk,
        None,
    )));
    s.update(IcedMessage::Wayland(WLIcedMessage::AddAction(hk, k2000)));
    let first = bound(&s, hk)[1];
    s.update(IcedMessage::Wayland(WLIcedMessage::ChangeActiveActionType(
        GeneratorIndex::new(1, "Pactl Action".to_string()),
        hk,
        Some(first),
    )));
    let keys = bound(&s, hk);
    assert_eq!(keys.len(), 3);
    assert_eq!(keys[0], k1000);
    assert_eq!(keys[2], k2000);
    assert_ne!(keys[1], first);
    assert_eq!(s.actions().get(keys[1]).unwrap().get_generator().index, 1);
}

#[test]
fn change_type_of_unbound_action_does_nothing() {
    let g1 = PactlActionGenerator::new("1".to_string(), &Vec::new());
    let g2 = PactlActionGenerator::new("2".to_string(), &Vec::new());
    let mut s = IcedState::new(vec![g1, g2]);
    let a = s.on_new_toplevel().unwrap();
    let b = s.on_new_toplevel().unwrap();
    s.update(IcedMessage::Wayland(WLIcedMessage::ChangeActiveActionType(
        GeneratorIndex::new(0, "Pactl Action".to_string()),
        a,
        None,
    )));
    let k = bound(&s, a)[0];
    s.update(IcedMessage::Wayland(WLIcedMessage::ChangeActiveActionType(
        GeneratorIndex::new(1, "Pactl Action".to_string()),
        b,
        Some(k),
    )));
    assert!(bound(&s, b).is_empty());
    assert_eq!(bound(&s, a), vec![k]);
}

#[test]
fn view_rows_list_windows_and_bound_actions() {
    let mut s = state();
    let a = s.on_new_toplevel().unwrap();
    let b = s.on_new_toplevel().unwrap();
    s.on_handle_event(a, HandleEvent::Title("Terminal".to_string()));
    s.update(IcedMessage::Wayland(WLIcedMessage::ChangeActiveActionType(gi(), b, None)));
    let rows = s.view_rows();
    assert_eq!(rows.len(), 2);
    assert_eq!(rows[0].key, a);
    assert_eq!(rows[0].title, "Terminal");
    assert!(rows[0].actions.is_empty());
    assert_eq!(rows[1].key, b);
    assert_eq!(rows[1].actions.len(), 1);
    assert_eq!(rows[1].actions[0].generator.index, 0);
    assert!(rows[1].actions[0].source.is_none());
}

#[test]
fn new_wl_event_without_saved_action_changes_nothing() {
    let mut s = state();
    let hk = s.on_new_toplevel().unwrap();
    s.on_handle_event(hk, HandleEvent::Title("Music".to_string()));
    s.update(IcedMessage::NewWlEvent(hk));
    assert!(bound(&s, hk).is_empty());
}
