use window_actions::{
    GeneratorIndex, HandleEvent, IcedMessage, IcedState, PactlActionGenerator, WLIcedMessage,
};

fn state_with_two_generators() -> IcedState {
    let g1 = PactlActionGenerator::new(window_actions::pactl::parse_loopback_id(b"1").ok().unwrap(), &Vec::new());
    let g2 = PactlActionGenerator::new(window_actions::pactl::parse_loopback_id(b"2").ok().unwrap(), &Vec::new());
    IcedState::new(vec![g1, g2])
}

/// Builds a stored action by binding one to the window `scratch`; returns its key.
fn stored_action(s: &mut IcedState, scratch: u64) -> u64 {
    s.update(IcedMessage::Wayland(WLIcedMessage::ChangeActiveActionType(
        GeneratorIndex::new(0, "Pactl Action".to_string()),
        scratch,
        None,
    )));
    *s.wayland().handle(scratch).unwrap().active_actions().last().unwrap()
}

fn bound(s: &IcedState, hk: u64) -> Vec<u64> {
    s.wayland().handle(hk).unwrap().active_actions().clone()
}

#[test]
fn add_then_remove_restores_bindings() {
    let mut s = state_with_two_generators();
    let hk = s.on_new_toplevel().unwrap();
    let scratch = s.on_new_toplevel().unwrap();
    let k3 = stored_action(&mut s, scratch);
    let k4 = stored_action(&mut s, scratch);
    s.update(IcedMessage::Wayland(WLIcedMessage::AddAction(hk, k3)));
    let before = bound(&s, hk);
    s.update(IcedMessage::Wayland(WLIcedMessage::AddAction(hk, k4)));
    s.update(IcedMessage::Wayland(WLIcedMessage::RemoveAction(hk, k4)));
    assert_eq!(bound(&s, hk), before);
}

#[test]
fn repeated_activation_report_runs_nothing() {
    let mut s = state_with_two_generators();
    let hk = s.on_new_toplevel().unwrap();
    s.on_handle_event(hk, HandleEvent::State(vec![2, 0, 0, 0]));
    let again = s.on_handle_event(hk, HandleEvent::State(vec![2, 0, 0, 0]));
    assert!(again.commands.is_empty());
    assert!(s.wayland().handle(hk).unwrap().is_active());
}

#[test]
fn change_to_same_generator_changes_nothing() {
    let mut s = state_with_two_generators();
    let hk = s.on_new_toplevel().unwrap();
    s.update(IcedMessage::Wayland(WLIcedMessage::ChangeActiveActionType(
        GeneratorIndex::new(1, "Pactl Action".to_string()),
        hk,
        None,
    )));
    let before = bound(&s, hk);
    s.update(IcedMessage::Wayland(WLIcedMessage::ChangeActiveActionType(
        GeneratorIndex::new(1, "Pactl Action".to_string()),
        hk,
        Some(before[0]),
    )));
    assert_eq!(bound(&s, hk), before);
}

#[test]
fn messages_about_one_window_leave_others() {
    let mut s = state_with_two_generators();
    let a = s.on_new_toplevel().unwrap();
    let b = s.on_new_toplevel().unwrap();
    let scratch = s.on_new_toplevel().unwrap();
    let k = stored_action(&mut s, scratch);
    s.update(IcedMessage::Wayland(WLIcedMessage::AddAction(b, k)));
    s.update(IcedMessage::Wayland(WLIcedMessage::ChangeActiveActionType(
        GeneratorIndex::new(0, "Pactl Action".to_string()),
        a,
        None,
    )));
    s.update(IcedMessage::Wayland(WLIcedMessage::RemoveAction(a, k)));
    assert_eq!(bound(&s, b), vec![k]);
}

#[test]
fn change_type_keeps_count_and_new_choice_adds_one() {
    let mut s = state_with_two_generators();
    let hk = s.on_new_toplevel().unwrap();
    s.update(IcedMessage::Wayland(WLIcedMessage::ChangeActiveActionType(
        GeneratorIndex::new(0, "Pactl Action".to_string()),
        hk,
        None,
    )));
    assert_eq!(bound(&s, hk).len(), 1);
    let k = bound(&s, hk)[0];
    s.update(IcedMessage::Wayland(WLIcedMessage::ChangeActiveActionType(
        GeneratorIndex::new(1, "Pactl Action".to_string()),
        hk,
        Some(k),
    )));
    assert_eq!(bound(&s, hk).len(), 1);
}

#[test]
fn closed_window_is_forgotten() {
    let mut s = state_with_two_generators();
    let a = s.on_new_toplevel().unwrap();
    let b = s.on_new_toplevel().unwrap();
    s.on_handle_event(b, HandleEvent::Title("kept".to_string()));
    s.on_handle_event(a, HandleEvent::Closed);
    assert!(s.wayland().handle(a).is_none());
    assert_eq!(s.wayland().handle(b).unwrap().get_title(), "kept");
}

#[test]
fn title_is_read_back() {
    let mut s = state_with_two_generators();
    let hk = s.on_new_toplevel().unwrap();
    s.on_handle_event(hk, HandleEvent::Title("Editor".to_string()));
    assert_eq!(s.wayland().handle(hk).unwrap().get_title(), "Editor");
}
