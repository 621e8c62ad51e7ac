use window_actions::pactl::parse_loopback_id;
use window_actions::{
    ActionDataID, ActionGenerator, GeneratorError, GeneratorIndex, PaSource, PactlActionGenerator,
};

fn generator(raw: &[u8], sources: &Vec<PaSource>) -> PactlActionGenerator {
    PactlActionGenerator::new(parse_loopback_id(raw).ok().unwrap(), sources)
}

fn sources() -> Vec<PaSource> {
    vec![
        PaSource::new(3, "alsa_input.usb-mic".to_string()),
        PaSource::new(70, "bluez_input.headset".to_string()),
    ]
}

#[test]
fn generator_from_outputs_trims_loopback_and_lists_sources() {
    let g = generator(b"123\n", &sources());
    assert_eq!(g.loopback_id(), "123");
    let datas = g.action_datas();
    assert_eq!(datas.len(), 2);
    assert_eq!(datas[0].option_idx, 0);
    assert_eq!(datas[0].id, 3);
    assert_eq!(datas[0].description, "alsa_input.usb-mic");
    assert_eq!(datas[1].id, 70);
    assert_eq!(datas[1].description, "bluez_input.headset");
}

#[test]
fn generator_refuses_empty_loopback_id() {
    let r = parse_loopback_id(b" \n\t");
    assert!(matches!(r, Err(GeneratorError::EmptyLoopbackId)));
}

#[test]
fn generator_refuses_loopback_that_is_not_text() {
    let r = parse_loopback_id(&[0xc3, 0x28]);
    assert!(matches!(r, Err(GeneratorError::LoopbackNotText)));
}

#[test]
fn generator_names() {
    let g = generator(b"9", &Vec::new());
    assert_eq!(g.get_action_name(), "pactl move source");
    assert_eq!(ActionGenerator::fmt(&g), "Pactl Action");
}

#[test]
fn built_action_is_unconfigured() {
    let g = generator(b"9", &sources());
    let a = g.build_action(GeneratorIndex::new(0, "Pactl Action".to_string())).ok().unwrap();
    assert!(a.command().is_none());
    assert!(a.source().is_none());
    assert_eq!(a.get_generator().index, 0);
    assert_eq!(a.get_generator().name, "Pactl Action");
}

#[test]
fn update_writes_move_source_command() {
    let g = generator(b"57\n", &sources());
    let gens = vec![g];
    let mut a = gens[0].build_action(GeneratorIndex::new(0, "Pactl Action".to_string())).ok().unwrap();
    a.update(ActionDataID::new(0, 70, "bluez_input.headset".to_string()), &gens);
    assert_eq!(a.command().as_deref(), Some("pactl move-source-output 57 70"));
    assert_eq!(a.source().as_ref().unwrap().id, 70);
    assert_eq!(a.get_generator().index, 0);
}

#[test]
fn build_by_desc_picks_matching_source() {
    let g = generator(b"5", &sources());
    let a = g
        .build_action_by_desc(GeneratorIndex::new(0, "Pactl Action".to_string()), "bluez_input.headset".to_string())
        .ok()
        .unwrap();
    assert_eq!(a.command().as_deref(), Some("pactl move-source-output 5 70"));
    assert_eq!(a.source().as_ref().unwrap().description, "bluez_input.headset");
}

#[test]
fn build_by_desc_without_match_is_unconfigured() {
    let g = generator(b"5", &sources());
    let a = g
        .build_action_by_desc(GeneratorIndex::new(0, "Pactl Action".to_string()), "nothing".to_string())
        .ok()
        .unwrap();
    assert!(a.command().is_none());
    assert!(a.source().is_none());
}

#[test]
fn display_texts() {
    assert_eq!(PaSource::new(1, "mic".to_string()).fmt(), "mic");
    assert_eq!(GeneratorIndex::new(2, "Pactl Action".to_string()).fmt(), "Pactl Action");
    assert_eq!(ActionDataID::new(0, 4, "speaker".to_string()).fmt(), "speaker");
}
