use sh4der_jockey::config::{Config, ConfigError, GlobalConfig};
use sh4der_jockey::midi::{
    message_from_bytes, parse_msg, port_selected, ports_changed, MessageKind, MidiBindings,
    MidiEffect, MIDI_N,
};
use sh4der_jockey::yaml::{LoadError, Yaml, YamlNumber};

fn s(x: &str) -> Yaml {
    Yaml::String(x.to_string())
}

fn map(entries: Vec<(&str, Yaml)>) -> Yaml {
    Yaml::Mapping(entries.into_iter().map(|(k, v)| (s(k), v)).collect())
}

#[test]
fn config_reads_devices() {
    let o = map(vec![
        ("midi_devices", Yaml::Sequence(vec![s("My MIDI Substr"), s("Other Device")])),
        ("audio_device", s("Audio Input Substr")),
    ]);
    let c = Config::load(&o).unwrap();
    assert_eq!(c.midi_devices, vec!["My MIDI Substr", "Other Device"]);
    assert_eq!(c.audio_device, Some("Audio Input Substr".to_string()));
}

#[test]
fn config_errors_and_defaults() {
    let o = map(vec![("midi_devices", s("one"))]);
    assert_eq!(Config::load(&o).err(), Some(ConfigError::MidiDevicesNotList));
    let o = map(vec![("midi_devices", Yaml::Sequence(vec![Yaml::Bool(true)]))]);
    assert_eq!(Config::load(&o).err(), Some(ConfigError::MidiDeviceNotString));
    let o = map(vec![("audio_device", Yaml::Number(YamlNumber::PosInt(1)))]);
    assert_eq!(Config::load(&o).err(), Some(ConfigError::AudioDeviceNotString));
    let o = map(vec![("ndi_sources", s("cam"))]);
    assert_eq!(Config::load(&o).err(), Some(ConfigError::NdiSourcesNotList));
    let o = map(vec![("ndi_sources", Yaml::Sequence(vec![Yaml::Null]))]);
    assert_eq!(Config::load(&o).err(), Some(ConfigError::NdiSourceNotString));

    let d = Config::load_or_default(Some(&map(vec![("audio_device", Yaml::Null)])));
    assert!(d.midi_devices.is_empty());
    assert_eq!(d.audio_device, None);
    let d = Config::load_or_default(None);
    assert!(d.midi_devices.is_empty());

    let g = GlobalConfig::new(Some(&map(vec![("ndi_sources", s("ignored")), ("audio_device", s("mic"))])));
    assert_eq!(g.audio_device, Some("mic".to_string()));
}

#[test]
fn midi_messages_decode() {
    assert!(matches!(
        parse_msg([0x93, 60, 100]),
        Some(MessageKind::NoteOn { channel: 3, key: 60, velocity: 100 })
    ));
    assert!(matches!(
        parse_msg([0x80, 1, 2]),
        Some(MessageKind::NoteOff { channel: 0, key: 1, _velocity: 2 })
    ));
    assert!(matches!(
        parse_msg([0xAF, 5, 6]),
        Some(MessageKind::KeyPressure { channel: 15, key: 5, pressure: 6 })
    ));
    assert!(matches!(
        parse_msg([0xB1, 7, 127]),
        Some(MessageKind::ControlChange { channel: 1, key: 7, value: 127 })
    ));
    assert!(parse_msg([0xF0, 0, 0]).is_none());
    assert_eq!(message_from_bytes(&[1, 2, 3]), Some([1, 2, 3]));
    assert_eq!(message_from_bytes(&[1, 2]), None);
}

#[test]
fn binding_a_button_and_pressing_it() {
    let mut m = MidiBindings::new();
    assert_eq!(m.handle_message([0x90, 36, 64]), MidiEffect::Nothing);
    assert_eq!(m.last_button, [0, 36]);
    assert!(m.bind_button(5));
    assert_eq!(m.button_bindings.get([0, 36]), Some(5));
    assert_eq!(
        m.handle_message([0x90, 36, 64]),
        MidiEffect::ButtonOn { id: 5, velocity: 64 }
    );
    assert_eq!(m.handle_message([0x80, 36, 0]), MidiEffect::ButtonOff { id: 5 });
    assert_eq!(
        m.handle_message([0xA0, 36, 10]),
        MidiEffect::ButtonPressure { id: 5, pressure: 10 }
    );

    // binding another key to the same button moves the binding
    m.handle_message([0x90, 37, 1]);
    assert!(m.bind_button(5));
    assert_eq!(m.button_bindings.get([0, 36]), None);
    assert_eq!(m.button_bindings.get([0, 37]), Some(5));

    assert!(m.unbind_button(5));
    assert_eq!(m.button_bindings.get([0, 37]), None);
    assert!(!m.bind_button(MIDI_N));
}

#[test]
fn binding_a_slider() {
    let mut m = MidiBindings::new();
    m.handle_message([0xB2, 14, 3]);
    assert_eq!(m.last_slider, [2, 14]);
    assert!(m.bind_slider(0));
    assert_eq!(m.handle_message([0xB2, 14, 99]), MidiEffect::Slider { id: 0, value: 99 });
    assert_eq!(m.slider_bindings.entries(), vec![([2, 14], 0)]);
    assert!(m.unbind_slider(0));
    assert_eq!(m.handle_message([0xB2, 14, 99]), MidiEffect::Nothing);
}

#[test]
fn midi_ports_are_selected_by_name() {
    let preferred = vec!["Launch".to_string(), "nano".to_string()];
    assert!(port_selected("Novation Launchpad", &preferred));
    assert!(port_selected("korg nanoKONTROL", &preferred));
    assert!(!port_selected("Midi Through", &preferred));
    assert!(port_selected("Midi Through", &[]));
    assert!(ports_changed(2, 1));
    assert!(!ports_changed(2, 2));
}

#[test]
fn yaml_text_is_parsed() {
    let doc = Yaml::parse("a: [1, -2, true, x]\nb: !t 3").unwrap();
    let a = doc.get("a").unwrap();
    match a {
        Yaml::Sequence(items) => {
            assert_eq!(items.len(), 4);
            assert!(matches!(items[0], Yaml::Number(YamlNumber::PosInt(1))));
            assert!(matches!(items[1], Yaml::Number(YamlNumber::NegInt(-2))));
            assert!(matches!(items[2], Yaml::Bool(true)));
            assert_eq!(items[3].as_str(), Some("x"));
        }
        other => panic!("expected a sequence, got {:?}", other),
    }
    assert!(matches!(doc.get("b"), Some(Yaml::Tagged(_, _))));
    assert_eq!(doc.get("b").unwrap().as_u64(), Some(3));
    let half = Yaml::parse("0.5").unwrap();
    assert!(matches!(half, Yaml::Number(YamlNumber::Float(bits)) if bits == 0.5f64.to_bits()));
}

#[test]
fn yaml_text_refused() {
    assert!(Yaml::parse("a: [1,").is_err());
}

#[test]
fn config_from_text() {
    let c = Config::load_text("midi_devices: [pad, keys]\naudio_device: mic\n").unwrap();
    assert_eq!(c.midi_devices, vec!["pad".to_string(), "keys".to_string()]);
    assert_eq!(c.audio_device, Some("mic".to_string()));
    assert_eq!(
        Config::load_text("midi_devices: 3").unwrap_err(),
        LoadError::Invalid(ConfigError::MidiDevicesNotList)
    );
    assert!(matches!(Config::load_text("midi_devices: [").unwrap_err(), LoadError::Syntax(_)));
    let g = GlobalConfig::load_text("audio_device: mic\nndi_sources: 3").unwrap();
    assert_eq!(g.audio_device, Some("mic".to_string()));
}

#[test]
fn bindings_from_text() {
    let m = MidiBindings::load_text("# saved\n- {[0, 1]: 3, [2, 5]: 4}\n- {[176, 7]: 2}\n").unwrap();
    assert_eq!(m.button_bindings.get([0, 1]), Some(3));
    assert_eq!(m.button_bindings.get([2, 5]), Some(4));
    assert_eq!(m.button_bindings.get([176, 7]), None);
    assert_eq!(m.slider_bindings.get([176, 7]), Some(2));
    assert_eq!(m.last_button, [0, 0]);
    assert!(MidiBindings::load_text("- {[0, 1]: 40}\n- {}\n").is_none());
    assert!(MidiBindings::load_text("not bindings").is_none());
}
