use gleem_crossfade::audio::Mix;
use gleem_crossfade::config::{Config, MidiBinding, MidiKind, MidiSource, MidiTarget};
use gleem_crossfade::control::ControlAction;
use gleem_crossfade::level::Level;
use gleem_crossfade::midi::{
    color_velocity, led_channel, read_events, ClientListing, MidiEvent, MidiManager, PortAddr, PortListing,
    RawEvent, SeqEvent, Subscription, PAD_PALETTE,
};
use gleem_crossfade::midi_control::{
    fader_action, fader_value, handle_midi_input, is_bound, learn_capture, Dispatch, FaderTests, Led, LearnRequest,
    LedCache, Pickups,
};
use gleem_crossfade::profiles::{profile_rows, rename_profile, target_description};

fn pad(number: u8) -> MidiSource {
    MidiSource { device: "APC".to_string(), channel: 1, kind: MidiKind::Note, number }
}

fn knob(number: u8) -> MidiSource {
    MidiSource { device: "APC".to_string(), channel: 1, kind: MidiKind::Cc, number }
}

fn addr(client: i32, port: i32) -> PortAddr {
    PortAddr { client, port }
}

fn manager() -> MidiManager {
    let mut m = MidiManager::new();
    m.open = true;
    m.client_id = 128;
    m.in_port = 0;
    m.out_port = 1;
    m
}

fn client(id: i32, name: &str, ports: &[(i32, bool, bool)]) -> ClientListing {
    ClientListing {
        client: id,
        name: name.to_string(),
        ports: ports
            .iter()
            .map(|p| PortListing { addr: addr(id, p.0), readable: p.1, writable: p.2 })
            .collect(),
    }
}

#[test]
fn scanning_connects_controllers() {
    let mut m = manager();
    let subs = m.scan(&vec![
        client(0, "System", &[(0, true, true)]),
        client(14, "Midi Through", &[(0, true, true)]),
        client(20, "APC", &[(0, true, true), (1, false, false)]),
        client(21, "Silent", &[(0, false, false)]),
        client(22, "PipeWire-RT-Event", &[(0, true, false)]),
        client(24, "Keys", &[(0, true, false)]),
        client(128, "Crossfade", &[(0, true, true)]),
    ]);
    assert_eq!(
        subs,
        [
            Subscription { sender: addr(20, 0), dest: addr(128, 0) },
            Subscription { sender: addr(128, 1), dest: addr(20, 0) },
            Subscription { sender: addr(24, 0), dest: addr(128, 0) },
        ]
    );
    assert_eq!(m.devices(), ["APC", "Keys"]);
    assert_eq!(m.send_note("APC", 3), (3, vec![addr(20, 0)]));
    assert_eq!(m.send_note("Keys", 3), (3, vec![]));
    m.open = false;
    assert!(!m.available());
    assert!(m.send_note("APC", 3).1.is_empty());
}

#[test]
fn two_controllers_of_one_name_are_listed_once() {
    let mut m = manager();
    m.scan(&vec![client(20, "B", &[(0, true, true)]), client(21, "A", &[(0, true, false)]), client(22, "B", &[(5, false, true)])]);
    assert_eq!(m.devices(), ["A", "B"]);
    assert_eq!(m.send_note("B", 0).1, [addr(20, 0), addr(22, 5)]);
}

#[test]
fn events_are_read() {
    let (raw, announce) = read_events(&vec![
        SeqEvent::Controller { client: 20, channel: 2, param: 200, value: -4 },
        SeqEvent::Controller { client: 20, channel: 2, param: 7, value: 500 },
        SeqEvent::NoteOn { client: 20, channel: 0, note: 5, velocity: 0 },
        SeqEvent::NoteOn { client: 21, channel: 0, note: 5, velocity: 1 },
        SeqEvent::Other,
    ]);
    assert!(!announce);
    assert_eq!(
        raw,
        [
            RawEvent::Control { client: 20, channel: 2, number: 127, value: 0 },
            RawEvent::Control { client: 20, channel: 2, number: 7, value: 127 },
            RawEvent::NoteOn { client: 21, channel: 0, number: 5 },
        ]
    );
    let (raw, announce) = read_events(&vec![SeqEvent::Announce]);
    assert!(announce && raw.is_empty());
}

#[test]
fn events_are_named() {
    let mut m = manager();
    m.scan(&vec![client(20, "APC", &[(0, true, true)])]);
    let raw = vec![
        RawEvent::Control { client: 20, channel: 1, number: 2, value: 3 },
        RawEvent::NoteOn { client: 33, channel: 1, number: 2 },
        RawEvent::NoteOn { client: 34, channel: 1, number: 2 },
    ];
    let known = vec![None, Some("aplaymidi".to_string()), None];
    assert_eq!(
        m.drain(&raw, &known, true),
        [
            MidiEvent::DevicesChanged,
            MidiEvent::Control { device: "APC".to_string(), channel: 1, number: 2, value: 3 },
            MidiEvent::NoteOn { device: "aplaymidi".to_string(), channel: 1, number: 2 },
        ]
    );
    assert!(m.drain(&vec![], &vec![], false).is_empty());
}

#[test]
fn colors_map_to_the_nearest_velocity() {
    assert_eq!(color_velocity(0, 0, 0), 0);
    assert_eq!(color_velocity(255, 255, 255), 3);
    assert_eq!(color_velocity(255, 0, 0), 5);
    assert_eq!(color_velocity(0, 0, 255), 45);
    assert_eq!(PAD_PALETTE.len(), 128);
    assert_eq!(led_channel("apc MINI mk2", 0), 6);
    assert_eq!(led_channel("APC mini", 4), 4);
}

#[test]
fn messages_are_dispatched() {
    let mut cfg = Config::default();
    let volume = MidiTarget::ChannelVolume { id: 1, mix: Mix::Monitor };
    cfg.midi.bind(1, MidiBinding { source: knob(1), target: volume });
    cfg.midi.bind(1, MidiBinding { source: pad(2), target: MidiTarget::ChannelMute { id: 1, mix: Mix::Vod } });
    cfg.midi.bind(1, MidiBinding { source: pad(3), target: MidiTarget::ChannelColor { id: 1 } });
    cfg.midi.bind(1, MidiBinding { source: pad(4), target: MidiTarget::SelectProfile { profile: 1 } });
    cfg.midi.bind(1, MidiBinding { source: pad(5), target: MidiTarget::MasterMute { mix: Mix::Stream } });
    assert_eq!(handle_midi_input(&cfg, false, &knob(1)), Dispatch::Fader(volume));
    assert_eq!(
        handle_midi_input(&cfg, false, &pad(2)),
        Dispatch::Button(ControlAction::SetChannelMute { id: 1, mix: Mix::Vod, muted: None })
    );
    assert_eq!(handle_midi_input(&cfg, false, &pad(3)), Dispatch::Ignore);
    assert_eq!(
        handle_midi_input(&cfg, false, &pad(4)),
        Dispatch::Button(ControlAction::SelectMidiProfile { id: 1 })
    );
    assert_eq!(
        handle_midi_input(&cfg, false, &pad(5)),
        Dispatch::Button(ControlAction::SetMasterMute { mix: Mix::Stream, muted: None })
    );
    assert_eq!(handle_midi_input(&cfg, false, &pad(1)), Dispatch::Ignore);
    assert_eq!(handle_midi_input(&cfg, true, &pad(1)), Dispatch::Learn);
    assert_eq!(fader_value(&cfg, &knob(1), &volume), Some(Level::three_quarters()));
    assert_eq!(fader_value(&cfg, &pad(1), &volume), None);
    let gone = MidiTarget::ChannelVolume { id: 9, mix: Mix::Monitor };
    assert_eq!(fader_value(&cfg, &knob(1), &gone), None);
    let master = MidiTarget::MasterVolume { mix: Mix::Vod };
    assert_eq!(fader_value(&cfg, &knob(1), &master), Some(Level::one()));
}

#[test]
fn faders_pick_up_their_targets() {
    let far = FaderTests { drifted: false, near: false, crossed: false };
    let crossing = FaderTests { crossed: true, ..far };
    let mut p = Pickups::new();
    assert!(p.pickup_allows(false, &knob(1), 10, far));
    assert!(p.states.is_empty());
    assert!(!p.pickup_allows(true, &knob(1), 10, crossing));
    assert!(!p.pickup_allows(true, &knob(1), 20, far));
    assert!(p.pickup_allows(true, &knob(1), 30, crossing));
    assert_eq!(p.history(&knob(1)), (true, Some(30), Some(30)));
    assert!(p.pickup_allows(true, &knob(1), 40, far));
    assert!(!p.pickup_allows(true, &knob(1), 41, FaderTests { drifted: true, ..far }));
    assert_eq!(p.history(&knob(1)), (false, Some(41), Some(40)));
    assert!(p.pickup_allows(true, &knob(2), 5, FaderTests { near: true, ..far }));
    assert_eq!(p.history(&knob(3)), (false, None, None));
}

#[test]
fn buttons_press_on_rising_edges() {
    let mut p = Pickups::new();
    assert!(p.pressed(&pad(1), 1));
    assert!(p.pressed(&pad(1), 1));
    assert!(p.pressed(&knob(1), 127));
    assert!(!p.pressed(&knob(1), 64));
    assert!(!p.pressed(&knob(1), 63));
    assert!(p.pressed(&knob(1), 64));
    assert!(!p.pressed(&knob(2), 0));
}

#[test]
fn learning_binds_suitable_controls() {
    let mut cfg = Config::default();
    let volume = LearnRequest { target: MidiTarget::MasterVolume { mix: Mix::Stream }, profile: 1 };
    assert!(!learn_capture(&mut cfg, volume, &pad(1)));
    assert!(!is_bound(&cfg.midi, &volume.target));
    assert!(learn_capture(&mut cfg, volume, &knob(1)));
    assert!(is_bound(&cfg.midi, &volume.target));
    let color = LearnRequest { target: MidiTarget::ChannelColor { id: 1 }, profile: 1 };
    assert!(!learn_capture(&mut cfg, color, &knob(1)));
    let select = LearnRequest { target: MidiTarget::SelectProfile { profile: 1 }, profile: 1 };
    assert!(learn_capture(&mut cfg, select, &knob(9)));
    assert!(is_bound(&cfg.midi, &select.target));
}

#[test]
fn pads_show_the_state_and_only_changes_are_sent() {
    let mut cfg = Config::default();
    cfg.midi.off_velocity = 1;
    cfg.midi.bind(1, MidiBinding { source: pad(1), target: MidiTarget::ChannelMute { id: 1, mix: Mix::Stream } });
    cfg.midi.bind(1, MidiBinding { source: pad(2), target: MidiTarget::ChannelColor { id: 1 } });
    cfg.midi.bind(1, MidiBinding { source: pad(3), target: MidiTarget::ChannelMute { id: 1, mix: Mix::Vod } });
    cfg.midi.bind(1, MidiBinding { source: pad(4), target: MidiTarget::SelectProfile { profile: 1 } });
    cfg.midi.bind(1, MidiBinding { source: knob(5), target: MidiTarget::MasterMute { mix: Mix::Stream } });
    cfg.channels[0].color = Some("#ff0000".to_string());
    let mut cache = LedCache::new();
    let show = |v: &[Led]| {
        let mut s: Vec<(u8, u8)> = v.iter().map(|l| (l.note, l.velocity)).collect();
        s.sort();
        s
    };
    assert_eq!(show(&cache.refresh_leds(&cfg)), [(1, 1), (2, 5), (4, 127)]);
    assert!(cache.refresh_leds(&cfg).is_empty());
    cfg.channels[0].stream_muted = true;
    cfg.channels[0].color = None;
    assert_eq!(show(&cache.refresh_leds(&cfg)), [(1, 127), (2, 1)]);
    cfg.midi.unbind(1, &MidiTarget::ChannelColor { id: 1 });
    assert_eq!(show(&cache.refresh_leds(&cfg)), [(2, 1)]);
    cache.forget_missing(&vec!["Other".to_string()]);
    assert_eq!(show(&cache.refresh_leds(&cfg)), [(1, 127), (4, 127)]);
    cfg.midi.led_feedback = false;
    assert_eq!(show(&cache.refresh_leds(&cfg)), [(1, 1), (4, 1)]);
    cfg.midi.led_feedback = true;
    cache.refresh_leds(&cfg);
    assert_eq!(show(&cache.blank_all(0)), [(1, 0), (4, 0)]);
    assert!(cache.leds.is_empty());
}

#[test]
fn faders_move_the_volume_they_drive() {
    let value = Level { bits: 0.5f64.to_bits() };
    assert_eq!(
        fader_action(&MidiTarget::ChannelVolume { id: 2, mix: Mix::Vod }, value),
        Some(ControlAction::SetChannelVolume { id: 2, mix: Mix::Vod, value })
    );
    assert_eq!(
        fader_action(&MidiTarget::MasterVolume { mix: Mix::Stream }, value),
        Some(ControlAction::SetMasterVolume { mix: Mix::Stream, value })
    );
    assert_eq!(fader_action(&MidiTarget::ChannelColor { id: 2 }, value), None);
}

#[test]
fn pads_go_dark_before_others_light_up() {
    let mut cfg = Config::default();
    for n in [1, 9] {
        let target = MidiTarget::ChannelMute { id: 1, mix: if n == 1 { Mix::Monitor } else { Mix::Stream } };
        cfg.midi.bind(1, MidiBinding { source: pad(n), target });
    }
    let mut cache = LedCache::new();
    cache.refresh_leds(&cfg);
    cfg.midi.unbind(1, &MidiTarget::ChannelMute { id: 1, mix: Mix::Stream });
    cfg.midi.bind(1, MidiBinding { source: pad(0), target: MidiTarget::MasterMute { mix: Mix::Stream } });
    cfg.channels[0].monitor_muted = true;
    let notes: Vec<u8> = cache.refresh_leds(&cfg).iter().map(|l| l.note).collect();
    assert_eq!(notes.len(), 3);
    assert_eq!(notes[0], 9);
}

#[test]
fn targets_are_described() {
    let cfg = Config::default();
    let say = |t: MidiTarget| target_description(&cfg, &t);
    assert_eq!(say(MidiTarget::ChannelVolume { id: 1, mix: Mix::Monitor }), "Microphone — Monitor volume");
    assert_eq!(say(MidiTarget::ChannelMute { id: 9, mix: Mix::Vod }), "removed channel — VOD mute");
    assert_eq!(say(MidiTarget::ChannelColor { id: 2 }), "System — color pad");
    assert_eq!(say(MidiTarget::MasterVolume { mix: Mix::Stream }), "Stream Mix master volume");
    assert_eq!(say(MidiTarget::MasterMute { mix: Mix::Stream }), "Stream Mix master mute");
    assert_eq!(say(MidiTarget::SelectProfile { profile: 1 }), "switching to profile “Default”");
    assert_eq!(say(MidiTarget::SelectProfile { profile: 7 }), "switching to profile “?”");
}

#[test]
fn profiles_are_listed_with_their_bindings() {
    let mut cfg = Config::default();
    let rows = profile_rows(&cfg);
    assert_eq!((rows[0].subtitle.as_str(), rows[0].removable, rows[0].active), ("No bindings", false, true));
    let id = cfg.midi.add_profile();
    cfg.midi.bind(1, MidiBinding { source: knob(1), target: MidiTarget::MasterVolume { mix: Mix::Vod } });
    cfg.midi.bind(1, MidiBinding { source: pad(8), target: MidiTarget::SelectProfile { profile: 1 } });
    cfg.midi.bind(1, MidiBinding { source: pad(9), target: MidiTarget::SelectProfile { profile: id } });
    let rows = profile_rows(&cfg);
    assert_eq!(rows[0].subtitle, "2 bindings");
    assert_eq!(rows[0].rows[0].title, "CC 1 · APC");
    assert_eq!(rows[0].rows[0].subtitle, "VOD Mix master volume");
    assert_eq!(rows[0].rows[1].subtitle, "Switches to this profile");
    assert_eq!(rows[1].subtitle, "1 binding");
    assert!(rows[1].removable && !rows[1].active);
    assert!(!rename_profile(&mut cfg.midi, id, "  "));
    assert!(rename_profile(&mut cfg.midi, id, " Mixes "));
    assert_eq!(cfg.midi.profile(id).unwrap().name, "Mixes");
    assert!(rename_profile(&mut cfg.midi, 99, "x"));
}
