use gleem_crossfade::audio::{self, Mix};
use gleem_crossfade::config::{
    put_level, Assignment, ChannelConfig, Config, EffectConfig, KeyedLevel, MasterConfig, MidiBinding,
    MidiConfig, MidiKind, MidiProfile, MidiSource, MidiTarget, VstPluginConfig, WaveXlrConfig, MAX_CHANNELS,
    TEMPLATE_NAMES,
};
use gleem_crossfade::level::Level;
use gleem_crossfade::vst::{VstEntry, VstFormat};

fn level(x: f64) -> Level {
    Level { bits: x.to_bits() }
}

fn value(l: Level) -> f64 {
    f64::from_bits(l.bits)
}

fn channel(id: u64, name: &str) -> ChannelConfig {
    let mut c = ChannelConfig::default();
    c.id = id;
    c.name = name.to_string();
    c
}

fn source(number: u8) -> MidiSource {
    MidiSource { device: "APC mini mk2".to_string(), channel: 0, kind: MidiKind::Note, number }
}

fn binding(number: u8, target: MidiTarget) -> MidiBinding {
    MidiBinding { source: source(number), target }
}

#[test]
fn levels_clamp_like_doubles() {
    for x in [-1.0, -0.0, 0.0, 0.25, 0.75, 1.0, 1.5, f64::INFINITY, f64::NEG_INFINITY, 1e-310, -1e-310] {
        assert_eq!(level(x).clamp_unit().bits, x.clamp(0.0, 1.0).to_bits(), "{x}");
        assert_eq!(level(x * 100.0).clamp_percent().bits, (x * 100.0).clamp(0.0, 100.0).to_bits());
    }
    assert!(value(level(f64::NAN).clamp_unit()).is_nan());
    assert_eq!(value(Level::three_quarters()), 0.75);
    assert_eq!(value(Level::one()), 1.0);
    assert_eq!(value(Level::zero()), 0.0);
}

#[test]
fn clamping_twice_is_clamping_once() {
    let once = level(7.5).clamp_unit();
    assert_eq!(once.clamp_unit(), once);
}

#[test]
fn default_configuration() {
    let c = Config::default();
    assert_eq!(c.next_channel_id, 3);
    assert_eq!(c.channels.len(), 2);
    assert_eq!(c.channels[0].name, "Microphone");
    assert_eq!(c.channels[0].assignment, None);
    assert!(c.channels[0].permanent);
    assert_eq!(c.channels[1].name, "System");
    assert_eq!(c.channels[1].assignment, Some(Assignment::Virtual));
    assert_eq!(value(c.channels[0].monitor_volume), 0.75);
    assert_eq!(value(c.master.monitor_volume), 1.0);
    assert_eq!(c.midi.profiles[0].name, "Default");
    assert_eq!(c.midi.on_velocity, 127);
    assert!(!c.vod_mix_enabled);
    assert_eq!(WaveXlrConfig::default().mic_volume, None);
    assert_eq!(MasterConfig::default().monitor_device, None);
    assert!(EffectConfig::default().enabled);
    assert_eq!(VstPluginConfig::default().format, VstFormat::Vst2);
    assert_eq!(MidiProfile::default().id, 0);
}

#[test]
fn loading_nothing_gives_the_default() {
    assert_eq!(Config::load(None), Config::default());
    let d = Config::default();
    assert!(d.can_load());
    assert_eq!(Config::load(Some(d.clone())), d);
}

#[test]
fn loading_repairs_ids_and_names() {
    let mut c = Config::default();
    c.channels = vec![channel(5, "  "), channel(5, "Game"), channel(2, "System"), channel(9, "Music")];
    c.next_channel_id = 3;
    c.channels[1].monitor_volume = level(3.0);
    c.channels[3].color = Some("#12345g".to_string());
    c.channels[1].color = Some("#ff8000".to_string());
    assert!(c.can_load());
    let d = Config::load(Some(c));
    let ids: Vec<u64> = d.channels.iter().map(|c| c.id).collect();
    assert_eq!(ids, [5, 6, 2, 9]);
    assert_eq!(d.next_channel_id, 10);
    assert_eq!(d.channels[0].name, "Channel 5");
    assert_eq!(value(d.channels[1].monitor_volume), 1.0);
    assert!(d.channels[2].permanent);
    assert!(!d.channels[3].permanent);
    assert_eq!(d.channels[3].color, None);
    assert_eq!(d.channels[1].color_rgb(), Some((255, 128, 0)));
    assert_eq!(Config::load(Some(d.clone())), d);
}

#[test]
fn loading_a_file_without_ids_drops_fillers() {
    let mut c = Config::default();
    let mut assigned = channel(0, "Channel 4");
    assigned.assignment = Some(Assignment::App { name: "Firefox".to_string() });
    c.channels = vec![channel(0, "Microphone"), channel(0, "Channel 3"), assigned, channel(0, "System")];
    c.next_channel_id = 3;
    let d = Config::load(Some(c));
    let names: Vec<&str> = d.channels.iter().map(|c| c.name.as_str()).collect();
    assert_eq!(names, ["Microphone", "Channel 4", "System"]);
    let ids: Vec<u64> = d.channels.iter().map(|c| c.id).collect();
    assert_eq!(ids, [3, 4, 5]);
}

#[test]
fn loading_keeps_eight_channels() {
    let mut c = Config::default();
    c.channels = (1..=10).map(|i| channel(i, "x")).collect();
    let d = Config::load(Some(c));
    assert_eq!(d.channels.len(), MAX_CHANNELS);
    assert_eq!(d.next_channel_id, 11);
}

#[test]
fn loading_repairs_effects_in_one_id_space() {
    let mut c = Config::default();
    let fx = |id: u64, uri: &str| EffectConfig { id, uri: uri.to_string(), ..EffectConfig::default() };
    let vst = |id: u64, path: &str| VstPluginConfig { id, path: path.to_string(), ..VstPluginConfig::default() };
    c.channels[0].effects = vec![fx(1, "urn:a"), fx(1, "urn:b"), fx(7, "")];
    c.channels[0].vst_plugins = vec![vst(2, "/a.so"), vst(0, "/b.so")];
    c.channels[0].next_effect_id = 1;
    let d = Config::load(Some(c));
    let ch = &d.channels[0];
    assert_eq!(ch.effects.iter().map(|e| e.id).collect::<Vec<_>>(), [1, 2]);
    assert_eq!(ch.vst_plugins.iter().map(|e| e.id).collect::<Vec<_>>(), [8, 9]);
    assert_eq!(ch.next_effect_id, 10);
}

#[test]
fn loading_drops_dead_bindings() {
    let mut c = Config::default();
    c.midi.profiles = vec![
        MidiProfile {
            id: 0,
            name: "".to_string(),
            bindings: vec![
                binding(1, MidiTarget::ChannelMute { id: 1, mix: Mix::Stream }),
                binding(2, MidiTarget::ChannelMute { id: 77, mix: Mix::Stream }),
                binding(3, MidiTarget::SelectProfile { profile: 2 }),
                binding(4, MidiTarget::MasterVolume { mix: Mix::Vod }),
            ],
        },
    ];
    c.midi.next_profile_id = 2;
    c.midi.active_profile = 9;
    c.midi.global_bindings = vec![
        binding(5, MidiTarget::SelectProfile { profile: 2 }),
        binding(6, MidiTarget::SelectProfile { profile: 3 }),
    ];
    let d = Config::load(Some(c));
    assert_eq!(d.midi.profiles[0].id, 2);
    assert_eq!(d.midi.profiles[0].name, "Profile 2");
    assert_eq!(d.midi.active_profile, 2);
    let kept: Vec<u8> = d.midi.profiles[0].bindings.iter().map(|b| b.source.number).collect();
    assert_eq!(kept, [1, 4]);
    let kept: Vec<u8> = d.midi.global_bindings.iter().map(|b| b.source.number).collect();
    assert_eq!(kept, [5]);
}

#[test]
fn loading_without_profiles_brings_the_default_one() {
    let mut c = Config::default();
    c.midi.profiles.clear();
    c.midi.active_profile = 4;
    c.midi.next_profile_id = 9;
    let d = Config::load(Some(c));
    assert_eq!(d.midi.profiles.len(), 1);
    assert_eq!((d.midi.profiles[0].id, d.midi.active_profile, d.midi.next_profile_id), (1, 1, 9));
}

#[test]
fn ids_without_room_cannot_be_loaded() {
    let mut c = Config::default();
    c.channels[0].id = u64::MAX;
    assert!(!c.can_load());
    let mut c = Config::default();
    c.channels[1].effects.push(EffectConfig { id: u64::MAX, ..EffectConfig::default() });
    assert!(!c.can_load());
    let mut c = Config::default();
    c.midi.profiles[0].id = u64::MAX;
    assert!(!c.can_load());
}

#[test]
fn wave_xlr_volumes_are_percentages() {
    let mut c = Config::default();
    c.wave_xlr.mic_volume = Some(level(140.0));
    c.wave_xlr.output_volume = Some(level(-3.0));
    let d = Config::load(Some(c));
    assert_eq!(d.wave_xlr.mic_volume.map(value), Some(100.0));
    assert_eq!(d.wave_xlr.output_volume.map(value), Some(0.0));
}

#[test]
fn colors_are_six_hex_digits() {
    let rgb = |s: &str| {
        let mut c = channel(1, "x");
        c.color = Some(s.to_string());
        c.color_rgb()
    };
    assert_eq!(rgb("#3584e4"), Some((0x35, 0x84, 0xe4)));
    assert_eq!(rgb("#ABCDEF"), Some((0xab, 0xcd, 0xef)));
    assert_eq!(rgb("3584e4"), None);
    assert_eq!(rgb("#3584e"), None);
    assert_eq!(rgb("#+12345"), None);
    assert_eq!(rgb("#ééé"), None);
    assert_eq!(channel(1, "x").color_rgb(), None);
}

#[test]
fn new_channels_take_template_names() {
    let mut c = Config::default();
    assert_eq!(c.unused_template_names(), TEMPLATE_NAMES);
    assert_eq!(c.add_channel(None), Some(3));
    assert_eq!(c.channels[2].name, "Game");
    assert_eq!(c.add_channel(Some("Music")), Some(4));
    assert_eq!(c.unused_template_names(), ["Voice Chat", "Browser", "SFX", "Aux"]);
    let n = &c.channels[2];
    assert!(n.stream_muted && n.vod_muted && !n.monitor_muted && !n.permanent);
    assert_eq!(n.assignment, Some(Assignment::Virtual));
    let m = &c.master;
    assert!(audio::mix_levels(n, m, Mix::Stream).muted);
    assert!(audio::mix_levels(n, m, Mix::Vod).muted);
    for _ in 0..4 {
        assert!(c.add_channel(None).is_some());
    }
    assert_eq!(c.channels.len(), 8);
    assert_eq!(c.add_channel(Some("Late")), None);
}

#[test]
fn a_channel_beyond_the_templates_is_numbered() {
    let mut c = Config::default();
    c.channels.clear();
    for name in TEMPLATE_NAMES {
        c.channels.push(channel(c.next_channel_id, name));
        c.next_channel_id += 1;
    }
    assert_eq!(c.add_channel(None), Some(9));
    assert_eq!(c.channels[6].name, "Channel 9");
}

#[test]
fn removed_ids_are_not_reused_and_built_in_channels_stay() {
    let mut c = Config::default();
    let id = c.add_channel(None).unwrap();
    c.remove_channel(id);
    c.remove_channel(1);
    assert_eq!(c.channels.len(), 2);
    assert_ne!(c.add_channel(None), Some(id));
}

#[test]
fn channels_are_found_by_id() {
    let mut c = Config::default();
    assert_eq!(c.channel(2).unwrap().name, "System");
    assert!(c.channel(9).is_none());
    c.channel_mut(2).unwrap().linked = true;
    assert!(c.channels[1].linked);
    assert!(c.channel_mut(9).is_none());
    assert_eq!(c.ids(), [1, 2]);
}

#[test]
fn deleting_a_channel_takes_its_bindings() {
    let mut c = Config::default();
    let id = c.add_channel(None).unwrap();
    c.midi.bind(1, binding(1, MidiTarget::ChannelColor { id }));
    c.midi.bind(1, binding(2, MidiTarget::ChannelColor { id: 1 }));
    c.delete_channel(id);
    assert_eq!(c.midi.profiles[0].bindings, [binding(2, MidiTarget::ChannelColor { id: 1 })]);
    assert!(c.channel(id).is_none());
}

#[test]
fn effects_get_ids_from_one_counter() {
    let mut c = channel(1, "x");
    assert!(!c.fx_active());
    assert_eq!(c.add_effect("urn:gate", "Gate").id, 1);
    let entry = VstEntry {
        path: "/usr/lib/vst/a.so".to_string(),
        format: VstFormat::Vst3,
        label: "A".to_string(),
        unique_id: -7,
        name: "Plug".to_string(),
        audio_ins: 2,
        audio_outs: 2,
    };
    assert_eq!(c.add_vst(&entry), 2);
    assert_eq!(c.next_effect_id, 3);
    assert!(c.fx_active());
    c.effect_mut(1).unwrap().enabled = false;
    assert!(c.effect_mut(2).is_none());
    assert_eq!(c.enabled_effects().len(), 0);
    assert_eq!(c.enabled_vsts()[0].unique_id, -7);
    c.vst_mut(2).unwrap().enabled = false;
    assert!(c.vst_mut(1).is_none());
    assert!(!c.fx_active());
}

#[test]
fn binding_is_one_to_one() {
    let mut m = MidiConfig::default();
    let mute = MidiTarget::ChannelMute { id: 1, mix: Mix::Stream };
    let color = MidiTarget::ChannelColor { id: 1 };
    m.bind(1, binding(10, mute));
    m.bind(1, binding(11, color));
    m.bind(1, binding(10, color));
    assert_eq!(m.profiles[0].bindings, [binding(10, color)]);
    m.bind(99, binding(12, mute));
    assert_eq!(m.profiles[0].bindings.len(), 1);
    m.unbind(1, &color);
    assert!(m.profiles[0].bindings.is_empty());
}

#[test]
fn what_was_added_can_be_taken_away() {
    let mut cfg = Config::default();
    let (channels, profiles) = (cfg.channels.clone(), cfg.midi.profiles.clone());
    let id = cfg.add_channel(Some("Game")).unwrap();
    assert_eq!(cfg.channels.len(), channels.len() + 1);
    cfg.delete_channel(id);
    assert_eq!(cfg.channels, channels);
    let id = cfg.midi.add_profile();
    cfg.midi.remove_profile(id);
    assert_eq!(cfg.midi.profiles, profiles);
    assert_eq!(cfg.midi.active_profile, 1);
}

#[test]
fn profile_pads_are_global() {
    let mut m = MidiConfig::default();
    let id = m.add_profile();
    assert_eq!(id, 2);
    assert_eq!(m.profile(2).unwrap().name, "Profile 2");
    let pad = MidiTarget::SelectProfile { profile: 2 };
    m.bind(1, binding(1, pad));
    assert_eq!(m.global_bindings.len(), 1);
    assert!(m.profiles[0].bindings.is_empty());
    m.unbind(7, &pad);
    assert!(m.global_bindings.is_empty());
}

#[test]
fn removing_profiles_keeps_one() {
    let mut m = MidiConfig::default();
    m.remove_profile(1);
    assert_eq!(m.profiles.len(), 1);
    let id = m.add_profile();
    m.bind(1, binding(1, MidiTarget::SelectProfile { profile: 1 }));
    m.bind(1, binding(2, MidiTarget::SelectProfile { profile: id }));
    m.remove_profile(1);
    assert_eq!(m.active_profile, id);
    assert_eq!(m.active().id, id);
    assert_eq!(m.global_bindings, [binding(2, MidiTarget::SelectProfile { profile: id })]);
    assert!(m.profile(1).is_none());
}

#[test]
fn an_unknown_active_profile_falls_back_to_the_first() {
    let mut m = MidiConfig::default();
    m.active_profile = 50;
    assert_eq!(m.active().id, 1);
}

#[test]
fn sources_are_labelled() {
    let s = MidiSource {
        device: "APC MINI mk2".to_string(),
        channel: 0,
        kind: MidiKind::Cc,
        number: 48,
    };
    assert_eq!(s.label(), "CC 48 · APC MINI mk2");
    assert_eq!(source(7).label(), "Note 7 · APC mini mk2");
}

#[test]
fn levels_are_stored_in_the_order_of_keys() {
    let mut v: Vec<KeyedLevel> = Vec::new();
    for k in ["2", "10", "1", "2"] {
        put_level(&mut v, k.to_string(), level(k.len() as f64));
    }
    let keys: Vec<&str> = v.iter().map(|e| e.key.as_str()).collect();
    assert_eq!(keys, ["1", "10", "2"]);
    assert_eq!(value(v[1].value), 2.0);
}

#[test]
fn parameter_edits_are_persisted() {
    let mut c = Config::default();
    c.channels[0].vst_plugins.push(VstPluginConfig { id: 4, ..VstPluginConfig::default() });
    c.store_vst_param(1, 4, 12, level(0.5));
    c.store_vst_param(1, 5, 12, level(0.9));
    c.store_vst_param(8, 4, 12, level(0.9));
    let p = &c.channels[0].vst_plugins[0].params;
    assert_eq!(p.len(), 1);
    assert_eq!((p[0].key.as_str(), value(p[0].value)), ("12", 0.5));
}
