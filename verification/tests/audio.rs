use gleem_crossfade::audio::{
    channel_sink_name, is_wave_xlr, loopback_args, mix_levels, sanitize_desc, LevelTarget, Loopback,
    LoopbackRef, Mix, SinkEntry, SinkInputEntry, SourceEntry, SourceOutputEntry, INVALID_INDEX,
};
use gleem_crossfade::config::{Assignment, Config};
use gleem_crossfade::fx::FxManager;
use gleem_crossfade::level::Level;
use gleem_crossfade::routing::{
    bus_args, channel_description, is_leftover, mix_mic_args, BridgeStep, ContextState, ContextStep, Loaded,
    PulseManager, RebuildStep, SendRaws, VodStep, WireStep, UNITY_RAW,
};

fn level(x: f64) -> Level {
    Level { bits: x.to_bits() }
}

fn sink(index: u32, name: &str, card: Option<u32>) -> (u32, SinkEntry) {
    (index, SinkEntry::new(name, Some(name), level(100.0), 2, card))
}

fn source(index: u32, name: &str, card: Option<u32>) -> SourceEntry {
    SourceEntry::new(name, Some(name), level(100.0), 1, index, card)
}

fn ready() -> PulseManager {
    let mut m = PulseManager::new();
    assert_eq!(m.on_state_change(ContextState::Ready), ContextStep::Start);
    assert!(m.bus_loaded(Mix::Monitor, 1));
    assert!(m.bus_loaded(Mix::Stream, 2));
    assert!(m.finish_bootstrap());
    m
}

#[test]
fn names_and_arguments() {
    assert_eq!(channel_sink_name(12), "Crossfade_Ch12");
    assert_eq!(sanitize_desc("a\"b'c\\d"), "abcd");
    assert_eq!(
        loopback_args("mic", "out", "tag"),
        "source=\"mic\" sink=\"out\" latency_msec=30 sink_input_properties='media.name=\"tag out\" \
         state.restore-props=false state.restore-target=false' source_output_properties='media.name=\"tag in\" \
         state.restore-props=false state.restore-target=false'"
    );
    assert_eq!(channel_description(3, " My \"Game\" "), "Crossfade: My Game");
    assert_eq!(channel_description(3, " ' "), "Crossfade Channel 3");
    assert_eq!(
        bus_args(Mix::Vod),
        "sink_name=Crossfade_Vod sink_properties='device.description=\"Crossfade VOD Bus\" \
         device.icon_name=audio-input-microphone'"
    );
    assert_eq!(
        mix_mic_args(false),
        "master=Crossfade_Stream.monitor source_name=Crossfade_StreamMic \
         source_properties='device.description=\"Crossfade Stream Mix\" device.icon_name=audio-input-microphone'"
    );
    assert_eq!(LevelTarget::Channel(4).meter_name(), "Crossfade meter ch4");
    assert_ne!(LevelTarget::VodMix.meter_name(), LevelTarget::StreamMix.meter_name());
}

#[test]
fn mixes_are_named() {
    assert_eq!(Mix::Vod.label(), "VOD");
    for m in [Mix::Monitor, Mix::Stream, Mix::Vod] {
        assert_eq!(Mix::from_key(m.as_key()), Some(m));
    }
    assert_eq!(Mix::from_key("Monitor"), None);
    assert_eq!(Mix::Monitor.sink(), "Crossfade_Monitor");
}

#[test]
fn wave_xlr_is_recognised() {
    assert!(is_wave_xlr("alsa_input.usb-Elgato_Wave_XLR-00", ""));
    assert!(is_wave_xlr("wave-xlr", ""));
    assert!(is_wave_xlr("x", "Elgato Wave XLR Mono"));
    assert!(!is_wave_xlr("x", "wave xlr"));
}

#[test]
fn leftovers_are_recognised() {
    let own = loopback_args("mic", "Crossfade_Monitor", "t");
    assert!(is_leftover("module-loopback", &own));
    assert!(is_leftover("module-null-sink", "sink_name=OpenWave_Monitor"));
    assert!(is_leftover("module-remap-source", &mix_mic_args(true)));
    assert!(is_leftover("module-null-sink", &bus_args(Mix::Monitor)));
    assert!(!is_leftover("module-loopback", "sink=foo"));
    assert!(!is_leftover("module-alsa-card", &own));
}

#[test]
fn stream_sends_fold_the_master_in() {
    let c = Config::default();
    let s = mix_levels(&c.channels[0], &c.master, Mix::Stream);
    assert_eq!(f64::from_bits(s.level.bits), 0.75);
    assert_eq!(s.master.map(|l| f64::from_bits(l.bits)), Some(1.0));
    assert_eq!(mix_levels(&c.channels[0], &c.master, Mix::Monitor).master, None);
    let mut m = c.master.clone();
    m.vod_muted = true;
    assert!(mix_levels(&c.channels[0], &m, Mix::Vod).muted);
}

#[test]
fn sources_know_monitors() {
    assert!(source(1, "a.monitor", None).is_monitor);
    assert!(!source(1, "a.monitor.x", None).is_monitor);
    assert_eq!(SourceEntry::new("n", None, level(1.0), 2, 0, None).description, "n");
    assert_eq!(SinkEntry::new("n", None, level(1.0), 2, None).description, "n");
}

#[test]
fn rebuilding_parks_wires_and_loads() {
    let mut cfg = Config::default();
    cfg.channels[0].assignment = Some(Assignment::Source { name: "mic".to_string() });
    let mut m = PulseManager::new();
    let r = m.rebuild_channel(&cfg, 1);
    assert_eq!((r.step, r.generation, r.removed), (RebuildStep::Nothing, 1, false));
    let mut m = ready();
    let r = m.rebuild_channel(&cfg, 1);
    assert_eq!(r.step, RebuildStep::Park);
    assert_eq!(m.channels[0].pending_source.as_deref(), Some("mic"));
    m.sources.push(source(5, "mic", None));
    let r = m.rebuild_channel(&cfg, 1);
    assert_eq!((r.step, r.generation), (RebuildStep::Wire("mic".to_string()), 2));
    assert_eq!(m.channels[0].pending_source, None);
    let r = m.rebuild_channel(&cfg, 2);
    assert_eq!(
        r.step,
        RebuildStep::LoadSink(
            "sink_name=Crossfade_Ch2 sink_properties='device.description=\"Crossfade: System\"'".to_string()
        )
    );
    cfg.channels[0].assignment = None;
    assert_eq!(m.rebuild_channel(&cfg, 1).step, RebuildStep::Silence);
    cfg.channels.remove(0);
    let r = m.rebuild_channel(&cfg, 1);
    assert!(r.removed);
    assert_eq!(r.step, RebuildStep::Nothing);
    assert_eq!(m.channels.len(), 1);
}

#[test]
fn stale_modules_are_not_adopted() {
    let cfg = Config::default();
    let mut m = ready();
    let old = m.rebuild_channel(&cfg, 2).generation;
    assert_eq!(m.channel_sink_loaded(2, old, INVALID_INDEX), Loaded::Failed);
    let new = m.rebuild_channel(&cfg, 2).generation;
    assert_eq!(m.channel_sink_loaded(2, old, 50), Loaded::Stale);
    assert!(!m.owned_modules.contains(&50));
    assert_eq!(m.channel_sink_loaded(2, new, 51), Loaded::Adopted);
    assert!(m.owned_modules.contains(&51));
    assert_eq!(m.rebuild_channel(&cfg, 2).unload, [51]);
    assert!(!m.owned_modules.contains(&51));
}

#[test]
fn sends_are_loaded_and_adopted() {
    let mut cfg = Config::default();
    let mut m = ready();
    let g = m.rebuild_channel(&cfg, 2).generation;
    let sends = m.create_channel_loopbacks(&cfg, 2, "Crossfade_Ch2.monitor");
    assert_eq!(sends.len(), 2);
    assert_eq!(sends[1].mix, Mix::Stream);
    assert!(sends[1].args.contains("media.name=\"Crossfade ch2 stream out\""));
    assert_eq!(m.channels[0].monitor_loop.target, "Crossfade_Monitor");
    assert_eq!(m.send_loaded(&cfg, 2, g, Mix::Monitor, "src", 60), Loaded::Adopted);
    assert_eq!(m.channels[0].monitor_loop, Loopback::loaded(60, "Crossfade_Monitor", "src"));
    assert_eq!(m.send_loaded(&cfg, 2, g, Mix::Vod, "src", 61), Loaded::Stale);
    cfg.vod_mix_enabled = true;
    assert_eq!(m.create_channel_loopbacks(&cfg, 2, "s").len(), 3);
    m.on_state_change(ContextState::Failed);
    assert!(m.create_channel_loopbacks(&cfg, 2, "s").is_empty());
}

#[test]
fn monitor_output_follows_the_configured_device() {
    let mut cfg = Config::default();
    cfg.master.monitor_device = Some("hdmi".to_string());
    let mut m = ready();
    m.default_sink = Some("Crossfade_Ch2".to_string());
    let s = m.setup_monitor_output(&cfg).unwrap();
    assert!(s.load.is_none());
    m.default_sink = Some("speakers".to_string());
    let s = m.setup_monitor_output(&cfg).unwrap().load.unwrap();
    assert_eq!(s.target, "speakers");
    assert!(m.monitor_out_pending);
    assert_eq!(m.monitor_out_loaded(s.generation, &s.target, 70), Loaded::Adopted);
    assert_eq!(m.monitor_out.source_target, "Crossfade_Monitor.monitor");
    m.sinks.push(sink(3, "hdmi", None));
    assert!(m.finish_refresh(&cfg));
    let s = m.setup_monitor_output(&cfg).unwrap();
    assert_eq!(s.unload, Some(70));
    let load = s.load.unwrap();
    assert_eq!(load.target, "hdmi");
    assert_eq!(m.monitor_out_loaded(load.generation - 1, "hdmi", 71), Loaded::Stale);
}

#[test]
fn monitor_output_waits_for_capture() {
    let mut cfg = Config::default();
    cfg.channels[0].assignment = Some(Assignment::Source { name: "mic".to_string() });
    let mut m = ready();
    m.default_sink = Some("speakers".to_string());
    assert!(!m.finish_refresh(&cfg));
    m.rebuild_channel(&cfg, 1);
    assert!(m.finish_refresh(&cfg));
    m.monitor_out_deferred = true;
    assert!(m.deferral_expired());
    assert!(!m.deferral_expired());
}

#[test]
fn arriving_microphone_bounces_the_monitor_output() {
    let mut cfg = Config::default();
    cfg.channels[0].assignment = Some(Assignment::Source { name: "mic".to_string() });
    let mut m = ready();
    m.sinks.push(sink(3, "xlr_out", Some(9)));
    m.default_sink = Some("xlr_out".to_string());
    m.rebuild_channel(&cfg, 1);
    assert!(m.check_pending_sources(&cfg).is_none());
    let s = m.setup_monitor_output(&cfg).unwrap().load.unwrap();
    m.monitor_out_loaded(s.generation, &s.target, 70);
    m.sources.push(source(4, "mic", Some(9)));
    let a = m.check_pending_sources(&cfg).unwrap();
    assert_eq!((a.ready, a.bounced, a.unload), (vec![1], true, Some(70)));
    assert!(m.monitor_out_deferred);
    assert_eq!(m.monitor_out.module, None);
    assert!(!m.owned_modules.contains(&70));
    m.sources[0].card = Some(8);
    let a = m.check_pending_sources(&cfg).unwrap();
    assert!(!a.bounced);
}

#[test]
fn drift_is_found_and_streams_are_matched() {
    let cfg = Config::default();
    let mut m = ready();
    let g = m.rebuild_channel(&cfg, 2).generation;
    m.send_loaded(&cfg, 2, g, Mix::Monitor, "src", 60);
    m.sinks = vec![sink(1, "Crossfade_Monitor", None), sink(2, "other", None)];
    m.sources = vec![source(8, "src", None), source(9, "wrong", None)];
    m.sink_inputs = vec![SinkInputEntry {
        index: 33,
        app_name: None,
        sink: 2,
        owner_module: Some(60),
        channels: 2,
        volume_raw: 65536,
        mute: false,
    }];
    m.source_outputs = vec![SourceOutputEntry { index: 44, source: 9, owner_module: Some(60) }];
    let raws = vec![SendRaws { monitor: 49152, stream: 49152, vod: 49152 }; 2];
    let plan = m.match_pending_loopbacks(&cfg, &raws, UNITY_RAW);
    assert_eq!(m.channels[0].monitor_loop.sink_input, Some(33));
    assert_eq!(m.channels[0].monitor_loop.source_output, Some(44));
    assert_eq!(plan.applies, [LoopbackRef::Mix(2, Mix::Monitor)]);
    assert_eq!((plan.sinks[0].stream, plan.sinks[0].device.as_str()), (33, "Crossfade_Monitor"));
    assert_eq!((plan.sources[0].stream, plan.sources[0].device.as_str()), (44, "src"));
    m.sink_inputs[0].volume_raw = 49153;
    m.sink_inputs[0].sink = 1;
    m.source_outputs[0].source = 8;
    let plan = m.match_pending_loopbacks(&cfg, &raws, UNITY_RAW);
    assert!(plan.applies.is_empty() && plan.sinks.is_empty() && plan.sources.is_empty());
    let s = m.apply_channel_mix(&cfg, 2, Mix::Monitor).unwrap();
    assert_eq!((s.sink_input, s.channels), (33, 2));
    assert!(m.apply_channel_mix(&cfg, 2, Mix::Stream).is_none());
    assert!(m.apply_input_loop(2).is_none());
    assert!(m.apply_master_monitor(&cfg).is_none());
    assert!(m.apply_master_stream(&cfg).is_empty());
    assert!(m.apply_master_vod(&cfg).is_empty());
}

#[test]
fn loopbacks_into_effects_are_set_last() {
    let cfg = Config::default();
    let mut m = ready();
    m.rebuild_channel(&cfg, 1);
    m.rebuild_channel(&cfg, 2);
    let mut index = 0;
    let mut stream = |m: &mut PulseManager| {
        index += 1;
        m.sink_inputs.push(SinkInputEntry {
            index,
            app_name: None,
            sink: 1,
            owner_module: None,
            channels: 2,
            volume_raw: 0,
            mute: true,
        });
        Some(index)
    };
    for i in 0..2 {
        m.channels[i].input_loop.sink_input = stream(&mut m);
        m.channels[i].stream_loop.sink_input = stream(&mut m);
    }
    m.monitor_out.sink_input = stream(&mut m);
    let raws = vec![SendRaws { monitor: 49152, stream: 49152, vod: 49152 }; 2];
    let plan = m.match_pending_loopbacks(&cfg, &raws, UNITY_RAW);
    assert_eq!(
        plan.applies,
        [
            LoopbackRef::Mix(1, Mix::Stream),
            LoopbackRef::Mix(2, Mix::Stream),
            LoopbackRef::MonitorOut,
            LoopbackRef::Input(1),
            LoopbackRef::Input(2),
        ]
    );
}

#[test]
fn application_streams_move_to_their_channel() {
    let mut cfg = Config::default();
    cfg.channels[1].assignment = Some(Assignment::App { name: "Firefox".to_string() });
    let mut m = ready();
    let g = m.rebuild_channel(&cfg, 2).generation;
    m.channel_sink_loaded(2, g, 90);
    m.sinks = vec![sink(7, "Crossfade_Ch2", None), sink(8, "speakers", None)];
    let input = |index: u32, app: &str, on: u32, owner: Option<u32>| SinkInputEntry {
        index,
        app_name: Some(app.to_string()),
        sink: on,
        owner_module: owner,
        channels: 2,
        volume_raw: 0,
        mute: false,
    };
    m.sink_inputs = vec![
        input(1, "Firefox", 8, None),
        input(2, "Firefox", 7, None),
        input(3, "mpv", 8, None),
        input(4, "Firefox", 8, Some(90)),
        input(5, "", 8, None),
    ];
    let moves = m.reconcile_apps(&cfg);
    assert_eq!(moves.len(), 1);
    assert_eq!((moves[0].stream, moves[0].device.as_str()), (1, "Crossfade_Ch2"));
    assert_eq!(m.app_names(), ["Firefox", "mpv"]);
    m.sink_inputs[0].sink = 7;
    assert!(m.reconcile_apps(&cfg).is_empty());
}

#[test]
fn effects_are_wired_when_their_nodes_appear() {
    let cfg = Config::default();
    let mut m = ready();
    let g = m.rebuild_channel(&cfg, 1).generation;
    let mut fx = FxManager::new();
    fx.chain_started(1, "conf".to_string(), 0, 100);
    assert_eq!(m.bridge_started(1, g + 1, "mic", false), BridgeStep::Stale);
    assert_eq!(m.bridge_started(1, g, "mic", false), BridgeStep::Wait);
    assert!(m.check_pending_wires(&fx).is_empty());
    m.sinks.push(sink(1, "Crossfade_Ch1_FX", None));
    m.sources.push(source(2, "Crossfade_Ch1_FXOut", None));
    let ready = m.check_pending_wires(&fx);
    assert_eq!(ready.len(), 1);
    assert!(!ready[0].direct);
    assert_eq!(m.channels[0].pending_wire, None);
    let plan = m.wire(&cfg, &ready[0]);
    assert_eq!(plan.source, "Crossfade_Ch1_FXOut");
    let input = plan.input.unwrap();
    assert_eq!(input.sink, "Crossfade_Ch1_FX");
    assert!(input.args.contains("Crossfade ch1 fx-in"));
    assert_eq!(plan.sends.len(), 2);
    assert_eq!(m.input_loaded(1, g, &input.source, &input.sink, 80), Loaded::Adopted);
    assert_eq!(m.channels[0].input_loop.source_target, "mic");
}

#[test]
fn a_dead_chain_is_wired_around() {
    let cfg = Config::default();
    let mut m = ready();
    let g = m.rebuild_channel(&cfg, 1).generation;
    let step = m.bridge_started(1, g, "mic", true);
    assert_eq!(
        step,
        BridgeStep::LoadVstIn(
            "sink_name=Crossfade_Ch1_VSTIn sink_properties='device.description=\"Crossfade Ch 1 VST In (internal)\"'"
                .to_string()
        )
    );
    let ready = m.check_pending_wires(&FxManager::new());
    assert!(ready[0].direct);
    let plan = m.wire(&cfg, &ready[0]);
    assert_eq!(plan.source, "mic");
    assert!(plan.input.is_none() && !plan.link_vst);
    assert_eq!(m.vstin_loaded(1, g, 81), Loaded::Adopted);
    assert_eq!(m.rebuild_channel(&cfg, 1).unload, [81]);
}

#[test]
fn wiring_waits_for_the_catalog() {
    let mut cfg = Config::default();
    assert_eq!(PulseManager::wire_channel_input(&cfg, 1, true, None, &vec![]), WireStep::Direct);
    assert_eq!(PulseManager::wire_channel_input(&cfg, 7, true, None, &vec![]), WireStep::Gone);
    cfg.channels[0].add_effect("urn:x", "X");
    let values = vec![vec![]];
    assert_eq!(PulseManager::wire_channel_input(&cfg, 1, true, None, &values), WireStep::AwaitCatalog);
    assert!(matches!(
        PulseManager::wire_channel_input(&cfg, 1, false, None, &values),
        WireStep::Effects(_)
    ));
}

#[test]
fn the_vod_bus_comes_and_goes() {
    let mut cfg = Config::default();
    let mut m = ready();
    assert_eq!(m.apply_vod_mix(&cfg), VodStep::Nothing);
    let g = m.rebuild_channel(&cfg, 2).generation;
    m.send_loaded(&cfg, 2, g, Mix::Monitor, "src", 60);
    cfg.vod_mix_enabled = true;
    assert_eq!(m.apply_vod_mix(&cfg), VodStep::LoadBus(bus_args(Mix::Vod)));
    assert_eq!(m.vod_bus_loaded(&cfg, 90), Loaded::Adopted);
    assert!(m.mix_mic_loaded(true, 91));
    let missing = m.missing_vod_sends();
    assert_eq!((missing[0].id, missing[0].generation, missing[0].source.as_str()), (2, g, "src"));
    assert!(m.create_mix_loopback(2, "src", Mix::Vod).is_some());
    assert!(m.missing_vod_sends().is_empty());
    assert_eq!(m.send_loaded(&cfg, 2, g, Mix::Vod, "src", 92), Loaded::Adopted);
    cfg.vod_mix_enabled = false;
    assert_eq!(m.apply_vod_mix(&cfg), VodStep::Unload(vec![92, 90, 91]));
    assert_eq!(m.channels[0].monitor_loop.module, Some(60));
    assert_eq!(m.vod_bus_loaded(&cfg, 93), Loaded::Stale);
    assert_eq!(m.shutdown(), [1, 2, 60]);
}

#[test]
fn streams_of_new_loopbacks_are_noted() {
    let cfg = Config::default();
    let mut m = ready();
    let g = m.rebuild_channel(&cfg, 2).generation;
    m.send_loaded(&cfg, 2, g, Mix::Monitor, "src", 60);
    assert!(!m.new_loopback_stream(LoopbackRef::Mix(2, Mix::Monitor), 61, 5, 2));
    assert!(m.new_loopback_stream(LoopbackRef::Mix(2, Mix::Monitor), 60, 5, 2));
    assert!(!m.new_loopback_stream(LoopbackRef::Input(2), 60, 5, 2));
    assert!(!m.new_loopback_stream(LoopbackRef::MonitorOut, 60, 5, 2));
    assert_eq!(m.channels[0].monitor_loop.sink_input, Some(5));
}

#[test]
fn connection_states() {
    let mut m = ready();
    assert!(m.schedule_refresh());
    assert!(!m.schedule_refresh());
    assert_eq!(m.on_state_change(ContextState::Terminated), ContextStep::ReportTerminated);
    assert!(!m.ready);
    m.shutdown();
    assert_eq!(m.on_state_change(ContextState::Terminated), ContextStep::Nothing);
    assert_eq!(m.on_state_change(ContextState::Other), ContextStep::Nothing);
    assert!(!m.helper_died());
    assert!(!m.finish_bootstrap());
    m.connect_server();
    assert!(m.owned_modules.is_empty());
    assert!(!m.bus_loaded(Mix::Stream, INVALID_INDEX));
    assert_eq!(PulseManager::create_virtual_sinks(&Config::default()).len(), 2);
}

#[test]
fn devices_are_listed_without_our_own() {
    let mut m = PulseManager::new();
    m.sources = vec![source(1, "Crossfade_StreamMic", None), source(2, "alsa.wave_xlr", Some(1))];
    m.sinks = vec![sink(1, "Crossfade_Vod", None), sink(2, "wave-xlr.out", Some(1))];
    assert_eq!(m.sources().len(), 1);
    assert_eq!(m.output_sinks().len(), 1);
    assert_eq!(m.wave_xlr_source().unwrap().name, "alsa.wave_xlr");
    assert_eq!(m.wave_xlr_sink().unwrap().name, "wave-xlr.out");
    assert!(m.has_sink("Crossfade_Vod") && !m.has_source("x"));
    assert_eq!(m.source_description("alsa.wave_xlr").as_deref(), Some("alsa.wave_xlr"));
    assert_eq!((m.source_channels("alsa.wave_xlr"), m.sink_channels("nope")), (Some(1), None));
    assert_eq!((m.default_sink(), m.default_source()), (None, None));
}
