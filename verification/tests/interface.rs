use gleem_crossfade::audio::{Mix, SinkEntry, SourceEntry, STREAM_MIC};
use gleem_crossfade::config::{Assignment, Config};
use gleem_crossfade::control::{perform, ControlAction, ControlStep};
use gleem_crossfade::dbus::{channel_muted, handle, mix_muted, volumes, Args, Reply};
use gleem_crossfade::devices::{
    autostart_entry, describe_feed, enforce_xlr_volume, fx_tip, input_entries, input_items, monitor_label,
    selected_sink, setup_prompt, sink_items, xlr_initial, RenameEpochs, SetupPrompt, XlrStep,
};
use gleem_crossfade::level::Level;
use gleem_crossfade::picker::{add_rule, from_rules, render, InputOptions, Picked, RuleInfo};
use gleem_crossfade::routing::PulseManager;
use gleem_crossfade::setup::{
    all_ok, apply_fix, default_step, evaluate, mic_channel, system_channel, DefaultStep, SetupFix,
};
use gleem_crossfade::tray::{
    activate_item, children, clicked, escape, group_ids, icon_name, item_call, item_property,
    menu_call, menu_property, mute_label,
    tooltip_text, ItemCall, MenuCall, MenuEvent, MenuProperty, PropertyValue, Tray, TrayAction, ID_MUTE, ID_QUIT, ID_ROOT,
    ID_SEPARATOR, ID_SHOW,
};

fn level(x: f64) -> Level {
    Level { bits: x.to_bits() }
}

fn text(s: &str) -> String {
    s.to_string()
}

fn source(name: &str, description: &str) -> SourceEntry {
    SourceEntry::new(name, Some(description), level(80.0), 1, 0, None)
}

fn sink(name: &str, description: &str) -> SinkEntry {
    SinkEntry::new(name, Some(description), level(80.0), 2, None)
}

#[test]
fn actions_become_steps() {
    let cfg = Config::default();
    assert_eq!(
        perform(&cfg, ControlAction::SetChannelVolume { id: 1, mix: Mix::Stream, value: level(1.5) }),
        ControlStep::ChannelVolume { id: 1, mix: Mix::Stream, value: level(1.0) }
    );
    assert_eq!(
        perform(&cfg, ControlAction::SetChannelVolume { id: 7, mix: Mix::Stream, value: level(0.5) }),
        ControlStep::Nothing
    );
    assert_eq!(
        perform(&cfg, ControlAction::SetMasterVolume { mix: Mix::Monitor, value: level(-1.0) }),
        ControlStep::MasterVolume { mix: Mix::Monitor, value: level(0.0) }
    );
    assert_eq!(
        perform(&cfg, ControlAction::SetChannelMute { id: 1, mix: Mix::Monitor, muted: None }),
        ControlStep::ChannelMute { id: 1, mix: Mix::Monitor, muted: true }
    );
    assert_eq!(
        perform(&cfg, ControlAction::SetMasterMute { mix: Mix::Stream, muted: Some(false) }),
        ControlStep::MasterMute { mix: Mix::Stream, muted: false }
    );
    assert_eq!(perform(&cfg, ControlAction::SelectMidiProfile { id: 1 }), ControlStep::Nothing);
    assert_eq!(perform(&cfg, ControlAction::SelectMidiProfile { id: 2 }), ControlStep::Nothing);
}

#[test]
fn vod_targets_are_inert_while_disabled() {
    let mut cfg = Config::default();
    let a = ControlAction::SetMasterMute { mix: Mix::Vod, muted: None };
    let b = ControlAction::SetChannelVolume { id: 1, mix: Mix::Vod, value: level(0.1) };
    assert_eq!(perform(&cfg, a), ControlStep::Nothing);
    assert_eq!(perform(&cfg, b), ControlStep::Nothing);
    cfg.vod_mix_enabled = true;
    assert_ne!(perform(&cfg, a), ControlStep::Nothing);
    assert_ne!(perform(&cfg, b), ControlStep::Nothing);
}

#[test]
fn linked_faders_follow() {
    let mut cfg = Config::default();
    assert_eq!(cfg.set_channel_volume(1, Mix::Stream, level(0.2)), Some(vec![Mix::Stream]));
    assert_eq!(cfg.channels[0].monitor_volume, level(0.75));
    assert_eq!(cfg.set_linked(1, true), Some(vec![Mix::Stream]));
    assert_eq!(cfg.channels[0].stream_volume, level(0.75));
    assert_eq!(cfg.set_channel_volume(1, Mix::Stream, level(0.4)), Some(vec![Mix::Stream, Mix::Monitor]));
    assert_eq!(cfg.channels[0].monitor_volume, level(0.4));
    assert_eq!(cfg.channels[0].vod_volume, level(0.75));
    cfg.vod_mix_enabled = true;
    cfg.set_channel_volume(1, Mix::Monitor, level(0.6));
    assert_eq!(cfg.channels[0].vod_volume, level(0.6));
    assert_eq!(cfg.channels[0].stream_volume, level(0.6));
    assert_eq!(cfg.set_linked(1, false), Some(vec![]));
    assert_eq!(cfg.set_channel_volume(9, Mix::Monitor, level(0.6)), None);
    assert_eq!(cfg.set_linked(9, true), None);
}

#[test]
fn edits_reach_the_configuration() {
    let mut cfg = Config::default();
    assert!(cfg.set_channel_mute(1, Mix::Vod, true));
    assert!(cfg.channels[0].vod_muted);
    assert!(!cfg.set_channel_mute(9, Mix::Vod, true));
    cfg.set_master_volume(Mix::Vod, level(0.3));
    cfg.set_master_mute(Mix::Monitor, true);
    assert_eq!(cfg.master.vod_volume, level(0.3));
    assert!(cfg.master.monitor_muted);
    assert!(cfg.set_monitor_device(Some(text("hdmi"))));
    assert!(!cfg.set_monitor_device(Some(text("hdmi"))));
    assert!(cfg.set_monitor_device(None));
    assert!(cfg.rename_channel(2, text("Desktop")));
    assert_eq!(cfg.channels[1].name, "Desktop");
    assert!(cfg.set_channel_color(2, Some(text("#000000"))));
    assert!(!cfg.rename_channel(5, text("x")) && !cfg.set_channel_color(5, None));
    assert!(!cfg.set_assignment(2, Some(Assignment::Virtual)));
    assert!(cfg.set_assignment(2, Some(Assignment::App { name: text("mpv") })));
    assert!(!cfg.set_assignment(2, Some(Assignment::App { name: text("mpv") })));
    assert!(!cfg.set_assignment(8, None));
    assert!(cfg.needs_sink(2) && !cfg.needs_sink(1) && !cfg.needs_sink(8));
    let id = cfg.midi.add_profile();
    assert!(cfg.select_profile(id) && !cfg.select_profile(id) && !cfg.select_profile(77));
}

#[test]
fn bus_calls_are_answered() {
    let cfg = Config::default();
    let mix = |m: &str| Args::Mix { mix: text(m) };
    match handle(&cfg, "ListChannels", &Args::Other) {
        Reply::Channels(rows) => {
            assert_eq!(rows.len(), 2);
            assert_eq!((rows[0].id, rows[0].name.as_str(), rows[0].kind), (1, "Microphone", "none"));
            assert_eq!(rows[1].kind, "virtual");
        }
        other => panic!("{other:?}"),
    }
    match handle(&cfg, "ListMidiProfiles", &Args::Other) {
        Reply::Profiles(rows) => assert_eq!((rows[0].id, rows[0].name.as_str()), (1, "Default")),
        other => panic!("{other:?}"),
    }
    assert_eq!(handle(&cfg, "GetVolumes", &Args::Other), Reply::Volumes(volumes(&cfg)));
    let set = |id: u64, mix: &str| Args::IdMixValue { id, mix: text(mix), value: level(0.5) };
    assert_eq!(
        handle(&cfg, "SetChannelVolume", &set(1, "vod")),
        Reply::Perform(ControlAction::SetChannelVolume { id: 1, mix: Mix::Vod, value: level(0.5) })
    );
    assert_eq!(
        handle(&cfg, "SetChannelVolume", &set(1, "main")),
        Reply::Invalid("mix must be monitor, stream or vod")
    );
    assert_eq!(handle(&cfg, "SetChannelVolume", &set(4, "vod")), Reply::Invalid("unknown channel id"));
    assert_eq!(
        handle(&cfg, "SetChannelVolume", &mix("vod")),
        Reply::Invalid("expected (t id, s mix, d value)")
    );
    assert_eq!(
        handle(&cfg, "SetChannelMute", &Args::IdMixFlag { id: 2, mix: text("stream"), flag: true }),
        Reply::Perform(ControlAction::SetChannelMute { id: 2, mix: Mix::Stream, muted: Some(true) })
    );
    assert_eq!(handle(&cfg, "SetChannelMute", &mix("vod")), Reply::Invalid("expected (t id, s mix, b muted)"));
    assert_eq!(
        handle(&cfg, "ToggleChannelMute", &Args::IdMix { id: 2, mix: text("monitor") }),
        Reply::PerformChannelMute(
            ControlAction::SetChannelMute { id: 2, mix: Mix::Monitor, muted: None },
            2,
            Mix::Monitor
        )
    );
    assert_eq!(handle(&cfg, "ToggleChannelMute", &Args::Other), Reply::Invalid("expected (t id, s mix)"));
    assert_eq!(
        handle(&cfg, "SetMasterVolume", &Args::MixValue { mix: text("stream"), value: level(0.5) }),
        Reply::Perform(ControlAction::SetMasterVolume { mix: Mix::Stream, value: level(0.5) })
    );
    assert_eq!(handle(&cfg, "SetMasterVolume", &Args::Other), Reply::Invalid("expected (s mix, d value)"));
    assert_eq!(
        handle(&cfg, "SetMasterMute", &Args::MixFlag { mix: text("stream"), flag: false }),
        Reply::Perform(ControlAction::SetMasterMute { mix: Mix::Stream, muted: Some(false) })
    );
    assert_eq!(handle(&cfg, "SetMasterMute", &Args::Other), Reply::Invalid("expected (s mix, b muted)"));
    assert_eq!(
        handle(&cfg, "ToggleMasterMute", &mix("stream")),
        Reply::PerformMasterMute(ControlAction::SetMasterMute { mix: Mix::Stream, muted: None }, Mix::Stream)
    );
    assert_eq!(handle(&cfg, "ToggleMasterMute", &Args::Other), Reply::Invalid("expected (s mix)"));
    assert_eq!(handle(&cfg, "ToggleMasterMute", &mix("x")), Reply::Invalid("mix must be monitor, stream or vod"));
    assert_eq!(
        handle(&cfg, "SelectMidiProfile", &Args::Id { id: 1 }),
        Reply::Perform(ControlAction::SelectMidiProfile { id: 1 })
    );
    assert_eq!(handle(&cfg, "SelectMidiProfile", &Args::Id { id: 5 }), Reply::Invalid("unknown profile id"));
    assert_eq!(handle(&cfg, "SelectMidiProfile", &Args::Other), Reply::Invalid("expected (t id)"));
    assert_eq!(handle(&cfg, "Quit", &Args::Other), Reply::UnknownMethod);
    assert!(!channel_muted(&cfg, 1, Mix::Stream) && !channel_muted(&cfg, 9, Mix::Stream));
    assert!(!mix_muted(&cfg, Mix::Stream));
}

#[test]
fn toggled_mutes_are_reported() {
    let mut cfg = Config::default();
    let before = channel_muted(&cfg, 1, Mix::Stream);
    for wanted in [!before, before] {
        let action = ControlAction::SetChannelMute { id: 1, mix: Mix::Stream, muted: None };
        match perform(&cfg, action) {
            ControlStep::ChannelMute { id, mix, muted } => assert!(cfg.set_channel_mute(id, mix, muted)),
            other => panic!("{other:?}"),
        }
        assert_eq!(channel_muted(&cfg, 1, Mix::Stream), wanted);
    }
}

#[test]
fn volumes_are_reported() {
    let mut cfg = Config::default();
    cfg.channels[1].color = Some(text("#ffffff"));
    cfg.set_master_mute(Mix::Vod, true);
    let v = volumes(&cfg);
    let channels = v.get_items("channels").unwrap();
    assert_eq!(channels.len(), 2);
    assert_eq!((channels[0].get_unsigned("id"), channels[0].get_str("name")), (Some(1), Some("Microphone")));
    assert_eq!((channels[0].get_str("color"), channels[1].get_str("color")), (None, Some("#ffffff")));
    let stream = channels[0].get("stream").unwrap();
    assert_eq!((stream.get_number("volume"), stream.get_bool("muted")), (Some(level(0.75)), Some(false)));
    let vod = v.get("master").unwrap().get("vod").unwrap();
    assert_eq!((vod.get_number("volume"), vod.get_bool("muted")), (Some(level(1.0)), Some(true)));
    assert_eq!((v.get_bool("vod_mix_enabled"), v.get_unsigned("active_midi_profile")), (Some(false), Some(1)));
}

#[test]
fn inputs_are_listed_in_groups() {
    let sources = vec![source("a.monitor", "Monitor of A"), source("mic", "Mic")];
    let items = input_items(&sources, &vec![text("mpv")]);
    let labels: Vec<&str> = items.iter().map(|i| i.label.as_str()).collect();
    assert_eq!(labels, ["No Input", "Virtual Device", "Mic", "mpv — Application", "Monitor of A"]);
    assert_eq!(items[2].assignment, Some(Assignment::Source { name: text("mic") }));
    let e = input_entries(items.clone(), &Some(Assignment::App { name: text("mpv") }));
    assert_eq!((e.selected, e.items.len()), (3, 5));
    let e = input_entries(items.clone(), &Some(Assignment::App { name: text("vlc") }));
    assert_eq!((e.selected, e.items[5].label.as_str()), (5, "vlc (not running)"));
    let e = input_entries(items.clone(), &Some(Assignment::Source { name: text("usb") }));
    assert_eq!(e.items[5].label, "usb (unavailable)");
    assert_eq!(input_entries(items, &None).selected, 0);
    assert_eq!(input_entries(vec![], &Some(Assignment::Virtual)).items[0].label, "Virtual Device");
}

#[test]
fn outputs_are_listed() {
    let sinks = vec![sink("hdmi", "HDMI"), sink("usb", "USB")];
    let items = sink_items(&sinks);
    assert_eq!(items[0].label, "System Default");
    assert_eq!(selected_sink(&items, &Some(text("usb"))), 2);
    assert_eq!(selected_sink(&items, &Some(text("gone"))), 0);
    assert_eq!(selected_sink(&items, &None), 0);
    let mut cfg = Config::default();
    assert_eq!(monitor_label(&cfg, &sinks), "system default output");
    cfg.master.monitor_device = Some(text("usb"));
    assert_eq!(monitor_label(&cfg, &sinks), "USB");
    cfg.master.monitor_device = Some(text("gone"));
    assert_eq!(monitor_label(&cfg, &sinks), "system default output");
}

#[test]
fn feeds_and_effects_are_described() {
    let mut cfg = Config::default();
    assert_eq!(describe_feed(&cfg.channels[0], None), "No input");
    assert_eq!(describe_feed(&cfg.channels[1], None), "Virtual device — “Crossfade: System”");
    cfg.channels[0].assignment = Some(Assignment::Source { name: text("mic") });
    assert_eq!(describe_feed(&cfg.channels[0], None), "mic");
    assert_eq!(describe_feed(&cfg.channels[0], Some("My Mic")), "My Mic");
    cfg.channels[0].assignment = Some(Assignment::App { name: text("mpv") });
    assert_eq!(describe_feed(&cfg.channels[0], None), "mpv — application");
    let c = &mut cfg.channels[0];
    assert_eq!(fx_tip(c), "Effects");
    c.add_effect("urn:a", "A");
    c.add_effect("urn:b", "B");
    assert_eq!(fx_tip(c), "Effects (2 LV2 active)");
    let entry = gleem_crossfade::vst::VstEntry {
        path: text("/a.so"),
        format: gleem_crossfade::vst::VstFormat::Vst2,
        label: text(""),
        unique_id: 0,
        name: text("A"),
        audio_ins: 2,
        audio_outs: 2,
    };
    c.add_vst(&entry);
    assert_eq!(fx_tip(c), "Effects (1 VST + 2 LV2 active)");
    c.effects.clear();
    assert_eq!(fx_tip(c), "Effects (1 VST active)");
}

#[test]
fn xlr_volumes_are_held_for_a_while() {
    let v = Some(level(60.0));
    assert_eq!(enforce_xlr_volume(false, v, true, Some(9), 5), XlrStep { hold: None, apply: None });
    assert_eq!(enforce_xlr_volume(true, v, true, None, 100), XlrStep { hold: Some(15100), apply: v });
    assert_eq!(enforce_xlr_volume(true, v, false, Some(15100), 200), XlrStep { hold: Some(15100), apply: None });
    assert_eq!(enforce_xlr_volume(true, v, true, Some(15100), 15100).apply, v);
    assert_eq!(enforce_xlr_volume(true, v, true, Some(15100), 15101).apply, None);
    assert_eq!(xlr_initial(None, level(130.0)), level(100.0));
    assert_eq!(xlr_initial(Some(level(40.0)), level(130.0)), level(40.0));
}

#[test]
fn setup_is_prompted_once() {
    assert_eq!(setup_prompt(false, false, false, false), SetupPrompt::NotYet);
    assert_eq!(setup_prompt(true, true, false, false), SetupPrompt::NotYet);
    assert_eq!(setup_prompt(false, true, false, true), SetupPrompt::Assistant);
    assert_eq!(setup_prompt(false, true, true, false), SetupPrompt::Notice);
    assert_eq!(setup_prompt(false, true, true, true), SetupPrompt::Nothing);
}

#[test]
fn renames_are_counted() {
    let mut e = RenameEpochs::new();
    assert_eq!((e.bump(4), e.bump(4), e.bump(5)), (1, 2, 1));
    assert!(e.is_last(4, 2) && !e.is_last(4, 1) && !e.is_last(6, 0));
    assert!(autostart_entry("/usr/bin/x").contains("Exec=/usr/bin/x --hidden\nIcon=gg.gleem.Crossfade\n"));
}

#[test]
fn the_setup_is_checked_and_fixed() {
    let mut cfg = Config::default();
    let mut m = PulseManager::new();
    assert_eq!(system_channel(&cfg).unwrap().id, 2);
    assert_eq!(mic_channel(&cfg).unwrap().id, 1);
    let items = evaluate(&cfg, &m);
    assert_eq!(items.len(), 2);
    assert_eq!(items[0].subtitle, "Use “Crossfade: System” as the system’s output device");
    assert!(!items[0].ok && !items[1].ok);
    m.default_sink = Some(text("Crossfade_Ch2"));
    m.default_source = Some(text(STREAM_MIC));
    assert!(all_ok(&cfg, &m));
    m.sources.push(source("alsa.wave_xlr", "Wave XLR Mono"));
    m.sinks.push((4, sink("wave-xlr", "Wave XLR Stereo")));
    let items = evaluate(&cfg, &m);
    assert_eq!(items[2].subtitle, "Feed the “Microphone” channel from “Wave XLR Mono”");
    assert_eq!(items[3].subtitle, "Play the Monitor Mix on “Wave XLR Stereo”");
    assert!(!all_ok(&cfg, &m));
    let s = apply_fix(&mut cfg, &items[2].fix);
    assert_eq!((s.rebuild, s.changed, s.monitor), (Some(1), true, false));
    let s = apply_fix(&mut cfg, &items[3].fix);
    assert!(s.monitor && s.changed);
    assert!(all_ok(&cfg, &m));
    cfg.channels[1].assignment = None;
    let items = evaluate(&cfg, &m);
    assert_eq!(
        items[0].fix,
        SetupFix::DefaultSink { channel_id: 2, sink: text("Crossfade_Ch2"), needs_assign: true }
    );
    let s = apply_fix(&mut cfg, &items[0].fix);
    assert_eq!((s.rebuild, s.default_sink.as_deref()), (Some(2), Some("Crossfade_Ch2")));
    assert_eq!(cfg.channels[1].assignment, Some(Assignment::Virtual));
    assert_eq!(apply_fix(&mut cfg, &items[1].fix).default_source.as_deref(), Some(STREAM_MIC));
    assert_eq!(default_step(true, 19), DefaultStep::MakeDefault);
    assert_eq!(default_step(false, 18), DefaultStep::Wait);
    assert_eq!(default_step(false, 19), DefaultStep::Stop);
}

#[test]
fn stand_ins_for_renamed_channels() {
    let mut cfg = Config::default();
    cfg.channels[0].name = text("Voice");
    cfg.channels[1].name = text("Desktop");
    assert_eq!(mic_channel(&cfg).unwrap().id, 1);
    assert_eq!(system_channel(&cfg).unwrap().id, 2);
    cfg.channels.clear();
    assert!(mic_channel(&cfg).is_none() && system_channel(&cfg).is_none());
}

#[test]
fn the_tray_follows_the_microphone() {
    let mut cfg = Config::default();
    cfg.channels[0].name = text("My_Mic");
    let mut t = Tray::new(&cfg);
    assert_eq!(t.label, "Mute My__Mic");
    assert_eq!(t.refresh(&cfg), None);
    assert_eq!(icon_name(&cfg), "audio-input-microphone-symbolic");
    cfg.channels[0].stream_muted = true;
    assert_eq!(t.refresh(&cfg), Some(2));
    assert_eq!(icon_name(&cfg), "microphone-sensitivity-muted-symbolic");
    assert_eq!(tooltip_text(&cfg), "Microphone muted — the stream cannot hear you");
    t.revision = u32::MAX;
    cfg.channels[0].stream_muted = false;
    assert_eq!(t.refresh(&cfg), Some(1));
    assert_eq!(escape("a_b"), "a__b");
    cfg.channels.clear();
    assert_eq!(mute_label(&cfg), "Mute Microphone");
    assert_eq!(tooltip_text(&cfg), "No microphone channel");
    assert!(activate_item(&cfg, ID_MUTE).is_empty());
    assert!(!t.can_register());
    t.name_owned = true;
    t.watcher_present = true;
    assert!(t.can_register());
}

#[test]
fn the_tray_has_properties() {
    let mut cfg = Config::default();
    let texts = [("Category", "ApplicationStatus"), ("Id", "gg.gleem.Crossfade"), ("Title", "Gleem Crossfade"),
        ("Status", "Active"), ("OverlayIconName", "")];
    for (name, value) in texts {
        assert_eq!(item_property(&cfg, name), PropertyValue::Text(value));
    }
    assert_eq!(item_property(&cfg, "ItemIsMenu"), PropertyValue::Flag(false));
    assert_eq!(item_property(&cfg, "Menu"), PropertyValue::Path("/MenuBar"));
    for muted in [false, true] {
        cfg.channels[0].stream_muted = muted;
        cfg.channels[0].vod_muted = muted;
        assert_eq!(item_property(&cfg, "IconName"), PropertyValue::Text(icon_name(&cfg)));
        assert_eq!(
            item_property(&cfg, "ToolTip"),
            PropertyValue::ToolTip(icon_name(&cfg), tooltip_text(&cfg))
        );
    }
    assert_eq!(menu_property("Version"), PropertyValue::Number(3));
    assert_eq!(menu_property("Status"), PropertyValue::Text("normal"));
    assert_eq!(menu_property("TextDirection"), PropertyValue::Text("ltr"));
    assert_eq!(menu_property("IconThemePath"), PropertyValue::NoTexts);
    assert_eq!(menu_property("AccessibleDesc"), PropertyValue::Text(""));
}

#[test]
fn the_tray_menu() {
    let mut cfg = Config::default();
    let t = Tray::new(&cfg);
    assert_eq!(children(ID_ROOT), [ID_MUTE, ID_SEPARATOR, ID_SHOW, ID_QUIT]);
    assert!(children(ID_SHOW).is_empty());
    assert_eq!(group_ids(Some(vec![ID_QUIT])), [ID_QUIT]);
    assert_eq!(group_ids(Some(vec![])).len(), 4);
    assert_eq!(group_ids(None).len(), 4);
    assert_eq!(t.item_properties(&cfg, ID_MUTE).len(), 4);
    assert_eq!(
        t.entry_property(&cfg, ID_MUTE, "toggle-state"),
        Some(MenuProperty::Number("toggle-state", 0))
    );
    assert_eq!(t.entry_property(&cfg, ID_QUIT, "enabled"), None);
    assert!(t.item_properties(&cfg, 99).is_empty());
    let mute = |mix: Mix| {
        TrayAction::Perform(ControlAction::SetChannelMute { id: 1, mix, muted: Some(true) })
    };
    assert_eq!(activate_item(&cfg, ID_MUTE), [mute(Mix::Stream)]);
    cfg.vod_mix_enabled = true;
    assert_eq!(activate_item(&cfg, ID_MUTE), [mute(Mix::Stream), mute(Mix::Vod)]);
    assert_eq!(activate_item(&cfg, ID_SHOW), [TrayAction::Present]);
    assert_eq!(activate_item(&cfg, ID_QUIT), [TrayAction::Quit]);
    let ev = |id: i32, kind: &str| MenuEvent { id, kind: text(kind) };
    assert_eq!(clicked(&vec![ev(1, "clicked"), ev(2, "hovered"), ev(4, "clicked")]), [1, 4]);
    assert_eq!(item_call("Activate"), ItemCall::Present);
    assert_eq!(item_call("Scroll"), ItemCall::Nothing);
    assert_eq!(item_call("x"), ItemCall::UnknownMethod);
    assert_eq!(menu_call("GetLayout"), MenuCall::GetLayout);
    assert_eq!(menu_call("AboutToShowGroup"), MenuCall::AboutToShowGroup);
    assert_eq!(menu_call(""), MenuCall::UnknownMethod);
}

fn options() -> InputOptions {
    InputOptions {
        channel: text("Game"),
        sources: vec![(text("Mic"), text("mic"))],
        monitors: vec![(text("Monitor of HDMI"), text("hdmi.monitor"))],
        apps: vec![text("Firefox"), text("mpv"), text("Spotify")],
        claimed: vec![(text("mpv"), text("Music"))],
        catch_all_owner: None,
    }
}

#[test]
fn the_picker_offers_inputs() {
    let r = render(&options(), &None, &vec![]);
    assert!(r.inputs[0].selected && !r.inputs[1].selected);
    assert_eq!(r.inputs[1].subtitle, "Selectable as “Crossfade: Game”");
    assert!(r.inputs[2].enabled);
    assert_eq!(r.devices.len(), 2);
    assert_eq!(r.devices[1].target, Some(Picked::Source(text("hdmi.monitor"))));
    assert_eq!((r.label.as_str(), r.tooltip.as_str()), ("No Input", "No input"));
    assert_eq!(r.apps.len(), 3);
    assert_eq!(r.apps[0].next, ["Firefox"]);
    assert_eq!(r.apps[1].subtitle, "Captured by the “Music” channel");
    assert!(!r.apps[1].enabled);
    let mut o = options();
    o.catch_all_owner = Some(text("System"));
    let r = render(&o, &Some(Picked::Virtual), &vec![]);
    assert_eq!(r.inputs[2].subtitle, "Already used by the “System” channel");
    assert!(!r.inputs[2].enabled && r.inputs[1].selected);
    let r = render(&options(), &Some(Picked::CatchAll), &vec![]);
    assert_eq!((r.inputs[2].selected, r.label.as_str()), (true, "Other Apps"));
}

#[test]
fn the_picker_keeps_unplugged_devices() {
    let r = render(&options(), &Some(Picked::Source(text("usb"))), &vec![]);
    assert_eq!(r.devices.len(), 3);
    assert_eq!((r.devices[2].title.as_str(), r.devices[2].subtitle.as_str()), ("usb", "Not connected"));
    assert_eq!(r.label, "usb (unavailable)");
    let r = render(&options(), &Some(Picked::Source(text("mic"))), &vec![]);
    assert!(r.devices[0].selected);
    assert_eq!((r.devices.len(), r.label.as_str()), (2, "Mic"));
}

#[test]
fn the_picker_lists_rules() {
    let current = Some(Picked::App(vec![text("fire*"), text("Spotify"), text("zoom")]));
    let info = vec![
        RuleInfo { pattern: true, hits: vec![true, false, false] },
        RuleInfo { pattern: false, hits: vec![false, false, true] },
        RuleInfo { pattern: false, hits: vec![false, false, false] },
    ];
    let r = render(&options(), &current, &info);
    let rows: Vec<(&str, &str)> = r.apps.iter().map(|a| (a.title.as_str(), a.subtitle.as_str())).collect();
    assert_eq!(
        rows,
        [
            ("fire*", "Pattern — Firefox"),
            ("Spotify", ""),
            ("zoom", "Not running"),
            ("Firefox", "Matched by “fire*”"),
            ("mpv", "Captured by the “Music” channel"),
        ]
    );
    assert_eq!(r.apps[1].next, ["fire*", "zoom"]);
    assert_eq!((r.label.as_str(), r.tooltip.as_str()), ("fire* +2", "fire*, Spotify, zoom"));
    let idle = vec![RuleInfo { pattern: true, hits: vec![false, false, false] }];
    let r = render(&options(), &Some(Picked::App(vec![text("x*")])), &idle);
    assert_eq!(r.apps[0].subtitle, "Pattern — nothing running matches");
    let mut o = options();
    o.apps.clear();
    assert!(render(&o, &None, &vec![]).no_apps);
}

#[test]
fn rules_are_typed_in() {
    let have = vec![text("Firefox")];
    assert_eq!(add_rule(have.clone(), "  "), None);
    assert_eq!(add_rule(have.clone(), " FIREFOX "), None);
    assert_eq!(add_rule(have, " mpv* "), Some(vec![text("Firefox"), text("mpv*")]));
    assert_eq!(from_rules(vec![]), Picked::Virtual);
    assert_eq!(from_rules(vec![text("a")]), Picked::App(vec![text("a")]));
}
