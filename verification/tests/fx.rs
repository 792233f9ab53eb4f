use gleem_crossfade::config::{ChannelConfig, KeyedLevel};
use gleem_crossfade::fx::{
    chain_conf, chain_sink_name, chain_source_name, effect_labels, link_script, link_step, links_up, load_message,
    sanitize_token, sanitize_uri, set_message, show_ui_message, take_lines, vst_node_name, vstin_sink_name,
    ChainStep, FxEvent, FxManager, LinkStep, ParamEdit, VstState, VstStep,
};
use gleem_crossfade::json;
use gleem_crossfade::level::Level;
use gleem_crossfade::lv2::{Catalog, PluginInfo};
use gleem_crossfade::vst::{VstEntry, VstFormat};

fn level(x: f64) -> Level {
    Level { bits: x.to_bits() }
}

fn plugin(uri: &str, mono: bool) -> PluginInfo {
    let ports = |v: &[&str]| v.iter().map(|s| s.to_string()).collect::<Vec<_>>();
    PluginInfo {
        uri: uri.to_string(),
        name: uri.to_string(),
        mono,
        audio_in: ports(if mono { &["in"] } else { &["in_l", "in_r"] }),
        audio_out: ports(if mono { &["out"] } else { &["out_l", "out_r"] }),
        controls: ports(&["gain"]),
    }
}

fn vst(path: &str) -> VstEntry {
    VstEntry {
        path: path.to_string(),
        format: VstFormat::Vst2,
        label: String::new(),
        unique_id: 0,
        name: path.to_string(),
        audio_ins: 2,
        audio_outs: 2,
    }
}

#[test]
fn node_names() {
    assert_eq!(chain_sink_name(3), "Crossfade_Ch3_FX");
    assert_eq!(chain_source_name(3), "Crossfade_Ch3_FXOut");
    assert_eq!(vstin_sink_name(3), "Crossfade_Ch3_VSTIn");
    assert_eq!(vst_node_name(3), "Crossfade_Ch3_VST");
    assert_eq!(effect_labels(7, false), ["fx7"]);
    assert_eq!(effect_labels(7, true), ["fx7_l", "fx7_r"]);
}

#[test]
fn tokens_and_uris_are_sanitized() {
    assert_eq!(sanitize_token("a b\"c_d-e.f:ü1"), "abc_d-e.f1");
    assert_eq!(sanitize_uri("http://x/ y\"'\\z"), "http://x/yz");
}

#[test]
fn no_active_effects_need_no_chain() {
    let c = ChannelConfig::default();
    assert_eq!(chain_conf(1, &c, &vec![], None), None);
}

#[test]
fn a_chain_links_its_effects() {
    let mut c = ChannelConfig::default();
    c.add_effect("urn:eq", "EQ");
    c.add_effect("urn:gone", "Gone");
    c.add_effect("urn:gate", "Gate");
    c.effects[0].controls = vec![
        KeyedLevel { key: "gain".to_string(), value: level(1.5) },
        KeyedLevel { key: "nope".to_string(), value: level(2.0) },
    ];
    let values = vec![vec!["1.500000".to_string(), "2.000000".to_string()], vec![], vec![]];
    let cat = Catalog { plugins: vec![plugin("urn:eq", false), plugin("urn:gate", true)] };
    let conf = chain_conf(4, &c, &values, Some(&cat)).unwrap();
    let expected = r#"# Generated by Crossfade; do not edit (rewritten on every change).
context.properties = {
    log.level = 2
}

context.spa-libs = {
    audio.convert.* = audioconvert/libspa-audioconvert
    support.*       = support/libspa-support
}

context.modules = [
    { name = libpipewire-module-rt
        args = { nice.level = -11 }
        flags = [ ifexists nofail ]
    }
    { name = libpipewire-module-protocol-native }
    { name = libpipewire-module-client-node }
    { name = libpipewire-module-adapter }

    { name = libpipewire-module-filter-chain
        args = {
            node.description = "Crossfade Channel 4 Effects"
            media.name       = "Crossfade Channel 4 Effects"
            filter.graph = {
                nodes = [
                    { type = lv2 name = "fx1" plugin = "urn:eq" control = { "gain" = 1.500000 } }
                    { type = lv2 name = "fx3_l" plugin = "urn:gate" }
                    { type = lv2 name = "fx3_r" plugin = "urn:gate" }
                ]
                links = [
                    { output = "fx1:out_l" input = "fx3_l:in" }
                    { output = "fx1:out_r" input = "fx3_r:in" }
                ]
                inputs  = [ "fx1:in_l" "fx1:in_r" ]
                outputs = [ "fx3_l:out" "fx3_r:out" ]
            }
            audio.channels = 2
            audio.position = [ FL FR ]
            capture.props = {
                node.name           = "Crossfade_Ch4_FX"
                node.description    = "Crossfade Ch 4 FX (internal)"
                media.class         = Audio/Sink
                state.restore-props = false
            }
            playback.props = {
                node.name           = "Crossfade_Ch4_FXOut"
                node.description    = "Crossfade Ch 4 FX Out (internal)"
                media.class         = Audio/Source
                state.restore-props = false
            }
        }
    }
]
"#;
    assert_eq!(conf, expected);
}

#[test]
fn a_rack_alone_passes_through() {
    let mut c = ChannelConfig::default();
    c.add_vst(&vst("/a.so"));
    let conf = chain_conf(1, &c, &vec![], None).unwrap();
    assert!(conf.contains("{ type = builtin name = copy_l label = copy }\n"));
    assert!(conf.contains("inputs  = [ \"copy_l:In\" \"copy_r:In\" ]"));
    assert!(conf.contains("links = [\n                ]"));
}

#[test]
fn chains_respawn_once() {
    let mut m = FxManager::new();
    assert_eq!(m.ensure_chain(1, Some("a")), ChainStep { kill: None, start: Some(0) });
    let run = m.chain_started(1, "a".to_string(), 0, 10);
    assert!(m.chain_running(1) && !m.chain_failed(1));
    assert_eq!(m.ensure_chain(1, Some("a")), ChainStep { kill: None, start: None });
    assert_eq!(m.process_exited(run, true), Some(FxEvent::ChainDied(1)));
    assert!(m.chain_failed(1));
    assert_eq!(m.ensure_chain(1, Some("a")), ChainStep { kill: None, start: Some(1) });
    let run = m.chain_started(1, "a".to_string(), 1, 11);
    m.process_exited(run, true);
    assert_eq!(m.ensure_chain(1, Some("a")), ChainStep { kill: None, start: None });
    assert_eq!(m.ensure_chain(1, Some("b")), ChainStep { kill: None, start: Some(0) });
    let run = m.chain_started(1, "b".to_string(), 0, 12);
    m.process_exited(run, false);
    assert_eq!(m.ensure_chain(1, Some("b")), ChainStep { kill: None, start: Some(0) });
    let run = m.chain_started(1, "b".to_string(), 0, 13);
    assert_eq!(m.ensure_chain(1, None), ChainStep { kill: Some(13), start: None });
    assert_eq!(m.process_exited(run, false), None);
}

#[test]
fn a_reused_pid_is_another_process() {
    let mut m = FxManager::new();
    let first = m.chain_started(1, "a".to_string(), 1, 5);
    assert_eq!(m.process_exited(first, true), Some(FxEvent::ChainDied(1)));
    let second = m.chain_started(2, "a".to_string(), 0, 5);
    assert!(m.chain_running(2));
    assert_eq!(m.process_exited(first, true), None);
    assert!(m.chain_running(2));
    assert_eq!(m.process_exited(second, true), Some(FxEvent::ChainDied(2)));
    assert!(!m.chain_running(2));
    assert_eq!(m.ensure_chain(2, Some("a")), ChainStep { kill: None, start: Some(1) });
    let mut c = ChannelConfig::default();
    c.add_vst(&vst("/a.so"));
    let third = m.vst_started(3, &c, "d".to_string(), 0, 5);
    assert_eq!(m.process_exited(third, true), Some(FxEvent::VstHostDied(3)));
    assert!(!m.vst_running(3));
}

#[test]
fn a_crashing_chain_is_started_twice() {
    let mut m = FxManager::new();
    let dead = m.chain_started(2, "other".to_string(), 0, 7);
    m.process_exited(dead, true);
    let mut started = 0;
    for _ in 0..6 {
        if let Some(fails) = m.ensure_chain(1, Some("bad")).start {
            started += 1;
            let run = m.chain_started(1, "bad".to_string(), fails, 7);
            assert_eq!(m.process_exited(run, true), Some(FxEvent::ChainDied(1)));
        }
        assert!(!m.chain_running(1));
    }
    assert_eq!(started, 2);
}

#[test]
fn a_crashing_rack_is_started_twice() {
    let mut m = FxManager::new();
    let mut c = ChannelConfig::default();
    c.add_vst(&vst("/bad.so"));
    let mut started = 0;
    for _ in 0..6 {
        if let VstStep::Start { desc, fails, .. } = m.ensure_vst_host(1, &c) {
            started += 1;
            let run = m.vst_started(1, &c, desc, fails, 7);
            assert_eq!(m.process_exited(run, true), Some(FxEvent::VstHostDied(1)));
        }
        assert!(!m.vst_running(1));
    }
    assert_eq!(started, 2);
    assert_eq!(m.ensure_vst_host(1, &c), VstStep::KnownBad);
}

#[test]
fn a_rack_is_kept_while_its_plugins_stay() {
    let mut m = FxManager::new();
    let mut c = ChannelConfig::default();
    c.add_vst(&vst("/a.so"));
    c.add_vst(&vst("/b.so"));
    match m.ensure_vst_host(1, &c) {
        VstStep::Start { desc, fails, .. } => m.vst_started(1, &c, desc, fails, 30),
        other => panic!("{other:?}"),
    };
    let kept = m.vst_runtime(1).cloned();
    c.vst_plugins[0].name = "Renamed".to_string();
    c.vst_plugins[1].params = vec![KeyedLevel { key: "0".to_string(), value: level(0.5) }];
    assert_eq!(m.ensure_vst_host(1, &c), VstStep::Running);
    assert_eq!(m.vst_runtime(1).cloned(), kept);
    let ends = |c: &ChannelConfig| match m.clone().ensure_vst_host(1, c) {
        VstStep::Start { kill, .. } => kill == Some(30),
        other => panic!("{other:?}"),
    };
    let mut swapped = c.clone();
    swapped.vst_plugins.swap(0, 1);
    assert!(ends(&swapped));
    let mut fewer = c.clone();
    fewer.vst_plugins[1].enabled = false;
    assert!(ends(&fewer));
    let mut more = c.clone();
    more.add_vst(&vst("/c.so"));
    assert!(ends(&more));
    c.vst_plugins[0].format = VstFormat::Vst3;
    assert!(ends(&c));
}

#[test]
fn racks_follow_the_plugin_set() {
    let mut m = FxManager::new();
    let mut c = ChannelConfig::default();
    assert_eq!(m.ensure_vst_host(1, &c), VstStep::Off { kill: None });
    c.add_vst(&vst("/a.so"));
    let (desc, fails) = match m.ensure_vst_host(1, &c) {
        VstStep::Start { kill: None, desc, fails } => (desc, fails),
        other => panic!("{other:?}"),
    };
    assert_eq!((desc.as_str(), fails), ("1\u{1f}/a.so\u{1f}\u{1f}0\u{1f}vst2", 0));
    m.vst_started(1, &c, desc.clone(), fails, 20);
    assert!(m.vst_running(1));
    assert_eq!(m.vst_runtime(1).unwrap()[0].state, VstState::Loading);
    assert_eq!(m.ensure_vst_host(1, &c), VstStep::Running);
    c.vst_plugins[0].unique_id = -5;
    let run = match m.ensure_vst_host(1, &c) {
        VstStep::Start { kill, desc, .. } => {
            assert_eq!(kill, Some(20));
            assert_eq!(desc, "1\u{1f}/a.so\u{1f}\u{1f}-5\u{1f}vst2");
            m.vst_started(1, &c, desc, 1, 21)
        }
        other => panic!("{other:?}"),
    };
    assert_eq!(m.process_exited(run, true), Some(FxEvent::VstHostDied(1)));
    assert_eq!(m.ensure_vst_host(1, &c), VstStep::KnownBad);
    assert_eq!(m.kill_vst(1), None);
    assert!(m.vst_runtime(1).is_none());
}

#[test]
fn separators_in_paths_keep_racks_apart() {
    let desc = |path: &str, label: &str| {
        let mut c = ChannelConfig::default();
        c.add_vst(&vst(path));
        c.vst_plugins[0].label = label.to_string();
        match FxManager::new().ensure_vst_host(1, &c) {
            VstStep::Start { desc, .. } => desc,
            other => panic!("{other:?}"),
        }
    };
    assert_ne!(desc("a\u{1f}b", "c"), desc("a", "b\u{1f}c"));
    assert_ne!(desc("a\u{1e}", ""), desc("a\u{1f}", ""));
    assert_ne!(desc("a\u{1e}f", ""), desc("a\u{1f}", ""));
    assert_eq!(desc("a\u{1e}", "b\u{1f}"), "1\u{1f}a\u{1e}e\u{1f}b\u{1e}f\u{1f}0\u{1f}vst2");
}

#[test]
fn shutting_down_gives_every_process() {
    let mut m = FxManager::new();
    let twin = m.chain_started(5, "a".to_string(), 0, 10);
    let dead = m.chain_started(6, "a".to_string(), 0, 9);
    m.process_exited(dead, true);
    assert_eq!(m.chains[0].slot.run, twin);
    m.chain_started(1, "a".to_string(), 0, 10);
    m.vst_started(1, &ChannelConfig::default(), String::new(), 0, 11);
    m.chain_started(2, "a".to_string(), 0, 12);
    assert_eq!(m.remove_channel(2), (Some(12), None));
    assert_eq!(m.shutdown_all(), [10, 10, 11]);
    assert!(m.shutdown_all().is_empty());
}

#[test]
fn controls_are_set_on_running_chains() {
    let mut m = FxManager::new();
    let labels = effect_labels(2, true);
    assert_eq!(m.set_controls(1, &labels, "gain", "0.500000"), None);
    m.chain_started(1, "a".to_string(), 0, 10);
    assert_eq!(
        m.set_controls(1, &labels, "ga in", "0.500000").unwrap(),
        "pw-cli set-param Crossfade_Ch1_FX Props '{ params = [ \"fx2_l:gain\" 0.500000 \"fx2_r:gain\" 0.500000 ] }'"
    );
}

#[test]
fn linking_is_tried_forty_times() {
    assert_eq!(link_step(false, false, true, 39), LinkStep::Try);
    assert_eq!(link_step(false, false, true, 40), LinkStep::GiveUp);
    assert_eq!(link_step(true, false, true, 0), LinkStep::Stop);
    assert_eq!(link_step(false, true, true, 0), LinkStep::Stop);
    assert_eq!(link_step(false, false, false, 0), LinkStep::Stop);
    assert!(links_up("failed to link ports: File exists"));
    assert!(!links_up("No such object"));
    assert!(link_script(1).starts_with("pw-link 'Crossfade_Ch1_VSTIn:monitor_FL' 'Crossfade_Ch1_VST:audio-in1' 2>&1; "));
    assert!(link_script(1).ends_with("'Crossfade_Ch1_FX:playback_FR' 2>&1; exit 0"));
}

fn loaded_manager() -> FxManager {
    let mut m = FxManager::new();
    let mut c = ChannelConfig::default();
    c.add_vst(&vst("/a.so"));
    c.add_vst(&vst("/b.so"));
    m.vst_started(1, &c, "d".to_string(), 0, 20);
    m
}

const LOADED: &str = r#"{"reply":"loaded","plugins":[
 {"cfg_id":1,"ok":true,"has_ui":true,"params":[
   {"index":4294967296,"name":"Mix","min":-1,"max":2.5,"value":0.5,"toggled":true},
   {"name":"no index"},
   {"index":3}]},
 {"cfg_id":2,"ok":false,"error":"bad file"},
 {"cfg_id":9,"ok":true},
 {"ok":true}]}"#;

#[test]
fn load_results_are_taken_in() {
    let mut m = loaded_manager();
    let out = m.handle_vst_reply(1, LOADED);
    assert!(out.structure_changed && out.params.is_empty());
    let r = m.vst_runtime(1).unwrap();
    assert_eq!(r[0].state, VstState::Loaded);
    assert!(r[0].has_ui);
    assert_eq!(r[0].params.len(), 2);
    let p = &r[0].params[0];
    assert_eq!((p.index, p.name.as_str(), p.toggled, p.integer), (0, "Mix", true, false));
    assert_eq!((p.min, p.max, p.value), (level(-1.0), level(2.5), level(0.5)));
    let p = &r[0].params[1];
    assert_eq!((p.index, p.name.as_str(), p.min, p.max), (3, "Parameter", level(0.0), level(1.0)));
    assert_eq!(r[1].state, VstState::Failed("bad file".to_string()));
}

#[test]
fn parameter_reports_are_mirrored() {
    let mut m = loaded_manager();
    m.handle_vst_reply(1, LOADED);
    let out = m.handle_vst_reply(1, r#"{"reply":"param","cfg_id":1,"param":3,"value":1}"#);
    assert!(!out.structure_changed);
    assert_eq!((out.params[0].cfg_id, out.params[0].index, out.params[0].value), (1, 3, level(1.0)));
    assert_eq!(m.vst_runtime(1).unwrap()[0].params[1].value, level(1.0));
    assert!(m.set_vst_param(1, 1, 3, level(0.25)));
    assert_eq!(m.vst_runtime(1).unwrap()[0].params[1].value, level(0.25));
    assert!(!m.set_vst_param(8, 1, 3, level(0.25)));
    assert!(m.handle_vst_reply(1, r#"{"reply":"param","cfg_id":1,"param":-3,"value":1}"#).params.is_empty());
}

#[test]
fn other_lines_are_ignored() {
    let mut m = loaded_manager();
    let before = m.clone();
    for line in ["not json", "{\"reply\":\"pong\"}", "[1,2]", "{\"reply\":1}", "null"] {
        let out = m.handle_vst_reply(1, line);
        assert!(!out.structure_changed && out.params.is_empty());
        assert_eq!(m, before);
    }
    assert!(!m.handle_vst_reply(5, LOADED).structure_changed);
    assert_eq!(m, before);
}

#[test]
fn a_failed_load_without_a_reason() {
    let mut m = loaded_manager();
    let v = json::parse(r#"{"reply":"loaded","plugins":[{"cfg_id":1}]}"#).unwrap();
    assert!(m.apply_vst_reply(1, &v).structure_changed);
    assert_eq!(m.vst_runtime(1).unwrap()[0].state, VstState::Failed("could not load plugin".to_string()));
}

#[test]
fn json_is_read() {
    let v = json::parse(r#" {"a":[true,null,"x",2.5,7],"b":{"c":-1}} "#).unwrap();
    let items = v.get_items("a").unwrap();
    assert_eq!(items.len(), 5);
    assert_eq!(items[0], json::Json::Bool(true));
    assert_eq!(items[1], json::Json::Null);
    assert_eq!(items[2], json::Json::Str("x".to_string()));
    assert_eq!(items[4], json::Json::Number(json::JsonNumber { unsigned: Some(7), signed: Some(7), double: Some(level(7.0)) }));
    let b = v.get("b").unwrap();
    assert_eq!((b.get_unsigned("c"), b.get_number("c")), (None, Some(level(-1.0))));
    assert!(b.get("zzz").is_none());
    assert!(json::parse("{").is_none());
}

#[test]
fn messages_to_the_helper() {
    let mut c = ChannelConfig::default();
    c.add_vst(&vst("/a.so"));
    c.add_vst(&vst("/b.so"));
    c.vst_plugins[0].enabled = false;
    c.vst_plugins[1].unique_id = -3;
    c.vst_plugins[1].params = vec![KeyedLevel { key: "4".to_string(), value: level(0.5) }];
    let m = load_message(&c);
    assert_eq!(m.get_str("cmd"), Some("load"));
    let plugins = m.get_items("plugins").unwrap();
    assert_eq!(plugins.len(), 1);
    let p = &plugins[0];
    assert_eq!((p.get_unsigned("cfg_id"), p.get_str("path"), p.get_str("format")), (Some(2), Some("/b.so"), Some("vst2")));
    assert_eq!(p.get("unique_id"), Some(&json::Json::sint(-3)));
    assert_eq!((p.get_bool("active"), p.get_str("label"), p.get_str("name")), (Some(true), Some(""), Some("/b.so")));
    assert_eq!(p.get("params").unwrap().get_number("4"), Some(level(0.5)));
    let m = set_message(ParamEdit { cfg_id: 2, index: 4, value: level(0.25) });
    assert_eq!((m.get_str("cmd"), m.get_unsigned("cfg_id"), m.get_unsigned("param"), m.get_number("value")),
        (Some("set"), Some(2), Some(4), Some(level(0.25))));
    let m = show_ui_message(2, true);
    assert_eq!((m.get_str("cmd"), m.get_unsigned("cfg_id"), m.get_bool("on")), (Some("show_ui"), Some(2), Some(true)));
}

#[test]
fn lines_are_taken_from_the_buffer() {
    let mut buf = b" one \n\n\xff\xfe\n{\"a\":\"\xc3\xa9\"}\r\nrest".to_vec();
    assert_eq!(take_lines(&mut buf), ["one", "{\"a\":\"é\"}"]);
    assert_eq!(buf, b"rest");
    assert!(take_lines(&mut buf).is_empty());
    buf.extend_from_slice(b" of it\n");
    assert_eq!(take_lines(&mut buf), ["rest of it"]);
    assert!(buf.is_empty());
}

#[test]
fn plugins_are_listed() {
    assert_eq!(plugin("urn:eq", true).listing(), "urn:eq [mono, 1 controls]\n    urn:eq");
    assert_eq!(vst("/a.so").listing(), "/a.so [vst2] /a.so");
    let mut e = vst("/a.so");
    e.label = "L".to_string();
    assert_eq!(e.listing(), "/a.so [vst2] /a.so (L)");
}
