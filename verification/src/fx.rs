//! Effects: the LV2 filter chain and the VST rack of each channel.

use vstd::prelude::*;
use vstd::string::StringExecFns;

use crate::config::{vst_on, ChannelConfig, EffectConfig, KeyedLevel, VstPluginConfig};
use crate::json;
use crate::json::{double_tree, int_tree, item_trees, json_value, member_trees, uint_tree, Json, JsonView};
use crate::level::{Level, ONE};
use crate::list::{first, first_is_at, first_is_least};
use crate::lv2::{Catalog, PluginInfo};
use crate::text;
use crate::text::{dec, dec_signed, is_white, occurs};
use crate::vst::VstFormat;

verus! {

/// The name of the sink that feeds a channel's filter chain.
pub open spec fn chain_sink(id: u64) -> Seq<char> {
    "Crossfade_Ch"@ + dec(id as nat) + "_FX"@
}

/// The name of the source that carries a filter chain's output.
pub open spec fn chain_source(id: u64) -> Seq<char> {
    "Crossfade_Ch"@ + dec(id as nat) + "_FXOut"@
}

/// The name of the null sink in front of a channel's VST rack.
pub open spec fn vstin_sink(id: u64) -> Seq<char> {
    "Crossfade_Ch"@ + dec(id as nat) + "_VSTIn"@
}

/// The name of a channel's VST rack on the audio graph.
pub open spec fn vst_node(id: u64) -> Seq<char> {
    "Crossfade_Ch"@ + dec(id as nat) + "_VST"@
}

/// A name made of a channel's id and an ending.
fn node_name(id: u64, ending: &str) -> (r: String)
    ensures
        r@ == "Crossfade_Ch"@ + dec(id as nat) + ending@,
{
    let mut s = text::numbered("Crossfade_Ch", id);
    s.append(ending);
    s
}

/// The sink that feeds a channel's filter chain.
pub fn chain_sink_name(id: u64) -> (r: String)
    ensures
        r@ == chain_sink(id),
{
    node_name(id, "_FX")
}

/// The source that carries a filter chain's output.
pub fn chain_source_name(id: u64) -> (r: String)
    ensures
        r@ == chain_source(id),
{
    node_name(id, "_FXOut")
}

/// The null sink in front of a channel's VST rack.
pub fn vstin_sink_name(id: u64) -> (r: String)
    ensures
        r@ == vstin_sink(id),
{
    node_name(id, "_VSTIn")
}

/// The name a channel's VST rack registers under.
pub fn vst_node_name(id: u64) -> (r: String)
    ensures
        r@ == vst_node(id),
{
    node_name(id, "_VST")
}

/// The label of an effect that handles both lanes itself.
pub open spec fn stereo_label(effect_id: u64) -> Seq<char> {
    "fx"@ + dec(effect_id as nat)
}

/// The label of an effect on the left lane.
pub open spec fn left_label(effect_id: u64) -> Seq<char> {
    "fx"@ + dec(effect_id as nat) + "_l"@
}

/// The label of an effect on the right lane.
pub open spec fn right_label(effect_id: u64) -> Seq<char> {
    "fx"@ + dec(effect_id as nat) + "_r"@
}

/// The labels of an effect in the filter graph.
pub open spec fn labels(effect_id: u64, mono: bool) -> Seq<Seq<char>> {
    if mono {
        seq![left_label(effect_id), right_label(effect_id)]
    } else {
        seq![stereo_label(effect_id)]
    }
}

/// Node labels inside the filter graph for one effect ("fx<id>", or one per
/// stereo lane when the plugin is mono and instantiated twice).
pub fn effect_labels(effect_id: u64, mono: bool) -> (r: Vec<String>)
    ensures
        r@.len() == labels(effect_id, mono).len(),
        forall|i: int| 0 <= i < r@.len() ==> (#[trigger] r@[i])@ == labels(effect_id, mono)[i],
{
    let mut v: Vec<String> = Vec::new();
    if mono {
        let mut left = text::numbered("fx", effect_id);
        left.append("_l");
        let mut right = text::numbered("fx", effect_id);
        right.append("_r");
        v.push(left);
        v.push(right);
    } else {
        v.push(text::numbered("fx", effect_id));
    }
    v
}

// ---- The filter chain -------------------------------------------------------

/// The characters of a node label or port symbol that need no quoting.
pub open spec fn token_char() -> spec_fn(char) -> bool {
    |c: char|
        {
            let n = c as u32;
            48 <= n <= 57 || 65 <= n <= 90 || 97 <= n <= 122 || c == '_' || c == '-' || c == '.'
        }
}

/// The characters of a URI that do not break quoting.
pub open spec fn uri_char() -> spec_fn(char) -> bool {
    |c: char| !is_white(c) && c != '"' && c != '\'' && c != '\\'
}

/// A label or symbol without what would break the graph's syntax.
pub fn sanitize_token(s: &str) -> (r: String)
    ensures
        r@ == s@.filter(token_char()),
        forall|i: int| 0 <= i < r@.len() ==> token_char()(#[trigger] r@[i]),
{
    proof {
        crate::list::filter_keeps(s@, token_char());
    }
    let keep = |c: char| -> (k: bool)
        ensures
            k == token_char()(c),
    {
        let n: u32 = c as u32;
        (n >= 48 && n <= 57) || (n >= 65 && n <= 90) || (n >= 97 && n <= 122) || c == '_' || c == '-' || c == '.'
    };
    text::keep_chars(s, keep, Ghost(token_char()))
}

/// A URI without what would break the graph's syntax.
pub fn sanitize_uri(s: &str) -> (r: String)
    ensures
        r@ == s@.filter(uri_char()),
        forall|i: int| 0 <= i < r@.len() ==> uri_char()(#[trigger] r@[i]),
{
    proof {
        crate::list::filter_keeps(s@, uri_char());
    }
    let keep = |c: char| -> (k: bool)
        ensures
            k == uri_char()(c),
    { !text::white(c) && c != '"' && c != '\'' && c != '\\' };
    text::keep_chars(s, keep, Ghost(uri_char()))
}

/// A setting of a control port.
pub open spec fn control_text(symbol: Seq<char>, value: Seq<char>) -> Seq<char> {
    "\""@ + symbol.filter(token_char()) + "\" = "@ + value + " "@
}

/// The first `n` settings of an effect, without those for ports the plugin
/// does not have.
pub open spec fn controls_text(e: EffectConfig, values: Seq<String>, info: PluginInfo, n: int) -> Seq<char>
    decreases n,
{
    if n <= 0 {
        Seq::empty()
    } else {
        let rest = controls_text(e, values, info, n - 1);
        if info.has_port(e.controls@[n - 1].key@) {
            rest + control_text(e.controls@[n - 1].key@, values[n - 1]@)
        } else {
            rest
        }
    }
}

/// The settings of an effect, as they stand in its node.
pub open spec fn control_block(e: EffectConfig, values: Seq<String>, info: PluginInfo) -> Seq<char> {
    let controls = controls_text(e, values, info, e.controls@.len() as int);
    if controls.len() == 0 {
        Seq::empty()
    } else {
        " control = { "@ + controls + "}"@
    }
}

/// A plugin instance in the graph.
pub open spec fn node_line(name: Seq<char>, uri: Seq<char>, block: Seq<char>) -> Seq<char> {
    "                    { type = lv2 name = \""@ + name + "\" plugin = \""@ + uri + "\""@ + block + " }\n"@
}

/// The plugin instances of an effect.
pub open spec fn effect_nodes(e: EffectConfig, values: Seq<String>, info: PluginInfo) -> Seq<char> {
    let uri = e.uri@.filter(uri_char());
    let block = control_block(e, values, info);
    if info.mono {
        node_line(left_label(e.id), uri, block) + node_line(right_label(e.id), uri, block)
    } else {
        node_line(stereo_label(e.id), uri, block)
    }
}

/// A port of a node.
pub open spec fn port(label: Seq<char>, symbol: Seq<char>) -> Seq<char> {
    label + ":"@ + symbol.filter(token_char())
}

/// Where a stage of the chain takes its two lanes in and hands them out.
pub struct StageView {
    pub in_l: Seq<char>,
    pub in_r: Seq<char>,
    pub out_l: Seq<char>,
    pub out_r: Seq<char>,
}

/// Where a stage of the chain takes its two lanes in and hands them out.
pub struct Stage {
    pub in_l: String,
    pub in_r: String,
    pub out_l: String,
    pub out_r: String,
}

impl View for Stage {
    type V = StageView;

    open spec fn view(&self) -> StageView {
        StageView { in_l: self.in_l@, in_r: self.in_r@, out_l: self.out_l@, out_r: self.out_r@ }
    }
}

/// Stages as plain values.
pub open spec fn stage_views(s: Seq<Stage>) -> Seq<StageView> {
    Seq::new(s.len(), |i: int| s[i]@)
}

/// The stage of an effect.
pub open spec fn effect_stage(e: EffectConfig, info: PluginInfo) -> StageView {
    if info.mono {
        StageView {
            in_l: port(left_label(e.id), info.audio_in@[0]@),
            in_r: port(right_label(e.id), info.audio_in@[0]@),
            out_l: port(left_label(e.id), info.audio_out@[0]@),
            out_r: port(right_label(e.id), info.audio_out@[0]@),
        }
    } else {
        StageView {
            in_l: port(stereo_label(e.id), info.audio_in@[0]@),
            in_r: port(stereo_label(e.id), info.audio_in@[1]@),
            out_l: port(stereo_label(e.id), info.audio_out@[0]@),
            out_r: port(stereo_label(e.id), info.audio_out@[1]@),
        }
    }
}

/// The plugin of an effect, where the effect is on and the plugin installed.
pub open spec fn active_plugin(e: EffectConfig, catalog: Option<Catalog>) -> Option<PluginInfo> {
    match catalog {
        Some(c) => if e.enabled && c.position(e.uri@) < c.plugins@.len() {
            Some(c.plugins@[c.position(e.uri@)])
        } else {
            None
        },
        None => None,
    }
}

/// The nodes of the first `n` effects. Effects whose plugin is not installed
/// are left out.
pub open spec fn nodes_text(
    effects: Seq<EffectConfig>,
    values: Seq<Vec<String>>,
    catalog: Option<Catalog>,
    n: int,
) -> Seq<char>
    decreases n,
{
    if n <= 0 {
        Seq::empty()
    } else {
        let rest = nodes_text(effects, values, catalog, n - 1);
        match active_plugin(effects[n - 1], catalog) {
            Some(info) => rest + effect_nodes(effects[n - 1], values[n - 1]@, info),
            None => rest,
        }
    }
}

/// The stages of the first `n` effects.
pub open spec fn stages(effects: Seq<EffectConfig>, catalog: Option<Catalog>, n: int) -> Seq<StageView>
    decreases n,
{
    if n <= 0 {
        Seq::empty()
    } else {
        let rest = stages(effects, catalog, n - 1);
        match active_plugin(effects[n - 1], catalog) {
            Some(info) => rest.push(effect_stage(effects[n - 1], info)),
            None => rest,
        }
    }
}

/// The stage that passes audio through unchanged.
pub open spec fn copy_stage() -> StageView {
    StageView { in_l: "copy_l:In"@, in_r: "copy_r:In"@, out_l: "copy_l:Out"@, out_r: "copy_r:Out"@ }
}

/// The nodes that pass audio through unchanged.
pub open spec fn copy_nodes() -> Seq<char> {
    "                    { type = builtin name = copy_l label = copy }\n                    { type = builtin name = copy_r label = copy }\n"@
}

/// A link of the graph.
pub open spec fn link_line(output: Seq<char>, input: Seq<char>) -> Seq<char> {
    "                    { output = \""@ + output + "\" input = \""@ + input + "\" }\n"@
}

/// The links among the first `n` stages: each feeds the next, lane by lane.
pub open spec fn links_text(s: Seq<StageView>, n: int) -> Seq<char>
    decreases n,
{
    if n <= 1 {
        Seq::empty()
    } else {
        links_text(s, n - 1) + link_line(s[n - 2].out_l, s[n - 1].in_l) + link_line(
            s[n - 2].out_r,
            s[n - 1].in_r,
        )
    }
}

/// The configuration file around the nodes and links.
pub open spec fn conf_text(id: u64, nodes: Seq<char>, s: Seq<StageView>) -> Seq<char> {
    CONF_HEAD@ + dec(id as nat) + " Effects\"\n            media.name       = \"Crossfade Channel "@ + dec(
        id as nat,
    ) + " Effects\"\n            filter.graph = {\n                nodes = [\n"@ + nodes
        + "                ]\n                links = [\n"@ + links_text(s, s.len() as int)
        + "                ]\n                inputs  = [ \""@ + s.first().in_l + "\" \""@ + s.first().in_r
        + "\" ]\n                outputs = [ \""@ + s.last().out_l + "\" \""@ + s.last().out_r
        + "\" ]\n            }\n            audio.channels = 2\n            audio.position = [ FL FR ]\n            capture.props = {\n                node.name           = \""@
        + chain_sink(id) + "\"\n                node.description    = \"Crossfade Ch "@ + dec(id as nat)
        + " FX (internal)\"\n                media.class         = Audio/Sink\n                state.restore-props = false\n            }\n            playback.props = {\n                node.name           = \""@
        + chain_source(id) + "\"\n                node.description    = \"Crossfade Ch "@ + dec(id as nat)
        + " FX Out (internal)\"\n                media.class         = Audio/Source\n                state.restore-props = false\n            }\n        }\n    }\n]\n"@
}

/// What every chain's configuration begins with.
pub const CONF_HEAD: &'static str = "# Generated by Crossfade; do not edit (rewritten on every change).\ncontext.properties = {\n    log.level = 2\n}\n\ncontext.spa-libs = {\n    audio.convert.* = audioconvert/libspa-audioconvert\n    support.*       = support/libspa-support\n}\n\ncontext.modules = [\n    { name = libpipewire-module-rt\n        args = { nice.level = -11 }\n        flags = [ ifexists nofail ]\n    }\n    { name = libpipewire-module-protocol-native }\n    { name = libpipewire-module-client-node }\n    { name = libpipewire-module-adapter }\n\n    { name = libpipewire-module-filter-chain\n        args = {\n            node.description = \"Crossfade Channel ";

/// The configuration of a channel's chain: its effects one after another, or
/// a pass-through where there are none to instantiate.
pub open spec fn chain_text(
    id: u64,
    cfg: ChannelConfig,
    values: Seq<Vec<String>>,
    catalog: Option<Catalog>,
) -> Seq<char> {
    let n = cfg.effects@.len() as int;
    let s = stages(cfg.effects@, catalog, n);
    if s.len() == 0 {
        conf_text(id, copy_nodes(), seq![copy_stage()])
    } else {
        conf_text(id, nodes_text(cfg.effects@, values, catalog, n), s)
    }
}

/// The settings of an effect, as they stand in its node.
fn controls_of(e: &EffectConfig, values: &Vec<String>, info: &PluginInfo) -> (r: String)
    requires
        values@.len() == e.controls@.len(),
    ensures
        r@ == control_block(*e, values@, *info),
{
    let mut controls = String::new();
    let mut i: usize = 0;
    while i < e.controls.len()
        invariant
            i <= e.controls@.len(),
            values@.len() == e.controls@.len(),
            controls@ == controls_text(*e, values@, *info, i as int),
        decreases e.controls@.len() - i,
    {
        let key = e.controls[i].key.as_str();
        if info.has_control(key) {
            let ghost before = controls@;
            let symbol = sanitize_token(key);
            controls.append("\"");
            controls.append(symbol.as_str());
            controls.append("\" = ");
            controls.append(values[i].as_str());
            controls.append(" ");
            assert(controls@ =~= before + control_text(key@, values@[i as int]@));
        }
        i = i + 1;
    }
    if controls.as_str().is_empty() {
        let r = String::new();
        r
    } else {
        let mut r = text::join(" control = { ", controls.as_str());
        r.append("}");
        r
    }
}

/// A plugin instance in the graph.
fn push_node(s: &mut String, name: &str, uri: &str, block: &str)
    ensures
        final(s)@ == old(s)@ + node_line(name@, uri@, block@),
{
    s.append("                    { type = lv2 name = \"");
    s.append(name);
    s.append("\" plugin = \"");
    s.append(uri);
    s.append("\"");
    s.append(block);
    s.append(" }\n");
    assert(s@ =~= old(s)@ + node_line(name@, uri@, block@));
}

/// A link of the graph.
fn push_link(s: &mut String, output: &str, input: &str)
    ensures
        final(s)@ == old(s)@ + link_line(output@, input@),
{
    s.append("                    { output = \"");
    s.append(output);
    s.append("\" input = \"");
    s.append(input);
    s.append("\" }\n");
    assert(s@ =~= old(s)@ + link_line(output@, input@));
}

/// A port of a node.
fn port_name(label: &str, symbol: &str) -> (r: String)
    ensures
        r@ == port(label@, symbol@),
{
    let mut s = text::join(label, ":");
    let t = sanitize_token(symbol);
    s.append(t.as_str());
    s
}

/// Add an effect's nodes to the graph and give its stage.
fn add_effect(nodes: &mut String, e: &EffectConfig, values: &Vec<String>, info: &PluginInfo) -> (r: Stage)
    requires
        values@.len() == e.controls@.len(),
        info.wf(),
    ensures
        final(nodes)@ == old(nodes)@ + effect_nodes(*e, values@, *info),
        r@ == effect_stage(*e, *info),
{
    let ghost before = nodes@;
    let uri = sanitize_uri(e.uri.as_str());
    let block = controls_of(e, values, info);
    if info.is_mono() {
        let mut l = text::numbered("fx", e.id);
        l.append("_l");
        let mut r = text::numbered("fx", e.id);
        r.append("_r");
        push_node(nodes, l.as_str(), uri.as_str(), block.as_str());
        push_node(nodes, r.as_str(), uri.as_str(), block.as_str());
        assert(nodes@ =~= before + effect_nodes(*e, values@, *info));
        Stage {
            in_l: port_name(l.as_str(), info.audio_in[0].as_str()),
            in_r: port_name(r.as_str(), info.audio_in[0].as_str()),
            out_l: port_name(l.as_str(), info.audio_out[0].as_str()),
            out_r: port_name(r.as_str(), info.audio_out[0].as_str()),
        }
    } else {
        let n = text::numbered("fx", e.id);
        push_node(nodes, n.as_str(), uri.as_str(), block.as_str());
        Stage {
            in_l: port_name(n.as_str(), info.audio_in[0].as_str()),
            in_r: port_name(n.as_str(), info.audio_in[1].as_str()),
            out_l: port_name(n.as_str(), info.audio_out[0].as_str()),
            out_r: port_name(n.as_str(), info.audio_out[1].as_str()),
        }
    }
}

/// The links among the stages.
fn links_of(s: &Vec<Stage>) -> (r: String)
    ensures
        r@ == links_text(stage_views(s@), s@.len() as int),
{
    let ghost v = stage_views(s@);
    let mut links = String::new();
    if s.len() == 0 {
        return links;
    }
    let mut i: usize = 1;
    while i < s.len()
        invariant
            1 <= i <= s@.len(),
            v == stage_views(s@),
            links@ == links_text(v, i as int),
        decreases s@.len() - i,
    {
        push_link(&mut links, s[i - 1].out_l.as_str(), s[i].in_l.as_str());
        push_link(&mut links, s[i - 1].out_r.as_str(), s[i].in_r.as_str());
        i = i + 1;
    }
    links
}

/// The configuration file around the nodes and stages.
fn assemble(id: u64, nodes: &str, s: &Vec<Stage>) -> (r: String)
    requires
        s@.len() > 0,
    ensures
        r@ == conf_text(id, nodes@, stage_views(s@)),
{
    let links = links_of(s);
    let sink = chain_sink_name(id);
    let source = chain_source_name(id);
    let n: usize = s.len();
    let mut t = text::numbered(CONF_HEAD, id);
    t.append(" Effects\"\n            media.name       = \"Crossfade Channel ");
    text::push_decimal(&mut t, id);
    t.append(" Effects\"\n            filter.graph = {\n                nodes = [\n");
    t.append(nodes);
    t.append("                ]\n                links = [\n");
    t.append(links.as_str());
    t.append("                ]\n                inputs  = [ \"");
    t.append(s[0].in_l.as_str());
    t.append("\" \"");
    t.append(s[0].in_r.as_str());
    t.append("\" ]\n                outputs = [ \"");
    t.append(s[n - 1].out_l.as_str());
    t.append("\" \"");
    t.append(s[n - 1].out_r.as_str());
    t.append(
        "\" ]\n            }\n            audio.channels = 2\n            audio.position = [ FL FR ]\n            capture.props = {\n                node.name           = \"",
    );
    t.append(sink.as_str());
    t.append("\"\n                node.description    = \"Crossfade Ch ");
    text::push_decimal(&mut t, id);
    t.append(
        " FX (internal)\"\n                media.class         = Audio/Sink\n                state.restore-props = false\n            }\n            playback.props = {\n                node.name           = \"",
    );
    t.append(source.as_str());
    t.append("\"\n                node.description    = \"Crossfade Ch ");
    text::push_decimal(&mut t, id);
    t.append(
        " FX Out (internal)\"\n                media.class         = Audio/Source\n                state.restore-props = false\n            }\n        }\n    }\n]\n",
    );
    t
}

/// What a channel's chain is to run, if it is to have one.
pub open spec fn conf_given(id: u64, cfg: ChannelConfig, values: Seq<Vec<String>>, catalog: Option<&Catalog>, r: Option<String>) -> bool {
    &&& r is Some <==> cfg.has_fx()
    &&& r is Some ==> r->0@ == chain_text(
        id,
        cfg,
        values,
        match catalog {
            Some(c) => Some(*c),
            None => None,
        },
    )
}

/// Build the `pipewire -c` configuration hosting this channel's filter
/// chain. Returns None when the channel needs no chain at all. `values` holds
/// the control values of each effect as decimal text.
pub fn chain_conf(id: u64, cfg: &ChannelConfig, values: &Vec<Vec<String>>, catalog: Option<&Catalog>) -> (r:
    Option<String>)
    requires
        values@.len() == cfg.effects@.len(),
        forall|i: int|
            0 <= i < values@.len() ==> (#[trigger] values@[i])@.len() == cfg.effects@[i].controls@.len(),
        catalog is Some ==> catalog->0.wf(),
    ensures
        conf_given(id, *cfg, values@, catalog, r),
{
    if !cfg.fx_active() {
        return None;
    }
    let ghost cat = match catalog {
        Some(c) => Some(*c),
        None => None,
    };
    let mut nodes = String::new();
    let mut list: Vec<Stage> = Vec::new();
    assert(stage_views(list@) =~= Seq::<StageView>::empty());
    let mut i: usize = 0;
    while i < cfg.effects.len()
        invariant
            i <= cfg.effects@.len(),
            values@.len() == cfg.effects@.len(),
            forall|i: int|
                0 <= i < values@.len() ==> (#[trigger] values@[i])@.len() == cfg.effects@[i].controls@.len(),
            catalog is Some ==> catalog->0.wf(),
            cat == match catalog {
                Some(c) => Some(*c),
                None => None,
            },
            nodes@ == nodes_text(cfg.effects@, values@, cat, i as int),
            stage_views(list@) == stages(cfg.effects@, cat, i as int),
        decreases cfg.effects@.len() - i,
    {
        let e = &cfg.effects[i];
        if e.enabled {
            if let Some(c) = catalog {
                if let Some(info) = c.find(e.uri.as_str()) {
                    let stage = add_effect(&mut nodes, e, &values[i], info);
                    let ghost before = list@;
                    let ghost v = stage@;
                    list.push(stage);
                    assert(stage_views(list@) =~= stage_views(before).push(v));
                }
            }
        }
        i = i + 1;
    }
    if list.len() == 0 {
        nodes = text::copy(
            "                    { type = builtin name = copy_l label = copy }\n                    { type = builtin name = copy_r label = copy }\n",
        );
        list.push(
            Stage {
                in_l: text::copy("copy_l:In"),
                in_r: text::copy("copy_r:In"),
                out_l: text::copy("copy_l:Out"),
                out_r: text::copy("copy_r:Out"),
            },
        );
        assert(stage_views(list@) =~= seq![copy_stage()]);
    }
    Some(assemble(id, nodes.as_str(), &list))
}

// ---- Helper processes -------------------------------------------------------

/// What a helper process reports.
#[derive(Clone, Debug, PartialEq, Eq)]
pub enum FxEvent {
    /// The chain process for a channel exited without being asked to.
    ChainDied(u64),
    /// The VST host helper for a channel exited (crash) or never became
    /// linkable.
    VstHostDied(u64),
    /// A protocol line arrived from a channel's VST host helper; it goes to
    /// `FxManager::handle_vst_reply`.
    VstReply(u64, String),
}

/// One parameter of a loaded VST plugin, as reported by the helper.
#[derive(Clone, Debug, PartialEq, Eq)]
pub struct VstParamInfo {
    pub index: u32,
    pub name: String,
    pub min: Level,
    pub max: Level,
    pub value: Level,
    pub toggled: bool,
    pub integer: bool,
}

#[derive(Clone, Debug, PartialEq, Eq)]
pub enum VstState {
    Loading,
    Loaded,
    Failed(String),
}

/// Runtime info for one configured VST plugin, from which parameter rows are
/// rendered.
#[derive(Clone, Debug, PartialEq, Eq)]
pub struct VstRuntime {
    pub cfg_id: u64,
    pub state: VstState,
    /// The plugin ships its own editor window.
    pub has_ui: bool,
    pub params: Vec<VstParamInfo>,
}

/// A parameter edit: plugin, parameter index and value.
#[derive(Clone, Copy, Debug, PartialEq, Eq, Structural)]
pub struct ParamEdit {
    pub cfg_id: u64,
    pub index: u32,
    pub value: Level,
}

/// What a helper protocol line amounted to.
#[derive(Clone, Debug, PartialEq, Eq)]
pub struct VstReplyOutcome {
    /// Plugin load results arrived; the effects dialog should refresh.
    pub structure_changed: bool,
    /// Parameter edits made in a plugin's native UI. The caller persists these
    /// into the channel config.
    pub params: Vec<ParamEdit>,
}

/// A helper process.
#[derive(Clone, Copy, Debug, PartialEq, Eq, Structural)]
pub struct Slot {
    /// Which start of a process this is; no two are the same. The system may
    /// give a pid again once its process is gone.
    pub run: u64,
    pub pid: i32,
    pub alive: bool,
    /// Set when the process died shortly after spawning (bad plugin, bad
    /// conf) so callers stop waiting for its nodes.
    pub failed: bool,
}

impl Slot {
    pub open spec fn is_running(self) -> bool {
        self.alive && !self.failed
    }

    /// The process to terminate, if it still lives.
    pub open spec fn victim(self) -> Option<i32> {
        if self.alive {
            Some(self.pid)
        } else {
            None
        }
    }

    /// The slot after its process died, within its first seconds or later.
    pub open spec fn dead(self, quick: bool) -> Slot {
        Slot { alive: false, failed: self.failed || quick, ..self }
    }

    pub fn running(&self) -> (r: bool)
        ensures
            r == self.is_running(),
    {
        self.alive && !self.failed
    }

    /// The process to terminate, if it still lives.
    pub fn kill(&self) -> (r: Option<i32>)
        ensures
            r == self.victim(),
    {
        if self.alive {
            Some(self.pid)
        } else {
            None
        }
    }
}

/// The process that runs a channel's filter chain.
#[derive(Clone, Debug, PartialEq, Eq)]
pub struct ChainSlot {
    pub id: u64,
    pub slot: Slot,
    pub conf: String,
    /// Consecutive quick deaths with this exact conf; at 2 we stop
    /// respawning so a plugin that crashes on load can't cause a loop.
    pub fails: u32,
}

/// The process that hosts a channel's VST rack.
#[derive(Clone, Debug, PartialEq, Eq)]
pub struct VstSlot {
    pub id: u64,
    pub slot: Slot,
    /// Signature of the enabled plugin set the helper was started with;
    /// a different set means respawn.
    pub desc: String,
    pub runtime: Vec<VstRuntime>,
    /// Consecutive quick deaths with this plugin set; at 2 we stop
    /// respawning so a crashing plugin can't cause a loop.
    pub fails: u32,
}

/// The helper processes of all channels.
#[derive(Clone, Debug, PartialEq, Eq)]
pub struct FxManager {
    pub chains: Vec<ChainSlot>,
    pub vsts: Vec<VstSlot>,
    /// The run of the next process.
    pub next_run: u64,
}

/// What keeping a channel's chain in line asks for.
#[derive(Clone, Copy, Debug, PartialEq, Eq, Structural)]
pub struct ChainStep {
    /// The process to terminate.
    pub kill: Option<i32>,
    /// Start the chain, after that many quick deaths with this conf.
    pub start: Option<u32>,
}

/// What keeping a channel's VST rack in line asks for.
#[derive(Clone, Debug, PartialEq, Eq)]
pub enum VstStep {
    /// No plugin is enabled.
    Off { kill: Option<i32> },
    /// The helper runs already.
    Running,
    /// The plugin set is known to crash: wire without the rack.
    KnownBad,
    /// Start the helper for this plugin set.
    Start { kill: Option<i32>, desc: String, fails: u32 },
}

/// The chain of a channel.
pub open spec fn chain_is(id: u64) -> spec_fn(ChainSlot) -> bool {
    |c: ChainSlot| c.id == id
}

/// The rack of a channel.
pub open spec fn rack_is(id: u64) -> spec_fn(VstSlot) -> bool {
    |c: VstSlot| c.id == id
}

/// The chain that lives in a run.
pub open spec fn chain_run(run: u64) -> spec_fn(ChainSlot) -> bool {
    |c: ChainSlot| c.slot.alive && c.slot.run == run
}

/// The rack that lives in a run.
pub open spec fn rack_run(run: u64) -> spec_fn(VstSlot) -> bool {
    |c: VstSlot| c.slot.alive && c.slot.run == run
}

/// The slots of chains.
pub open spec fn chain_slots(s: Seq<ChainSlot>) -> Seq<Slot> {
    Seq::new(s.len(), |i: int| s[i].slot)
}

/// The slots of racks.
pub open spec fn rack_slots(s: Seq<VstSlot>) -> Seq<Slot> {
    Seq::new(s.len(), |i: int| s[i].slot)
}

/// The processes that still live, one for each slot, in their order.
pub open spec fn victims(s: Seq<Slot>) -> Seq<i32>
    decreases s.len(),
{
    if s.len() == 0 {
        Seq::empty()
    } else {
        match s.last().victim() {
            Some(p) => victims(s.drop_last()).push(p),
            None => victims(s.drop_last()),
        }
    }
}

/// A list after its element at a position was removed, if there is one.
pub open spec fn cut<T>(s: Seq<T>, i: int) -> Seq<T> {
    if 0 <= i < s.len() {
        s.remove(i)
    } else {
        s
    }
}

/// A list after an element was put at a position, or at the end.
pub open spec fn put<T>(s: Seq<T>, i: int, x: T) -> Seq<T> {
    if 0 <= i < s.len() {
        s.update(i, x)
    } else {
        s.push(x)
    }
}

/// A text that may be missing, as plain values.
pub open spec fn seen(s: Option<&str>) -> Option<Seq<char>> {
    match s {
        Some(s) => Some(s@),
        None => None,
    }
}

/// A character of a text in a signature: those that separate its parts are
/// written as two others.
pub open spec fn escaped_char(c: char) -> Seq<char> {
    if c == '\x1f' {
        seq!['\x1e', 'f']
    } else if c == '\x1e' {
        seq!['\x1e', 'e']
    } else {
        seq![c]
    }
}

/// A text in a signature.
pub open spec fn escaped(s: Seq<char>) -> Seq<char>
    decreases s.len(),
{
    if s.len() == 0 {
        Seq::empty()
    } else {
        escaped_char(s[0]) + escaped(s.skip(1))
    }
}

/// The signature of one plugin.
pub open spec fn plugin_sign(p: VstPluginConfig) -> Seq<char> {
    dec(p.id as nat) + "\x1f"@ + escaped(p.path@) + "\x1f"@ + escaped(p.label@) + "\x1f"@ + dec_signed(
        p.unique_id as int,
    ) + "\x1f"@ + p.format.key()
}

/// The signature of the first `n` plugins of a set.
pub open spec fn set_sign(s: Seq<VstPluginConfig>, n: int) -> Seq<char>
    decreases n,
{
    if n <= 0 {
        Seq::empty()
    } else if n == 1 {
        plugin_sign(s[0])
    } else {
        set_sign(s, n - 1) + "\x1e"@ + plugin_sign(s[n - 1])
    }
}

/// The signature of a channel's enabled plugins.
pub open spec fn rack_sign(cfg: ChannelConfig) -> Seq<char> {
    let on = cfg.vst_plugins@.filter(vst_on());
    set_sign(on, on.len() as int)
}

/// The command that sets a control port on a live chain.
pub open spec fn set_param_text(channel: u64, entries: Seq<char>) -> Seq<char> {
    "pw-cli set-param "@ + chain_sink(channel) + " Props '{ params = [ "@ + entries + "] }'"@
}

/// The settings of a port on the first `n` of some nodes.
pub open spec fn param_entries(labels: Seq<String>, symbol: Seq<char>, value: Seq<char>, n: int) -> Seq<char>
    decreases n,
{
    if n <= 0 {
        Seq::empty()
    } else {
        param_entries(labels, symbol, value, n - 1) + "\""@ + labels[n - 1]@.filter(token_char()) + ":"@
            + symbol.filter(token_char()) + "\" "@ + value + " "@
    }
}

/// The commands that wire the null sink in front of a rack to the rack, and
/// the rack to its chain.
pub open spec fn link_script_text(id: u64) -> Seq<char> {
    let vstin = vstin_sink(id);
    let vst = vst_node(id);
    let sink = chain_sink(id);
    "pw-link '"@ + vstin + ":monitor_FL' '"@ + vst + ":audio-in1' 2>&1; pw-link '"@ + vstin
        + ":monitor_FR' '"@ + vst + ":audio-in2' 2>&1; pw-link '"@ + vst + ":audio-out1' '"@ + sink
        + ":playback_FL' 2>&1; pw-link '"@ + vst + ":audio-out2' '"@ + sink + ":playback_FR' 2>&1; exit 0"@
}

/// The commands that wire a channel's VST rack.
pub fn link_script(id: u64) -> (r: String)
    ensures
        r@ == link_script_text(id),
{
    let vstin = vstin_sink_name(id);
    let vst = vst_node_name(id);
    let sink = chain_sink_name(id);
    let mut s = text::join("pw-link '", vstin.as_str());
    s.append(":monitor_FL' '");
    s.append(vst.as_str());
    s.append(":audio-in1' 2>&1; pw-link '");
    s.append(vstin.as_str());
    s.append(":monitor_FR' '");
    s.append(vst.as_str());
    s.append(":audio-in2' 2>&1; pw-link '");
    s.append(vst.as_str());
    s.append(":audio-out1' '");
    s.append(sink.as_str());
    s.append(":playback_FL' 2>&1; pw-link '");
    s.append(vst.as_str());
    s.append(":audio-out2' '");
    s.append(sink.as_str());
    s.append(":playback_FR' 2>&1; exit 0");
    s
}

/// What to do at a tick of the poll that wires a rack.
#[derive(Clone, Copy, Debug, PartialEq, Eq, Structural)]
pub enum LinkStep {
    /// Stop polling.
    Stop,
    /// The rack never became linkable: give it up.
    GiveUp,
    /// Run the link commands.
    Try,
}

/// How often linking is tried.
pub const MAX_LINK_TRIES: u32 = 40;

/// What is next while a rack is being linked.
pub open spec fn linked_on(cancelled: bool, done: bool, alive: bool, tries: u32, r: LinkStep) -> bool {
    r == if cancelled || done || !alive {
        LinkStep::Stop
    } else if tries >= MAX_LINK_TRIES {
        LinkStep::GiveUp
    } else {
        LinkStep::Try
    }
}

/// Keep trying to wire a rack until its ports exist. `tries` counts the
/// attempts before this one.
pub fn link_step(cancelled: bool, done: bool, alive: bool, tries: u32) -> (r: LinkStep)
    ensures
        linked_on(cancelled, done, alive, tries, r),
{
    if cancelled || done || !alive {
        LinkStep::Stop
    } else if tries >= MAX_LINK_TRIES {
        LinkStep::GiveUp
    } else {
        LinkStep::Try
    }
}

/// Whether the output of the link commands means that all links are up. An
/// existing link counts; only a missing node does not.
pub fn links_up(output: &str) -> (r: bool)
    ensures
        r == !occurs(output@, "No such object"@),
{
    !text::contains(output, "No such object")
}

/// Where an element stood before the one at a position was removed.
spec fn before_cut(p: int, i: int) -> int {
    if i < p {
        i
    } else {
        i + 1
    }
}

/// Removing slots keeps a manager well-formed.
proof fn cut_keeps_wf(before: FxManager, after: FxManager, p: int, q: int)
    requires
        before.wf(),
        p >= 0,
        q >= 0,
        after.chains@ == cut(before.chains@, p),
        after.vsts@ == cut(before.vsts@, q),
        after.next_run == before.next_run,
    ensures
        after.wf(),
{
    assert forall|i: int| 0 <= i < after.chains@.len() implies #[trigger] after.chains@[i]
        == before.chains@[before_cut(p, i)] by {}
    assert forall|i: int| 0 <= i < after.vsts@.len() implies #[trigger] after.vsts@[i]
        == before.vsts@[before_cut(q, i)] by {}
}

/// A newly started chain keeps a manager well-formed.
proof fn put_chain_keeps_wf(before: FxManager, after: FxManager, c: ChainSlot)
    requires
        before.wf(),
        before.next_run < u64::MAX,
        c.slot.run == before.next_run,
        after.chains@ == put(before.chains@, before.chain_at(c.id), c),
        after.vsts@ == before.vsts@,
        after.next_run == before.next_run + 1,
    ensures
        after.wf(),
{
    let s = before.chains@;
    let p = before.chain_at(c.id);
    first_is_least(s, chain_is(c.id));
    assert forall|i: int, j: int| 0 <= i < j < after.chains@.len() implies {
        &&& (#[trigger] after.chains@[i]).id != (#[trigger] after.chains@[j]).id
        &&& after.chains@[i].slot.run != after.chains@[j].slot.run
    } by {
        if i < s.len() && j < s.len() {
            assert(s[i].id != s[j].id);
        } else {
            assert(!chain_is(c.id)(s[i]));
        }
    }
}

/// A newly started rack keeps a manager well-formed.
proof fn put_rack_keeps_wf(before: FxManager, after: FxManager, c: VstSlot)
    requires
        before.wf(),
        before.next_run < u64::MAX,
        c.slot.run == before.next_run,
        after.vsts@ == put(before.vsts@, before.rack_at(c.id), c),
        after.chains@ == before.chains@,
        after.next_run == before.next_run + 1,
    ensures
        after.wf(),
{
    let s = before.vsts@;
    let p = before.rack_at(c.id);
    first_is_least(s, rack_is(c.id));
    assert forall|i: int, j: int| 0 <= i < j < after.vsts@.len() implies {
        &&& (#[trigger] after.vsts@[i]).id != (#[trigger] after.vsts@[j]).id
        &&& after.vsts@[i].slot.run != after.vsts@[j].slot.run
    } by {
        if i < s.len() && j < s.len() {
            assert(s[i].id != s[j].id);
        } else {
            assert(!rack_is(c.id)(s[i]));
        }
    }
}

/// A manager stays well-formed while its slots keep their channels and runs.
proof fn same_slots_keep_wf(before: FxManager, after: FxManager)
    requires
        before.wf(),
        after.next_run == before.next_run,
        after.chains@.len() == before.chains@.len(),
        after.vsts@.len() == before.vsts@.len(),
        forall|i: int|
            0 <= i < before.chains@.len() ==> (#[trigger] after.chains@[i]).id == before.chains@[i].id
                && after.chains@[i].slot.run == before.chains@[i].slot.run,
        forall|i: int|
            0 <= i < before.vsts@.len() ==> (#[trigger] after.vsts@[i]).id == before.vsts@[i].id
                && after.vsts@[i].slot.run == before.vsts@[i].slot.run,
    ensures
        after.wf(),
{
    assert forall|i: int, j: int| 0 <= i < j < after.chains@.len() implies {
        &&& (#[trigger] after.chains@[i]).id != (#[trigger] after.chains@[j]).id
        &&& after.chains@[i].slot.run != after.chains@[j].slot.run
    } by {
        assert(before.chains@[i].id != before.chains@[j].id);
    }
    assert forall|i: int, j: int| 0 <= i < j < after.vsts@.len() implies {
        &&& (#[trigger] after.vsts@[i]).id != (#[trigger] after.vsts@[j]).id
        &&& after.vsts@[i].slot.run != after.vsts@[j].slot.run
    } by {
        assert(before.vsts@[i].id != before.vsts@[j].id);
    }
    assert forall|i: int, j: int| 0 <= i < after.chains@.len() && 0 <= j < after.vsts@.len() implies (
    #[trigger] after.chains@[i]).slot.run != (#[trigger] after.vsts@[j]).slot.run by {
        assert(before.chains@[i].slot.run != before.vsts@[j].slot.run);
    }
}

impl FxManager {
    /// Every channel has one chain and one rack at most, and every process its
    /// own run.
    pub open spec fn wf(self) -> bool {
        &&& forall|i: int, j: int|
            0 <= i < j < self.chains@.len() ==> {
                &&& (#[trigger] self.chains@[i]).id != (#[trigger] self.chains@[j]).id
                &&& self.chains@[i].slot.run != self.chains@[j].slot.run
            }
        &&& forall|i: int, j: int|
            0 <= i < j < self.vsts@.len() ==> {
                &&& (#[trigger] self.vsts@[i]).id != (#[trigger] self.vsts@[j]).id
                &&& self.vsts@[i].slot.run != self.vsts@[j].slot.run
            }
        &&& forall|i: int| 0 <= i < self.chains@.len() ==> (#[trigger] self.chains@[i]).slot.run < self.next_run
        &&& forall|i: int| 0 <= i < self.vsts@.len() ==> (#[trigger] self.vsts@[i]).slot.run < self.next_run
        &&& forall|i: int, j: int|
            0 <= i < self.chains@.len() && 0 <= j < self.vsts@.len() ==> (#[trigger] self.chains@[i]).slot.run != (
            #[trigger] self.vsts@[j]).slot.run
    }

    /// The position of a channel's chain.
    pub open spec fn chain_at(self, id: u64) -> int {
        first(self.chains@, chain_is(id))
    }

    /// The position of a channel's rack.
    pub open spec fn rack_at(self, id: u64) -> int {
        first(self.vsts@, rack_is(id))
    }

    /// Whether a channel's chain is up.
    pub open spec fn chain_up(self, id: u64) -> bool {
        self.chain_at(id) < self.chains@.len() && self.chains@[self.chain_at(id)].slot.is_running()
    }

    /// Whether a channel's rack is up.
    pub open spec fn rack_up(self, id: u64) -> bool {
        self.rack_at(id) < self.vsts@.len() && self.vsts@[self.rack_at(id)].slot.is_running()
    }

    /// The process of a channel's chain, if it lives.
    pub open spec fn chain_victim(self, id: u64) -> Option<i32> {
        if self.chain_at(id) < self.chains@.len() {
            self.chains@[self.chain_at(id)].slot.victim()
        } else {
            None
        }
    }

    /// The process of a channel's rack, if it lives.
    pub open spec fn rack_victim(self, id: u64) -> Option<i32> {
        if self.rack_at(id) < self.vsts@.len() {
            self.vsts@[self.rack_at(id)].slot.victim()
        } else {
            None
        }
    }

    /// No helper runs.
    pub fn new() -> (r: FxManager)
        ensures
            r.chains@.len() == 0,
            r.vsts@.len() == 0,
            r.next_run == 0,
            r.wf(),
    {
        FxManager { chains: Vec::new(), vsts: Vec::new(), next_run: 0 }
    }

    fn find_chain(&self, id: u64) -> (r: usize)
        ensures
            r == self.chain_at(id),
            r <= self.chains@.len(),
            r < self.chains@.len() ==> self.chains@[r as int].id == id,
    {
        let mut i: usize = 0;
        while i < self.chains.len() && self.chains[i].id != id
            invariant
                i <= self.chains@.len(),
                forall|j: int| 0 <= j < i ==> !chain_is(id)(#[trigger] self.chains@[j]),
            decreases self.chains@.len() - i,
        {
            i = i + 1;
        }
        proof {
            first_is_at(self.chains@, chain_is(id), i as int);
        }
        i
    }

    fn find_rack(&self, id: u64) -> (r: usize)
        ensures
            r == self.rack_at(id),
            r <= self.vsts@.len(),
            r < self.vsts@.len() ==> self.vsts@[r as int].id == id,
    {
        let mut i: usize = 0;
        while i < self.vsts.len() && self.vsts[i].id != id
            invariant
                i <= self.vsts@.len(),
                forall|j: int| 0 <= j < i ==> !rack_is(id)(#[trigger] self.vsts@[j]),
            decreases self.vsts@.len() - i,
        {
            i = i + 1;
        }
        proof {
            first_is_at(self.vsts@, rack_is(id), i as int);
        }
        i
    }

    /// Whether a chain must be left as it is: it runs this conf already, or the
    /// conf is known to crash.
    pub open spec fn keeps_chain(self, id: u64, conf: Seq<char>) -> bool {
        let c = self.chains@[self.chain_at(id)];
        &&& self.chain_at(id) < self.chains@.len()
        &&& c.conf@ == conf
        &&& c.slot.is_running() || (c.slot.failed && c.fails >= 1)
    }

    /// How many quick deaths this conf has behind it.
    pub open spec fn chain_fails(self, id: u64, conf: Seq<char>) -> u32 {
        let c = self.chains@[self.chain_at(id)];
        if self.chain_at(id) < self.chains@.len() && c.conf@ == conf && c.slot.failed {
            1
        } else {
            0
        }
    }

    /// What keeping a channel's chain in line asks for and leaves behind.
    pub open spec fn chain_ensured(self, id: u64, conf: Option<Seq<char>>, r: ChainStep, new: FxManager) -> bool {
        let keep = conf is Some && self.keeps_chain(id, conf->0);
        &&& r.kill == if keep {
            None
        } else {
            self.chain_victim(id)
        }
        &&& r.start == if keep || conf is None {
            None
        } else {
            Some(self.chain_fails(id, conf->0))
        }
        &&& new.chains@ == if keep {
            self.chains@
        } else {
            cut(self.chains@, self.chain_at(id))
        }
        &&& new == (FxManager { chains: new.chains, ..self })
    }

    /// Make sure the chain process for this channel runs `conf` (respawning
    /// on content changes), or kill it when `conf` is None. A dead slot of a
    /// known-bad conf stays as a marker.
    pub fn ensure_chain(&mut self, id: u64, conf: Option<&str>) -> (r: ChainStep)
        ensures
            old(self).chain_ensured(id, seen(conf), r, *final(self)),
            old(self).wf() ==> final(self).wf(),
    {
        let i = self.find_chain(id);
        let mut fails: u32 = 0;
        if i < self.chains.len() {
            if let Some(conf) = conf {
                let c = &self.chains[i];
                if text::same(c.conf.as_str(), conf) {
                    if c.slot.running() {
                        return ChainStep { kill: None, start: None };
                    }
                    if c.slot.failed {
                        if c.fails >= 1 {
                            return ChainStep { kill: None, start: None };
                        }
                        fails = 1;
                    }
                }
            }
        }
        let mut kill = None;
        if i < self.chains.len() {
            kill = self.chains[i].slot.kill();
            self.chains.remove(i);
        }
        proof {
            assert(self.vsts@ == cut(old(self).vsts@, old(self).vsts@.len() as int));
            if old(self).wf() {
                cut_keeps_wf(*old(self), *self, i as int, old(self).vsts@.len() as int);
            }
        }
        let start = match conf {
            Some(_) => Some(fails),
            None => None,
        };
        ChainStep { kill, start }
    }

    /// What is left behind when a channel's chain process was started.
    pub open spec fn chain_begun(self, id: u64, conf: Seq<char>, fails: u32, pid: i32, new: FxManager) -> bool {
        let p = self.chain_at(id);
        let c = new.chains@[p];
        &&& c.id == id
        &&& c.slot == (Slot { run: self.next_run, pid, alive: true, failed: false })
        &&& c.conf@ == conf
        &&& c.fails == fails
        &&& new.chains@ == put(self.chains@, p, c)
        &&& new == (FxManager { chains: new.chains, next_run: (self.next_run + 1) as u64, ..self })
    }

    /// The chain process was started. Gives its run, under which its exit is
    /// to be reported.
    pub fn chain_started(&mut self, id: u64, conf: String, fails: u32, pid: i32) -> (run: u64)
        requires
            old(self).next_run < u64::MAX,
        ensures
            run == old(self).next_run,
            old(self).chain_begun(id, conf@, fails, pid, *final(self)),
            old(self).wf() ==> final(self).wf(),
    {
        let i = self.find_chain(id);
        let run: u64 = self.next_run;
        let c = ChainSlot { id, slot: Slot { run, pid, alive: true, failed: false }, conf, fails };
        if i < self.chains.len() {
            self.chains[i] = c;
        } else {
            self.chains.push(c);
        }
        self.next_run = run + 1;
        proof {
            first_is_least(old(self).chains@, chain_is(id));
            if old(self).wf() {
                put_chain_keeps_wf(*old(self), *self, c);
            }
        }
        run
    }

    /// Whether a channel's chain runs.
    pub fn chain_running(&self, id: u64) -> (r: bool)
        ensures
            r == self.chain_up(id),
    {
        let i = self.find_chain(id);
        i < self.chains.len() && self.chains[i].slot.running()
    }

    /// The chain is not there (any more); callers waiting for its nodes
    /// should wire the channel without it.
    pub fn chain_failed(&self, id: u64) -> (r: bool)
        ensures
            r == !self.chain_up(id),
    {
        !self.chain_running(id)
    }

    /// What sets a control on the live chain of a channel.
    pub open spec fn control_set(self, channel: u64, labels: Seq<String>, symbol: Seq<char>, value: Seq<char>, r: Option<String>) -> bool {
        &&& r is Some <==> self.chain_up(channel)
        &&& r is Some ==> r->0@ == set_param_text(
            channel,
            param_entries(labels, symbol, value, labels.len() as int),
        )
    }

    /// The command that applies a control-port value to the live chain of a
    /// channel; none while no chain runs.
    pub fn set_controls(&self, channel: u64, labels: &Vec<String>, symbol: &str, value: &str) -> (r: Option<
        String,
    >)
        ensures
            self.control_set(channel, labels@, symbol@, value@, r),
    {
        if !self.chain_running(channel) {
            return None;
        }
        let ghost raw = symbol@;
        let symbol = sanitize_token(symbol);
        let mut entries = String::new();
        let mut i: usize = 0;
        while i < labels.len()
            invariant
                i <= labels@.len(),
                symbol@ == raw.filter(token_char()),
                entries@ == param_entries(labels@, raw, value@, i as int),
            decreases labels@.len() - i,
        {
            let label = sanitize_token(labels[i].as_str());
            entries.append("\"");
            entries.append(label.as_str());
            entries.append(":");
            entries.append(symbol.as_str());
            entries.append("\" ");
            entries.append(value);
            entries.append(" ");
            i = i + 1;
        }
        let node = chain_sink_name(channel);
        let mut cmd = text::join("pw-cli set-param ", node.as_str());
        cmd.append(" Props '{ params = [ ");
        cmd.append(entries.as_str());
        cmd.append("] }'");
        Some(cmd)
    }

    /// Whether a channel's rack runs.
    pub fn vst_running(&self, id: u64) -> (r: bool)
        ensures
            r == self.rack_up(id),
    {
        let i = self.find_rack(id);
        i < self.vsts.len() && self.vsts[i].slot.running()
    }

    /// What dropping a channel's rack asks for and leaves behind.
    pub open spec fn rack_dropped(self, id: u64, r: Option<i32>, new: FxManager) -> bool {
        &&& r == self.rack_victim(id)
        &&& new.vsts@ == cut(self.vsts@, self.rack_at(id))
        &&& new == (FxManager { vsts: new.vsts, ..self })
    }

    /// Drop a channel's rack; gives the process to terminate.
    pub fn kill_vst(&mut self, id: u64) -> (r: Option<i32>)
        ensures
            old(self).rack_dropped(id, r, *final(self)),
            old(self).wf() ==> final(self).wf(),
    {
        let i = self.find_rack(id);
        let mut kill = None;
        if i < self.vsts.len() {
            kill = self.vsts[i].slot.kill();
            self.vsts.remove(i);
        }
        proof {
            assert(self.chains@ == cut(old(self).chains@, old(self).chains@.len() as int));
            if old(self).wf() {
                cut_keeps_wf(*old(self), *self, old(self).chains@.len() as int, i as int);
            }
        }
        kill
    }

    /// What is to be done about a channel's rack.
    pub open spec fn vst_step(self, id: u64, cfg: ChannelConfig, step: VstStep) -> bool {
        let on = cfg.vst_plugins@.filter(vst_on());
        let c = self.vsts@[self.rack_at(id)];
        let same = self.rack_at(id) < self.vsts@.len() && c.desc@ == rack_sign(cfg);
        if on.len() == 0 {
            step == VstStep::Off { kill: self.rack_victim(id) }
        } else if same && c.slot.is_running() {
            step is Running
        } else if same && c.slot.failed && c.fails >= 1 {
            step is KnownBad
        } else {
            &&& step is Start
            &&& step->Start_kill == self.rack_victim(id)
            &&& step->desc@ == rack_sign(cfg)
            &&& step->fails == if same && c.slot.failed {
                1u32
            } else {
                0u32
            }
        }
    }

    /// What keeping a channel's rack in line asks for and leaves behind.
    pub open spec fn rack_ensured(self, id: u64, cfg: ChannelConfig, r: VstStep, new: FxManager) -> bool {
        &&& self.vst_step(id, cfg, r)
        &&& new.vsts@ == if r is Running || r is KnownBad {
            self.vsts@
        } else {
            cut(self.vsts@, self.rack_at(id))
        }
        &&& new == (FxManager { vsts: new.vsts, ..self })
    }

    /// Make sure a helper hosting exactly the channel's enabled VST plugins
    /// runs (respawning when the set changed).
    pub fn ensure_vst_host(&mut self, id: u64, cfg: &ChannelConfig) -> (r: VstStep)
        ensures
            old(self).rack_ensured(id, *cfg, r, *final(self)),
            old(self).wf() ==> final(self).wf(),
    {
        let enabled = cfg.enabled_vsts();
        if enabled.len() == 0 {
            let kill = self.kill_vst(id);
            return VstStep::Off { kill };
        }
        let desc = rack_signature(cfg);
        let mut fails: u32 = 0;
        let i = self.find_rack(id);
        if i < self.vsts.len() {
            let s = &self.vsts[i];
            if text::same(s.desc.as_str(), desc.as_str()) {
                if s.slot.running() {
                    return VstStep::Running;
                }
                if s.slot.failed {
                    if s.fails >= 1 {
                        return VstStep::KnownBad;
                    }
                    fails = 1;
                }
            }
        }
        let kill = self.kill_vst(id);
        VstStep::Start { kill, desc, fails }
    }

    /// What is left behind when a channel's helper process was started: every
    /// enabled plugin is loading.
    pub open spec fn rack_begun(
        self,
        id: u64,
        cfg: ChannelConfig,
        desc: Seq<char>,
        fails: u32,
        pid: i32,
        new: FxManager,
    ) -> bool {
        let on = cfg.vst_plugins@.filter(vst_on());
        let p = self.rack_at(id);
        let c = new.vsts@[p];
        &&& c.id == id
        &&& c.slot == (Slot { run: self.next_run, pid, alive: true, failed: false })
        &&& c.desc@ == desc
        &&& c.fails == fails
        &&& c.runtime@.len() == on.len()
        &&& forall|i: int|
            0 <= i < on.len() ==> {
                &&& (#[trigger] c.runtime@[i]).cfg_id == on[i].id
                &&& c.runtime@[i].state is Loading
                &&& !c.runtime@[i].has_ui
                &&& c.runtime@[i].params@.len() == 0
            }
        &&& new.vsts@ == put(self.vsts@, p, c)
        &&& new == (FxManager { vsts: new.vsts, next_run: (self.next_run + 1) as u64, ..self })
    }

    /// The helper process was started: every enabled plugin is loading. Gives
    /// its run, under which its exit is to be reported.
    pub fn vst_started(&mut self, id: u64, cfg: &ChannelConfig, desc: String, fails: u32, pid: i32) -> (run: u64)
        requires
            old(self).next_run < u64::MAX,
        ensures
            run == old(self).next_run,
            old(self).rack_begun(id, *cfg, desc@, fails, pid, *final(self)),
            old(self).wf() ==> final(self).wf(),
    {
        let enabled = cfg.enabled_vsts();
        let ghost on = cfg.vst_plugins@.filter(vst_on());
        let mut runtime: Vec<VstRuntime> = Vec::new();
        let mut k: usize = 0;
        while k < enabled.len()
            invariant
                k <= enabled@.len(),
                enabled@.len() == on.len(),
                forall|i: int| 0 <= i < on.len() ==> *(#[trigger] enabled@[i]) == on[i],
                runtime@.len() == k,
                forall|i: int|
                    0 <= i < k ==> {
                        &&& (#[trigger] runtime@[i]).cfg_id == on[i].id
                        &&& runtime@[i].state is Loading
                        &&& !runtime@[i].has_ui
                        &&& runtime@[i].params@.len() == 0
                    },
            decreases enabled@.len() - k,
        {
            assert(*enabled@[k as int] == on[k as int]);
            runtime.push(
                VstRuntime {
                    cfg_id: enabled[k].id,
                    state: VstState::Loading,
                    has_ui: false,
                    params: Vec::new(),
                },
            );
            k = k + 1;
        }
        let i = self.find_rack(id);
        let run: u64 = self.next_run;
        let c = VstSlot { id, slot: Slot { run, pid, alive: true, failed: false }, desc, runtime, fails };
        if i < self.vsts.len() {
            self.vsts[i] = c;
        } else {
            self.vsts.push(c);
        }
        self.next_run = run + 1;
        proof {
            first_is_least(old(self).vsts@, rack_is(id));
            if old(self).wf() {
                put_rack_keeps_wf(*old(self), *self, c);
            }
        }
        run
    }

    /// What an exit amounts to and leaves behind.
    pub open spec fn exited(self, run: u64, quick: bool, r: Option<FxEvent>, new: FxManager) -> bool {
        let c = first(self.chains@, chain_run(run));
        let v = first(self.vsts@, rack_run(run));
        if c < self.chains@.len() {
            let s = self.chains@[c];
            &&& r == Some(FxEvent::ChainDied(s.id))
            &&& new.chains@ == self.chains@.update(c, ChainSlot { slot: s.slot.dead(quick), ..s })
            &&& new == (FxManager { chains: new.chains, ..self })
        } else if v < self.vsts@.len() {
            let s = self.vsts@[v];
            &&& r == Some(FxEvent::VstHostDied(s.id))
            &&& new.vsts@ == self.vsts@.update(v, VstSlot { slot: s.slot.dead(quick), ..s })
            &&& new == (FxManager { vsts: new.vsts, ..self })
        } else {
            r is None && new == self
        }
    }

    /// The helper process of a run exited. Where it still belongs to a chain or
    /// rack it died unasked; within its first seconds that counts as a failure.
    pub fn process_exited(&mut self, run: u64, quick: bool) -> (r: Option<FxEvent>)
        ensures
            old(self).exited(run, quick, r, *final(self)),
            old(self).wf() ==> final(self).wf(),
    {
        let mut i: usize = 0;
        while i < self.chains.len() && !(self.chains[i].slot.alive && self.chains[i].slot.run == run)
            invariant
                i <= self.chains@.len(),
                *self == *old(self),
                forall|j: int| 0 <= j < i ==> !chain_run(run)(#[trigger] self.chains@[j]),
            decreases self.chains@.len() - i,
        {
            i = i + 1;
        }
        proof {
            first_is_at(self.chains@, chain_run(run), i as int);
        }
        if i < self.chains.len() {
            let c = &mut self.chains[i];
            c.slot.alive = false;
            if quick {
                c.slot.failed = true;
            }
            let id: u64 = c.id;
            proof {
                if old(self).wf() {
                    same_slots_keep_wf(*old(self), *self);
                }
            }
            return Some(FxEvent::ChainDied(id));
        }
        let mut k: usize = 0;
        while k < self.vsts.len() && !(self.vsts[k].slot.alive && self.vsts[k].slot.run == run)
            invariant
                k <= self.vsts@.len(),
                *self == *old(self),
                forall|j: int| 0 <= j < k ==> !rack_run(run)(#[trigger] self.vsts@[j]),
            decreases self.vsts@.len() - k,
        {
            k = k + 1;
        }
        proof {
            first_is_at(self.vsts@, rack_run(run), k as int);
        }
        if k < self.vsts.len() {
            let c = &mut self.vsts[k];
            c.slot.alive = false;
            if quick {
                c.slot.failed = true;
            }
            let id: u64 = c.id;
            proof {
                if old(self).wf() {
                    same_slots_keep_wf(*old(self), *self);
                }
            }
            return Some(FxEvent::VstHostDied(id));
        }
        None
    }

    /// What dropping a channel's chain and rack asks for and leaves behind.
    pub open spec fn channel_dropped(self, id: u64, r: (Option<i32>, Option<i32>), new: FxManager) -> bool {
        &&& r == (self.chain_victim(id), self.rack_victim(id))
        &&& new.chains@ == cut(self.chains@, self.chain_at(id))
        &&& new.vsts@ == cut(self.vsts@, self.rack_at(id))
        &&& new.next_run == self.next_run
    }

    /// Drop a channel's chain and rack; gives the processes to terminate.
    pub fn remove_channel(&mut self, id: u64) -> (r: (Option<i32>, Option<i32>))
        ensures
            old(self).channel_dropped(id, r, *final(self)),
            old(self).wf() ==> final(self).wf(),
    {
        let step = self.ensure_chain(id, None);
        let kill = self.kill_vst(id);
        (step.kill, kill)
    }

    /// What dropping every chain and rack asks for and leaves behind.
    pub open spec fn all_dropped(self, r: Seq<i32>, new: FxManager) -> bool {
        &&& new.chains@.len() == 0
        &&& new.vsts@.len() == 0
        &&& new.next_run == self.next_run
        &&& r == victims(chain_slots(self.chains@)) + victims(rack_slots(self.vsts@))
    }

    /// Drop every chain and rack; gives the processes to terminate.
    pub fn shutdown_all(&mut self) -> (r: Vec<i32>)
        ensures
            old(self).all_dropped(r@, *final(self)),
    {
        let mut r: Vec<i32> = Vec::new();
        let mut i: usize = 0;
        let ghost cs = chain_slots(self.chains@);
        let ghost vs = rack_slots(self.vsts@);
        while i < self.chains.len()
            invariant
                i <= self.chains@.len(),
                *self == *old(self),
                cs == chain_slots(self.chains@),
                r@ == victims(cs.take(i as int)),
            decreases self.chains@.len() - i,
        {
            assert(cs.take(i + 1).drop_last() =~= cs.take(i as int));
            if let Some(p) = self.chains[i].slot.kill() {
                r.push(p);
            }
            i = i + 1;
        }
        assert(cs.take(i as int) =~= cs);
        let mut k: usize = 0;
        while k < self.vsts.len()
            invariant
                k <= self.vsts@.len(),
                *self == *old(self),
                vs == rack_slots(self.vsts@),
                r@ == victims(cs) + victims(vs.take(k as int)),
            decreases self.vsts@.len() - k,
        {
            assert(vs.take(k + 1).drop_last() =~= vs.take(k as int));
            if let Some(p) = self.vsts[k].slot.kill() {
                r.push(p);
            }
            assert(r@ =~= victims(cs) + victims(vs.take(k + 1)));
            k = k + 1;
        }
        assert(vs.take(k as int) =~= vs);
        self.chains = Vec::new();
        self.vsts = Vec::new();
        r
    }
}

/// Append a text to a signature.
fn push_escaped(out: &mut String, s: &str)
    ensures
        final(out)@ == old(out)@ + escaped(s@),
{
    let v = text::chars_of(s);
    let ghost all = v@;
    assert(all.skip(0) =~= all);
    let mut i: usize = 0;
    while i < v.len()
        invariant
            i <= v@.len(),
            all == v@,
            out@ + escaped(all.skip(i as int)) == old(out)@ + escaped(all),
        decreases v@.len() - i,
    {
        let ghost was = out@;
        let ghost rest = all.skip(i as int);
        let c = v[i];
        if c == '\x1f' {
            out.push('\x1e');
            out.push('f');
        } else if c == '\x1e' {
            out.push('\x1e');
            out.push('e');
        } else {
            out.push(c);
        }
        proof {
            assert(rest.skip(1) =~= all.skip(i + 1));
            assert(out@ =~= was + escaped_char(rest[0]));
            append_regroups(was, escaped_char(rest[0]), escaped(rest.skip(1)));
        }
        i = i + 1;
    }
    assert(out@ + escaped(all.skip(i as int)) =~= out@);
}

/// Texts can be joined from either end.
proof fn append_regroups(a: Seq<char>, b: Seq<char>, c: Seq<char>)
    ensures
        a + (b + c) == a + b + c,
{
    assert(a + (b + c) =~= a + b + c);
}

/// The signature of a channel's enabled plugins.
fn rack_signature(cfg: &ChannelConfig) -> (r: String)
    ensures
        r@ == rack_sign(*cfg),
{
    let enabled = cfg.enabled_vsts();
    let ghost on = cfg.vst_plugins@.filter(vst_on());
    let mut s = String::new();
    let mut i: usize = 0;
    while i < enabled.len()
        invariant
            i <= enabled@.len(),
            enabled@.len() == on.len(),
            forall|i: int| 0 <= i < on.len() ==> *(#[trigger] enabled@[i]) == on[i],
            s@ == set_sign(on, i as int),
        decreases enabled@.len() - i,
    {
        let p = enabled[i];
        assert(*enabled@[i as int] == on[i as int]);
        if i > 0 {
            s.append("\x1e");
        }
        let ghost start = s@;
        text::push_decimal(&mut s, p.id);
        s.append("\x1f");
        push_escaped(&mut s, p.path.as_str());
        s.append("\x1f");
        push_escaped(&mut s, p.label.as_str());
        s.append("\x1f");
        text::push_signed(&mut s, p.unique_id);
        s.append("\x1f");
        s.append(p.format.as_str());
        proof {
            sign_regroups(start, on[i as int]);
        }
        i = i + 1;
    }
    s
}

// ---- What the VST helper reports --------------------------------------------

/// A parameter as plain values.
pub struct ParamView {
    pub index: u32,
    pub name: Seq<char>,
    pub min: Level,
    pub max: Level,
    pub value: Level,
    pub toggled: bool,
    pub integer: bool,
}

/// A load state as plain values.
pub enum StateView {
    Loading,
    Loaded,
    Failed(Seq<char>),
}

/// A plugin's runtime info as plain values.
pub struct RuntimeView {
    pub cfg_id: u64,
    pub state: StateView,
    pub has_ui: bool,
    pub params: Seq<ParamView>,
}

impl View for VstParamInfo {
    type V = ParamView;

    open spec fn view(&self) -> ParamView {
        ParamView {
            index: self.index,
            name: self.name@,
            min: self.min,
            max: self.max,
            value: self.value,
            toggled: self.toggled,
            integer: self.integer,
        }
    }
}

impl View for VstState {
    type V = StateView;

    open spec fn view(&self) -> StateView {
        match self {
            VstState::Loading => StateView::Loading,
            VstState::Loaded => StateView::Loaded,
            VstState::Failed(s) => StateView::Failed(s@),
        }
    }
}

/// Parameters as plain values.
pub open spec fn param_views(s: Seq<VstParamInfo>) -> Seq<ParamView> {
    Seq::new(s.len(), |i: int| s[i]@)
}

impl View for VstRuntime {
    type V = RuntimeView;

    open spec fn view(&self) -> RuntimeView {
        RuntimeView {
            cfg_id: self.cfg_id,
            state: self.state@,
            has_ui: self.has_ui,
            params: param_views(self.params@),
        }
    }
}

/// Runtime infos as plain values.
pub open spec fn runtime_views(s: Seq<VstRuntime>) -> Seq<RuntimeView> {
    Seq::new(s.len(), |i: int| s[i]@)
}

/// The runtime info of a plugin.
pub open spec fn plugin_has(cfg_id: u64) -> spec_fn(RuntimeView) -> bool {
    |r: RuntimeView| r.cfg_id == cfg_id
}

/// The parameter of an index.
pub open spec fn param_has(index: u32) -> spec_fn(ParamView) -> bool {
    |p: ParamView| p.index == index
}

/// A value, or another in its place.
pub open spec fn or_else<T>(v: Option<T>, other: T) -> T {
    match v {
        Some(v) => v,
        None => other,
    }
}

/// The low half of a number.
pub open spec fn low_half(n: u64) -> u32 {
    (n % 0x1_0000_0000) as u32
}

/// The parameter an item of a report describes; none without an index.
pub open spec fn reported_param(j: JsonView) -> Option<ParamView> {
    match j.member("index"@).unsigned() {
        Some(n) => Some(
            ParamView {
                index: low_half(n),
                name: or_else(j.member("name"@).string(), "Parameter"@),
                min: or_else(j.member("min"@).number(), Level { bits: 0 }),
                max: or_else(j.member("max"@).number(), Level { bits: ONE }),
                value: or_else(j.member("value"@).number(), Level { bits: 0 }),
                toggled: or_else(j.member("toggled"@).boolean(), false),
                integer: or_else(j.member("integer"@).boolean(), false),
            },
        ),
        None => None,
    }
}

/// The parameters the first `n` items of a report describe.
pub open spec fn reported_params(s: Seq<JsonView>, n: int) -> Seq<ParamView>
    decreases n,
{
    if n <= 0 {
        Seq::empty()
    } else {
        let rest = reported_params(s, n - 1);
        match reported_param(s[n - 1]) {
            Some(p) => rest.push(p),
            None => rest,
        }
    }
}

/// A plugin's runtime info after its load result arrived.
pub open spec fn after_load(r: RuntimeView, item: JsonView) -> RuntimeView {
    if item.member("ok"@).boolean() == Some(true) {
        let params = item.member("params"@).items();
        RuntimeView {
            state: StateView::Loaded,
            has_ui: or_else(item.member("has_ui"@).boolean(), false),
            params: reported_params(params, params.len() as int),
            ..r
        }
    } else {
        RuntimeView {
            state: StateView::Failed(or_else(item.member("error"@).string(), "could not load plugin"@)),
            ..r
        }
    }
}

/// The runtime infos after the first `n` load results arrived. Results for
/// unknown plugins are ignored.
pub open spec fn after_loads(s: Seq<RuntimeView>, items: Seq<JsonView>, n: int) -> Seq<RuntimeView>
    decreases n,
{
    if n <= 0 {
        s
    } else {
        let rest = after_loads(s, items, n - 1);
        match items[n - 1].member("cfg_id"@).unsigned() {
            Some(c) => {
                let i = first(rest, plugin_has(c));
                if i < rest.len() {
                    rest.update(i, after_load(rest[i], items[n - 1]))
                } else {
                    rest
                }
            },
            None => rest,
        }
    }
}

/// The runtime infos after a parameter got a value.
pub open spec fn after_edit(s: Seq<RuntimeView>, e: ParamEdit) -> Seq<RuntimeView> {
    let i = first(s, plugin_has(e.cfg_id));
    let k = first(s[i].params, param_has(e.index));
    if i < s.len() && k < s[i].params.len() {
        s.update(
            i,
            RuntimeView {
                params: s[i].params.update(k, ParamView { value: e.value, ..s[i].params[k] }),
                ..s[i]
            },
        )
    } else {
        s
    }
}

/// The parameter edit a message reports.
pub open spec fn reported_edit(j: JsonView) -> Option<ParamEdit> {
    let c = j.member("cfg_id"@).unsigned();
    let p = j.member("param"@).unsigned();
    let v = j.member("value"@).number();
    if c is Some && p is Some && v is Some {
        Some(ParamEdit { cfg_id: c->0, index: low_half(p->0), value: v->0 })
    } else {
        None
    }
}

/// The runtime infos of a rack after a message.
pub open spec fn after_reply(s: Seq<RuntimeView>, j: JsonView) -> Seq<RuntimeView> {
    let items = j.member("plugins"@).items();
    if j.member("reply"@).string() == Some("loaded"@) {
        after_loads(s, items, items.len() as int)
    } else if j.member("reply"@).string() == Some("param"@) && reported_edit(j) is Some {
        after_edit(s, reported_edit(j)->0)
    } else {
        s
    }
}

/// The parameter edits a message brings.
pub open spec fn reply_edits(j: JsonView) -> Seq<ParamEdit> {
    if j.member("reply"@).string() == Some("param"@) && reported_edit(j) is Some {
        seq![reported_edit(j)->0]
    } else {
        Seq::empty()
    }
}

/// "loaded" and "param" are different replies.
proof fn replies_differ()
    ensures
        "loaded"@ != "param"@,
{
    reveal_strlit("loaded");
    reveal_strlit("param");
    assert("loaded"@.len() != "param"@.len());
}

/// The parameter an item of a report describes.
fn read_param(j: &Json) -> (r: Option<VstParamInfo>)
    ensures
        r is Some <==> reported_param(j.tree()) is Some,
        r is Some ==> r->0@ == reported_param(j.tree())->0,
{
    let n: u64 = match j.get_unsigned("index") {
        Some(n) => n,
        None => {
            return None;
        },
    };
    Some(
        VstParamInfo {
            index: (n % 0x1_0000_0000) as u32,
            name: match j.get_str("name") {
                Some(s) => text::copy(s),
                None => text::copy("Parameter"),
            },
            min: match j.get_number("min") {
                Some(v) => v,
                None => Level::zero(),
            },
            max: match j.get_number("max") {
                Some(v) => v,
                None => Level::one(),
            },
            value: match j.get_number("value") {
                Some(v) => v,
                None => Level::zero(),
            },
            toggled: match j.get_bool("toggled") {
                Some(b) => b,
                None => false,
            },
            integer: match j.get_bool("integer") {
                Some(b) => b,
                None => false,
            },
        },
    )
}

/// The parameters a load result describes.
fn read_params(item: &Json) -> (r: Vec<VstParamInfo>)
    ensures
        ({
            let s = item.tree().member("params"@).items();
            param_views(r@) == reported_params(s, s.len() as int)
        }),
{
    let mut out: Vec<VstParamInfo> = Vec::new();
    assert(param_views(out@) =~= Seq::<ParamView>::empty());
    let ghost s = item.tree().member("params"@).items();
    if let Some(items) = item.get_items("params") {
        let mut i: usize = 0;
        while i < items.len()
            invariant
                i <= items@.len(),
                items@.len() == s.len(),
                forall|j: int| 0 <= j < items@.len() ==> (#[trigger] items@[j]).tree() == s[j],
                param_views(out@) == reported_params(s, i as int),
            decreases items@.len() - i,
        {
            assert(items@[i as int].tree() == s[i as int]);
            if let Some(p) = read_param(&items[i]) {
                let ghost before = out@;
                let ghost v = p@;
                out.push(p);
                assert(param_views(out@) =~= param_views(before).push(v));
            }
            i = i + 1;
        }
    }
    out
}

/// Take in a plugin's load result.
fn load_result(r: &mut VstRuntime, item: &Json)
    ensures
        final(r)@ == after_load(old(r)@, item.tree()),
{
    if item.get_bool("ok") == Some(true) {
        r.state = VstState::Loaded;
        r.has_ui = match item.get_bool("has_ui") {
            Some(b) => b,
            None => false,
        };
        r.params = read_params(item);
    } else {
        r.state = VstState::Failed(
            match item.get_str("error") {
                Some(s) => text::copy(s),
                None => text::copy("could not load plugin"),
            },
        );
    }
}

/// The position of a plugin's runtime info, or the number of them.
fn find_runtime(s: &Vec<VstRuntime>, cfg_id: u64) -> (r: usize)
    ensures
        r == first(runtime_views(s@), plugin_has(cfg_id)),
        r <= s@.len(),
{
    let mut i: usize = 0;
    let ghost v = runtime_views(s@);
    while i < s.len() && s[i].cfg_id != cfg_id
        invariant
            i <= s@.len(),
            v == runtime_views(s@),
            forall|j: int| 0 <= j < i ==> !plugin_has(cfg_id)(#[trigger] v[j]),
        decreases s@.len() - i,
    {
        i = i + 1;
    }
    proof {
        first_is_at(v, plugin_has(cfg_id), i as int);
    }
    i
}

/// Take in a parameter's new value.
fn edit_param(s: &mut Vec<VstRuntime>, e: ParamEdit)
    ensures
        runtime_views(final(s)@) == after_edit(runtime_views(old(s)@), e),
{
    let i = find_runtime(s, e.cfg_id);
    let ghost before = runtime_views(s@);
    if i < s.len() {
        let mut k: usize = 0;
        let ghost params = param_views(s@[i as int].params@);
        while k < s[i].params.len() && s[i].params[k].index != e.index
            invariant
                i < s@.len(),
                k <= s@[i as int].params@.len(),
                before == runtime_views(s@),
                params == param_views(s@[i as int].params@),
                s@ == old(s)@,
                forall|j: int| 0 <= j < k ==> !param_has(e.index)(#[trigger] params[j]),
            decreases s@[i as int].params@.len() - k,
        {
            k = k + 1;
        }
        proof {
            first_is_at(params, param_has(e.index), k as int);
            assert(before[i as int].params == params);
        }
        if k < s[i].params.len() {
            let r = &mut s[i];
            r.params[k].value = e.value;
            proof {
                let now = s@[i as int];
                assert(param_views(now.params@) =~= params.update(
                    k as int,
                    ParamView { value: e.value, ..params[k as int] },
                ));
                assert(runtime_views(s@) =~= after_edit(before, e));
            }
        }
    }
}

impl FxManager {
    /// Runtime plugin/parameter info of a channel's rack.
    pub fn vst_runtime(&self, id: u64) -> (r: Option<&Vec<VstRuntime>>)
        ensures
            r is Some <==> self.rack_at(id) < self.vsts@.len(),
            r is Some ==> r->0@ == self.vsts@[self.rack_at(id)].runtime@,
    {
        let i = self.find_rack(id);
        if i < self.vsts.len() {
            Some(&self.vsts[i].runtime)
        } else {
            None
        }
    }

    /// Whether two states differ only in the runtime infos of one rack.
    pub open spec fn only_runtime_differs(self, new: FxManager, p: int) -> bool {
        &&& new == (FxManager { vsts: new.vsts, ..self })
        &&& new.vsts@ == self.vsts@.update(p, new.vsts@[p])
        &&& new.vsts@[p] == (VstSlot { runtime: new.vsts@[p].runtime, ..self.vsts@[p] })
    }

    /// Whether a parameter value has a rack to go to, and how it is mirrored.
    pub open spec fn param_noted(self, id: u64, cfg_id: u64, index: u32, value: Level, r: bool, new: FxManager) -> bool {
        let p = self.rack_at(id);
        &&& r == (p < self.vsts@.len())
        &&& !r ==> new == self
        &&& r ==> {
            &&& self.only_runtime_differs(new, p)
            &&& runtime_views(new.vsts@[p].runtime@) == after_edit(
                runtime_views(self.vsts@[p].runtime@),
                ParamEdit { cfg_id, index, value },
            )
        }
    }

    /// Push a parameter value into the running rack. Says whether there is a
    /// rack to send it to; the value is mirrored, so a dialog that is rebuilt
    /// shows it.
    pub fn set_vst_param(&mut self, id: u64, cfg_id: u64, index: u32, value: Level) -> (r: bool)
        ensures
            old(self).param_noted(id, cfg_id, index, value, r, *final(self)),
            old(self).wf() ==> final(self).wf(),
    {
        let i = self.find_rack(id);
        if i < self.vsts.len() {
            edit_param(&mut self.vsts[i].runtime, ParamEdit { cfg_id, index, value });
            proof {
                if old(self).wf() {
                    same_slots_keep_wf(*old(self), *self);
                }
            }
            true
        } else {
            false
        }
    }

    /// What a message from a rack's helper amounts to.
    pub open spec fn replied(self, id: u64, j: JsonView, new: FxManager, out: VstReplyOutcome) -> bool {
        let p = self.rack_at(id);
        if p < self.vsts@.len() {
            &&& self.only_runtime_differs(new, p)
            &&& runtime_views(new.vsts@[p].runtime@) == after_reply(
                runtime_views(self.vsts@[p].runtime@),
                j,
            )
            &&& out.structure_changed == (j.member("reply"@).string() == Some("loaded"@))
            &&& out.params@ == reply_edits(j)
        } else {
            new == self && !out.structure_changed && out.params@.len() == 0
        }
    }

    /// Process a message from a helper.
    pub fn apply_vst_reply(&mut self, id: u64, v: &Json) -> (r: VstReplyOutcome)
        ensures
            old(self).replied(id, v.tree(), *final(self), r),
            old(self).wf() ==> final(self).wf(),
    {
        let mut out = VstReplyOutcome { structure_changed: false, params: Vec::new() };
        let p = self.find_rack(id);
        if p >= self.vsts.len() {
            return out;
        }
        proof {
            replies_differ();
        }
        let ghost j = v.tree();
        let ghost before = *self;
        let mut kind: u8 = 0;
        if let Some(reply) = v.get_str("reply") {
            if text::same(reply, "loaded") {
                kind = 1;
            } else if text::same(reply, "param") {
                kind = 2;
            }
        }
        if kind == 1 {
            let ghost items = j.member("plugins"@).items();
            let ghost start = runtime_views(before.vsts@[p as int].runtime@);
            assert(self.vsts@ =~= before.vsts@.update(p as int, self.vsts@[p as int]));
            if let Some(list) = v.get_items("plugins") {
                let mut i: usize = 0;
                while i < list.len()
                    invariant
                        i <= list@.len(),
                        list@.len() == items.len(),
                        forall|k: int| 0 <= k < list@.len() ==> (#[trigger] list@[k]).tree() == items[k],
                        p < before.vsts@.len(),
                        before.only_runtime_differs(*self, p as int),
                        runtime_views(self.vsts@[p as int].runtime@) == after_loads(start, items, i as int),
                    decreases list@.len() - i,
                {
                    let item = &list[i];
                    assert(item.tree() == items[i as int]);
                    let ghost was = runtime_views(self.vsts@[p as int].runtime@);
                    if let Some(c) = item.get_unsigned("cfg_id") {
                        let k = find_runtime(&self.vsts[p].runtime, c);
                        if k < self.vsts[p].runtime.len() {
                            let slot = &mut self.vsts[p];
                            load_result(&mut slot.runtime[k], item);
                            assert(runtime_views(self.vsts@[p as int].runtime@) =~= was.update(
                                k as int,
                                after_load(was[k as int], items[i as int]),
                            ));
                            assert(self.vsts@ =~= before.vsts@.update(p as int, self.vsts@[p as int]));
                        }
                    }
                    i = i + 1;
                }
            }
            out.structure_changed = true;
        } else if kind == 2 {
            if let (Some(cfg_id), Some(param), Some(value)) = (
                v.get_unsigned("cfg_id"),
                v.get_unsigned("param"),
                v.get_number("value"),
            ) {
                let index: u32 = (param % 0x1_0000_0000) as u32;
                let e = ParamEdit { cfg_id, index, value };
                edit_param(&mut self.vsts[p].runtime, e);
                out.params.push(e);
                assert(out.params@ =~= reply_edits(j));
            }
        }
        proof {
            assert(self.vsts@ =~= before.vsts@.update(p as int, self.vsts@[p as int]));
            if before.wf() {
                same_slots_keep_wf(before, *self);
            }
            assert(out.params@ =~= reply_edits(j));
        }
        out
    }

    /// What a line of a rack's helper amounts to.
    pub open spec fn line_heard(self, id: u64, line: Seq<char>, r: VstReplyOutcome, new: FxManager) -> bool {
        match json_value(line) {
            Some(j) => self.replied(id, j, new, r),
            None => new == self && !r.structure_changed && r.params@.len() == 0,
        }
    }

    /// Process a protocol line from a helper. What is not JSON is ignored.
    pub fn handle_vst_reply(&mut self, id: u64, line: &str) -> (r: VstReplyOutcome)
        ensures
            old(self).line_heard(id, line@, r, *final(self)),
            old(self).wf() ==> final(self).wf(),
    {
        match json::parse(line) {
            Some(v) => self.apply_vst_reply(id, &v),
            None => VstReplyOutcome { structure_changed: false, params: Vec::new() },
        }
    }
}

// ---- Lines from a helper ----------------------------------------------------

/// The byte that ends a line.
pub open spec fn ends_line() -> spec_fn(u8) -> bool {
    |b: u8| b == 10
}

/// The line that some bytes hold, without the white space around it; none
/// where they are not text, or blank.
pub open spec fn line_of(bytes: Seq<u8>) -> Option<Seq<char>> {
    let line = text::trim(vstd::utf8::decode_utf8(bytes));
    if vstd::utf8::valid_utf8(bytes) && line.len() > 0 {
        Some(line)
    } else {
        None
    }
}

/// The complete lines in some bytes.
pub open spec fn complete_lines(bytes: Seq<u8>) -> Seq<Seq<char>>
    decreases bytes.len(),
{
    let i = first(bytes, ends_line());
    if 0 <= i < bytes.len() {
        let rest = complete_lines(bytes.skip(i + 1));
        match line_of(bytes.take(i + 1)) {
            Some(line) => seq![line] + rest,
            None => rest,
        }
    } else {
        Seq::empty()
    }
}

/// What follows the last complete line.
pub open spec fn unfinished(bytes: Seq<u8>) -> Seq<u8>
    decreases bytes.len(),
{
    let i = first(bytes, ends_line());
    if 0 <= i < bytes.len() {
        unfinished(bytes.skip(i + 1))
    } else {
        bytes
    }
}

/// Take every complete line out of what a helper has written so far.
pub fn take_lines(buf: &mut Vec<u8>) -> (r: Vec<String>)
    ensures
        text::views(r@) == complete_lines(old(buf)@),
        final(buf)@ == unfinished(old(buf)@),
{
    let ghost all = buf@;
    let mut out: Vec<String> = Vec::new();
    assert(text::views(out@) + complete_lines(all) =~= complete_lines(all));
    loop
        invariant
            text::views(out@) + complete_lines(buf@) == complete_lines(all),
            unfinished(buf@) == unfinished(all),
        ensures
            text::views(out@) == complete_lines(all),
            buf@ == unfinished(all),
        decreases buf@.len(),
    {
        let mut i: usize = 0;
        while i < buf.len() && buf[i] != 10
            invariant
                i <= buf@.len(),
                forall|j: int| 0 <= j < i ==> !ends_line()(#[trigger] buf@[j]),
            decreases buf@.len() - i,
        {
            i = i + 1;
        }
        proof {
            first_is_at(buf@, ends_line(), i as int);
        }
        if i >= buf.len() {
            assert(text::views(out@) + complete_lines(buf@) =~= text::views(out@));
            break;
        }
        let ghost before = buf@;
        let ghost seen = text::views(out@);
        let rest = buf.split_off(i + 1);
        assert(rest@ =~= before.skip(i + 1));
        let mut head: Vec<u8> = rest;
        core::mem::swap(buf, &mut head);
        assert(head@ =~= before.take(i + 1));
        if let Some(line) = text::utf8_text(head) {
            let line = text::trimmed(line.as_str());
            if !line.as_str().is_empty() {
                let ghost l = line@;
                out.push(line);
                assert(text::views(out@) =~= seen.push(l));
                assert(seen.push(l) + complete_lines(buf@) =~= seen + (seq![l] + complete_lines(buf@)));
            }
        }
    }
    out
}

/// A chain that was started is left alone while it runs and the configuration
/// stays the same.
pub proof fn started_chain_is_kept(before: FxManager, c: ChainSlot, after: FxManager)
    requires
        c.slot.is_running(),
        after.chains@ == put(before.chains@, before.chain_at(c.id), c),
    ensures
        after.keeps_chain(c.id, c.conf@),
{
    let p = chain_is(c.id);
    let i = before.chain_at(c.id);
    first_is_least(before.chains@, p);
    assert forall|j: int| 0 <= j < i implies !p(#[trigger] after.chains@[j]) by {
        assert(!p(before.chains@[j]));
    }
    first_is_at(after.chains@, p, i);
}

// ---- Processes that die -----------------------------------------------------

/// The exit of a chain's process ends that chain and nothing else, whatever pids
/// the other processes have or had.
pub proof fn exit_ends_its_own_chain(m: FxManager, i: int, quick: bool, r: Option<FxEvent>, new: FxManager)
    requires
        m.wf(),
        0 <= i < m.chains@.len(),
        m.chains@[i].slot.alive,
        m.exited(m.chains@[i].slot.run, quick, r, new),
    ensures
        r == Some(FxEvent::ChainDied(m.chains@[i].id)),
        new.chains@.len() == m.chains@.len(),
        new.chains@[i] == (ChainSlot { slot: m.chains@[i].slot.dead(quick), ..m.chains@[i] }),
        forall|j: int| 0 <= j < m.chains@.len() && j != i ==> #[trigger] new.chains@[j] == m.chains@[j],
        new.vsts == m.vsts,
{
    first_is_at(m.chains@, chain_run(m.chains@[i].slot.run), i);
}

/// The exit of a rack's process ends that rack and nothing else, whatever pids
/// the other processes have or had.
pub proof fn exit_ends_its_own_rack(m: FxManager, i: int, quick: bool, r: Option<FxEvent>, new: FxManager)
    requires
        m.wf(),
        0 <= i < m.vsts@.len(),
        m.vsts@[i].slot.alive,
        m.exited(m.vsts@[i].slot.run, quick, r, new),
    ensures
        r == Some(FxEvent::VstHostDied(m.vsts@[i].id)),
        new.vsts@.len() == m.vsts@.len(),
        new.vsts@[i] == (VstSlot { slot: m.vsts@[i].slot.dead(quick), ..m.vsts@[i] }),
        forall|j: int| 0 <= j < m.vsts@.len() && j != i ==> #[trigger] new.vsts@[j] == m.vsts@[j],
        new.chains == m.chains,
{
    let run = m.vsts@[i].slot.run;
    first_is_at(m.vsts@, rack_run(run), i);
    first_is_least(m.chains@, chain_run(run));
}

impl FxManager {
    /// A channel's chain is ensured; where that starts a process, the process
    /// dies within its first seconds.
    pub open spec fn chain_tried(
        self,
        id: u64,
        conf: Seq<char>,
        step: ChainStep,
        ready: FxManager,
        pid: i32,
        started: FxManager,
        event: Option<FxEvent>,
        new: FxManager,
    ) -> bool {
        &&& self.chain_ensured(id, Some(conf), step, ready)
        &&& match step.start {
            None => new == ready,
            Some(fails) => {
                &&& ready.next_run < u64::MAX
                &&& ready.chain_begun(id, conf, fails, pid, started)
                &&& started.exited(ready.next_run, true, event, new)
            },
        }
    }

    /// Some such attempt leads to a state.
    pub open spec fn chain_attempt(self, id: u64, conf: Seq<char>, new: FxManager) -> bool {
        exists|step: ChainStep, ready: FxManager, pid: i32, started: FxManager, event: Option<FxEvent>| #[trigger]
            self.chain_tried(id, conf, step, ready, pid, started, event, new)
    }

    /// Whether a channel's chain runs a conf.
    pub open spec fn chain_runs(self, id: u64, conf: Seq<char>) -> bool {
        self.chain_up(id) && self.chains@[self.chain_at(id)].conf@ == conf
    }

    /// How many quick deaths in a row a channel's chain has behind it with a
    /// conf.
    pub open spec fn chain_deaths(self, id: u64, conf: Seq<char>) -> int {
        let c = self.chains@[self.chain_at(id)];
        if self.chain_at(id) < self.chains@.len() && c.conf@ == conf && c.slot.failed {
            1 + c.fails
        } else {
            0
        }
    }

    /// A channel's rack is ensured; where that starts a process, the process
    /// dies within its first seconds.
    pub open spec fn rack_tried(
        self,
        id: u64,
        cfg: ChannelConfig,
        step: VstStep,
        ready: FxManager,
        pid: i32,
        started: FxManager,
        event: Option<FxEvent>,
        new: FxManager,
    ) -> bool {
        &&& self.rack_ensured(id, cfg, step, ready)
        &&& match step {
            VstStep::Start { kill, desc, fails } => {
                &&& ready.next_run < u64::MAX
                &&& ready.rack_begun(id, cfg, desc@, fails, pid, started)
                &&& started.exited(ready.next_run, true, event, new)
            },
            _ => new == ready,
        }
    }

    /// Some such attempt leads to a state.
    pub open spec fn rack_attempt(self, id: u64, cfg: ChannelConfig, new: FxManager) -> bool {
        exists|step: VstStep, ready: FxManager, pid: i32, started: FxManager, event: Option<FxEvent>| #[trigger]
            self.rack_tried(id, cfg, step, ready, pid, started, event, new)
    }

    /// Whether a channel's rack hosts a plugin set.
    pub open spec fn rack_runs(self, id: u64, cfg: ChannelConfig) -> bool {
        self.rack_up(id) && self.vsts@[self.rack_at(id)].desc@ == rack_sign(cfg)
    }

    /// How many quick deaths in a row a channel's rack has behind it with a
    /// plugin set.
    pub open spec fn rack_deaths(self, id: u64, cfg: ChannelConfig) -> int {
        let c = self.vsts@[self.rack_at(id)];
        if self.rack_at(id) < self.vsts@.len() && c.desc@ == rack_sign(cfg) && c.slot.failed {
            1 + c.fails
        } else {
            0
        }
    }
}

/// An attempt starts a process unless the conf is known to crash, and counts
/// its death.
proof fn chain_attempt_counts(m: FxManager, id: u64, conf: Seq<char>, new: FxManager)
    requires
        m.wf(),
        !m.chain_runs(id, conf),
        m.chain_attempt(id, conf, new),
    ensures
        new.wf(),
        !new.chain_up(id),
        m.chain_deaths(id, conf) >= 2 ==> {
            &&& new.chains@ == m.chains@
            &&& new.chain_deaths(id, conf) == m.chain_deaths(id, conf)
            &&& new.next_run == m.next_run
        },
        m.chain_deaths(id, conf) < 2 ==> {
            &&& new.chain_deaths(id, conf) == m.chain_deaths(id, conf) + 1
            &&& new.next_run == m.next_run + 1
        },
{
    let (step, ready, pid, started, event) = choose|
        step: ChainStep,
        ready: FxManager,
        pid: i32,
        started: FxManager,
        event: Option<FxEvent>,
    | #[trigger]
        m.chain_tried(id, conf, step, ready, pid, started, event, new);
    let p = m.chain_at(id);
    first_is_least(m.chains@, chain_is(id));
    if m.keeps_chain(id, conf) {
        assert(new.chains@ == m.chains@);
        same_slots_keep_wf(m, new);
    } else {
        let n = m.vsts@.len() as int;
        assert(ready.vsts@ == cut(m.vsts@, n));
        cut_keeps_wf(m, ready, p, n);
        let q = ready.chain_at(id);
        let c = started.chains@[q];
        first_is_least(ready.chains@, chain_is(id));
        put_chain_keeps_wf(ready, started, c);
        exit_ends_its_own_chain(started, q, true, event, new);
        same_slots_keep_wf(started, new);
        assert forall|j: int| 0 <= j < q implies !chain_is(id)(#[trigger] new.chains@[j]) by {
            assert(!chain_is(id)(ready.chains@[j]));
            assert(new.chains@[j] == started.chains@[j]);
        }
        first_is_at(new.chains@, chain_is(id), q);
    }
}

/// A chain that crashes on load cannot cause a loop. However often it is
/// ensured with the same conf, if every process dies within its first seconds,
/// two are started at most; from then on nothing is started, and the chain does
/// not run.
pub proof fn crashing_chain_is_given_up(states: Seq<FxManager>, id: u64, conf: Seq<char>, i: int)
    requires
        0 <= i < states.len(),
        states[0].wf(),
        !states[0].chain_runs(id, conf),
        forall|k: int| 0 <= k < states.len() - 1 ==> (#[trigger] states[k]).chain_attempt(id, conf, states[k + 1]),
    ensures
        states[i].next_run - states[0].next_run <= 2,
        i >= 1 ==> !states[i].chain_up(id),
        i >= 2 ==> {
            &&& states[i].keeps_chain(id, conf)
            &&& states[i].chains@ == states[2].chains@
            &&& states[i].next_run == states[2].next_run
        },
{
    chain_deaths_add_up(states, id, conf, i);
    if i >= 2 {
        first_is_least(states[i].chains@, chain_is(id));
    }
}

/// Every process that was started died, and was counted.
proof fn chain_deaths_add_up(states: Seq<FxManager>, id: u64, conf: Seq<char>, i: int)
    requires
        0 <= i < states.len(),
        states[0].wf(),
        !states[0].chain_runs(id, conf),
        forall|k: int| 0 <= k < states.len() - 1 ==> (#[trigger] states[k]).chain_attempt(id, conf, states[k + 1]),
    ensures
        states[i].wf(),
        !states[i].chain_runs(id, conf),
        i >= 1 ==> !states[i].chain_up(id),
        states[i].next_run - states[0].next_run == states[i].chain_deaths(id, conf) - states[0].chain_deaths(
            id,
            conf,
        ),
        i >= 1 ==> states[i].chain_deaths(id, conf) >= 1,
        i >= 2 ==> states[i].chain_deaths(id, conf) >= 2,
        states[i].chain_deaths(id, conf) <= 2 || states[i].chain_deaths(id, conf) == states[0].chain_deaths(
            id,
            conf,
        ),
        i >= 2 ==> states[i].chains@ == states[2].chains@ && states[i].next_run == states[2].next_run,
    decreases i,
{
    if i > 0 {
        chain_deaths_add_up(states, id, conf, i - 1);
        assert(states[i - 1].chain_attempt(id, conf, states[i - 1 + 1]));
        chain_attempt_counts(states[i - 1], id, conf, states[i]);
    }
}

/// An attempt starts a process unless the plugin set is known to crash, and
/// counts its death.
proof fn rack_attempt_counts(m: FxManager, id: u64, cfg: ChannelConfig, new: FxManager)
    requires
        m.wf(),
        cfg.vst_plugins@.filter(vst_on()).len() > 0,
        !m.rack_runs(id, cfg),
        m.rack_attempt(id, cfg, new),
    ensures
        new.wf(),
        !new.rack_up(id),
        m.rack_deaths(id, cfg) >= 2 ==> {
            &&& new.vsts@ == m.vsts@
            &&& new.rack_deaths(id, cfg) == m.rack_deaths(id, cfg)
            &&& new.next_run == m.next_run
        },
        m.rack_deaths(id, cfg) < 2 ==> {
            &&& new.rack_deaths(id, cfg) == m.rack_deaths(id, cfg) + 1
            &&& new.next_run == m.next_run + 1
        },
{
    let (step, ready, pid, started, event) = choose|
        step: VstStep,
        ready: FxManager,
        pid: i32,
        started: FxManager,
        event: Option<FxEvent>,
    | #[trigger]
        m.rack_tried(id, cfg, step, ready, pid, started, event, new);
    let p = m.rack_at(id);
    first_is_least(m.vsts@, rack_is(id));
    if step is KnownBad {
        assert(new.vsts@ == m.vsts@);
        same_slots_keep_wf(m, new);
    } else {
        assert(step is Start);
        let n = m.chains@.len() as int;
        assert(ready.chains@ == cut(m.chains@, n));
        cut_keeps_wf(m, ready, n, p);
        let q = ready.rack_at(id);
        let c = started.vsts@[q];
        first_is_least(ready.vsts@, rack_is(id));
        put_rack_keeps_wf(ready, started, c);
        exit_ends_its_own_rack(started, q, true, event, new);
        same_slots_keep_wf(started, new);
        assert forall|j: int| 0 <= j < q implies !rack_is(id)(#[trigger] new.vsts@[j]) by {
            assert(!rack_is(id)(ready.vsts@[j]));
            assert(new.vsts@[j] == started.vsts@[j]);
        }
        first_is_at(new.vsts@, rack_is(id), q);
    }
}

/// Every process that was started died, and was counted.
proof fn rack_deaths_add_up(states: Seq<FxManager>, id: u64, cfg: ChannelConfig, i: int)
    requires
        0 <= i < states.len(),
        states[0].wf(),
        cfg.vst_plugins@.filter(vst_on()).len() > 0,
        !states[0].rack_runs(id, cfg),
        forall|k: int| 0 <= k < states.len() - 1 ==> (#[trigger] states[k]).rack_attempt(id, cfg, states[k + 1]),
    ensures
        states[i].wf(),
        !states[i].rack_runs(id, cfg),
        i >= 1 ==> !states[i].rack_up(id),
        states[i].next_run - states[0].next_run == states[i].rack_deaths(id, cfg) - states[0].rack_deaths(id, cfg),
        i >= 1 ==> states[i].rack_deaths(id, cfg) >= 1,
        i >= 2 ==> states[i].rack_deaths(id, cfg) >= 2,
        states[i].rack_deaths(id, cfg) <= 2 || states[i].rack_deaths(id, cfg) == states[0].rack_deaths(id, cfg),
        i >= 2 ==> states[i].vsts@ == states[2].vsts@ && states[i].next_run == states[2].next_run,
    decreases i,
{
    if i > 0 {
        rack_deaths_add_up(states, id, cfg, i - 1);
        assert(states[i - 1].rack_attempt(id, cfg, states[i - 1 + 1]));
        rack_attempt_counts(states[i - 1], id, cfg, states[i]);
    }
}

/// A rack that crashes on load cannot cause a loop. However often it is ensured
/// with the same plugins, if every process dies within its first seconds, two
/// are started at most; from then on the rack is known to be bad, and nothing is
/// started.
pub proof fn crashing_rack_is_given_up(states: Seq<FxManager>, id: u64, cfg: ChannelConfig, i: int, step: VstStep)
    requires
        0 <= i < states.len(),
        states[0].wf(),
        cfg.vst_plugins@.filter(vst_on()).len() > 0,
        !states[0].rack_runs(id, cfg),
        forall|k: int| 0 <= k < states.len() - 1 ==> (#[trigger] states[k]).rack_attempt(id, cfg, states[k + 1]),
        states[i].vst_step(id, cfg, step),
    ensures
        states[i].next_run - states[0].next_run <= 2,
        i >= 1 ==> !states[i].rack_up(id),
        i >= 2 ==> {
            &&& step is KnownBad
            &&& states[i].vsts@ == states[2].vsts@
            &&& states[i].next_run == states[2].next_run
        },
{
    rack_deaths_add_up(states, id, cfg, i);
}

// ---- What a rack is known by ------------------------------------------------

/// What the helper of a rack depends on in a plugin.
pub struct PluginShape {
    pub id: u64,
    pub path: Seq<char>,
    pub label: Seq<char>,
    pub unique_id: i64,
    pub format: VstFormat,
}

/// What the helper depends on in a plugin.
pub open spec fn plugin_shape(p: VstPluginConfig) -> PluginShape {
    PluginShape { id: p.id, path: p.path@, label: p.label@, unique_id: p.unique_id, format: p.format }
}

/// What the helper depends on in some plugins.
pub open spec fn shapes(s: Seq<VstPluginConfig>) -> Seq<PluginShape> {
    Seq::new(s.len(), |i: int| plugin_shape(s[i]))
}

/// What the helper of a channel's rack depends on.
pub open spec fn rack_shape(cfg: ChannelConfig) -> Seq<PluginShape> {
    shapes(cfg.vst_plugins@.filter(vst_on()))
}

/// A text in a signature holds no separator of parts.
proof fn escaped_is_one_part(s: Seq<char>)
    ensures
        !escaped(s).contains('\x1f'),
    decreases s.len(),
{
    if s.len() > 0 {
        let t = s.skip(1);
        let h = escaped_char(s[0]);
        escaped_is_one_part(t);
        if escaped(s).contains('\x1f') {
            let i = choose|i: int| 0 <= i < escaped(s).len() && escaped(s)[i] == '\x1f';
            if i >= h.len() {
                assert(escaped(t)[i - h.len()] == '\x1f');
            }
        }
    }
}

/// Different texts stay different in a signature.
proof fn escaping_is_injective(s: Seq<char>, t: Seq<char>)
    requires
        escaped(s) == escaped(t),
    ensures
        s == t,
    decreases s.len(),
{
    if s.len() == 0 || t.len() == 0 {
        assert(s =~= t);
    } else {
        let (a, b) = (s.skip(1), t.skip(1));
        let (g, h) = (escaped_char(s[0]), escaped_char(t[0]));
        let e = escaped(s);
        assert(e[0] == g[0] && e[0] == h[0]);
        if e[0] == '\x1e' {
            assert(e[1] == g[1] && e[1] == h[1]);
        }
        assert(s[0] == t[0]);
        assert(e.skip(g.len() as int) =~= escaped(a));
        assert(e.skip(g.len() as int) =~= escaped(b));
        escaping_is_injective(a, b);
        assert(s =~= seq![s[0]] + a);
        assert(t =~= seq![t[0]] + b);
    }
}

/// A text without separators stands in a signature as it is.
pub proof fn plain_texts_stay(s: Seq<char>)
    requires
        !s.contains('\x1e'),
        !s.contains('\x1f'),
    ensures
        escaped(s) == s,
    decreases s.len(),
{
    if s.len() > 0 {
        let t = s.skip(1);
        assert(s[0] != '\x1e' && s[0] != '\x1f');
        assert forall|i: int| 0 <= i < t.len() implies #[trigger] t[i] != '\x1e' && t[i] != '\x1f' by {
            assert(t[i] == s[i + 1]);
        }
        plain_texts_stay(t);
        assert(seq![s[0]] + t =~= s);
    }
}

/// Two texts with the same last place of a character have the same parts on
/// both sides of it.
proof fn last_part_is_determined(c: char, x: Seq<char>, a: Seq<char>, y: Seq<char>, b: Seq<char>)
    requires
        !a.contains(c),
        !b.contains(c),
        x + seq![c] + a == y + seq![c] + b,
    ensures
        a == b,
        x == y,
{
    let s = x + seq![c] + a;
    let t = y + seq![c] + b;
    let m = x.len() as int;
    let n = y.len() as int;
    assert(s == t);
    assert(s.len() == m + 1 + a.len());
    assert(t.len() == n + 1 + b.len());
    assert(s[m] == c);
    assert(t[n] == c);
    if m < n {
        assert(s[n] == a[n - m - 1]);
        assert(a.contains(a[n - m - 1]));
    }
    if n < m {
        assert(t[m] == b[m - n - 1]);
        assert(b.contains(b[m - n - 1]));
    }
    assert(m == n);
    assert forall|i: int| 0 <= i < m implies x[i] == y[i] by {
        assert(s[i] == x[i]);
        assert(t[i] == y[i]);
    }
    assert(x =~= y);
    assert forall|i: int| 0 <= i < a.len() implies a[i] == b[i] by {
        assert(s[m + 1 + i] == a[i]);
        assert(t[m + 1 + i] == b[i]);
    }
    assert(a =~= b);
}

/// What signatures are made of: the separators, and parts without them.
proof fn sign_parts(p: VstPluginConfig)
    ensures
        "\x1f"@ == seq!['\x1f'],
        "\x1e"@ == seq!['\x1e'],
        !dec(p.id as nat).contains('\x1e'),
        !escaped(p.path@).contains('\x1f'),
        !escaped(p.label@).contains('\x1f'),
        !dec_signed(p.unique_id as int).contains('\x1f'),
        !p.format.key().contains('\x1f'),
{
    reveal_strlit("\x1f");
    reveal_strlit("\x1e");
    reveal_strlit("-");
    reveal_strlit("vst2");
    reveal_strlit("vst3");
    assert("\x1f"@ =~= seq!['\x1f']);
    assert("\x1e"@ =~= seq!['\x1e']);
    text::decimal_is_digits(p.id as nat);
    escaped_is_one_part(p.path@);
    escaped_is_one_part(p.label@);
    let n = p.unique_id as int;
    if n < 0 {
        text::decimal_is_digits((-n) as nat);
    } else {
        text::decimal_is_digits(n as nat);
    }
}

/// Formats with the same name are the same.
proof fn format_keys_differ(a: VstFormat, b: VstFormat)
    ensures
        a.key() == b.key() ==> a == b,
{
    reveal_strlit("vst2");
    reveal_strlit("vst3");
    assert("vst2"@[3] != "vst3"@[3]);
}

/// What stands before the texts of a plugin in a signature.
spec fn sign_head(x: Seq<char>, p: VstPluginConfig) -> Seq<char> {
    x + dec(p.id as nat)
}

/// A plugin's part of a signature can be read from the end.
proof fn sign_regroups(x: Seq<char>, p: VstPluginConfig)
    ensures
        x + plugin_sign(p) == sign_head(x, p) + "\x1f"@ + escaped(p.path@) + "\x1f"@ + escaped(p.label@) + "\x1f"@
            + dec_signed(p.unique_id as int) + "\x1f"@ + p.format.key(),
{
    let z = "\x1f"@;
    let a = dec(p.id as nat);
    let (b, c) = (escaped(p.path@), escaped(p.label@));
    let d = dec_signed(p.unique_id as int);
    let s1 = a + z + b;
    let s2 = s1 + z + c;
    let s3 = s2 + z + d;
    append_regroups(x, a, z);
    append_regroups(x, a + z, b);
    append_regroups(x, s1, z);
    append_regroups(x, s1 + z, c);
    append_regroups(x, s2, z);
    append_regroups(x, s2 + z, d);
    append_regroups(x, s3, z);
    append_regroups(x, s3 + z, p.format.key());
}

/// The end of a signature tells everything the helper depends on in the last
/// plugin but its id.
proof fn last_plugin_is_determined(x: Seq<char>, p: VstPluginConfig, y: Seq<char>, q: VstPluginConfig)
    requires
        x + plugin_sign(p) == y + plugin_sign(q),
    ensures
        sign_head(x, p) == sign_head(y, q),
        p.path@ == q.path@,
        p.label@ == q.label@,
        p.unique_id == q.unique_id,
        p.format == q.format,
{
    sign_parts(p);
    sign_parts(q);
    sign_regroups(x, p);
    sign_regroups(y, q);
    let c = '\x1f';
    let z = seq![c];
    let (x1, y1) = (sign_head(x, p), sign_head(y, q));
    let (x2, y2) = (x1 + z + escaped(p.path@), y1 + z + escaped(q.path@));
    let (x3, y3) = (x2 + z + escaped(p.label@), y2 + z + escaped(q.label@));
    let (u, v) = (dec_signed(p.unique_id as int), dec_signed(q.unique_id as int));
    let (x4, y4) = (x3 + z + u, y3 + z + v);
    last_part_is_determined(c, x4, p.format.key(), y4, q.format.key());
    last_part_is_determined(c, x3, u, y3, v);
    last_part_is_determined(c, x2, escaped(p.label@), y2, escaped(q.label@));
    last_part_is_determined(c, x1, escaped(p.path@), y1, escaped(q.path@));
    escaping_is_injective(p.path@, q.path@);
    escaping_is_injective(p.label@, q.label@);
    text::signed_decimal_is_injective(p.unique_id as int, q.unique_id as int);
    format_keys_differ(p.format, q.format);
}

/// What stands before the last of the first `n` plugins in a signature.
spec fn before_last(s: Seq<VstPluginConfig>, n: int) -> Seq<char> {
    if n <= 1 {
        Seq::empty()
    } else {
        set_sign(s, n - 1) + "\x1e"@
    }
}

/// The signatures of the first plugins of two sets.
proof fn signs_of_same_shapes(s: Seq<VstPluginConfig>, t: Seq<VstPluginConfig>, n: int)
    requires
        shapes(s) == shapes(t),
        0 <= n <= s.len(),
    ensures
        set_sign(s, n) == set_sign(t, n),
    decreases n,
{
    if n > 0 {
        assert(shapes(s).len() == s.len() && shapes(t).len() == t.len());
        assert(shapes(s)[n - 1] == plugin_shape(s[n - 1]));
        assert(shapes(t)[n - 1] == plugin_shape(t[n - 1]));
        assert(plugin_sign(s[n - 1]) == plugin_sign(t[n - 1]));
        signs_of_same_shapes(s, t, n - 1);
    }
}

/// The signatures of the first plugins of two sets tell them apart.
proof fn signs_of_other_shapes(s: Seq<VstPluginConfig>, t: Seq<VstPluginConfig>, n: int, m: int)
    requires
        0 <= n <= s.len(),
        0 <= m <= t.len(),
        set_sign(s, n) == set_sign(t, m),
    ensures
        n == m,
        forall|i: int| 0 <= i < n ==> plugin_shape(#[trigger] s[i]) == plugin_shape(t[i]),
    decreases n,
{
    if n > 0 && m > 0 {
        let c = '\x1e';
        let (p, q) = (s[n - 1], t[m - 1]);
        let (a, b) = (dec(p.id as nat), dec(q.id as nat));
        let (x, y) = (before_last(s, n), before_last(t, m));
        assert(set_sign(s, n) =~= x + plugin_sign(p));
        assert(set_sign(t, m) =~= y + plugin_sign(q));
        last_plugin_is_determined(x, p, y, q);
        sign_parts(p);
        sign_parts(q);
        if n > 1 && m > 1 {
            last_part_is_determined(c, set_sign(s, n - 1), a, set_sign(t, m - 1), b);
            signs_of_other_shapes(s, t, n - 1, m - 1);
        } else if n > 1 {
            assert(y + b =~= b);
            assert((x + a)[x.len() - 1] == c);
            assert(b.contains(c));
        } else if m > 1 {
            assert(x + a =~= a);
            assert((y + b)[y.len() - 1] == c);
            assert(a.contains(c));
        } else {
            assert(x + a =~= a);
            assert(y + b =~= b);
        }
        text::decimal_is_injective(p.id as nat, q.id as nat);
    } else if n > 0 {
        sign_is_not_empty(s, n);
    } else if m > 0 {
        sign_is_not_empty(t, m);
    }
}

/// Every plugin adds to a signature.
proof fn sign_is_not_empty(s: Seq<VstPluginConfig>, n: int)
    requires
        n > 0,
    ensures
        set_sign(s, n).len() > 0,
{
    text::decimal_is_not_empty(s[n - 1].id as nat);
}

/// Racks with the same plugins in the same order have the same signature,
/// whatever the plugins are called and their parameters are.
pub proof fn same_plugins_have_one_signature(s: Seq<VstPluginConfig>, t: Seq<VstPluginConfig>)
    requires
        shapes(s) == shapes(t),
    ensures
        set_sign(s, s.len() as int) == set_sign(t, t.len() as int),
{
    assert(shapes(s).len() == s.len() && shapes(t).len() == t.len());
    signs_of_same_shapes(s, t, s.len() as int);
}

/// Racks with other plugins, or the same in another order, have other
/// signatures.
pub proof fn other_plugins_have_another_signature(s: Seq<VstPluginConfig>, t: Seq<VstPluginConfig>)
    requires
        shapes(s) != shapes(t),
    ensures
        set_sign(s, s.len() as int) != set_sign(t, t.len() as int),
{
    if set_sign(s, s.len() as int) == set_sign(t, t.len() as int) {
        signs_of_other_shapes(s, t, s.len() as int, t.len() as int);
        assert(shapes(s) =~= shapes(t));
    }
}

/// While a helper runs, it is kept with everything known of its plugins as long
/// as the enabled plugins stay the same. As soon as they differ, it is ended.
pub proof fn rack_follows_its_plugins(
    m: FxManager,
    id: u64,
    cfg: ChannelConfig,
    other: ChannelConfig,
    step: VstStep,
    new: FxManager,
)
    requires
        m.rack_runs(id, cfg),
        m.rack_ensured(id, other, step, new),
    ensures
        rack_shape(cfg) == rack_shape(other) && rack_shape(cfg).len() > 0 ==> {
            &&& step is Running
            &&& new.vsts@ == m.vsts@
            &&& new.chains == m.chains
            &&& new.next_run == m.next_run
        },
        rack_shape(cfg) != rack_shape(other) ==> {
            let pid = Some(m.vsts@[m.rack_at(id)].slot.pid);
            &&& step == (VstStep::Off { kill: pid }) || (step is Start && step->Start_kill == pid)
            &&& new.vsts@ == m.vsts@.remove(m.rack_at(id))
        },
{
    let on = cfg.vst_plugins@.filter(vst_on());
    let then = other.vst_plugins@.filter(vst_on());
    first_is_least(m.vsts@, rack_is(id));
    if shapes(on) == shapes(then) {
        same_plugins_have_one_signature(on, then);
        assert(shapes(on).len() == shapes(then).len());
    } else {
        other_plugins_have_another_signature(on, then);
    }
}

// ---- What the VST helper is told ---------------------------------------------

/// Parameter values, by parameter index.
pub open spec fn params_tree(s: Seq<KeyedLevel>) -> JsonView {
    JsonView::Object(Seq::new(s.len(), |i: int| (s[i].key@, double_tree(s[i].value))))
}

/// A plugin to load.
pub open spec fn plugin_tree(p: VstPluginConfig) -> JsonView {
    JsonView::Object(
        seq![
            ("cfg_id"@, uint_tree(p.id)),
            ("path"@, JsonView::Str(p.path@)),
            ("format"@, JsonView::Str(p.format.key())),
            ("name"@, JsonView::Str(p.name@)),
            ("label"@, JsonView::Str(p.label@)),
            ("unique_id"@, int_tree(p.unique_id)),
            ("active"@, JsonView::Bool(true)),
            ("params"@, params_tree(p.params@)),
        ],
    )
}

/// The message that loads a channel's enabled plugins.
pub open spec fn load_tree(cfg: ChannelConfig) -> JsonView {
    let on = cfg.vst_plugins@.filter(vst_on());
    JsonView::Object(
        seq![
            ("cmd"@, JsonView::Str("load"@)),
            ("plugins"@, JsonView::Array(Seq::new(on.len(), |i: int| plugin_tree(on[i])))),
        ],
    )
}

/// The message that sets a parameter.
pub open spec fn set_tree(e: ParamEdit) -> JsonView {
    JsonView::Object(
        seq![
            ("cmd"@, JsonView::Str("set"@)),
            ("cfg_id"@, uint_tree(e.cfg_id)),
            ("param"@, uint_tree(e.index as u64)),
            ("value"@, double_tree(e.value)),
        ],
    )
}

/// The message that opens or closes a plugin's own window.
pub open spec fn show_ui_tree(cfg_id: u64, on: bool) -> JsonView {
    JsonView::Object(
        seq![
            ("cmd"@, JsonView::Str("show_ui"@)),
            ("cfg_id"@, uint_tree(cfg_id)),
            ("on"@, JsonView::Bool(on)),
        ],
    )
}

/// Parameter values, by parameter index.
fn params_json(s: &Vec<KeyedLevel>) -> (r: Json)
    ensures
        r.tree() == params_tree(s@),
{
    let mut members: Vec<(String, Json)> = Vec::new();
    let ghost all = params_tree(s@)->Object_0;
    assert(member_trees(members@) =~= all.take(0));
    let mut i: usize = 0;
    while i < s.len()
        invariant
            i <= s@.len(),
            all == params_tree(s@)->Object_0,
            member_trees(members@) == all.take(i as int),
        decreases s@.len() - i,
    {
        json::put_member(&mut members, s[i].key.as_str(), Json::double(s[i].value));
        assert(member_trees(members@) =~= all.take(i + 1));
        i = i + 1;
    }
    assert(all.take(i as int) =~= all);
    Json::object(members)
}

/// A plugin to load.
fn plugin_json(p: &VstPluginConfig) -> (r: Json)
    ensures
        r.tree() == plugin_tree(*p),
{
    let mut m: Vec<(String, Json)> = Vec::new();
    json::put_member(&mut m, "cfg_id", Json::uint(p.id));
    json::put_member(&mut m, "path", Json::text(p.path.as_str()));
    json::put_member(&mut m, "format", Json::text(p.format.as_str()));
    json::put_member(&mut m, "name", Json::text(p.name.as_str()));
    json::put_member(&mut m, "label", Json::text(p.label.as_str()));
    json::put_member(&mut m, "unique_id", Json::sint(p.unique_id));
    json::put_member(&mut m, "active", Json::Bool(true));
    json::put_member(&mut m, "params", params_json(&p.params));
    assert(member_trees(m@) =~= plugin_tree(*p)->Object_0);
    Json::object(m)
}

/// The message that loads a channel's enabled plugins into a new helper.
pub fn load_message(cfg: &ChannelConfig) -> (r: Json)
    ensures
        r.tree() == load_tree(*cfg),
{
    let enabled = cfg.enabled_vsts();
    let ghost on = cfg.vst_plugins@.filter(vst_on());
    let ghost all = Seq::new(on.len(), |i: int| plugin_tree(on[i]));
    let mut items: Vec<Json> = Vec::new();
    assert(item_trees(items@) =~= all.take(0));
    let mut i: usize = 0;
    while i < enabled.len()
        invariant
            i <= enabled@.len(),
            enabled@.len() == on.len(),
            forall|i: int| 0 <= i < on.len() ==> *(#[trigger] enabled@[i]) == on[i],
            all == Seq::new(on.len(), |i: int| plugin_tree(on[i])),
            item_trees(items@) == all.take(i as int),
        decreases enabled@.len() - i,
    {
        assert(*enabled@[i as int] == on[i as int]);
        json::put_item(&mut items, plugin_json(enabled[i]));
        assert(item_trees(items@) =~= all.take(i + 1));
        i = i + 1;
    }
    assert(all.take(i as int) =~= all);
    let mut m: Vec<(String, Json)> = Vec::new();
    json::put_member(&mut m, "cmd", Json::text("load"));
    json::put_member(&mut m, "plugins", Json::array(items));
    assert(member_trees(m@) =~= load_tree(*cfg)->Object_0);
    Json::object(m)
}

/// The message that sets a parameter.
pub fn set_message(e: ParamEdit) -> (r: Json)
    ensures
        r.tree() == set_tree(e),
{
    let mut m: Vec<(String, Json)> = Vec::new();
    json::put_member(&mut m, "cmd", Json::text("set"));
    json::put_member(&mut m, "cfg_id", Json::uint(e.cfg_id));
    json::put_member(&mut m, "param", Json::uint(e.index as u64));
    json::put_member(&mut m, "value", Json::double(e.value));
    assert(member_trees(m@) =~= set_tree(e)->Object_0);
    Json::object(m)
}

/// The message that opens or closes a plugin's own editor window.
pub fn show_ui_message(cfg_id: u64, on: bool) -> (r: Json)
    ensures
        r.tree() == show_ui_tree(cfg_id, on),
{
    let mut m: Vec<(String, Json)> = Vec::new();
    json::put_member(&mut m, "cmd", Json::text("show_ui"));
    json::put_member(&mut m, "cfg_id", Json::uint(cfg_id));
    json::put_member(&mut m, "on", Json::Bool(on));
    assert(member_trees(m@) =~= show_ui_tree(cfg_id, on)->Object_0);
    Json::object(m)
}

/// The command that links two ports; a link that exists already is no error.
pub open spec fn link_command(output: Seq<char>, input: Seq<char>) -> Seq<char> {
    "pw-link '"@ + output + "' '"@ + input + "' 2>&1; "@
}

/// The rack sits between the null sink in front of it and the chain: both
/// channels of that sink's monitor go into the rack, both outputs of the rack go
/// into the chain's sink, and no other link is made.
pub proof fn rack_sits_between_its_sink_and_the_chain(id: u64)
    ensures
        ({
            let ch = "Crossfade_Ch"@ + dec(id as nat);
            link_script_text(id) == link_command(ch + "_VSTIn:monitor_FL"@, ch + "_VST:audio-in1"@)
                + link_command(ch + "_VSTIn:monitor_FR"@, ch + "_VST:audio-in2"@)
                + link_command(ch + "_VST:audio-out1"@, ch + "_FX:playback_FL"@)
                + link_command(ch + "_VST:audio-out2"@, ch + "_FX:playback_FR"@) + "exit 0"@
        }),
{
    reveal_strlit("pw-link '");
    reveal_strlit("' '");
    reveal_strlit("' 2>&1; ");
    reveal_strlit("exit 0");
    reveal_strlit("_VSTIn");
    reveal_strlit("_VST");
    reveal_strlit("_FX");
    reveal_strlit("_VSTIn:monitor_FL");
    reveal_strlit("_VSTIn:monitor_FR");
    reveal_strlit("_VST:audio-in1");
    reveal_strlit("_VST:audio-in2");
    reveal_strlit("_VST:audio-out1");
    reveal_strlit("_VST:audio-out2");
    reveal_strlit("_FX:playback_FL");
    reveal_strlit("_FX:playback_FR");
    reveal_strlit(":monitor_FL' '");
    reveal_strlit(":monitor_FR' '");
    reveal_strlit(":audio-in1' 2>&1; pw-link '");
    reveal_strlit(":audio-in2' 2>&1; pw-link '");
    reveal_strlit(":audio-out1' '");
    reveal_strlit(":audio-out2' '");
    reveal_strlit(":playback_FL' 2>&1; pw-link '");
    reveal_strlit(":playback_FR' 2>&1; exit 0");
    let ch = "Crossfade_Ch"@ + dec(id as nat);
    let w1 = link_command(ch + "_VSTIn:monitor_FL"@, ch + "_VST:audio-in1"@);
    let w2 = link_command(ch + "_VSTIn:monitor_FR"@, ch + "_VST:audio-in2"@);
    let w3 = link_command(ch + "_VST:audio-out1"@, ch + "_FX:playback_FL"@);
    let w4 = link_command(ch + "_VST:audio-out2"@, ch + "_FX:playback_FR"@);
    let (a, b, c) = (vstin_sink(id), vst_node(id), chain_sink(id));
    let p = "pw-link '"@;
    let s1 = p + a + ":monitor_FL' '"@ + b + ":audio-in1' 2>&1; pw-link '"@;
    let s2 = s1 + a + ":monitor_FR' '"@ + b + ":audio-in2' 2>&1; pw-link '"@;
    let s3 = s2 + b + ":audio-out1' '"@ + c + ":playback_FL' 2>&1; pw-link '"@;
    let s4 = s3 + b + ":audio-out2' '"@ + c + ":playback_FR' 2>&1; exit 0"@;
    assert(s1 =~= w1 + p);
    let t2 = p + a + ":monitor_FR' '"@ + b + ":audio-in2' 2>&1; pw-link '"@;
    assert(t2 =~= w2 + p);
    assert(s2 =~= w1 + t2);
    let t3 = p + b + ":audio-out1' '"@ + c + ":playback_FL' 2>&1; pw-link '"@;
    assert(t3 =~= w3 + p);
    assert(s2 =~= w1 + w2 + p);
    assert(s3 =~= w1 + w2 + t3);
    let t4 = p + b + ":audio-out2' '"@ + c + ":playback_FR' 2>&1; exit 0"@;
    assert(t4 =~= w4 + "exit 0"@);
    assert(s3 =~= w1 + w2 + w3 + p);
    assert(s4 =~= w1 + w2 + w3 + t4);
    assert(s4 =~= w1 + w2 + w3 + w4 + "exit 0"@);
    assert(link_script_text(id) == s4);
}

// ---- What a chain's configuration says ---------------------------------------

/// What stands in a text stands in every text that goes on from it.
proof fn occurs_stays(a: Seq<char>, b: Seq<char>, n: Seq<char>)
    requires
        occurs(a, n),
    ensures
        occurs(a + b, n),
{
    let i = choose|i: int| text::stands_at(a, n, i);
    assert((a + b).subrange(i, i + n.len()) =~= a.subrange(i, i + n.len()));
    assert(text::stands_at(a + b, n, i));
}

/// What ends a text stands in it.
proof fn end_occurs(a: Seq<char>, n: Seq<char>)
    ensures
        occurs(a + n, n),
{
    assert((a + n).subrange(a.len() as int, (a.len() + n.len()) as int) =~= n);
    assert(text::stands_at(a + n, n, a.len() as int));
}

/// What stands in a text stands in every text that leads up to it.
proof fn occurs_behind(a: Seq<char>, b: Seq<char>, n: Seq<char>)
    requires
        occurs(b, n),
    ensures
        occurs(a + b, n),
{
    let i = choose|i: int| text::stands_at(b, n, i);
    assert((a + b).subrange(a.len() + i, a.len() + i + n.len()) =~= b.subrange(i, i + n.len()));
    assert(text::stands_at(a + b, n, a.len() + i));
}

/// Every control for which the plugin has a port is set in the block, to its
/// own value.
proof fn block_sets_every_control(e: EffectConfig, values: Seq<String>, info: PluginInfo, k: int, n: int)
    requires
        0 <= k < n,
        info.has_port(e.controls@[k].key@),
    ensures
        occurs(
            controls_text(e, values, info, n),
            "\""@ + e.controls@[k].key@.filter(token_char()) + "\" = "@ + values[k]@ + " "@,
        ),
    decreases n,
{
    let want = "\""@ + e.controls@[k].key@.filter(token_char()) + "\" = "@ + values[k]@ + " "@;
    let rest = controls_text(e, values, info, n - 1);
    if k == n - 1 {
        end_occurs(rest, want);
    } else {
        block_sets_every_control(e, values, info, k, n - 1);
        if info.has_port(e.controls@[n - 1].key@) {
            occurs_stays(rest, control_text(e.controls@[n - 1].key@, values[n - 1]@), want);
        }
    }
}

/// The nodes of an effect: a mono plugin stands on both lanes, alike but for
/// their labels, and a stereo plugin once. Each node names the plugin and sets
/// every control the plugin has a port for to the effect's value.
pub proof fn every_lane_is_set(e: EffectConfig, values: Seq<String>, info: PluginInfo) -> (node: Seq<char>)
    ensures
        info.mono ==> effect_nodes(e, values, info) == "                    { type = lv2 name = \"fx"@ + dec(
            e.id as nat,
        ) + "_l"@ + node + "                    { type = lv2 name = \"fx"@ + dec(e.id as nat) + "_r"@ + node,
        !info.mono ==> effect_nodes(e, values, info) == "                    { type = lv2 name = \"fx"@ + dec(
            e.id as nat,
        ) + node,
        text::begins(node, "\" plugin = \""@ + e.uri@.filter(uri_char()) + "\""@),
        text::ends(node, " }\n"@),
        forall|k: int|
            0 <= k < e.controls@.len() && info.has_port((#[trigger] e.controls@[k]).key@) ==> occurs(
                node,
                "\""@ + e.controls@[k].key@.filter(token_char()) + "\" = "@ + values[k]@ + " "@,
            ),
        (forall|k: int| 0 <= k < e.controls@.len() ==> !info.has_port((#[trigger] e.controls@[k]).key@)) ==> node
            == "\" plugin = \""@ + e.uri@.filter(uri_char()) + "\""@ + " }\n"@,
{
    reveal_strlit("                    { type = lv2 name = \"");
    reveal_strlit("                    { type = lv2 name = \"fx");
    reveal_strlit("fx");
    reveal_strlit(" control = { ");
    let uri = e.uri@.filter(uri_char());
    let block = control_block(e, values, info);
    let head = "\" plugin = \""@ + uri + "\""@;
    let tail = " }\n"@;
    let node = head + block + tail;
    let open = "                    { type = lv2 name = \""@;
    let long = "                    { type = lv2 name = \"fx"@;
    let d = dec(e.id as nat);
    assert(open + "fx"@ =~= long);
    let l = left_label(e.id);
    let r = right_label(e.id);
    let x = stereo_label(e.id);
    assert(node_line(l, uri, block) =~= long + d + "_l"@ + node);
    assert(node_line(r, uri, block) =~= long + d + "_r"@ + node);
    assert(node_line(x, uri, block) =~= long + d + node);
    if info.mono {
        assert(effect_nodes(e, values, info) =~= long + d + "_l"@ + node + long + d + "_r"@ + node);
    }
    assert(node.subrange(0, head.len() as int) =~= head);
    assert(node.subrange(node.len() - tail.len(), node.len() as int) =~= tail);
    let n = e.controls@.len() as int;
    let all = controls_text(e, values, info, n);
    assert forall|k: int| 0 <= k < n && info.has_port((#[trigger] e.controls@[k]).key@) implies occurs(
        node,
        "\""@ + e.controls@[k].key@.filter(token_char()) + "\" = "@ + values[k]@ + " "@,
    ) by {
        let want = "\""@ + e.controls@[k].key@.filter(token_char()) + "\" = "@ + values[k]@ + " "@;
        block_sets_every_control(e, values, info, k, n);
        reveal_strlit(" ");
        assert(all.len() > 0) by {
            let i = choose|i: int| text::stands_at(all, want, i);
            assert(want.len() > 0);
        }
        occurs_behind(" control = { "@, all, want);
        occurs_stays(" control = { "@ + all, "}"@, want);
        occurs_behind(head, block, want);
        occurs_stays(head + block, tail, want);
    }
    if forall|k: int| 0 <= k < n ==> !info.has_port((#[trigger] e.controls@[k]).key@) {
        no_port_no_setting(e, values, info, n);
        assert(node =~= head + tail);
    }
    node
}

/// Without a port for any control nothing is set.
proof fn no_port_no_setting(e: EffectConfig, values: Seq<String>, info: PluginInfo, n: int)
    requires
        n <= e.controls@.len(),
        forall|k: int| 0 <= k < e.controls@.len() ==> !info.has_port((#[trigger] e.controls@[k]).key@),
    ensures
        controls_text(e, values, info, n).len() == 0,
    decreases n,
{
    if n > 0 {
        no_port_no_setting(e, values, info, n - 1);
        assert(!info.has_port(e.controls@[n - 1].key@));
    }
}

/// The lanes of an effect do not cross: the left lane goes in and out by the
/// first ports (of the left instance, where a mono plugin has two), the right
/// lane by the second ports (or by the first of the right instance).
pub proof fn lanes_do_not_cross(e: EffectConfig, info: PluginInfo)
    ensures
        ({
            let s = effect_stage(e, info);
            let name = "fx"@ + dec(e.id as nat);
            let sym = |p: Seq<String>, i: int| p[i]@.filter(token_char());
            if info.mono {
                &&& s.in_l == name + "_l"@ + ":"@ + sym(info.audio_in@, 0)
                &&& s.in_r == name + "_r"@ + ":"@ + sym(info.audio_in@, 0)
                &&& s.out_l == name + "_l"@ + ":"@ + sym(info.audio_out@, 0)
                &&& s.out_r == name + "_r"@ + ":"@ + sym(info.audio_out@, 0)
            } else {
                &&& s.in_l == name + ":"@ + sym(info.audio_in@, 0)
                &&& s.in_r == name + ":"@ + sym(info.audio_in@, 1)
                &&& s.out_l == name + ":"@ + sym(info.audio_out@, 0)
                &&& s.out_r == name + ":"@ + sym(info.audio_out@, 1)
            }
        }),
{
}

/// The labels under which an effect's controls are set are those of its nodes.
pub proof fn labels_match_the_nodes(id: u64, mono: bool)
    ensures
        mono ==> labels(id, mono) == seq!["fx"@ + dec(id as nat) + "_l"@, "fx"@ + dec(id as nat) + "_r"@],
        !mono ==> labels(id, mono) == seq!["fx"@ + dec(id as nat)],
{
}

/// An effect is in the chain exactly where it is switched on and its plugin is
/// installed, and then in its place: behind the effects before it.
pub proof fn chain_keeps_the_order(
    effects: Seq<EffectConfig>,
    values: Seq<Vec<String>>,
    catalog: Option<Catalog>,
    i: int,
    n: int,
)
    requires
        0 <= i < n,
    ensures
        ({
            let before = stages(effects, catalog, i);
            let all = stages(effects, catalog, n);
            let on = effects[i].enabled && catalog is Some && catalog->0.position(effects[i].uri@)
                < catalog->0.plugins@.len();
            let info = catalog->0.plugins@[catalog->0.position(effects[i].uri@)];
            &&& before.len() <= all.len()
            &&& all.take(before.len() as int) == before
            &&& on ==> before.len() < all.len() && all[before.len() as int] == effect_stage(effects[i], info)
            &&& on ==> occurs(nodes_text(effects, values, catalog, n), effect_nodes(effects[i], values[i]@, info))
            &&& !on ==> stages(effects, catalog, i + 1) == before && nodes_text(effects, values, catalog, i + 1)
                == nodes_text(effects, values, catalog, i)
            &&& on ==> stages(effects, catalog, i + 1).len() == before.len() + 1
        }),
    decreases n,
{
    let before = stages(effects, catalog, i);
    let all = stages(effects, catalog, n);
    let last = nodes_text(effects, values, catalog, n - 1);
    if i == n - 1 {
        assert(all.take(before.len() as int) =~= before);
        if active_plugin(effects[i], catalog) is Some {
            end_occurs(last, effect_nodes(effects[i], values[i]@, active_plugin(effects[i], catalog)->0));
        }
    } else {
        chain_keeps_the_order(effects, values, catalog, i, n - 1);
        let rest = stages(effects, catalog, n - 1);
        assert(all.take(before.len() as int) =~= rest.take(before.len() as int));
        if active_plugin(effects[i], catalog) is Some && active_plugin(effects[n - 1], catalog) is Some {
            occurs_stays(
                last,
                effect_nodes(effects[n - 1], values[n - 1]@, active_plugin(effects[n - 1], catalog)->0),
                effect_nodes(effects[i], values[i]@, active_plugin(effects[i], catalog)->0),
            );
        }
    }
}

/// The plugin of an effect is the one with its URI.
pub proof fn plugins_are_found_by_uri(catalog: Catalog, uri: Seq<char>, i: int)
    ensures
        0 <= catalog.position(uri),
        catalog.position(uri) < catalog.plugins@.len() ==> catalog.plugins@[catalog.position(uri)].uri@ == uri,
        0 <= i < catalog.plugins@.len() && catalog.plugins@[i].uri@ == uri ==> catalog.position(uri)
            < catalog.plugins@.len(),
{
    first_is_least(catalog.plugins@, crate::lv2::plugin_is(uri));
    if 0 <= i < catalog.plugins@.len() && catalog.plugins@[i].uri@ == uri {
        crate::list::first_exists(catalog.plugins@, crate::lv2::plugin_is(uri), i);
    }
}

/// Each stage feeds the next, left into left and right into right.
pub proof fn stages_feed_each_other(s: Seq<StageView>, n: int, i: int)
    requires
        0 <= i < n - 1,
    ensures
        occurs(
            links_text(s, n),
            "{ output = \""@ + s[i].out_l + "\" input = \""@ + s[i + 1].in_l + "\" }"@,
        ),
        occurs(
            links_text(s, n),
            "{ output = \""@ + s[i].out_r + "\" input = \""@ + s[i + 1].in_r + "\" }"@,
        ),
        links_text(s, 1).len() == 0,
    decreases n,
{
    let rest = links_text(s, n - 1);
    let l = link_line(s[n - 2].out_l, s[n - 1].in_l);
    let r = link_line(s[n - 2].out_r, s[n - 1].in_r);
    let x = "{ output = \""@ + s[i].out_l + "\" input = \""@ + s[i + 1].in_l + "\" }"@;
    let y = "{ output = \""@ + s[i].out_r + "\" input = \""@ + s[i + 1].in_r + "\" }"@;
    if i == n - 2 {
        link_line_links(s[n - 2].out_l, s[n - 1].in_l);
        link_line_links(s[n - 2].out_r, s[n - 1].in_r);
        occurs_behind(rest, l, x);
        occurs_stays(rest + l, r, x);
        occurs_behind(rest + l, r, y);
    } else {
        stages_feed_each_other(s, n - 1, i);
        occurs_stays(rest, l, x);
        occurs_stays(rest + l, r, x);
        occurs_stays(rest, l, y);
        occurs_stays(rest + l, r, y);
    }
}

/// A link goes from its output to its input.
proof fn link_line_links(output: Seq<char>, input: Seq<char>)
    ensures
        occurs(link_line(output, input), "{ output = \""@ + output + "\" input = \""@ + input + "\" }"@),
{
    reveal_strlit("                    { output = \"");
    reveal_strlit("{ output = \"");
    reveal_strlit("                    ");
    reveal_strlit("\" }\n");
    reveal_strlit("\" }");
    reveal_strlit("\n");
    let p = "                    "@;
    let n = "{ output = \""@ + output + "\" input = \""@ + input + "\" }"@;
    assert("                    { output = \""@ =~= p + "{ output = \""@);
    assert("\" }\n"@ =~= "\" }"@ + "\n"@);
    assert(link_line(output, input) =~= p + n + "\n"@);
    end_occurs(p, n);
    occurs_stays(p + n, "\n"@, n);
}

/// The chain takes its input into its first stage and hands out what its last
/// stage gives; it holds the nodes and links it is given, its sink is the
/// channel's chain sink, and its output the channel's chain source.
pub proof fn chain_runs_from_end_to_end(id: u64, nodes: Seq<char>, s: Seq<StageView>)
    ensures
        occurs(conf_text(id, nodes, s), "nodes = [\n"@ + nodes + "                ]"@),
        occurs(conf_text(id, nodes, s), "links = [\n"@ + links_text(s, s.len() as int) + "                ]"@),
        occurs(
            conf_text(id, nodes, s),
            "inputs  = [ \""@ + s.first().in_l + "\" \""@ + s.first().in_r + "\" ]"@,
        ),
        occurs(
            conf_text(id, nodes, s),
            "outputs = [ \""@ + s.last().out_l + "\" \""@ + s.last().out_r + "\" ]"@,
        ),
        occurs(
            conf_text(id, nodes, s),
            "capture.props = {\n                node.name           = \"Crossfade_Ch"@ + dec(id as nat)
                + "_FX\"\n"@,
        ),
        occurs(
            conf_text(id, nodes, s),
            "playback.props = {\n                node.name           = \"Crossfade_Ch"@ + dec(id as nat)
                + "_FXOut\"\n"@,
        ),
{
    let d = dec(id as nat);
    let l0 = " Effects\"\n            media.name       = \"Crossfade Channel "@;
    let l1 = " Effects\"\n            filter.graph = {\n                nodes = [\n"@;
    let l2 = "                ]\n                links = [\n"@;
    let l3 = "                ]\n                inputs  = [ \""@;
    let l4 = "\" \""@;
    let l5 = "\" ]\n                outputs = [ \""@;
    let l6 =
        "\" ]\n            }\n            audio.channels = 2\n            audio.position = [ FL FR ]\n            capture.props = {\n                node.name           = \""@;
    let l7 = "\"\n                node.description    = \"Crossfade Ch "@;
    let l8 =
        " FX (internal)\"\n                media.class         = Audio/Sink\n                state.restore-props = false\n            }\n            playback.props = {\n                node.name           = \""@;
    let l9 =
        " FX Out (internal)\"\n                media.class         = Audio/Source\n                state.restore-props = false\n            }\n        }\n    }\n]\n"@;
    let links = links_text(s, s.len() as int);
    let (il, ir, ol, or) = (s.first().in_l, s.first().in_r, s.last().out_l, s.last().out_r);
    let t0 = CONF_HEAD@ + d + l0 + d + l1;
    let t1 = t0 + nodes + l2;
    let t2 = t1 + links + l3;
    let t3 = t2 + il + l4 + ir + l5;
    let t4 = t3 + ol + l4 + or + l6;
    let t5 = t4 + chain_sink(id) + l7;
    let t6 = t5 + d + l8;
    let t7 = t6 + chain_source(id) + l7;
    let t8 = t7 + d + l9;
    assert(conf_text(id, nodes, s) == t8);
    // Nodes.
    let n1 = "nodes = [\n"@ + nodes + "                ]"@;
    reveal_strlit("nodes = [\n");
    reveal_strlit("                ]");
    reveal_strlit(" Effects\"\n            filter.graph = {\n                nodes = [\n");
    reveal_strlit("                ]\n                links = [\n");
    ends_with_part(CONF_HEAD@ + d + l0 + d, l1, "nodes = [\n"@);
    begins_with_part(l2, "                ]"@);
    framed_part(t0, nodes, l2, "nodes = [\n"@, "                ]"@);
    // Links.
    let n2 = "links = [\n"@ + links + "                ]"@;
    reveal_strlit("links = [\n");
    reveal_strlit("                ]\n                inputs  = [ \"");
    ends_with_part(t0 + nodes, l2, "links = [\n"@);
    begins_with_part(l3, "                ]"@);
    framed_part(t1, links, l3, "links = [\n"@, "                ]"@);
    // Inputs.
    let n3 = "inputs  = [ \""@ + il + "\" \""@ + ir + "\" ]"@;
    reveal_strlit("inputs  = [ \"");
    reveal_strlit("\" ]");
    reveal_strlit("\" ]\n                outputs = [ \"");
    ends_with_part(t1 + links, l3, "inputs  = [ \""@);
    begins_with_part(l5, "\" ]"@);
    framed_part(t2, il + l4 + ir, l5, "inputs  = [ \""@, "\" ]"@);
    assert("inputs  = [ \""@ + (il + l4 + ir) + "\" ]"@ =~= n3);
    assert(t2 + (il + l4 + ir) + l5 =~= t3);
    // Outputs.
    let n4 = "outputs = [ \""@ + ol + "\" \""@ + or + "\" ]"@;
    reveal_strlit("outputs = [ \"");
    reveal_strlit(
        "\" ]\n            }\n            audio.channels = 2\n            audio.position = [ FL FR ]\n            capture.props = {\n                node.name           = \"",
    );
    ends_with_part(t2 + il + l4 + ir, l5, "outputs = [ \""@);
    begins_with_part(l6, "\" ]"@);
    framed_part(t3, ol + l4 + or, l6, "outputs = [ \""@, "\" ]"@);
    assert("outputs = [ \""@ + (ol + l4 + or) + "\" ]"@ =~= n4);
    assert(t3 + (ol + l4 + or) + l6 =~= t4);
    // The sink.
    let c = "capture.props = {\n                node.name           = \""@;
    reveal_strlit("capture.props = {\n                node.name           = \"");
    reveal_strlit("\"\n                node.description    = \"Crossfade Ch ");
    reveal_strlit("\"\n");
    ends_with_part(t3 + ol + l4 + or, l6, c);
    begins_with_part(l7, "\"\n"@);
    framed_part(t4, chain_sink(id), l7, c, "\"\n"@);
    let n5 = "capture.props = {\n                node.name           = \"Crossfade_Ch"@ + d + "_FX\"\n"@;
    reveal_strlit("capture.props = {\n                node.name           = \"Crossfade_Ch");
    reveal_strlit("Crossfade_Ch");
    reveal_strlit("_FX");
    reveal_strlit("_FX\"\n");
    assert("_FX\"\n"@ =~= "_FX"@ + "\"\n"@);
    assert("capture.props = {\n                node.name           = \"Crossfade_Ch"@ =~= c + "Crossfade_Ch"@);
    assert(c + chain_sink(id) + "\"\n"@ =~= n5);
    // The source.
    let p = "playback.props = {\n                node.name           = \""@;
    reveal_strlit("playback.props = {\n                node.name           = \"");
    reveal_strlit(
        " FX (internal)\"\n                media.class         = Audio/Sink\n                state.restore-props = false\n            }\n            playback.props = {\n                node.name           = \"",
    );
    ends_with_part(t5 + d, l8, p);
    framed_part(t6, chain_source(id), l7, p, "\"\n"@);
    let n6 = "playback.props = {\n                node.name           = \"Crossfade_Ch"@ + d + "_FXOut\"\n"@;
    reveal_strlit("playback.props = {\n                node.name           = \"Crossfade_Ch");
    reveal_strlit("_FXOut");
    reveal_strlit("_FXOut\"\n");
    assert("_FXOut\"\n"@ =~= "_FXOut"@ + "\"\n"@);
    assert("playback.props = {\n                node.name           = \"Crossfade_Ch"@ =~= p + "Crossfade_Ch"@);
    assert(p + chain_source(id) + "\"\n"@ =~= n6);
    // All of it stays as the text goes on.
    occurs_stays(t1, links, n1);
    occurs_stays(t1 + links, l3, n1);
    stays_to_the_end(t2, il, l4, ir, l5, n1);
    stays_to_the_end(t2, il, l4, ir, l5, n2);
    stays_to_the_end(t3, ol, l4, or, l6, n1);
    stays_to_the_end(t3, ol, l4, or, l6, n2);
    stays_to_the_end(t3, ol, l4, or, l6, n3);
    let e = Seq::<char>::empty();
    assert(t4 + chain_sink(id) + l7 + d + l8 == t6);
    stays_to_the_end(t4, chain_sink(id), l7, d, l8, n1);
    stays_to_the_end(t4, chain_sink(id), l7, d, l8, n2);
    stays_to_the_end(t4, chain_sink(id), l7, d, l8, n3);
    stays_to_the_end(t4, chain_sink(id), l7, d, l8, n4);
    occurs_stays(t5, d, n5);
    occurs_stays(t5 + d, l8, n5);
    assert(t6 + chain_source(id) + l7 + d + l9 == t8);
    stays_to_the_end(t6, chain_source(id), l7, d, l9, n1);
    stays_to_the_end(t6, chain_source(id), l7, d, l9, n2);
    stays_to_the_end(t6, chain_source(id), l7, d, l9, n3);
    stays_to_the_end(t6, chain_source(id), l7, d, l9, n4);
    stays_to_the_end(t6, chain_source(id), l7, d, l9, n5);
    occurs_stays(t7, d, n6);
    occurs_stays(t7 + d, l9, n6);
}

/// What stands in a text stays through four more parts.
proof fn stays_to_the_end(t: Seq<char>, a: Seq<char>, b: Seq<char>, c: Seq<char>, d: Seq<char>, n: Seq<char>)
    requires
        occurs(t, n),
    ensures
        occurs(t + a + b + c + d, n),
{
    occurs_stays(t, a, n);
    occurs_stays(t + a, b, n);
    occurs_stays(t + a + b, c, n);
    occurs_stays(t + a + b + c, d, n);
}

/// A text ends in what its last part ends in.
proof fn ends_with_part(a: Seq<char>, b: Seq<char>, n: Seq<char>)
    requires
        n.len() <= b.len(),
        b.subrange(b.len() - n.len(), b.len() as int) =~= n,
    ensures
        text::ends(a + b, n),
{
    let s = a + b;
    assert(s.subrange(s.len() - n.len(), s.len() as int) =~= n);
}

/// A text begins with the part it begins with.
proof fn begins_with_part(a: Seq<char>, n: Seq<char>)
    requires
        n.len() <= a.len(),
        a.subrange(0, n.len() as int) =~= n,
    ensures
        text::begins(a, n),
{
}

/// A part stands between what comes just before and just after it.
proof fn framed_part(a: Seq<char>, m: Seq<char>, b: Seq<char>, x: Seq<char>, y: Seq<char>)
    requires
        text::ends(a, x),
        text::begins(b, y),
    ensures
        occurs(a + m + b, x + m + y),
{
    let s = a + m + b;
    let n = x + m + y;
    let i = a.len() - x.len();
    assert(s.subrange(i, i + n.len()) =~= n) by {
        assert(a.subrange(i, a.len() as int) == x);
        assert(b.subrange(0, y.len() as int) == y);
        assert forall|k: int| 0 <= k < n.len() implies s.subrange(i, i + n.len())[k] == n[k] by {
            if k < x.len() {
                assert(a.subrange(i, a.len() as int)[k] == x[k]);
            } else if k >= x.len() + m.len() {
                assert(b.subrange(0, y.len() as int)[k - x.len() - m.len()] == y[k - x.len() - m.len()]);
            }
        }
    }
    assert(text::stands_at(s, n, i));
}

/// Setting a control on a live chain addresses the channel's chain and sets the
/// port of every label to the value.
pub proof fn controls_reach_every_label(
    channel: u64,
    labels: Seq<String>,
    symbol: Seq<char>,
    value: Seq<char>,
    n: int,
    i: int,
)
    requires
        0 <= i < n,
    ensures
        occurs(
            param_entries(labels, symbol, value, n),
            "\""@ + labels[i]@.filter(token_char()) + ":"@ + symbol.filter(token_char()) + "\" "@ + value + " "@,
        ),
        text::begins(
            set_param_text(channel, param_entries(labels, symbol, value, n)),
            "pw-cli set-param Crossfade_Ch"@ + dec(channel as nat) + "_FX Props "@,
        ),
        occurs(
            set_param_text(channel, param_entries(labels, symbol, value, n)),
            param_entries(labels, symbol, value, n),
        ),
    decreases n,
{
    let all = param_entries(labels, symbol, value, n);
    let rest = param_entries(labels, symbol, value, n - 1);
    let (a, b) = (labels[n - 1]@.filter(token_char()), symbol.filter(token_char()));
    let last = "\""@ + a + ":"@ + b + "\" "@ + value + " "@;
    let want = "\""@ + labels[i]@.filter(token_char()) + ":"@ + b + "\" "@ + value + " "@;
    assert(all =~= rest + last);
    if i == n - 1 {
        end_occurs(rest, last);
    } else {
        controls_reach_every_label(channel, labels, symbol, value, n - 1, i);
        occurs_stays(rest, last, want);
    }
    reveal_strlit("pw-cli set-param ");
    reveal_strlit("pw-cli set-param Crossfade_Ch");
    reveal_strlit("Crossfade_Ch");
    reveal_strlit("_FX");
    reveal_strlit("_FX Props ");
    reveal_strlit(" Props '{ params = [ ");
    let t = set_param_text(channel, all);
    let head = "pw-cli set-param Crossfade_Ch"@ + dec(channel as nat) + "_FX Props "@;
    assert(t.subrange(0, head.len() as int) =~= head);
    let start = "pw-cli set-param "@ + chain_sink(channel) + " Props '{ params = [ "@;
    end_occurs(start, all);
    occurs_stays(start + all, "] }'"@, all);
}

/// A chain is restarted from scratch when its conf changes: the old process is
/// ended and the new conf has no deaths behind it. Without a conf it is ended
/// and nothing is started.
pub proof fn changed_chains_are_replaced(m: FxManager, id: u64, conf: Option<Seq<char>>, r: ChainStep, new: FxManager)
    requires
        m.chain_ensured(id, conf, r, new),
        m.chain_at(id) < m.chains@.len(),
        m.chains@[m.chain_at(id)].slot.alive,
        conf is None || m.chains@[m.chain_at(id)].conf@ != conf->0,
        m.wf(),
    ensures
        r.kill == Some(m.chains@[m.chain_at(id)].slot.pid),
        conf is None ==> r.start is None,
        conf is Some ==> r.start == Some(0u32),
        !new.chain_up(id),
        new.vsts == m.vsts,
{
    let p = m.chain_at(id);
    first_is_least(m.chains@, chain_is(id));
    first_is_least(new.chains@, chain_is(id));
    let q = new.chain_at(id);
    if q < new.chains@.len() {
        let o = if q < p {
            q
        } else {
            q + 1
        };
        assert(new.chains@[q] == m.chains@[o]);
        if o < p {
            assert(m.chains@[o].id != m.chains@[p].id);
        } else {
            assert(m.chains@[p].id != m.chains@[o].id);
        }
    }
}

// ---- What is said to and heard from a rack -----------------------------------

/// The value of a member, where it is the one at a position and no earlier one
/// has its name.
proof fn member_at(s: Seq<(Seq<char>, JsonView)>, key: Seq<char>, i: int)
    requires
        0 <= i < s.len(),
        s[i].0 == key,
        forall|j: int| 0 <= j < i ==> (#[trigger] s[j]).0 != key,
    ensures
        JsonView::Object(s).member(key) == s[i].1,
{
    first_is_at(s, json::member_is(key), i);
}

/// The names in messages are all different.
proof fn message_names_differ()
    ensures
        "cmd"@ != "cfg_id"@,
        "cmd"@ != "param"@,
        "cmd"@ != "value"@,
        "cmd"@ != "plugins"@,
        "cmd"@ != "on"@,
        "cfg_id"@ != "param"@,
        "cfg_id"@ != "value"@,
        "cfg_id"@ != "on"@,
        "param"@ != "value"@,
        "cfg_id"@ != "path"@,
        "cfg_id"@ != "format"@,
        "cfg_id"@ != "name"@,
        "cfg_id"@ != "label"@,
        "path"@ != "format"@,
        "path"@ != "name"@,
        "path"@ != "label"@,
        "format"@ != "name"@,
        "format"@ != "label"@,
        "name"@ != "label"@,
        "active"@ != "cfg_id"@,
        "active"@ != "path"@,
        "active"@ != "format"@,
        "active"@ != "name"@,
        "active"@ != "label"@,
        "active"@ != "unique_id"@,
        "unique_id"@ != "cfg_id"@,
        "unique_id"@ != "path"@,
        "unique_id"@ != "format"@,
        "unique_id"@ != "name"@,
        "unique_id"@ != "label"@,
        "params"@ != "cfg_id"@,
        "params"@ != "path"@,
        "params"@ != "format"@,
        "params"@ != "name"@,
        "params"@ != "label"@,
        "params"@ != "unique_id"@,
        "params"@ != "active"@,
{
    reveal_strlit("cmd");
    reveal_strlit("cfg_id");
    reveal_strlit("param");
    reveal_strlit("params");
    reveal_strlit("value");
    reveal_strlit("plugins");
    reveal_strlit("on");
    reveal_strlit("path");
    reveal_strlit("format");
    reveal_strlit("name");
    reveal_strlit("label");
    reveal_strlit("active");
    reveal_strlit("unique_id");
    assert("cmd"@.len() == 3 && "plugins"@.len() == 7 && "on"@.len() == 2 && "unique_id"@.len() == 9);
    assert("path"@.len() == 4 && "name"@.len() == 4);
    assert("param"@.len() == 5 && "value"@.len() == 5 && "label"@.len() == 5);
    assert("cfg_id"@.len() == 6 && "params"@.len() == 6 && "format"@.len() == 6 && "active"@.len() == 6);
    assert("path"@[0] == 'p' && "name"@[0] == 'n');
    assert("param"@[0] == 'p' && "value"@[0] == 'v' && "label"@[0] == 'l');
    assert("cfg_id"@[0] == 'c' && "params"@[0] == 'p' && "format"@[0] == 'f' && "active"@[0] == 'a');
}

/// What a rack is told to set is what it would report back: the same plugin,
/// parameter and value.
pub proof fn settings_are_read_back(e: ParamEdit)
    ensures
        set_tree(e).member("cmd"@).string() == Some("set"@),
        reported_edit(set_tree(e)) == Some(e),
{
    message_names_differ();
    let s = set_tree(e)->Object_0;
    member_at(s, "cmd"@, 0);
    member_at(s, "cfg_id"@, 1);
    member_at(s, "param"@, 2);
    member_at(s, "value"@, 3);
    assert(low_half(e.index as u64) == e.index);
}

/// A window is asked for by plugin.
pub proof fn windows_are_asked_for(cfg_id: u64, on: bool)
    ensures
        show_ui_tree(cfg_id, on).member("cmd"@).string() == Some("show_ui"@),
        show_ui_tree(cfg_id, on).member("cfg_id"@).unsigned() == Some(cfg_id),
        show_ui_tree(cfg_id, on).member("on"@).boolean() == Some(on),
{
    message_names_differ();
    let s = show_ui_tree(cfg_id, on)->Object_0;
    member_at(s, "cmd"@, 0);
    member_at(s, "cfg_id"@, 1);
    member_at(s, "on"@, 2);
}

/// A rack is told to load exactly the enabled plugins, in their order, each with
/// what identifies it and with its parameters.
pub proof fn enabled_plugins_are_loaded(cfg: ChannelConfig, i: int)
    requires
        0 <= i < cfg.vst_plugins@.filter(vst_on()).len(),
    ensures
        load_tree(cfg).member("cmd"@).string() == Some("load"@),
        load_tree(cfg).member("plugins"@).items().len() == cfg.vst_plugins@.filter(vst_on()).len(),
        ({
            let p = cfg.vst_plugins@.filter(vst_on())[i];
            let t = load_tree(cfg).member("plugins"@).items()[i];
            &&& p.enabled
            &&& cfg.vst_plugins@.contains(p)
            &&& t.member("cfg_id"@).unsigned() == Some(p.id)
            &&& t.member("path"@).string() == Some(p.path@)
            &&& t.member("format"@).string() == Some(p.format.key())
            &&& t.member("name"@).string() == Some(p.name@)
            &&& t.member("label"@).string() == Some(p.label@)
            &&& t.member("unique_id"@) is Number
            &&& t.member("unique_id"@)->Number_0.signed == Some(p.unique_id)
            &&& t.member("active"@).boolean() == Some(true)
            &&& t.member("params"@) is Object
            &&& t.member("params"@)->Object_0.len() == p.params@.len()
            &&& forall|k: int|
                0 <= k < p.params@.len() ==> (#[trigger] t.member("params"@)->Object_0[k]).0 == p.params@[k].key@
                    && t.member("params"@)->Object_0[k].1.number() == Some(p.params@[k].value)
        }),
        forall|k: int|
            0 <= k < cfg.vst_plugins@.len() && (#[trigger] cfg.vst_plugins@[k]).enabled
                ==> cfg.vst_plugins@.filter(vst_on()).contains(cfg.vst_plugins@[k]),
{
    message_names_differ();
    let on = cfg.vst_plugins@.filter(vst_on());
    crate::list::filter_keeps(cfg.vst_plugins@, vst_on());
    let s = load_tree(cfg)->Object_0;
    member_at(s, "cmd"@, 0);
    member_at(s, "plugins"@, 1);
    let p = on[i];
    assert(vst_on()(p));
    let t = plugin_tree(p)->Object_0;
    assert(load_tree(cfg).member("plugins"@).items()[i] == plugin_tree(p));
    member_at(t, "cfg_id"@, 0);
    member_at(t, "path"@, 1);
    member_at(t, "format"@, 2);
    member_at(t, "name"@, 3);
    member_at(t, "label"@, 4);
    member_at(t, "unique_id"@, 5);
    member_at(t, "active"@, 6);
    member_at(t, "params"@, 7);
    assert forall|k: int| 0 <= k < cfg.vst_plugins@.len() && (#[trigger] cfg.vst_plugins@[k]).enabled implies on.contains(
        cfg.vst_plugins@[k],
    ) by {
        crate::list::filter_loses_nothing(cfg.vst_plugins@, vst_on(), k);
    }
}

/// A plugin's edit changes the value of that parameter of that plugin, and
/// nothing else.
pub proof fn edits_change_one_value(s: Seq<RuntimeView>, e: ParamEdit, i: int, k: int)
    requires
        0 <= i < s.len(),
        0 <= k < s[i].params.len(),
    ensures
        after_edit(s, e).len() == s.len(),
        after_edit(s, e)[i].cfg_id == s[i].cfg_id,
        after_edit(s, e)[i].state == s[i].state,
        after_edit(s, e)[i].params.len() == s[i].params.len(),
        after_edit(s, e)[i].params[k].index == s[i].params[k].index,
        after_edit(s, e)[i].params[k].min == s[i].params[k].min,
        after_edit(s, e)[i].params[k].max == s[i].params[k].max,
        s[i].cfg_id != e.cfg_id || s[i].params[k].index != e.index ==> after_edit(s, e)[i].params[k]
            == s[i].params[k],
        s[i].cfg_id == e.cfg_id && s[i].params[k].index == e.index && (forall|j: int|
            0 <= j < i ==> (#[trigger] s[j]).cfg_id != e.cfg_id) && (forall|j: int|
            0 <= j < k ==> (#[trigger] s[i].params[j]).index != e.index) ==> after_edit(s, e)[i].params[k].value
            == e.value,
{
    first_is_least(s, plugin_has(e.cfg_id));
    let f = first(s, plugin_has(e.cfg_id));
    if f < s.len() {
        first_is_least(s[f].params, param_has(e.index));
    }
    if s[i].cfg_id == e.cfg_id && (forall|j: int| 0 <= j < i ==> (#[trigger] s[j]).cfg_id != e.cfg_id) {
        first_is_at(s, plugin_has(e.cfg_id), i);
        if s[i].params[k].index == e.index && (forall|j: int|
            0 <= j < k ==> (#[trigger] s[i].params[j]).index != e.index) {
            first_is_at(s[i].params, param_has(e.index), k);
        }
    }
}

/// A load result says of its plugin whether it loaded, with its parameters, or
/// why it failed; it keeps which plugin it is.
pub proof fn load_results_are_told(r: RuntimeView, item: JsonView)
    ensures
        after_load(r, item).cfg_id == r.cfg_id,
        after_load(r, item).state is Loaded <==> item.member("ok"@).boolean() == Some(true),
        !(after_load(r, item).state is Loaded) ==> after_load(r, item).state is Failed && after_load(r, item).params
            == r.params,
        item.member("ok"@).boolean() != Some(true) && item.member("error"@).string() is Some ==> after_load(
            r,
            item,
        ).state == StateView::Failed(item.member("error"@).string()->0),
        item.member("ok"@).boolean() == Some(true) && item.member("has_ui"@).boolean() is Some ==> after_load(
            r,
            item,
        ).has_ui == item.member("has_ui"@).boolean()->0,
{
}

/// Every parameter a report describes comes through, with what the report says
/// of it.
pub proof fn reported_parameters_come_through(s: Seq<JsonView>, n: int, i: int)
    requires
        0 <= i < n,
        s[i].member("index"@).unsigned() is Some,
    ensures
        reported_param(s[i]) is Some,
        reported_params(s, n).contains(reported_param(s[i])->0),
        ({
            let p = reported_param(s[i])->0;
            &&& s[i].member("index"@).unsigned()->0 < 0x1_0000_0000 ==> p.index == s[i].member(
                "index"@,
            ).unsigned()->0
            &&& s[i].member("name"@).string() is Some ==> p.name == s[i].member("name"@).string()->0
            &&& s[i].member("min"@).number() is Some ==> p.min == s[i].member("min"@).number()->0
            &&& s[i].member("max"@).number() is Some ==> p.max == s[i].member("max"@).number()->0
            &&& s[i].member("value"@).number() is Some ==> p.value == s[i].member("value"@).number()->0
            &&& s[i].member("toggled"@).boolean() is Some ==> p.toggled == s[i].member("toggled"@).boolean()->0
            &&& s[i].member("integer"@).boolean() is Some ==> p.integer == s[i].member("integer"@).boolean()->0
        }),
    decreases n,
{
    let rest = reported_params(s, n - 1);
    let all = reported_params(s, n);
    let p = reported_param(s[i])->0;
    if i == n - 1 {
        assert(all[rest.len() as int] == p);
    } else {
        reported_parameters_come_through(s, n - 1, i);
        let k = choose|k: int| 0 <= k < rest.len() && rest[k] == p;
        assert(all[k] == p);
    }
}

/// A message brings an edit exactly where it reports a parameter in full, and
/// then mirrors it; anything but load results and parameters changes nothing.
pub proof fn messages_are_told_apart(s: Seq<RuntimeView>, j: JsonView)
    ensures
        j.member("reply"@).string() == Some("param"@) && j.member("cfg_id"@).unsigned() is Some && j.member(
            "param"@,
        ).unsigned() is Some && j.member("value"@).number() is Some ==> reply_edits(j).len() == 1 && reply_edits(
            j,
        )[0].cfg_id == j.member("cfg_id"@).unsigned()->0 && reply_edits(j)[0].value == j.member(
            "value"@,
        ).number()->0 && after_reply(s, j) == after_edit(s, reply_edits(j)[0]),
        j.member("reply"@).string() != Some("param"@) ==> reply_edits(j).len() == 0,
        j.member("reply"@).string() != Some("param"@) && j.member("reply"@).string() != Some("loaded"@)
            ==> after_reply(s, j) == s,
{
    replies_differ();
}

/// It does not matter in what pieces a helper's output arrives: the lines are
/// those of the whole, and what is left over is too.
pub proof fn pieces_make_the_same_lines(a: Seq<u8>, b: Seq<u8>)
    ensures
        complete_lines(a + b) == complete_lines(a) + complete_lines(unfinished(a) + b),
        unfinished(a + b) == unfinished(unfinished(a) + b),
    decreases a.len(),
{
    let p = ends_line();
    let i = first(a, p);
    first_is_least(a, p);
    let s = a + b;
    if i < a.len() {
        assert forall|j: int| 0 <= j < i implies !p(#[trigger] s[j]) by {
            assert(s[j] == a[j]);
        }
        first_is_at(s, p, i);
        let t = a.skip(i + 1);
        assert(s.skip(i + 1) =~= t + b);
        assert(s.take(i + 1) =~= a.take(i + 1));
        pieces_make_the_same_lines(t, b);
        let rest = complete_lines(unfinished(t) + b);
        assert(unfinished(a) == unfinished(t));
        match line_of(a.take(i + 1)) {
            Some(line) => {
                assert(seq![line] + (complete_lines(t) + rest) =~= (seq![line] + complete_lines(t)) + rest);
            },
            None => {},
        }
    } else {
        assert(complete_lines(a) + complete_lines(a + b) =~= complete_lines(a + b));
    }
}

/// What is left over holds no end of a line, and a line without white space
/// around it comes out as it is.
pub proof fn nothing_is_left_in_the_middle(a: Seq<u8>)
    ensures
        !unfinished(a).contains(10u8),
        !a.contains(10u8) ==> unfinished(a) == a && complete_lines(a).len() == 0,
    decreases a.len(),
{
    let p = ends_line();
    let i = first(a, p);
    first_is_least(a, p);
    if i < a.len() {
        nothing_is_left_in_the_middle(a.skip(i + 1));
        assert(a.contains(a[i]));
    } else if a.contains(10u8) {
        let k = choose|k: int| 0 <= k < a.len() && a[k] == 10u8;
        assert(!p(a[k]));
    }
}

/// Labels and symbols keep their letters, digits, underscores, hyphens and dots,
/// and lose what would end a quoted text or a value.
pub proof fn tokens_are_safe(c: char)
    ensures
        'a' <= c <= 'z' || 'A' <= c <= 'Z' || '0' <= c <= '9' ==> token_char()(c),
        c == '_' || c == '-' || c == '.' ==> token_char()(c),
        c == '"' || c == '\'' || c == '\\' || c == ' ' || c == '\n' || c == '{' || c == '}' ==> !token_char()(c),
        c == '"' || c == '\'' || c == '\\' ==> !uri_char()(c),
        is_white(c) ==> !uri_char()(c),
        c == ':' || c == '/' || c == '#' || c == '?' ==> uri_char()(c),
{
}

// ---- Processes come and go ---------------------------------------------------

/// A channel's chain is found by its id.
proof fn chain_found(m: FxManager, p: int)
    requires
        m.wf(),
        0 <= p < m.chains@.len(),
    ensures
        m.chain_at(m.chains@[p].id) == p,
{
    first_is_at(m.chains@, chain_is(m.chains@[p].id), p);
}

/// A channel's rack is found by its id.
proof fn rack_found(m: FxManager, p: int)
    requires
        m.wf(),
        0 <= p < m.vsts@.len(),
    ensures
        m.rack_at(m.vsts@[p].id) == p,
{
    first_is_at(m.vsts@, rack_is(m.vsts@[p].id), p);
}

/// A started chain is up, with the conf and pid it was started with, and its run
/// is one that no other process had. All other chains and all racks stay.
pub proof fn started_chains_are_up(m: FxManager, id: u64, conf: Seq<char>, fails: u32, pid: i32, new: FxManager, i: int)
    requires
        m.wf(),
        m.next_run < u64::MAX,
        m.chain_begun(id, conf, fails, pid, new),
        0 <= i < m.chains@.len(),
    ensures
        new.chain_up(id),
        exists|k: int|
            0 <= k < new.chains@.len() && (#[trigger] new.chains@[k]).id == id && new.chains@[k].slot.pid == pid
                && new.chains@[k].slot.alive && !new.chains@[k].slot.failed && new.chains@[k].conf@ == conf
                && new.chains@[k].fails == fails && new.chains@[k].slot.run == m.next_run,
        m.chains@[i].id != id ==> new.chains@[i] == m.chains@[i],
        m.chains@[i].slot.run < m.next_run,
        new.next_run == m.next_run + 1,
        new.vsts == m.vsts,
{
    let p = m.chain_at(id);
    first_is_least(m.chains@, chain_is(id));
    assert forall|j: int| 0 <= j < p implies !chain_is(id)(#[trigger] new.chains@[j]) by {
        assert(!chain_is(id)(m.chains@[j]));
    }
    first_is_at(new.chains@, chain_is(id), p);
    assert(new.chains@[p].id == id);
}

/// A started rack is up, with every enabled plugin, and no other, still loading.
/// All other racks and all chains stay.
pub proof fn started_racks_are_loading(
    m: FxManager,
    id: u64,
    cfg: ChannelConfig,
    desc: Seq<char>,
    fails: u32,
    pid: i32,
    new: FxManager,
    i: int,
    j: int,
)
    requires
        m.wf(),
        m.next_run < u64::MAX,
        m.rack_begun(id, cfg, desc, fails, pid, new),
        0 <= i < m.vsts@.len(),
        0 <= j < cfg.vst_plugins@.len(),
    ensures
        new.rack_up(id),
        ({
            let k = new.rack_at(id);
            let c = new.vsts@[k];
            let v = cfg.vst_plugins@[j];
            &&& 0 <= k < new.vsts@.len()
            &&& c.id == id && c.slot.pid == pid && c.slot.alive && !c.slot.failed && c.slot.run == m.next_run
            &&& c.desc@ == desc && c.fails == fails
            &&& v.enabled ==> exists|n: int|
                0 <= n < c.runtime@.len() && (#[trigger] c.runtime@[n]).cfg_id == v.id
                    && c.runtime@[n].state is Loading && c.runtime@[n].params@.len() == 0
            &&& forall|n: int|
                0 <= n < c.runtime@.len() ==> exists|o: int|
                    0 <= o < cfg.vst_plugins@.len() && (#[trigger] cfg.vst_plugins@[o]).enabled
                        && cfg.vst_plugins@[o].id == (#[trigger] c.runtime@[n]).cfg_id
        }),
        m.vsts@[i].id != id ==> new.vsts@[i] == m.vsts@[i],
        m.vsts@[i].slot.run < m.next_run,
        new.next_run == m.next_run + 1,
        new.chains == m.chains,
{
    let p = m.rack_at(id);
    first_is_least(m.vsts@, rack_is(id));
    assert forall|j: int| 0 <= j < p implies !rack_is(id)(#[trigger] new.vsts@[j]) by {
        assert(!rack_is(id)(m.vsts@[j]));
    }
    first_is_at(new.vsts@, rack_is(id), p);
    let s = cfg.vst_plugins@;
    let on = s.filter(vst_on());
    let c = new.vsts@[p];
    crate::list::filter_keeps(s, vst_on());
    if s[j].enabled {
        crate::list::filter_loses_nothing(s, vst_on(), j);
        let n = choose|n: int| 0 <= n < on.len() && on[n] == s[j];
        assert(c.runtime@[n].cfg_id == s[j].id);
    }
    assert forall|n: int| 0 <= n < c.runtime@.len() implies exists|o: int|
        0 <= o < s.len() && (#[trigger] s[o]).enabled && s[o].id == (#[trigger] c.runtime@[n]).cfg_id by {
        assert(vst_on()(on[n]));
        assert(s.contains(on[n]));
        let o = choose|o: int| 0 <= o < s.len() && s[o] == on[n];
        assert(s[o].enabled);
    }
}

/// A dead process is marked as such, for good; a death within the first seconds
/// marks what it ran as failed.
pub proof fn deaths_are_noted(s: Slot, quick: bool)
    ensures
        !s.dead(quick).alive,
        s.dead(quick).failed <==> s.failed || quick,
        s.dead(quick).pid == s.pid,
        s.dead(quick).run == s.run,
        !s.dead(quick).is_running(),
        s.dead(quick).victim() is None,
        s.is_running() <==> s.alive && !s.failed,
        s.alive ==> s.victim() == Some(s.pid),
{
}

/// The exit of a process that belongs to no chain and no rack is not news.
pub proof fn forgotten_exits_are_no_news(m: FxManager, run: u64, quick: bool, r: Option<FxEvent>, new: FxManager)
    requires
        m.exited(run, quick, r, new),
        forall|i: int|
            0 <= i < m.chains@.len() ==> !(#[trigger] m.chains@[i]).slot.alive || m.chains@[i].slot.run != run,
        forall|i: int|
            0 <= i < m.vsts@.len() ==> !(#[trigger] m.vsts@[i]).slot.alive || m.vsts@[i].slot.run != run,
    ensures
        r is None,
        new == m,
{
    first_is_least(m.chains@, chain_run(run));
    first_is_least(m.vsts@, rack_run(run));
}

/// A rack without plugins is ended. One that runs what is configured is left
/// alone, and so is one that is known to crash; any other is ended and started
/// anew.
pub proof fn racks_follow_the_configuration(m: FxManager, p: int, cfg: ChannelConfig, r: VstStep, new: FxManager)
    requires
        m.wf(),
        0 <= p < m.vsts@.len(),
        m.rack_ensured(m.vsts@[p].id, cfg, r, new),
    ensures
        ({
            let c = m.vsts@[p];
            let any = exists|i: int| 0 <= i < cfg.vst_plugins@.len() && (#[trigger] cfg.vst_plugins@[i]).enabled;
            let same = c.desc@ == rack_sign(cfg);
            let pid = if c.slot.alive {
                Some(c.slot.pid)
            } else {
                None
            };
            &&& !any ==> r == (VstStep::Off { kill: pid })
            &&& any && same && c.slot.alive && !c.slot.failed ==> r is Running
            &&& any && same && c.slot.failed && c.fails >= 1 ==> r is KnownBad
            &&& any && !same ==> r is Start && r->fails == 0
            &&& any && same && c.slot.failed && c.fails == 0 ==> r is Start && r->fails == 1
            &&& any && same && !c.slot.alive && !c.slot.failed ==> r is Start && r->fails == 0
            &&& r is Start ==> r->Start_kill == pid && r->desc@ == rack_sign(cfg)
            &&& r is Running || r is KnownBad ==> new.vsts@ == m.vsts@
            &&& r is Off || r is Start ==> new.vsts@ == m.vsts@.remove(p)
            &&& new.chains == m.chains
        }),
{
    rack_found(m, p);
    let s = cfg.vst_plugins@;
    let on = s.filter(vst_on());
    crate::list::filter_keeps(s, vst_on());
    if exists|i: int| 0 <= i < s.len() && (#[trigger] s[i]).enabled {
        let i = choose|i: int| 0 <= i < s.len() && (#[trigger] s[i]).enabled;
        crate::list::filter_loses_nothing(s, vst_on(), i);
    }
    if on.len() > 0 {
        assert(vst_on()(on[0]));
        assert(s.contains(on[0]));
        let i = choose|i: int| 0 <= i < s.len() && s[i] == on[0];
        assert(s[i].enabled);
    }
}

/// Dropping a rack ends its process, where it lives, and forgets it; nothing else
/// is touched.
pub proof fn dropped_racks_are_gone(m: FxManager, p: int, r: Option<i32>, new: FxManager)
    requires
        m.wf(),
        0 <= p < m.vsts@.len(),
        m.rack_dropped(m.vsts@[p].id, r, new),
    ensures
        r is Some <==> m.vsts@[p].slot.alive,
        r is Some ==> r->0 == m.vsts@[p].slot.pid,
        new.vsts@ == m.vsts@.remove(p),
        new.chains == m.chains,
        new.next_run == m.next_run,
{
    rack_found(m, p);
}

/// Dropping a channel ends both of its processes and forgets them; those of other
/// channels go on.
pub proof fn dropped_channels_are_gone(m: FxManager, p: int, q: int, r: (Option<i32>, Option<i32>), new: FxManager)
    requires
        m.wf(),
        0 <= p < m.chains@.len(),
        0 <= q < m.vsts@.len(),
        m.chains@[p].id == m.vsts@[q].id,
        m.channel_dropped(m.chains@[p].id, r, new),
    ensures
        r.0 is Some <==> m.chains@[p].slot.alive,
        r.0 is Some ==> r.0->0 == m.chains@[p].slot.pid,
        r.1 is Some <==> m.vsts@[q].slot.alive,
        r.1 is Some ==> r.1->0 == m.vsts@[q].slot.pid,
        new.chains@ == m.chains@.remove(p),
        new.vsts@ == m.vsts@.remove(q),
        new.next_run == m.next_run,
{
    chain_found(m, p);
    rack_found(m, q);
}

/// The processes that live are found, and no others.
proof fn victims_live(s: Seq<Slot>)
    ensures
        forall|i: int| 0 <= i < s.len() && (#[trigger] s[i]).alive ==> victims(s).contains(s[i].pid),
        forall|x: i32| #[trigger]
            victims(s).contains(x) ==> exists|i: int|
                0 <= i < s.len() && (#[trigger] s[i]).alive && s[i].pid == x,
    decreases s.len(),
{
    if s.len() > 0 {
        let t = s.drop_last();
        victims_live(t);
        assert forall|i: int| 0 <= i < s.len() && (#[trigger] s[i]).alive implies victims(s).contains(s[i].pid) by {
            if i < t.len() {
                assert(t[i].alive);
                let j = choose|j: int| 0 <= j < victims(t).len() && victims(t)[j] == s[i].pid;
                assert(victims(s)[j] == s[i].pid);
            } else {
                assert(victims(s).last() == s[i].pid);
            }
        }
        assert forall|x: i32| #[trigger] victims(s).contains(x) implies exists|i: int|
            0 <= i < s.len() && (#[trigger] s[i]).alive && s[i].pid == x by {
            let j = choose|j: int| 0 <= j < victims(s).len() && victims(s)[j] == x;
            if j < victims(t).len() {
                assert(victims(t)[j] == x);
                assert(victims(t).contains(x));
                let i = choose|i: int| 0 <= i < t.len() && (#[trigger] t[i]).alive && t[i].pid == x;
                assert(s[i].alive);
            } else {
                assert(s[s.len() - 1].alive);
            }
        }
    }
}

/// Leaving ends every process that lives, and nothing that does not belong to a
/// chain or rack.
pub proof fn every_process_is_ended(m: FxManager, r: Seq<i32>, new: FxManager)
    requires
        m.all_dropped(r, new),
    ensures
        forall|i: int|
            0 <= i < m.chains@.len() && (#[trigger] m.chains@[i]).slot.alive ==> r.contains(m.chains@[i].slot.pid),
        forall|i: int|
            0 <= i < m.vsts@.len() && (#[trigger] m.vsts@[i]).slot.alive ==> r.contains(m.vsts@[i].slot.pid),
        forall|x: i32| #[trigger]
            r.contains(x) ==> {
                ||| exists|i: int|
                    0 <= i < m.chains@.len() && (#[trigger] m.chains@[i]).slot.alive && m.chains@[i].slot.pid == x
                ||| exists|i: int|
                    0 <= i < m.vsts@.len() && (#[trigger] m.vsts@[i]).slot.alive && m.vsts@[i].slot.pid == x
            },
        new.chains@.len() == 0,
        new.vsts@.len() == 0,
{
    let cs = chain_slots(m.chains@);
    let vs = rack_slots(m.vsts@);
    let a = victims(cs);
    let b = victims(vs);
    victims_live(cs);
    victims_live(vs);
    assert forall|i: int| 0 <= i < m.chains@.len() && (#[trigger] m.chains@[i]).slot.alive implies r.contains(
        m.chains@[i].slot.pid,
    ) by {
        assert(cs[i].alive);
        let j = choose|j: int| 0 <= j < a.len() && a[j] == cs[i].pid;
        assert((a + b)[j] == cs[i].pid);
    }
    assert forall|i: int| 0 <= i < m.vsts@.len() && (#[trigger] m.vsts@[i]).slot.alive implies r.contains(
        m.vsts@[i].slot.pid,
    ) by {
        assert(vs[i].alive);
        let j = choose|j: int| 0 <= j < b.len() && b[j] == vs[i].pid;
        assert((a + b)[a.len() + j] == vs[i].pid);
    }
    assert forall|x: i32| #[trigger] r.contains(x) implies {
        ||| exists|i: int|
            0 <= i < m.chains@.len() && (#[trigger] m.chains@[i]).slot.alive && m.chains@[i].slot.pid == x
        ||| exists|i: int| 0 <= i < m.vsts@.len() && (#[trigger] m.vsts@[i]).slot.alive && m.vsts@[i].slot.pid == x
    } by {
        let j = choose|j: int| 0 <= j < r.len() && r[j] == x;
        if j < a.len() {
            assert(a[j] == x);
            assert(a.contains(x));
            let i = choose|i: int| 0 <= i < cs.len() && (#[trigger] cs[i]).alive && cs[i].pid == x;
            assert(m.chains@[i].slot.alive);
        } else {
            assert(b[j - a.len()] == x);
            assert(b.contains(x));
            let i = choose|i: int| 0 <= i < vs.len() && (#[trigger] vs[i]).alive && vs[i].pid == x;
            assert(m.vsts@[i].slot.alive);
        }
    }
}

/// A value is sent to a rack exactly where the channel has one, and mirrored
/// there; the other racks stay.
pub proof fn values_go_to_their_rack(
    m: FxManager,
    id: u64,
    cfg_id: u64,
    index: u32,
    value: Level,
    r: bool,
    new: FxManager,
    p: int,
)
    requires
        m.wf(),
        m.param_noted(id, cfg_id, index, value, r, new),
        0 <= p < m.vsts@.len(),
    ensures
        m.vsts@[p].id == id ==> r,
        m.vsts@[p].id != id ==> new.vsts@[p] == m.vsts@[p],
        r ==> exists|k: int| 0 <= k < m.vsts@.len() && (#[trigger] m.vsts@[k]).id == id,
        m.vsts@[p].id == id ==> runtime_views(new.vsts@[p].runtime@) == after_edit(
            runtime_views(m.vsts@[p].runtime@),
            ParamEdit { cfg_id, index, value },
        ) && new.vsts@[p].slot == m.vsts@[p].slot && new.vsts@[p].desc == m.vsts@[p].desc,
        new.chains == m.chains,
{
    first_is_least(m.vsts@, rack_is(id));
    if m.vsts@[p].id == id {
        rack_found(m, p);
    }
    if r {
        assert(m.vsts@[m.rack_at(id)].id == id);
    }
}

/// A control is set on a chain exactly while it runs, and the command names the
/// channel's own chain.
pub proof fn controls_are_set_on_live_chains(
    m: FxManager,
    p: int,
    labels: Seq<String>,
    symbol: Seq<char>,
    value: Seq<char>,
    r: Option<String>,
)
    requires
        m.wf(),
        0 <= p < m.chains@.len(),
        m.control_set(m.chains@[p].id, labels, symbol, value, r),
    ensures
        r is Some <==> m.chains@[p].slot.alive && !m.chains@[p].slot.failed,
        r is Some ==> r->0@ == set_param_text(
            m.chains@[p].id,
            param_entries(labels, symbol, value, labels.len() as int),
        ),
{
    chain_found(m, p);
}

/// Linking goes on while the rack lives and is not linked, and is given up after
/// forty attempts.
pub proof fn linking_is_given_up(cancelled: bool, done: bool, alive: bool, tries: u32, r: LinkStep)
    requires
        linked_on(cancelled, done, alive, tries, r),
    ensures
        r is Stop <==> cancelled || done || !alive,
        r is Try ==> tries < 40,
        r is GiveUp ==> tries >= 40,
{
}

/// The results of loading reach the plugins they are about: each plugin ends up as
/// its own result says, and one without a result stays as it was.
pub proof fn results_reach_their_plugins(s: Seq<RuntimeView>, items: Seq<JsonView>, n: int, i: int)
    requires
        0 <= n <= items.len(),
        0 <= i < s.len(),
        forall|a: int, b: int| 0 <= a < b < s.len() ==> (#[trigger] s[a]).cfg_id != (#[trigger] s[b]).cfg_id,
        forall|a: int, b: int|
            0 <= a < b < items.len() && (#[trigger] items[a]).member("cfg_id"@).unsigned() is Some ==> items[a].member(
                "cfg_id"@,
            ).unsigned() != (#[trigger] items[b]).member("cfg_id"@).unsigned(),
    ensures
        after_loads(s, items, n).len() == s.len(),
        after_loads(s, items, n)[i].cfg_id == s[i].cfg_id,
        forall|k: int|
            0 <= k < n && (#[trigger] items[k]).member("cfg_id"@).unsigned() == Some(s[i].cfg_id) ==> after_loads(
                s,
                items,
                n,
            )[i] == after_load(s[i], items[k]),
        (forall|k: int|
            0 <= k < n ==> (#[trigger] items[k]).member("cfg_id"@).unsigned() != Some(s[i].cfg_id)) ==> after_loads(
            s,
            items,
            n,
        )[i] == s[i],
    decreases n,
{
    if n > 0 {
        let rest = after_loads(s, items, n - 1);
        results_reach_their_plugins(s, items, n - 1, i);
        if let Some(c) = items[n - 1].member("cfg_id"@).unsigned() {
            assert forall|a: int| 0 <= a < s.len() implies rest[a].cfg_id == (#[trigger] s[a]).cfg_id by {
                results_reach_their_plugins(s, items, n - 1, a);
            }
            let p = first(rest, plugin_has(c));
            first_is_least(rest, plugin_has(c));
            if c == s[i].cfg_id {
                assert(plugin_has(c)(rest[i]));
                assert forall|a: int| 0 <= a < i implies !plugin_has(c)(#[trigger] rest[a]) by {
                    assert(s[a].cfg_id != s[i].cfg_id);
                }
                first_is_at(rest, plugin_has(c), i);
                assert forall|k: int| 0 <= k < n - 1 implies (#[trigger] items[k]).member("cfg_id"@).unsigned()
                    != Some(s[i].cfg_id) by {
                    if items[k].member("cfg_id"@).unsigned() is Some {
                        assert(items[k].member("cfg_id"@).unsigned() != items[n - 1].member("cfg_id"@).unsigned());
                    }
                }
                assert(rest[i] == s[i]);
            } else if p < rest.len() {
                assert(plugin_has(c)(rest[p]));
                assert(p != i);
            }
        }
    }
}

/// What a helper says is taken for its own rack, and for nothing else.
pub proof fn replies_reach_their_rack(m: FxManager, p: int, j: JsonView, new: FxManager, out: VstReplyOutcome)
    requires
        m.wf(),
        0 <= p < m.vsts@.len(),
        m.replied(m.vsts@[p].id, j, new, out),
    ensures
        runtime_views(new.vsts@[p].runtime@) == after_reply(runtime_views(m.vsts@[p].runtime@), j),
        new.vsts@[p].slot == m.vsts@[p].slot && new.vsts@[p].id == m.vsts@[p].id,
        new.vsts@.len() == m.vsts@.len(),
        forall|k: int| 0 <= k < m.vsts@.len() && k != p ==> #[trigger] new.vsts@[k] == m.vsts@[k],
        new.chains == m.chains,
        out.structure_changed <==> j.member("reply"@).string() == Some("loaded"@),
        out.params@ == reply_edits(j),
{
    rack_found(m, p);
}

/// A chain holds the nodes of its effects; one without any passes both lanes
/// through, each by a node of its own.
pub proof fn chains_hold_their_effects(id: u64, cfg: ChannelConfig, values: Seq<Vec<String>>, catalog: Option<Catalog>)
    ensures
        ({
            let n = cfg.effects@.len() as int;
            let s = stages(cfg.effects@, catalog, n);
            let t = chain_text(id, cfg, values, catalog);
            &&& s.len() > 0 ==> occurs(
                t,
                "nodes = [\n"@ + nodes_text(cfg.effects@, values, catalog, n) + "                ]"@,
            )
            &&& s.len() > 0 ==> occurs(t, "links = [\n"@ + links_text(s, s.len() as int) + "                ]"@)
            &&& s.len() > 0 ==> occurs(
                t,
                "inputs  = [ \""@ + s.first().in_l + "\" \""@ + s.first().in_r + "\" ]"@,
            )
            &&& s.len() > 0 ==> occurs(
                t,
                "outputs = [ \""@ + s.last().out_l + "\" \""@ + s.last().out_r + "\" ]"@,
            )
            &&& s.len() == 0 ==> occurs(t, "inputs  = [ \""@ + "copy_l:In"@ + "\" \""@ + "copy_r:In"@ + "\" ]"@)
            &&& s.len() == 0 ==> occurs(t, "outputs = [ \""@ + "copy_l:Out"@ + "\" \""@ + "copy_r:Out"@ + "\" ]"@)
            &&& occurs(
                t,
                "capture.props = {\n                node.name           = \"Crossfade_Ch"@ + dec(id as nat)
                    + "_FX\"\n"@,
            )
            &&& occurs(
                t,
                "playback.props = {\n                node.name           = \"Crossfade_Ch"@ + dec(id as nat)
                    + "_FXOut\"\n"@,
            )
        }),
{
    let n = cfg.effects@.len() as int;
    let s = stages(cfg.effects@, catalog, n);
    chain_runs_from_end_to_end(id, nodes_text(cfg.effects@, values, catalog, n), s);
    chain_runs_from_end_to_end(id, copy_nodes(), seq![copy_stage()]);
    assert(seq![copy_stage()].first() == copy_stage());
    assert(seq![copy_stage()].last() == copy_stage());
}

/// A chain that runs its conf is left alone, and so is one whose conf is known to
/// crash; any other is ended and started anew, with a death behind it only where
/// this very conf died.
pub proof fn chains_follow_their_conf(m: FxManager, p: int, conf: Seq<char>, r: ChainStep, new: FxManager)
    requires
        m.wf(),
        0 <= p < m.chains@.len(),
        m.chain_ensured(m.chains@[p].id, Some(conf), r, new),
    ensures
        ({
            let c = m.chains@[p];
            let same = c.conf@ == conf;
            let keep = same && ((c.slot.alive && !c.slot.failed) || (c.slot.failed && c.fails >= 1));
            &&& keep ==> r.kill is None && r.start is None && new.chains@ == m.chains@
            &&& !keep ==> r.start == Some(
                if same && c.slot.failed {
                    1u32
                } else {
                    0u32
                },
            )
            &&& !keep ==> new.chains@ == m.chains@.remove(p)
            &&& !keep && c.slot.alive ==> r.kill == Some(c.slot.pid)
            &&& !keep && !c.slot.alive ==> r.kill is None
            &&& new.vsts == m.vsts
        }),
{
    chain_found(m, p);
}

/// A channel without a chain gets one as soon as it has a conf, and none without.
pub proof fn missing_chains_are_started(m: FxManager, id: u64, conf: Option<Seq<char>>, r: ChainStep, new: FxManager)
    requires
        forall|i: int| 0 <= i < m.chains@.len() ==> (#[trigger] m.chains@[i]).id != id,
        m.chain_ensured(id, conf, r, new),
    ensures
        r.kill is None,
        conf is Some ==> r.start == Some(0u32),
        conf is None ==> r.start is None,
        new.chains@ == m.chains@,
{
    first_is_least(m.chains@, chain_is(id));
    if m.chain_at(id) < m.chains@.len() {
        assert(chain_is(id)(m.chains@[m.chain_at(id)]));
    }
}

/// A message that reports a parameter only in part brings no edit and changes
/// nothing.
pub proof fn partial_reports_are_ignored(s: Seq<RuntimeView>, j: JsonView)
    requires
        j.member("reply"@).string() == Some("param"@),
        j.member("cfg_id"@).unsigned() is None || j.member("param"@).unsigned() is None || j.member(
            "value"@,
        ).number() is None,
    ensures
        reply_edits(j).len() == 0,
        after_reply(s, j) == s,
{
    replies_differ();
}

/// A line of text comes through without the white space around it; a blank one, or
/// what is not text, is passed over.
pub proof fn lines_come_through(a: Seq<u8>, rest: Seq<u8>)
    requires
        !a.contains(10u8),
    ensures
        ({
            let line = a.push(10u8);
            let said = text::trim(vstd::utf8::decode_utf8(line));
            &&& vstd::utf8::valid_utf8(line) && said.len() > 0 ==> complete_lines(line + rest) == seq![said]
                + complete_lines(rest)
            &&& !vstd::utf8::valid_utf8(line) || said.len() == 0 ==> complete_lines(line + rest) == complete_lines(rest)
            &&& unfinished(line + rest) == unfinished(rest)
        }),
{
    let line = a.push(10u8);
    let s = line + rest;
    let n = a.len() as int;
    assert forall|j: int| 0 <= j < n implies !ends_line()(#[trigger] s[j]) by {
        assert(a.contains(a[j]));
    }
    assert(s[n] == 10u8);
    first_is_at(s, ends_line(), n);
    assert(s.take(n + 1) =~= line);
    assert(s.skip(n + 1) =~= rest);
}

/// A line that is no JSON is passed over; any other is taken as the message it is.
pub proof fn garbled_lines_are_passed_over(m: FxManager, id: u64, line: Seq<char>, r: VstReplyOutcome, new: FxManager)
    requires
        m.line_heard(id, line, r, new),
    ensures
        json_value(line) is None ==> new == m && !r.structure_changed && r.params@.len() == 0,
        json_value(line) is Some ==> m.replied(id, json_value(line)->0, new, r),
{
}

/// What is said for a channel without a rack is passed over.
pub proof fn late_replies_are_passed_over(m: FxManager, id: u64, j: JsonView, new: FxManager, out: VstReplyOutcome)
    requires
        forall|i: int| 0 <= i < m.vsts@.len() ==> (#[trigger] m.vsts@[i]).id != id,
        m.replied(id, j, new, out),
    ensures
        new == m,
        !out.structure_changed,
        out.params@.len() == 0,
{
    first_is_least(m.vsts@, rack_is(id));
    if m.rack_at(id) < m.vsts@.len() {
        assert(rack_is(id)(m.vsts@[m.rack_at(id)]));
    }
}

/// A channel gets a chain exactly while one of its effects or plugins is switched
/// on.
pub proof fn chains_come_with_effects(
    id: u64,
    cfg: ChannelConfig,
    values: Seq<Vec<String>>,
    catalog: Option<&Catalog>,
    r: Option<String>,
    i: int,
)
    requires
        conf_given(id, cfg, values, catalog, r),
    ensures
        0 <= i < cfg.effects@.len() && cfg.effects@[i].enabled ==> r is Some,
        0 <= i < cfg.vst_plugins@.len() && cfg.vst_plugins@[i].enabled ==> r is Some,
        r is Some ==> {
            ||| exists|k: int| 0 <= k < cfg.effects@.len() && (#[trigger] cfg.effects@[k]).enabled
            ||| exists|k: int| 0 <= k < cfg.vst_plugins@.len() && (#[trigger] cfg.vst_plugins@[k]).enabled
        },
        r is Some && catalog is Some ==> r->0@ == chain_text(id, cfg, values, Some(*catalog->0)),
{
}

} // verus!
