//! The persisted configuration: channels with their effects, the master
//! section, and MIDI bindings.

use vstd::prelude::*;

use crate::audio::Mix;
use crate::level::{Level, HUNDRED, ONE, THREE_QUARTERS};
use crate::list::{filter_all, filter_keeps, first, first_is_at, first_is_least, retain};
use crate::text;
use crate::text::{blank, dec, hex};
use crate::vst::{VstEntry, VstFormat};

verus! {

/// The most channels a configuration holds.
pub const MAX_CHANNELS: usize = 8;

/// Default names offered when adding channels via "+".
pub const TEMPLATE_NAMES: [&'static str; 6] = ["Game", "Music", "Voice Chat", "Browser", "SFX", "Aux"];

/// What feeds an input channel: a capture source (hardware input or a monitor
/// of another device), an application's playback stream matched by its
/// `application.name`, or a standalone virtual device ("Crossfade: <name>")
/// that other software can select as an output.
#[derive(Clone, Debug, PartialEq, Eq)]
pub enum Assignment {
    Source { name: String },
    App { name: String },
    Virtual,
}

/// A level stored under a key.
#[derive(Clone, Debug, PartialEq, Eq)]
pub struct KeyedLevel {
    pub key: String,
    pub value: Level,
}

/// One LV2 plugin instance in a channel's effect chain.
#[derive(Clone, Debug, PartialEq, Eq)]
pub struct EffectConfig {
    /// Stable identifier, unique within the channel; used as the node label
    /// in the generated filter-chain graph, so it must survive reordering.
    pub id: u64,
    /// LV2 plugin URI.
    pub uri: String,
    /// Display name (cached from the plugin so the UI works even when the
    /// plugin is uninstalled later).
    pub name: String,
    pub enabled: bool,
    /// Control-port values by port symbol, in the order of the symbols; ports
    /// not listed here keep the plugin's default.
    pub controls: Vec<KeyedLevel>,
}

impl Default for EffectConfig {
    fn default() -> (r: Self)
        ensures
            r.id == 0,
            r.uri@ == ""@,
            r.name@ == ""@,
            r.enabled,
            r.controls@.len() == 0,
    {
        EffectConfig {
            id: 0,
            uri: text::copy(""),
            name: text::copy(""),
            enabled: true,
            controls: Vec::new(),
        }
    }
}

/// One VST2/VST3 plugin in a channel's rack, hosted by the helper process.
#[derive(Clone, Debug, PartialEq, Eq)]
pub struct VstPluginConfig {
    /// Stable identifier, unique within the channel.
    pub id: u64,
    /// Path to the .so / .vst3 binary.
    pub path: String,
    pub format: VstFormat,
    /// Sub-plugin label inside a multi-plugin bundle (VST3); empty otherwise.
    pub label: String,
    /// Sub-plugin selector for multi-plugin binaries (0 = whole file).
    pub unique_id: i64,
    /// Display name (cached from discovery).
    pub name: String,
    pub enabled: bool,
    /// Parameter values by parameter index, written in decimal.
    pub params: Vec<KeyedLevel>,
}

impl Default for VstPluginConfig {
    fn default() -> (r: Self)
        ensures
            r.id == 0,
            r.path@ == ""@,
            r.format == VstFormat::Vst2,
            r.label@ == ""@,
            r.unique_id == 0,
            r.name@ == ""@,
            r.enabled,
            r.params@.len() == 0,
    {
        VstPluginConfig {
            id: 0,
            path: text::copy(""),
            format: VstFormat::Vst2,
            label: text::copy(""),
            unique_id: 0,
            name: text::copy(""),
            enabled: true,
            params: Vec::new(),
        }
    }
}

#[derive(Clone, Debug, PartialEq, Eq)]
pub struct ChannelConfig {
    /// Stable identifier; never reused, survives reordering and removal.
    pub id: u64,
    pub name: String,
    pub assignment: Option<Assignment>,
    pub monitor_volume: Level,
    pub stream_volume: Level,
    pub vod_volume: Level,
    pub monitor_muted: bool,
    pub stream_muted: bool,
    pub vod_muted: bool,
    /// Links all of the channel's faders (including the VOD fader while the
    /// VOD mix is enabled).
    pub linked: bool,
    /// Accent color ("#rrggbb") marking the channel: shown on the strip's
    /// color button and on any MIDI pad bound as the channel's color pad.
    /// `None` = no color assigned.
    pub color: Option<String>,
    /// Built-in channels (Microphone, System) that cannot be removed.
    pub permanent: bool,
    /// LV2 effect chain applied to this channel's input before it reaches
    /// the monitor/stream mixes.
    pub effects: Vec<EffectConfig>,
    /// Next effect/VST id for this channel; never reused, shared by both
    /// lists.
    pub next_effect_id: u64,
    /// VST rack processed in front of the LV2 chain.
    pub vst_plugins: Vec<VstPluginConfig>,
}

impl Default for ChannelConfig {
    fn default() -> (r: Self)
        ensures
            r.id == 0,
            r.name@ == ""@,
            r.is_fresh(),
            r.assignment is None,
            !r.stream_muted,
            !r.vod_muted,
            !r.permanent,
    {
        ChannelConfig {
            id: 0,
            name: text::copy(""),
            assignment: None,
            monitor_volume: Level::three_quarters(),
            stream_volume: Level::three_quarters(),
            vod_volume: Level::three_quarters(),
            monitor_muted: false,
            stream_muted: false,
            vod_muted: false,
            linked: false,
            color: None,
            permanent: false,
            effects: Vec::new(),
            next_effect_id: 1,
            vst_plugins: Vec::new(),
        }
    }
}

/// The byte written by two hexadecimal digits.
pub open spec fn hex_byte(high: char, low: char) -> u8 {
    (16 * hex(high)->0 + hex(low)->0) as u8
}

/// The components of a color written "#rrggbb".
pub open spec fn rgb(color: Seq<char>) -> Option<(u8, u8, u8)> {
    if color.len() == 7 && color[0] == '#' && forall|i: int|
        1 <= i < 7 ==> hex(#[trigger] color[i]) is Some {
        Some(
            (
                hex_byte(color[1], color[2]),
                hex_byte(color[3], color[4]),
                hex_byte(color[5], color[6]),
            ),
        )
    } else {
        None
    }
}

/// The components of a color written "#rrggbb".
pub fn parse_rgb(color: &str) -> (r: Option<(u8, u8, u8)>)
    ensures
        r == rgb(color@),
{
    let v = text::chars_of(color);
    if v.len() != 7 || v[0] != '#' {
        return None;
    }
    let mut d: Vec<u8> = Vec::new();
    let mut i: usize = 1;
    while i < 7
        invariant
            v@ == color@,
            v@.len() == 7,
            1 <= i <= 7,
            d@.len() == i - 1,
            forall|j: int| 1 <= j < i ==> hex(#[trigger] v@[j]) == Some(d@[j - 1]),
            forall|j: int| 0 <= j < d@.len() ==> d@[j] < 16,
        decreases 7 - i,
    {
        match text::hex_value(v[i]) {
            Some(h) => {
                d.push(h);
            },
            None => {
                return None;
            },
        }
        i = i + 1;
    }
    assert(hex(v@[1]) is Some && hex(v@[2]) is Some && hex(v@[3]) is Some);
    assert(hex(v@[4]) is Some && hex(v@[5]) is Some && hex(v@[6]) is Some);
    Some((16 * d[0] + d[1], 16 * d[2] + d[3], 16 * d[4] + d[5]))
}

/// The effects that are switched on.
pub open spec fn effect_on() -> spec_fn(EffectConfig) -> bool {
    |e: EffectConfig| e.enabled
}

/// The VST plugins that are switched on.
pub open spec fn vst_on() -> spec_fn(VstPluginConfig) -> bool {
    |p: VstPluginConfig| p.enabled
}

/// The effect with an id.
pub open spec fn effect_is(id: u64) -> spec_fn(EffectConfig) -> bool {
    |e: EffectConfig| e.id == id
}

/// The VST plugin with an id.
pub open spec fn vst_is(id: u64) -> spec_fn(VstPluginConfig) -> bool {
    |p: VstPluginConfig| p.id == id
}

impl ChannelConfig {
    /// What a channel that nobody has touched holds, whatever it is called,
    /// is fed by, and is muted towards.
    pub open spec fn is_fresh(self) -> bool {
        &&& self.monitor_volume.bits == THREE_QUARTERS
        &&& self.stream_volume.bits == THREE_QUARTERS
        &&& self.vod_volume.bits == THREE_QUARTERS
        &&& !self.monitor_muted
        &&& !self.linked
        &&& self.color is None
        &&& self.effects@.len() == 0
        &&& self.next_effect_id == 1
        &&& self.vst_plugins@.len() == 0
    }

    /// The color's components, where there is a color.
    pub open spec fn rgb(self) -> Option<(u8, u8, u8)> {
        match self.color {
            Some(c) => rgb(c@),
            None => None,
        }
    }

    /// Whether any effect or VST plugin is switched on.
    pub open spec fn has_fx(self) -> bool {
        ||| exists|i: int| 0 <= i < self.effects@.len() && (#[trigger] self.effects@[i]).enabled
        ||| exists|i: int| 0 <= i < self.vst_plugins@.len() && (#[trigger] self.vst_plugins@[i]).enabled
    }

    /// The channel color as 8-bit RGB components.
    pub fn color_rgb(&self) -> (r: Option<(u8, u8, u8)>)
        ensures
            r == self.rgb(),
    {
        match &self.color {
            Some(c) => parse_rgb(c.as_str()),
            None => None,
        }
    }

    /// Effects that should actually be instantiated in the chain.
    pub fn enabled_effects(&self) -> (r: Vec<&EffectConfig>)
        ensures
            r@.len() == self.effects@.filter(effect_on()).len(),
            forall|i: int| 0 <= i < r@.len() ==> *(#[trigger] r@[i]) == self.effects@.filter(effect_on())[i],
    {
        let mut r: Vec<&EffectConfig> = Vec::new();
        let mut i: usize = 0;
        let ghost s = self.effects@;
        proof {
            reveal(Seq::filter);
            assert(s.take(0).filter(effect_on()) =~= Seq::<EffectConfig>::empty());
        }
        while i < self.effects.len()
            invariant
                i <= s.len(),
                s == self.effects@,
                r@.len() == s.take(i as int).filter(effect_on()).len(),
                forall|j: int|
                    0 <= j < r@.len() ==> *(#[trigger] r@[j]) == s.take(i as int).filter(effect_on())[j],
            decreases s.len() - i,
        {
            proof {
                crate::list::filter_step(s, i as int, effect_on());
            }
            if self.effects[i].enabled {
                r.push(&self.effects[i]);
            }
            i = i + 1;
        }
        assert(s.take(s.len() as int) =~= s);
        r
    }

    /// VST plugins that should actually be loaded into the rack.
    pub fn enabled_vsts(&self) -> (r: Vec<&VstPluginConfig>)
        ensures
            r@.len() == self.vst_plugins@.filter(vst_on()).len(),
            forall|i: int| 0 <= i < r@.len() ==> *(#[trigger] r@[i]) == self.vst_plugins@.filter(vst_on())[i],
    {
        let mut r: Vec<&VstPluginConfig> = Vec::new();
        let mut i: usize = 0;
        let ghost s = self.vst_plugins@;
        proof {
            reveal(Seq::filter);
            assert(s.take(0).filter(vst_on()) =~= Seq::<VstPluginConfig>::empty());
        }
        while i < self.vst_plugins.len()
            invariant
                i <= s.len(),
                s == self.vst_plugins@,
                r@.len() == s.take(i as int).filter(vst_on()).len(),
                forall|j: int|
                    0 <= j < r@.len() ==> *(#[trigger] r@[j]) == s.take(i as int).filter(vst_on())[j],
            decreases s.len() - i,
        {
            proof {
                crate::list::filter_step(s, i as int, vst_on());
            }
            if self.vst_plugins[i].enabled {
                r.push(&self.vst_plugins[i]);
            }
            i = i + 1;
        }
        assert(s.take(s.len() as int) =~= s);
        r
    }

    /// Whether this channel routes through an FX bridge at all.
    pub fn fx_active(&self) -> (r: bool)
        ensures
            r == self.has_fx(),
    {
        let mut i: usize = 0;
        while i < self.effects.len()
            invariant
                i <= self.effects@.len(),
                forall|j: int| 0 <= j < i ==> !(#[trigger] self.effects@[j]).enabled,
            decreases self.effects@.len() - i,
        {
            if self.effects[i].enabled {
                return true;
            }
            i = i + 1;
        }
        let mut k: usize = 0;
        while k < self.vst_plugins.len()
            invariant
                k <= self.vst_plugins@.len(),
                forall|j: int| 0 <= j < self.effects@.len() ==> !(#[trigger] self.effects@[j]).enabled,
                forall|j: int| 0 <= j < k ==> !(#[trigger] self.vst_plugins@[j]).enabled,
            decreases self.vst_plugins@.len() - k,
        {
            if self.vst_plugins[k].enabled {
                return true;
            }
            k = k + 1;
        }
        false
    }

    /// What appending an effect makes of a channel.
    pub open spec fn effect_added(self, uri: Seq<char>, name: Seq<char>, r: EffectConfig, new: ChannelConfig) -> bool {
        &&& r.id == self.next_effect_id
        &&& r.uri@ == uri
        &&& r.name@ == name
        &&& r.enabled
        &&& r.controls@.len() == 0
        &&& new.effects@ == self.effects@.push(r)
        &&& new == (ChannelConfig {
            effects: new.effects,
            next_effect_id: (self.next_effect_id + 1) as u64,
            ..self
        })
    }

    /// Append an effect and return a reference to it.
    pub fn add_effect(&mut self, uri: &str, name: &str) -> (r: &EffectConfig)
        requires
            old(self).next_effect_id < u64::MAX,
        ensures
            old(self).effect_added(uri@, name@, *r, *final(self)),
    {
        let id: u64 = self.next_effect_id;
        self.next_effect_id = id + 1;
        self.effects.push(
            EffectConfig {
                id,
                uri: text::copy(uri),
                name: text::copy(name),
                enabled: true,
                controls: Vec::new(),
            },
        );
        let n: usize = self.effects.len();
        &self.effects[n - 1]
    }

    /// The effect with an id, for changing it.
    pub fn effect_mut(&mut self, effect_id: u64) -> (r: Option<&mut EffectConfig>)
        ensures
            ({
                let s = old(self).effects@;
                let i = first(s, effect_is(effect_id));
                match r {
                    Some(e) => i < s.len() && *e == s[i] && final(self).effects@ == s.update(i, *final(e))
                        && *final(self) == (ChannelConfig { effects: final(self).effects, ..*old(self) }),
                    None => i == s.len() && *final(self) == *old(self),
                }
            }),
    {
        let mut i: usize = 0;
        while i < self.effects.len()
            invariant
                *self == *old(self),
                i <= self.effects@.len(),
                forall|j: int| 0 <= j < i ==> !effect_is(effect_id)(#[trigger] self.effects@[j]),
            decreases self.effects@.len() - i,
        {
            if self.effects[i].id == effect_id {
                proof {
                    first_is_at(self.effects@, effect_is(effect_id), i as int);
                }
                return Some(&mut self.effects[i]);
            }
            i = i + 1;
        }
        proof {
            first_is_at(self.effects@, effect_is(effect_id), i as int);
        }
        None
    }

    /// What appending a VST plugin makes of a channel.
    pub open spec fn vst_added(self, entry: VstEntry, id: u64, new: ChannelConfig) -> bool {
        &&& id == self.next_effect_id
        &&& new.vst_plugins@.len() == self.vst_plugins@.len() + 1
        &&& new.vst_plugins@.drop_last() == self.vst_plugins@
        &&& ({
            let p = new.vst_plugins@.last();
            &&& p.id == id
            &&& p.path@ == entry.path@
            &&& p.format == entry.format
            &&& p.label@ == entry.label@
            &&& p.unique_id == entry.unique_id
            &&& p.name@ == entry.name@
            &&& p.enabled
            &&& p.params@.len() == 0
        })
        &&& new == (ChannelConfig {
            vst_plugins: new.vst_plugins,
            next_effect_id: (id + 1) as u64,
            ..self
        })
    }

    /// Append a VST plugin from a discovery entry.
    pub fn add_vst(&mut self, entry: &VstEntry) -> (id: u64)
        requires
            old(self).next_effect_id < u64::MAX,
        ensures
            old(self).vst_added(*entry, id, *final(self)),
    {
        let id: u64 = self.next_effect_id;
        self.next_effect_id = id + 1;
        self.vst_plugins.push(
            VstPluginConfig {
                id,
                path: entry.path.clone(),
                format: entry.format,
                label: entry.label.clone(),
                unique_id: entry.unique_id,
                name: entry.name.clone(),
                enabled: true,
                params: Vec::new(),
            },
        );
        assert(self.vst_plugins@.drop_last() =~= old(self).vst_plugins@);
        id
    }

    /// The VST plugin with an id, for changing it.
    pub fn vst_mut(&mut self, vst_id: u64) -> (r: Option<&mut VstPluginConfig>)
        ensures
            ({
                let s = old(self).vst_plugins@;
                let i = first(s, vst_is(vst_id));
                match r {
                    Some(p) => i < s.len() && *p == s[i] && final(self).vst_plugins@ == s.update(i, *final(p))
                        && *final(self) == (ChannelConfig {
                        vst_plugins: final(self).vst_plugins,
                        ..*old(self)
                    }),
                    None => i == s.len() && *final(self) == *old(self),
                }
            }),
    {
        let mut i: usize = 0;
        while i < self.vst_plugins.len()
            invariant
                *self == *old(self),
                i <= self.vst_plugins@.len(),
                forall|j: int| 0 <= j < i ==> !vst_is(vst_id)(#[trigger] self.vst_plugins@[j]),
            decreases self.vst_plugins@.len() - i,
        {
            if self.vst_plugins[i].id == vst_id {
                proof {
                    first_is_at(self.vst_plugins@, vst_is(vst_id), i as int);
                }
                return Some(&mut self.vst_plugins[i]);
            }
            i = i + 1;
        }
        proof {
            first_is_at(self.vst_plugins@, vst_is(vst_id), i as int);
        }
        None
    }
}

#[derive(Clone, Debug, PartialEq, Eq)]
pub struct MasterConfig {
    /// Hardware sink the monitor mix is routed to; `None` = system default.
    pub monitor_device: Option<String>,
    pub monitor_volume: Level,
    pub stream_volume: Level,
    pub vod_volume: Level,
    pub monitor_muted: bool,
    pub stream_muted: bool,
    pub vod_muted: bool,
}

impl MasterConfig {
    /// The master section that nobody has touched.
    pub open spec fn is_fresh(self) -> bool {
        &&& self.monitor_device is None
        &&& self.monitor_volume.bits == ONE
        &&& self.stream_volume.bits == ONE
        &&& self.vod_volume.bits == ONE
        &&& !self.monitor_muted
        &&& !self.stream_muted
        &&& !self.vod_muted
    }
}

impl Default for MasterConfig {
    fn default() -> (r: Self)
        ensures
            r.is_fresh(),
    {
        MasterConfig {
            monitor_device: None,
            monitor_volume: Level::one(),
            stream_volume: Level::one(),
            vod_volume: Level::one(),
            monitor_muted: false,
            stream_muted: false,
            vod_muted: false,
        }
    }
}

/// Volume levels re-applied to an Elgato Wave XLR every time Crossfade starts
/// (the device occasionally forgets its volume settings). Percentages from 0
/// to 100; `None` = leave that control alone.
#[derive(Clone, Debug, PartialEq, Eq)]
pub struct WaveXlrConfig {
    pub mic_volume: Option<Level>,
    pub output_volume: Option<Level>,
}

impl Default for WaveXlrConfig {
    fn default() -> (r: Self)
        ensures
            r.mic_volume is None,
            r.output_volume is None,
    {
        WaveXlrConfig { mic_volume: None, output_volume: None }
    }
}

/// What kind of MIDI message a binding listens for.
#[derive(Clone, Copy, Debug, PartialEq, Eq, Hash, Structural)]
pub enum MidiKind {
    Cc,
    Note,
}

/// One physical control, identified by controller name (the USB product
/// string, stable across replugs, unlike sequencer client ids) plus the
/// message's MIDI channel and CC/note number.
#[derive(Clone, Debug, PartialEq, Eq, Hash)]
pub struct MidiSource {
    pub device: String,
    pub channel: u8,
    pub kind: MidiKind,
    pub number: u8,
}

/// How a kind of message is called.
pub open spec fn kind_name(kind: MidiKind) -> Seq<char> {
    match kind {
        MidiKind::Cc => "CC"@,
        MidiKind::Note => "Note"@,
    }
}

/// Whether two sources are the same physical control.
pub open spec fn same_control(a: MidiSource, b: MidiSource) -> bool {
    &&& a.device@ == b.device@
    &&& a.channel == b.channel
    &&& a.kind == b.kind
    &&& a.number == b.number
}

impl MidiSource {
    /// Short human-readable form, e.g. "CC 48 · APC MINI mk2".
    pub fn label(&self) -> (r: String)
        ensures
            r@ == kind_name(self.kind) + " "@ + dec(self.number as nat) + " · "@ + self.device@,
    {
        let mut s = match self.kind {
            MidiKind::Cc => text::copy("CC"),
            MidiKind::Note => text::copy("Note"),
        };
        s.append(" ");
        text::push_decimal(&mut s, self.number as u64);
        s.append(" · ");
        s.append(self.device.as_str());
        s
    }

    /// Whether both are the same physical control.
    pub fn same(&self, other: &MidiSource) -> (r: bool)
        ensures
            r == same_control(*self, *other),
    {
        self.channel == other.channel && self.kind == other.kind && self.number == other.number
            && text::same(self.device.as_str(), other.device.as_str())
    }
}

/// What a bound control drives.
#[derive(Clone, Copy, Debug, PartialEq, Eq, Structural)]
pub enum MidiTarget {
    ChannelVolume { id: u64, mix: Mix },
    ChannelMute { id: u64, mix: Mix },
    /// A pad lit in the channel's color, as a locator on the controller;
    /// pressing it does nothing.
    ChannelColor { id: u64 },
    MasterVolume { mix: Mix },
    MasterMute { mix: Mix },
    /// Switches the active binding profile (by stable profile id). Stored
    /// in `MidiConfig::global_bindings` so profile pads work everywhere.
    SelectProfile { profile: u64 },
}

impl MidiTarget {
    /// The channel the target belongs to.
    pub open spec fn channel_of(self) -> Option<u64> {
        match self {
            MidiTarget::ChannelVolume { id, .. } => Some(id),
            MidiTarget::ChannelMute { id, .. } => Some(id),
            MidiTarget::ChannelColor { id } => Some(id),
            _ => None,
        }
    }

    /// The channel the target belongs to.
    pub fn channel(&self) -> (r: Option<u64>)
        ensures
            r == self.channel_of(),
    {
        match self {
            MidiTarget::ChannelVolume { id, .. } => Some(*id),
            MidiTarget::ChannelMute { id, .. } => Some(*id),
            MidiTarget::ChannelColor { id } => Some(*id),
            _ => None,
        }
    }
}

#[derive(Clone, Debug, PartialEq, Eq)]
pub struct MidiBinding {
    pub source: MidiSource,
    pub target: MidiTarget,
}

/// A bank of bindings; pads bound to `SelectProfile` switch between them
/// (e.g. one profile per mix layer, or one per channel).
#[derive(Clone, Debug, PartialEq, Eq)]
pub struct MidiProfile {
    /// Stable identifier; never reused, survives deletion of other profiles.
    pub id: u64,
    pub name: String,
    pub bindings: Vec<MidiBinding>,
}

impl Default for MidiProfile {
    fn default() -> (r: Self)
        ensures
            r.id == 0,
            r.name@ == ""@,
            r.bindings@.len() == 0,
    {
        MidiProfile { id: 0, name: text::copy(""), bindings: Vec::new() }
    }
}

#[derive(Clone, Debug, PartialEq, Eq)]
pub struct MidiConfig {
    /// Fader pickup: after a profile switch a hardware fader only takes
    /// effect once it crosses the target's current value, instead of
    /// jumping the volume to wherever the fader happens to sit.
    pub pickup: bool,
    pub next_profile_id: u64,
    pub profiles: Vec<MidiProfile>,
    /// Id of the profile whose bindings are live; persisted so a restart
    /// comes back in the same bank.
    pub active_profile: u64,
    /// Profile-select pads, active regardless of the current profile.
    pub global_bindings: Vec<MidiBinding>,
    /// Light up note-bound pads (mute state, active profile) by sending
    /// note-ons back to the controller.
    pub led_feedback: bool,
    /// Velocity sent for a lit pad; selects the color on e.g. an APC mini.
    pub on_velocity: u8,
    /// Velocity sent for a dark pad.
    pub off_velocity: u8,
}

/// The one profile of a configuration that nobody has touched.
pub open spec fn is_default_profile(p: MidiProfile) -> bool {
    p.id == 1 && p.name@ == "Default"@ && p.bindings@.len() == 0
}

/// The profile with an id.
pub open spec fn profile_is(id: u64) -> spec_fn(MidiProfile) -> bool {
    |p: MidiProfile| p.id == id
}

/// Every profile but the one with an id.
pub open spec fn profile_is_not(id: u64) -> spec_fn(MidiProfile) -> bool {
    |p: MidiProfile| p.id != id
}

/// Every binding but the pads that select a profile.
pub open spec fn selects_other(id: u64) -> spec_fn(MidiBinding) -> bool {
    |b: MidiBinding| b.target != MidiTarget::SelectProfile { profile: id }
}

/// Every binding that shares neither its control nor its target with another.
pub open spec fn beside(new: MidiBinding) -> spec_fn(MidiBinding) -> bool {
    |b: MidiBinding| !same_control(b.source, new.source) && b.target != new.target
}

/// Every binding for another target.
pub open spec fn drives_other(target: MidiTarget) -> spec_fn(MidiBinding) -> bool {
    |b: MidiBinding| b.target != target
}

/// Every binding that does not refer to a channel.
pub open spec fn refers_elsewhere(channel: u64) -> spec_fn(MidiBinding) -> bool {
    |b: MidiBinding| b.target.channel_of() != Some(channel)
}

/// One control per target, one target per control.
pub open spec fn one_to_one(s: Seq<MidiBinding>) -> bool {
    forall|i: int, j: int|
        0 <= i < j < s.len() ==> !same_control((#[trigger] s[i]).source, (#[trigger] s[j]).source)
            && s[i].target != s[j].target
}

/// A subset of the bindings is one to one if all of them are.
pub proof fn filter_keeps_one_to_one(s: Seq<MidiBinding>, p: spec_fn(MidiBinding) -> bool)
    requires
        one_to_one(s),
    ensures
        one_to_one(s.filter(p)),
    decreases s.len(),
{
    reveal(Seq::filter);
    if s.len() > 0 {
        let t = s.drop_last();
        filter_keeps_one_to_one(t, p);
        filter_keeps(t, p);
        let f = s.filter(p);
        let g = t.filter(p);
        assert forall|i: int, j: int| 0 <= i < j < f.len() implies !same_control(
            (#[trigger] f[i]).source,
            (#[trigger] f[j]).source,
        ) && f[i].target != f[j].target by {
            assert(g[i] == f[i]);
            if j < g.len() {
                assert(g[j] == f[j]);
            } else {
                assert(t.contains(g[i]));
                let k = choose|k: int| 0 <= k < t.len() && t[k] == g[i];
                assert(s[k] == f[i]);
                assert(s[s.len() - 1] == f[j]);
            }
        }
    }
}

/// Binding a control leaves a one-to-one list one to one.
pub proof fn binding_keeps_one_to_one(s: Seq<MidiBinding>, b: MidiBinding)
    requires
        one_to_one(s),
    ensures
        one_to_one(s.filter(beside(b)).push(b)),
{
    filter_keeps_one_to_one(s, beside(b));
    filter_keeps(s, beside(b));
    let g = s.filter(beside(b));
    let f = g.push(b);
    assert forall|i: int, j: int| 0 <= i < j < f.len() implies !same_control(
        (#[trigger] f[i]).source,
        (#[trigger] f[j]).source,
    ) && f[i].target != f[j].target by {
        assert(g[i] == f[i]);
        if j < g.len() {
            assert(g[j] == f[j]);
        }
    }
}

impl Default for MidiConfig {
    fn default() -> (r: Self)
        ensures
            r.is_fresh(),
            r.wf(),
    {
        let mut profiles: Vec<MidiProfile> = Vec::new();
        profiles.push(MidiProfile { id: 1, name: text::copy("Default"), bindings: Vec::new() });
        let r = MidiConfig {
            pickup: true,
            next_profile_id: 2,
            profiles,
            active_profile: 1,
            global_bindings: Vec::new(),
            led_feedback: true,
            on_velocity: 127,
            off_velocity: 0,
        };
        assert(r.profiles@[0].id == 1);
        r
    }
}

impl MidiConfig {
    /// The MIDI section that nobody has touched.
    pub open spec fn is_fresh(self) -> bool {
        &&& self.pickup
        &&& self.next_profile_id == 2
        &&& self.profiles@.len() == 1
        &&& is_default_profile(self.profiles@[0])
        &&& self.active_profile == 1
        &&& self.global_bindings@.len() == 0
        &&& self.led_feedback
        &&& self.on_velocity == 127
        &&& self.off_velocity == 0
    }

    /// Whether a profile with the id exists.
    pub open spec fn has_profile(self, id: u64) -> bool {
        exists|i: int| 0 <= i < self.profiles@.len() && (#[trigger] self.profiles@[i]).id == id
    }

    /// There is a profile, ids are distinct and below the next one to give
    /// out, and the active profile exists.
    pub open spec fn wf(self) -> bool {
        &&& self.profiles@.len() > 0
        &&& forall|i: int|
            0 <= i < self.profiles@.len() ==> 0 < (#[trigger] self.profiles@[i]).id < self.next_profile_id
        &&& forall|i: int, j: int|
            0 <= i < j < self.profiles@.len() ==> (#[trigger] self.profiles@[i]).id != (
            #[trigger] self.profiles@[j]).id
        &&& self.has_profile(self.active_profile)
    }

    /// Whether every list of bindings is one to one.
    pub open spec fn one_to_one(self) -> bool {
        &&& one_to_one(self.global_bindings@)
        &&& forall|i: int|
            0 <= i < self.profiles@.len() ==> one_to_one((#[trigger] self.profiles@[i]).bindings@)
    }

    /// The position of a profile.
    pub open spec fn position(self, id: u64) -> int {
        first(self.profiles@, profile_is(id))
    }

    /// The position of the active profile.
    pub open spec fn active_position(self) -> int {
        if self.position(self.active_profile) < self.profiles@.len() {
            self.position(self.active_profile)
        } else {
            0
        }
    }

    /// What storing a binding makes of the section.
    pub open spec fn binds_to(self, profile_id: u64, binding: MidiBinding, new: MidiConfig) -> bool {
        let i = self.position(profile_id);
        if binding.target is SelectProfile {
            &&& new.global_bindings@ == self.global_bindings@.filter(beside(binding)).push(binding)
            &&& new == (MidiConfig { global_bindings: new.global_bindings, ..self })
        } else if self.has_profile(profile_id) {
            &&& new.profiles@ == self.profiles@.update(i, new.profiles@[i])
            &&& new.profiles@[i].bindings@ == self.profiles@[i].bindings@.filter(beside(binding)).push(binding)
            &&& new.profiles@[i] == (MidiProfile { bindings: new.profiles@[i].bindings, ..self.profiles@[i] })
            &&& new == (MidiConfig { profiles: new.profiles, ..self })
        } else {
            new == self
        }
    }

    /// The position of a profile, or the number of profiles.
    pub(crate) fn find(&self, id: u64) -> (r: usize)
        ensures
            r == self.position(id),
            r <= self.profiles@.len(),
            r < self.profiles@.len() <==> self.has_profile(id),
            r < self.profiles@.len() ==> self.profiles@[r as int].id == id,
    {
        let mut i: usize = 0;
        while i < self.profiles.len() && self.profiles[i].id != id
            invariant
                i <= self.profiles@.len(),
                forall|j: int| 0 <= j < i ==> !profile_is(id)(#[trigger] self.profiles@[j]),
            decreases self.profiles@.len() - i,
        {
            i = i + 1;
        }
        proof {
            first_is_at(self.profiles@, profile_is(id), i as int);
            if self.has_profile(id) {
                let k = choose|k: int| 0 <= k < self.profiles@.len() && (#[trigger] self.profiles@[k]).id == id;
                crate::list::first_exists(self.profiles@, profile_is(id), k);
            }
        }
        i
    }

    /// The profile whose bindings are live: the active one, else the first.
    pub fn active(&self) -> (r: &MidiProfile)
        requires
            self.profiles@.len() > 0,
        ensures
            *r == self.profiles@[self.active_position()],
            self.wf() ==> r.id == self.active_profile,
    {
        let i = self.find(self.active_profile);
        if i < self.profiles.len() {
            &self.profiles[i]
        } else {
            &self.profiles[0]
        }
    }

    /// The profile with an id.
    pub fn profile(&self, id: u64) -> (r: Option<&MidiProfile>)
        ensures
            r is Some <==> self.has_profile(id),
            r is Some ==> *r->0 == self.profiles@[self.position(id)] && r->0.id == id,
    {
        let i = self.find(id);
        if i < self.profiles.len() {
            Some(&self.profiles[i])
        } else {
            None
        }
    }

    /// What appending a profile makes of the section.
    pub open spec fn profile_added(self, id: u64, new: MidiConfig) -> bool {
        &&& id == self.next_profile_id
        &&& new.profiles@.len() == self.profiles@.len() + 1
        &&& new.profiles@.drop_last() == self.profiles@
        &&& new.profiles@.last().id == id
        &&& new.profiles@.last().name@ == "Profile "@ + dec(id as nat)
        &&& new.profiles@.last().bindings@.len() == 0
        &&& new == (MidiConfig {
            profiles: new.profiles,
            next_profile_id: (id + 1) as u64,
            ..self
        })
    }

    /// Append an empty profile under a new id.
    pub fn add_profile(&mut self) -> (id: u64)
        requires
            old(self).next_profile_id < u64::MAX,
        ensures
            old(self).profile_added(id, *final(self)),
            old(self).wf() ==> final(self).wf() && !old(self).has_profile(id),
            old(self).one_to_one() ==> final(self).one_to_one(),
    {
        let id: u64 = self.next_profile_id;
        self.next_profile_id = id + 1;
        self.profiles.push(MidiProfile { id, name: text::numbered("Profile ", id), bindings: Vec::new() });
        proof {
            assert(self.profiles@.drop_last() =~= old(self).profiles@);
            assert forall|i: int| 0 <= i < old(self).profiles@.len() implies self.profiles@[i]
                == #[trigger] old(self).profiles@[i] by {}
            if old(self).wf() {
                let k = choose|k: int|
                    0 <= k < old(self).profiles@.len() && (#[trigger] old(self).profiles@[k]).id
                        == old(self).active_profile;
                assert(self.profiles@[k].id == self.active_profile);
            }
        }
        id
    }

    /// What removing a profile leaves behind.
    pub open spec fn profile_removed(self, id: u64, new: MidiConfig) -> bool {
        &&& self.profiles@.len() <= 1 ==> new == self
        &&& self.profiles@.len() > 1 ==> {
            &&& new.profiles@ == self.profiles@.filter(profile_is_not(id))
            &&& new.profiles@.len() > 0
            &&& new.global_bindings@ == self.global_bindings@.filter(selects_other(id))
            &&& new.active_profile == if new.has_profile(self.active_profile) {
                self.active_profile
            } else {
                new.profiles@[0].id
            }
            &&& new == (MidiConfig {
                profiles: new.profiles,
                global_bindings: new.global_bindings,
                active_profile: new.active_profile,
                ..self
            })
            &&& !new.has_profile(id)
        }
    }

    /// Remove a profile plus every pad bound to it; keeps at least one
    /// profile and repairs `active_profile` if it pointed at the removed one.
    pub fn remove_profile(&mut self, id: u64)
        requires
            old(self).profiles@.len() > 1 ==> exists|i: int|
                0 <= i < old(self).profiles@.len() && (#[trigger] old(self).profiles@[i]).id != id,
        ensures
            old(self).profile_removed(id, *final(self)),
            old(self).wf() ==> final(self).wf(),
            old(self).one_to_one() ==> final(self).one_to_one(),
    {
        if self.profiles.len() <= 1 {
            return;
        }
        let ghost before = self.profiles@;
        let keep = |p: &MidiProfile| -> (k: bool)
            ensures
                k == profile_is_not(id)(*p),
        { p.id != id };
        retain(&mut self.profiles, keep, Ghost(profile_is_not(id)));
        let pad = MidiTarget::SelectProfile { profile: id };
        let keep = |b: &MidiBinding| -> (k: bool)
            ensures
                k == selects_other(id)(*b),
        { b.target != pad };
        retain(&mut self.global_bindings, keep, Ghost(selects_other(id)));
        proof {
            let i = choose|i: int| 0 <= i < before.len() && (#[trigger] before[i]).id != id;
            crate::list::filter_loses_nothing(before, profile_is_not(id), i);
            filter_keeps(before, profile_is_not(id));
            filter_keeps_distinct(before, profile_is_not(id));
        }
        if self.profile(self.active_profile).is_none() {
            self.active_profile = self.profiles[0].id;
        }
        proof {
            assert(self.profiles@[0].id == self.profiles@[0].id);
            if old(self).one_to_one() {
                filter_keeps_one_to_one(old(self).global_bindings@, selects_other(id));
                assert forall|i: int| 0 <= i < self.profiles@.len() implies one_to_one(
                    (#[trigger] self.profiles@[i]).bindings@,
                ) by {
                    assert(before.contains(self.profiles@[i]));
                }
            }
            if old(self).wf() {
                assert forall|i: int| 0 <= i < self.profiles@.len() implies 0 < (
                #[trigger] self.profiles@[i]).id < self.next_profile_id by {
                    assert(before.contains(self.profiles@[i]));
                }
            }
        }
    }

    /// Store a binding in the given profile (or in the global list for
    /// `SelectProfile` targets), evicting any binding there that already
    /// uses the same physical control or the same target: one control per
    /// target, one target per control.
    pub fn bind(&mut self, profile_id: u64, binding: MidiBinding)
        ensures
            old(self).binds_to(profile_id, binding, *final(self)),
            old(self).wf() ==> final(self).wf(),
            old(self).one_to_one() ==> final(self).one_to_one(),
    {
        if let MidiTarget::SelectProfile { .. } = binding.target {
            proof {
                if old(self).one_to_one() {
                    binding_keeps_one_to_one(self.global_bindings@, binding);
                }
            }
            let new = &binding;
            let keep = |b: &MidiBinding| -> (k: bool)
                ensures
                    k == beside(*new)(*b),
            { !b.source.same(&new.source) && b.target != new.target };
            retain(&mut self.global_bindings, keep, Ghost(beside(binding)));
            self.global_bindings.push(binding);
            return;
        }
        let i = self.find(profile_id);
        if i >= self.profiles.len() {
            return;
        }
        proof {
            if old(self).one_to_one() {
                binding_keeps_one_to_one(self.profiles@[i as int].bindings@, binding);
            }
        }
        let p = &mut self.profiles[i];
        let new = &binding;
        let keep = |b: &MidiBinding| -> (k: bool)
            ensures
                k == beside(*new)(*b),
        { !b.source.same(&new.source) && b.target != new.target };
        retain(&mut p.bindings, keep, Ghost(beside(binding)));
        p.bindings.push(binding);
        proof {
            same_ids_keep_wf(*old(self), *self);
        }
    }

    /// Whether a new configuration is this one without the binding for a target
    /// in a profile (in the global list for `SelectProfile` targets).
    pub open spec fn frees(self, profile_id: u64, target: MidiTarget, new: MidiConfig) -> bool {
        let i = self.position(profile_id);
        if target is SelectProfile {
            &&& new.global_bindings@ == self.global_bindings@.filter(drives_other(target))
            &&& new == (MidiConfig { global_bindings: new.global_bindings, ..self })
        } else if self.has_profile(profile_id) {
            &&& new.profiles@ == self.profiles@.update(i, new.profiles@[i])
            &&& new.profiles@[i].bindings@ == self.profiles@[i].bindings@.filter(drives_other(target))
            &&& new.profiles@[i] == (MidiProfile { bindings: new.profiles@[i].bindings, ..self.profiles@[i] })
            &&& new == (MidiConfig { profiles: new.profiles, ..self })
        } else {
            new == self
        }
    }

    /// Remove the binding for a target from the given profile (globals for
    /// `SelectProfile` targets).
    pub fn unbind(&mut self, profile_id: u64, target: &MidiTarget)
        ensures
            old(self).frees(profile_id, *target, *final(self)),
            old(self).wf() ==> final(self).wf(),
            old(self).one_to_one() ==> final(self).one_to_one(),
    {
        let t = *target;
        if let MidiTarget::SelectProfile { .. } = t {
            proof {
                if old(self).one_to_one() {
                    filter_keeps_one_to_one(self.global_bindings@, drives_other(t));
                }
            }
            let keep = |b: &MidiBinding| -> (k: bool)
                ensures
                    k == drives_other(t)(*b),
            { b.target != t };
            retain(&mut self.global_bindings, keep, Ghost(drives_other(t)));
            return;
        }
        let i = self.find(profile_id);
        if i >= self.profiles.len() {
            return;
        }
        proof {
            if old(self).one_to_one() {
                filter_keeps_one_to_one(self.profiles@[i as int].bindings@, drives_other(t));
            }
        }
        let p = &mut self.profiles[i];
        let keep = |b: &MidiBinding| -> (k: bool)
            ensures
                k == drives_other(t)(*b),
        { b.target != t };
        retain(&mut p.bindings, keep, Ghost(drives_other(t)));
        proof {
            same_ids_keep_wf(*old(self), *self);
        }
    }

    /// What taking out a channel's bindings makes of the section.
    pub open spec fn channel_unbound(self, channel_id: u64, new: MidiConfig) -> bool {
        &&& new.profiles@.len() == self.profiles@.len()
        &&& forall|i: int|
            0 <= i < self.profiles@.len() ==> {
                &&& (#[trigger] new.profiles@[i]).bindings@ == self.profiles@[i].bindings@.filter(
                    refers_elsewhere(channel_id),
                )
                &&& new.profiles@[i] == (MidiProfile {
                    bindings: new.profiles@[i].bindings,
                    ..self.profiles@[i]
                })
            }
        &&& new.global_bindings@ == self.global_bindings@.filter(refers_elsewhere(channel_id))
        &&& new == (MidiConfig {
            profiles: new.profiles,
            global_bindings: new.global_bindings,
            ..self
        })
    }

    /// Drop every binding that references a removed channel.
    pub fn remove_channel_bindings(&mut self, channel_id: u64)
        ensures
            old(self).channel_unbound(channel_id, *final(self)),
            old(self).wf() ==> final(self).wf(),
            old(self).one_to_one() ==> final(self).one_to_one(),
    {
        let n: usize = self.profiles.len();
        let ghost before = self.profiles@;
        let mut i: usize = 0;
        while i < n
            invariant
                i <= n,
                n == before.len(),
                before == old(self).profiles@,
                self.profiles@.len() == n,
                *self == (MidiConfig { profiles: self.profiles, ..*old(self) }),
                forall|j: int|
                    0 <= j < i ==> {
                        &&& (#[trigger] self.profiles@[j]).bindings@ == before[j].bindings@.filter(
                            refers_elsewhere(channel_id),
                        )
                        &&& self.profiles@[j] == (MidiProfile {
                            bindings: self.profiles@[j].bindings,
                            ..before[j]
                        })
                    },
                forall|j: int| i <= j < n ==> (#[trigger] self.profiles@[j]) == before[j],
            decreases n - i,
        {
            let p = &mut self.profiles[i];
            let keep = |b: &MidiBinding| -> (k: bool)
                ensures
                    k == refers_elsewhere(channel_id)(*b),
            { b.target.channel() != Some(channel_id) };
            retain(&mut p.bindings, keep, Ghost(refers_elsewhere(channel_id)));
            i = i + 1;
        }
        let keep = |b: &MidiBinding| -> (k: bool)
            ensures
                k == refers_elsewhere(channel_id)(*b),
        { b.target.channel() != Some(channel_id) };
        retain(&mut self.global_bindings, keep, Ghost(refers_elsewhere(channel_id)));
        proof {
            same_ids_keep_wf(*old(self), *self);
            if old(self).one_to_one() {
                filter_keeps_one_to_one(old(self).global_bindings@, refers_elsewhere(channel_id));
                assert forall|i: int| 0 <= i < self.profiles@.len() implies one_to_one(
                    (#[trigger] self.profiles@[i]).bindings@,
                ) by {
                    filter_keeps_one_to_one(before[i].bindings@, refers_elsewhere(channel_id));
                }
            }
        }
    }
}

/// Well-formedness rests on the ids alone.
proof fn same_ids_keep_wf(a: MidiConfig, b: MidiConfig)
    requires
        a.profiles@.len() == b.profiles@.len(),
        forall|i: int|
            0 <= i < a.profiles@.len() ==> (#[trigger] a.profiles@[i]).id == (#[trigger] b.profiles@[i]).id,
        a.active_profile == b.active_profile,
        a.next_profile_id == b.next_profile_id,
    ensures
        a.wf() ==> b.wf(),
{
    if a.wf() {
        let k = choose|k: int|
            0 <= k < a.profiles@.len() && (#[trigger] a.profiles@[k]).id == a.active_profile;
        assert(b.profiles@[k].id == b.active_profile);
        assert forall|i: int, j: int| 0 <= i < j < b.profiles@.len() implies (#[trigger] b.profiles@[i]).id != (
        #[trigger] b.profiles@[j]).id by {
            assert(a.profiles@[i].id != a.profiles@[j].id);
        }
        assert forall|i: int| 0 <= i < b.profiles@.len() implies 0 < (#[trigger] b.profiles@[i]).id
            < b.next_profile_id by {
            assert(0 < a.profiles@[i].id < a.next_profile_id);
        }
    }
}

/// A subset of profiles with distinct ids has distinct ids.
proof fn filter_keeps_distinct(s: Seq<MidiProfile>, p: spec_fn(MidiProfile) -> bool)
    ensures
        (forall|i: int, j: int| 0 <= i < j < s.len() ==> (#[trigger] s[i]).id != (#[trigger] s[j]).id) ==> (
        forall|i: int, j: int|
            0 <= i < j < s.filter(p).len() ==> (#[trigger] s.filter(p)[i]).id != (#[trigger] s.filter(p)[j]).id),
    decreases s.len(),
{
    reveal(Seq::filter);
    if s.len() > 0 && forall|i: int, j: int|
        0 <= i < j < s.len() ==> (#[trigger] s[i]).id != (#[trigger] s[j]).id {
        let t = s.drop_last();
        filter_keeps_distinct(t, p);
        filter_keeps(t, p);
        let f = s.filter(p);
        let g = t.filter(p);
        assert forall|i: int, j: int| 0 <= i < j < f.len() implies (#[trigger] f[i]).id != (#[trigger] f[j]).id by {
            assert(g[i] == f[i]);
            if j < g.len() {
                assert(g[j] == f[j]);
            } else {
                assert(t.contains(g[i]));
                let k = choose|k: int| 0 <= k < t.len() && t[k] == g[i];
                assert(s[k] == f[i]);
                assert(s[s.len() - 1] == f[j]);
            }
        }
    }
}

// ---- Repairing ids ----------------------------------------------------------

/// The larger of two numbers.
pub open spec fn larger(a: nat, b: nat) -> nat {
    if a >= b {
        a
    } else {
        b
    }
}

/// The largest of some ids; zero of none.
pub open spec fn top(ids: Seq<nat>) -> nat
    decreases ids.len(),
{
    if ids.len() == 0 {
        0
    } else {
        larger(top(ids.drop_last()), ids.last())
    }
}

/// Ids made unique and nonzero, in order: an id that is missing or taken is
/// replaced by one above all before it and not below `next`.
pub open spec fn repaired(ids: Seq<u64>, next: u64) -> Seq<nat>
    decreases ids.len(),
{
    if ids.len() == 0 {
        Seq::empty()
    } else {
        let before = repaired(ids.drop_last(), next);
        let id = ids.last() as nat;
        before.push(
            if id == 0 || before.contains(id) {
                larger(next as nat, top(before) + 1)
            } else {
                id
            },
        )
    }
}

/// Whether repairing leaves room for one more id.
pub open spec fn ids_fit(ids: Seq<u64>, next: u64) -> bool {
    top(repaired(ids, next)) < u64::MAX
}

/// Whether ids are nonzero and distinct.
pub open spec fn proper_ids(ids: Seq<u64>) -> bool {
    &&& forall|i: int| 0 <= i < ids.len() ==> #[trigger] ids[i] != 0
    &&& forall|i: int, j: int| 0 <= i < j < ids.len() ==> #[trigger] ids[i] != #[trigger] ids[j]
}

/// No id is above the top one.
proof fn top_is_bound(ids: Seq<nat>)
    ensures
        forall|i: int| 0 <= i < ids.len() ==> #[trigger] ids[i] <= top(ids),
        ids.len() > 0 ==> ids.contains(top(ids)),
    decreases ids.len(),
{
    if ids.len() > 0 {
        let t = ids.drop_last();
        top_is_bound(t);
        assert forall|i: int| 0 <= i < ids.len() implies #[trigger] ids[i] <= top(ids) by {
            if i < t.len() {
                assert(t[i] == ids[i]);
            }
        }
        if t.len() > 0 && top(t) >= ids.last() {
            let k = choose|k: int| 0 <= k < t.len() && t[k] == top(t);
            assert(ids[k] == top(ids));
        } else {
            assert(ids[ids.len() - 1] == top(ids));
        }
    }
}

/// Repaired ids are as many as before, nonzero and distinct.
proof fn repaired_is_proper(ids: Seq<u64>, next: u64)
    ensures
        repaired(ids, next).len() == ids.len(),
        forall|i: int| 0 <= i < ids.len() ==> #[trigger] repaired(ids, next)[i] != 0,
        forall|i: int, j: int|
            0 <= i < j < ids.len() ==> #[trigger] repaired(ids, next)[i] != #[trigger] repaired(ids, next)[j],
    decreases ids.len(),
{
    if ids.len() > 0 {
        let b = repaired(ids.drop_last(), next);
        let r = repaired(ids, next);
        repaired_is_proper(ids.drop_last(), next);
        top_is_bound(b);
        assert forall|i: int| 0 <= i < r.len() implies #[trigger] r[i] != 0 by {
            if i < b.len() {
                assert(r[i] == b[i]);
            }
        }
        assert forall|i: int, j: int| 0 <= i < j < r.len() implies #[trigger] r[i] != #[trigger] r[j] by {
            assert(r[i] == b[i]);
            if j < b.len() {
                assert(r[j] == b[j]);
            } else {
                assert(b[i] <= top(b));
                assert(b.contains(b[i]));
            }
        }
    }
}

/// Proper ids are not changed by repairing.
proof fn proper_ids_stay(ids: Seq<u64>, next: u64)
    requires
        proper_ids(ids),
    ensures
        repaired(ids, next).len() == ids.len(),
        forall|i: int| 0 <= i < ids.len() ==> #[trigger] repaired(ids, next)[i] == ids[i],
    decreases ids.len(),
{
    if ids.len() > 0 {
        let t = ids.drop_last();
        assert(forall|i: int| 0 <= i < t.len() ==> t[i] == ids[i]);
        proper_ids_stay(t, next);
        let b = repaired(t, next);
        if b.contains(ids.last() as nat) {
            let k = choose|k: int| 0 <= k < b.len() && b[k] == ids.last() as nat;
            assert(b[k] == t[k]);
            assert(ids[k] != ids[ids.len() - 1]);
        }
        assert(ids[ids.len() - 1] != 0);
        assert forall|i: int| 0 <= i < ids.len() implies #[trigger] repaired(ids, next)[i] == ids[i] by {
            if i < t.len() {
                assert(b[i] == t[i]);
            }
        }
    }
}

/// Repairing more ids only raises the top one.
proof fn top_grows(ids: Seq<u64>, next: u64, n: int)
    requires
        0 <= n <= ids.len(),
    ensures
        top(repaired(ids.take(n), next)) <= top(repaired(ids, next)),
    decreases ids.len(),
{
    if n < ids.len() {
        let t = ids.drop_last();
        top_grows(t, next, n);
        assert(t.take(n) =~= ids.take(n));
        let b = repaired(t, next);
        assert(repaired(ids, next).drop_last() =~= b);
    } else {
        assert(ids.take(n) =~= ids);
    }
}

/// Repaired ids and the next one to give out, if they all fit.
fn try_repair(ids: &Vec<u64>, next: u64) -> (r: Option<(Vec<u64>, u64)>)
    ensures
        r is Some <==> ids_fit(ids@, next),
        r is Some ==> {
            &&& (r->0).0@.len() == ids@.len()
            &&& forall|i: int| 0 <= i < ids@.len() ==> #[trigger] (r->0).0@[i] == repaired(ids@, next)[i]
            &&& (r->0).1 == larger(next as nat, top(repaired(ids@, next)) + 1)
        },
{
    let mut out: Vec<u64> = Vec::new();
    let mut max: u64 = 0;
    let mut i: usize = 0;
    while i < ids.len()
        invariant
            i <= ids@.len(),
            out@.len() == i,
            repaired(ids@.take(i as int), next).len() == i,
            forall|j: int| 0 <= j < i ==> #[trigger] out@[j] == repaired(ids@.take(i as int), next)[j],
            max == top(repaired(ids@.take(i as int), next)),
            max < u64::MAX,
        decreases ids@.len() - i,
    {
        let ghost b = repaired(ids@.take(i as int), next);
        assert(ids@.take(i + 1).drop_last() =~= ids@.take(i as int));
        assert(ids@.take(i + 1).last() == ids@[i as int]);
        let mut id: u64 = ids[i];
        let mut taken = id == 0;
        let mut j: usize = 0;
        while j < out.len()
            invariant
                j <= out@.len(),
                out@.len() == i,
                b.len() == i,
                forall|k: int| 0 <= k < i ==> #[trigger] out@[k] == b[k],
                id == ids@[i as int],
                taken <==> id == 0 || exists|k: int| 0 <= k < j && #[trigger] out@[k] == id,
            decreases out@.len() - j,
        {
            if out[j] == id {
                taken = true;
            }
            j = j + 1;
        }
        assert(taken <==> id == 0 || b.contains(id as nat)) by {
            if b.contains(id as nat) {
                let k = choose|k: int| 0 <= k < b.len() && b[k] == id as nat;
                assert(out@[k] == id);
            }
        }
        if taken {
            id = if next > max + 1 {
                next
            } else {
                max + 1
            };
        }
        out.push(id);
        if id > max {
            max = id;
        }
        let ghost r = repaired(ids@.take(i + 1), next);
        assert(r == b.push(id as nat));
        assert(r.drop_last() =~= b);
        i = i + 1;
        if max == u64::MAX {
            proof {
                top_grows(ids@, next, i as int);
            }
            return None;
        }
    }
    assert(ids@.take(i as int) =~= ids@);
    let next_free: u64 = if next > max + 1 {
        next
    } else {
        max + 1
    };
    Some((out, next_free))
}

/// Repaired ids and the next one to give out.
fn repair_ids(ids: &Vec<u64>, next: u64) -> (r: (Vec<u64>, u64))
    requires
        ids_fit(ids@, next),
    ensures
        r.0@.len() == ids@.len(),
        forall|i: int| 0 <= i < ids@.len() ==> #[trigger] r.0@[i] == repaired(ids@, next)[i],
        r.1 == larger(next as nat, top(repaired(ids@, next)) + 1),
{
    match try_repair(ids, next) {
        Some(r) => r,
        None => (Vec::new(), 0),
    }
}

// ---- Channels ---------------------------------------------------------------

/// Whether a name marks a built-in channel.
pub open spec fn built_in(name: Seq<char>) -> bool {
    name == "Microphone"@ || name == "System"@
}

/// Whether a name marks a built-in channel.
fn is_built_in(name: &str) -> (r: bool)
    ensures
        r == built_in(name@),
{
    text::same(name, "Microphone") || text::same(name, "System")
}

/// A name, or a numbered one in place of a blank one.
pub open spec fn filled_name(name: Seq<char>, what: Seq<char>, id: nat) -> Seq<char> {
    if blank(name) {
        what + dec(id)
    } else {
        name
    }
}

/// Effects under other ids.
pub open spec fn renumbered_effects(s: Seq<EffectConfig>, ids: Seq<nat>) -> Seq<EffectConfig> {
    Seq::new(s.len(), |i: int| EffectConfig { id: ids[i] as u64, ..s[i] })
}

/// VST plugins under other ids.
pub open spec fn renumbered_vsts(s: Seq<VstPluginConfig>, ids: Seq<nat>) -> Seq<VstPluginConfig> {
    Seq::new(s.len(), |i: int| VstPluginConfig { id: ids[i] as u64, ..s[i] })
}

/// The effects that name a plugin.
pub open spec fn has_uri() -> spec_fn(EffectConfig) -> bool {
    |e: EffectConfig| e.uri@.len() > 0
}

/// The VST plugins that name a binary.
pub open spec fn has_path() -> spec_fn(VstPluginConfig) -> bool {
    |p: VstPluginConfig| p.path@.len() > 0
}

impl ChannelConfig {
    /// The ids of the effects and then of the VST plugins.
    pub open spec fn fx_ids(self) -> Seq<u64> {
        Seq::new(
            self.effects@.len() + self.vst_plugins@.len(),
            |i: int|
                if i < self.effects@.len() {
                    self.effects@[i].id
                } else {
                    self.vst_plugins@[i - self.effects@.len()].id
                },
        )
    }

    /// Effect and VST ids are distinct and below the next one to give out.
    pub open spec fn wf(self) -> bool {
        &&& proper_ids(self.fx_ids())
        &&& forall|i: int| 0 <= i < self.fx_ids().len() ==> #[trigger] self.fx_ids()[i] < self.next_effect_id
    }

    /// What repairing makes of a channel that gets the id `id`.
    pub open spec fn repairs_to(self, id: nat, new: ChannelConfig) -> bool {
        let ids = repaired(self.fx_ids(), self.next_effect_id);
        let n = self.effects@.len() as int;
        &&& new.id == id
        &&& new.name@ == filled_name(self.name@, "Channel "@, id)
        &&& new.assignment == self.assignment
        &&& new.monitor_volume == self.monitor_volume.clamped(ONE)
        &&& new.stream_volume == self.stream_volume.clamped(ONE)
        &&& new.vod_volume == self.vod_volume.clamped(ONE)
        &&& new.monitor_muted == self.monitor_muted
        &&& new.stream_muted == self.stream_muted
        &&& new.vod_muted == self.vod_muted
        &&& new.linked == self.linked
        &&& new.color == if self.rgb() is Some {
            self.color
        } else {
            None
        }
        &&& new.permanent == (self.permanent || built_in(new.name@))
        &&& new.effects@ == renumbered_effects(self.effects@, ids.take(n)).filter(has_uri())
        &&& new.vst_plugins@ == renumbered_vsts(self.vst_plugins@, ids.skip(n)).filter(has_path())
        &&& new.next_effect_id == larger(self.next_effect_id as nat, top(ids) + 1)
    }

    /// The ids of the effects and then of the VST plugins.
    fn all_fx_ids(&self) -> (r: Vec<u64>)
        ensures
            r@ == self.fx_ids(),
    {
        let mut ids: Vec<u64> = Vec::new();
        let mut i: usize = 0;
        while i < self.effects.len()
            invariant
                i <= self.effects@.len(),
                ids@ =~= self.fx_ids().take(i as int),
            decreases self.effects@.len() - i,
        {
            ids.push(self.effects[i].id);
            i = i + 1;
        }
        let mut k: usize = 0;
        while k < self.vst_plugins.len()
            invariant
                k <= self.vst_plugins@.len(),
                ids@ =~= self.fx_ids().take(self.effects@.len() + k),
            decreases self.vst_plugins@.len() - k,
        {
            ids.push(self.vst_plugins[k].id);
            k = k + 1;
        }
        assert(ids@ =~= self.fx_ids());
        ids
    }

    /// Give the channel its id and repair what a hand-edited file may have
    /// broken.
    fn repair(&mut self, id: u64)
        requires
            ids_fit(old(self).fx_ids(), old(self).next_effect_id),
        ensures
            old(self).repairs_to(id as nat, *final(self)),
    {
        self.id = id;
        if text::is_blank(self.name.as_str()) {
            self.name = text::numbered("Channel ", id);
        }
        if is_built_in(self.name.as_str()) {
            self.permanent = true;
        }
        self.monitor_volume = self.monitor_volume.clamp_unit();
        self.stream_volume = self.stream_volume.clamp_unit();
        self.vod_volume = self.vod_volume.clamp_unit();
        if self.color_rgb().is_none() {
            self.color = None;
        }
        assert(self.fx_ids() =~= old(self).fx_ids());
        let ghost ids = repaired(old(self).fx_ids(), old(self).next_effect_id);
        let ghost n = old(self).effects@.len() as int;
        let (fixed, next) = repair_ids(&self.all_fx_ids(), self.next_effect_id);
        proof {
            repaired_is_proper(old(self).fx_ids(), old(self).next_effect_id);
        }
        let ghost before = *self;
        let mut i: usize = 0;
        while i < self.effects.len()
            invariant
                i <= n,
                n == before.effects@.len(),
                self.effects@.len() == n,
                fixed@.len() == n + before.vst_plugins@.len(),
                ids.len() == fixed@.len(),
                forall|j: int| 0 <= j < ids.len() ==> #[trigger] fixed@[j] == ids[j],
                *self == (ChannelConfig { effects: self.effects, ..before }),
                forall|j: int|
                    0 <= j < i ==> #[trigger] self.effects@[j] == (EffectConfig {
                        id: ids[j] as u64,
                        ..before.effects@[j]
                    }),
                forall|j: int| i <= j < n ==> #[trigger] self.effects@[j] == before.effects@[j],
            decreases n - i,
        {
            self.effects[i].id = fixed[i];
            i = i + 1;
        }
        assert(self.effects@ =~= renumbered_effects(before.effects@, ids.take(n)));
        let ghost middle = *self;
        let total: usize = fixed.len();
        let mut k: usize = 0;
        while k < self.vst_plugins.len()
            invariant
                k <= before.vst_plugins@.len(),
                i == n,
                n == before.effects@.len(),
                total == fixed@.len(),
                self.vst_plugins@.len() == before.vst_plugins@.len(),
                fixed@.len() == n + before.vst_plugins@.len(),
                ids.len() == fixed@.len(),
                forall|j: int| 0 <= j < ids.len() ==> #[trigger] fixed@[j] == ids[j],
                *self == (ChannelConfig { vst_plugins: self.vst_plugins, ..middle }),
                forall|j: int|
                    0 <= j < k ==> #[trigger] self.vst_plugins@[j] == (VstPluginConfig {
                        id: ids[n + j] as u64,
                        ..before.vst_plugins@[j]
                    }),
                forall|j: int|
                    k <= j < before.vst_plugins@.len() ==> #[trigger] self.vst_plugins@[j]
                        == before.vst_plugins@[j],
            decreases before.vst_plugins@.len() - k,
        {
            assert(fixed@[i + k] == ids[n + k]);
            self.vst_plugins[k].id = fixed[i + k];
            k = k + 1;
        }
        assert(self.vst_plugins@ =~= renumbered_vsts(before.vst_plugins@, ids.skip(n)));
        let named = |e: &EffectConfig| -> (k: bool)
            ensures
                k == has_uri()(*e),
        { !e.uri.as_str().is_empty() };
        retain(&mut self.effects, named, Ghost(has_uri()));
        let located = |p: &VstPluginConfig| -> (k: bool)
            ensures
                k == has_path()(*p),
        { !p.path.as_str().is_empty() };
        retain(&mut self.vst_plugins, located, Ghost(has_path()));
        self.next_effect_id = next;
    }
}

// ---- The MIDI section -------------------------------------------------------

/// The ids of some profiles.
pub open spec fn profile_ids(s: Seq<MidiProfile>) -> Seq<u64> {
    Seq::new(s.len(), |i: int| s[i].id)
}

/// The ids of some channels.
pub open spec fn channel_ids(s: Seq<ChannelConfig>) -> Seq<u64> {
    Seq::new(s.len(), |i: int| s[i].id)
}

/// Whether what a target refers to exists.
pub open spec fn target_exists(t: MidiTarget, channels: Seq<u64>, profiles: Seq<u64>) -> bool {
    match t {
        MidiTarget::ChannelVolume { id, .. } => channels.contains(id),
        MidiTarget::ChannelMute { id, .. } => channels.contains(id),
        MidiTarget::ChannelColor { id } => channels.contains(id),
        MidiTarget::SelectProfile { profile } => profiles.contains(profile),
        MidiTarget::MasterVolume { .. } => true,
        MidiTarget::MasterMute { .. } => true,
    }
}

/// The bindings whose target exists.
pub open spec fn live(channels: Seq<u64>, profiles: Seq<u64>) -> spec_fn(MidiBinding) -> bool {
    |b: MidiBinding| target_exists(b.target, channels, profiles)
}

/// The bindings whose target exists and that may stand in a profile.
pub open spec fn live_in_profile(channels: Seq<u64>, profiles: Seq<u64>) -> spec_fn(MidiBinding) -> bool {
    |b: MidiBinding| target_exists(b.target, channels, profiles) && !(b.target is SelectProfile)
}

/// Whether a number is in a list.
pub fn holds(v: &Vec<u64>, x: u64) -> (r: bool)
    ensures
        r == v@.contains(x),
{
    let mut i: usize = 0;
    while i < v.len()
        invariant
            i <= v@.len(),
            forall|j: int| 0 <= j < i ==> v@[j] != x,
        decreases v@.len() - i,
    {
        if v[i] == x {
            return true;
        }
        i = i + 1;
    }
    false
}

/// Whether what a target refers to exists.
fn check_target(t: &MidiTarget, channels: &Vec<u64>, profiles: &Vec<u64>) -> (r: bool)
    ensures
        r == target_exists(*t, channels@, profiles@),
{
    match t {
        MidiTarget::ChannelVolume { id, .. } => holds(channels, *id),
        MidiTarget::ChannelMute { id, .. } => holds(channels, *id),
        MidiTarget::ChannelColor { id } => holds(channels, *id),
        MidiTarget::SelectProfile { profile } => holds(profiles, *profile),
        MidiTarget::MasterVolume { .. } => true,
        MidiTarget::MasterMute { .. } => true,
    }
}

/// What repairing makes of a profile that gets the id `id`.
pub open spec fn profile_repairs_to(
    old: MidiProfile,
    id: nat,
    channels: Seq<u64>,
    profiles: Seq<u64>,
    new: MidiProfile,
) -> bool {
    &&& new.id == id
    &&& new.name@ == filled_name(old.name@, "Profile "@, id)
    &&& new.bindings@ == old.bindings@.filter(live_in_profile(channels, profiles))
}

impl MidiConfig {
    /// The ids the profiles are repaired to; without profiles there is the
    /// default one.
    pub open spec fn repaired_ids(self) -> Seq<nat> {
        if self.profiles@.len() == 0 {
            seq![1nat]
        } else {
            repaired(profile_ids(self.profiles@), self.next_profile_id)
        }
    }

    /// What repairing makes of the section, beside the given channels.
    pub open spec fn repairs_to(self, channels: Seq<u64>, new: MidiConfig) -> bool {
        let ids = self.repaired_ids();
        let profiles = profile_ids(new.profiles@);
        &&& new.profiles@.len() == ids.len()
        &&& self.profiles@.len() == 0 ==> is_default_profile(new.profiles@[0])
        &&& forall|i: int|
            0 <= i < self.profiles@.len() ==> profile_repairs_to(
                self.profiles@[i],
                ids[i],
                channels,
                profiles,
                #[trigger] new.profiles@[i],
            )
        &&& new.next_profile_id == larger(self.next_profile_id as nat, top(ids) + 1)
        &&& new.active_profile == if profiles.contains(self.active_profile) {
            self.active_profile
        } else {
            profiles[0]
        }
        &&& new.global_bindings@ == self.global_bindings@.filter(live(channels, profiles))
        &&& new.pickup == self.pickup
        &&& new.led_feedback == self.led_feedback
        &&& new.on_velocity == self.on_velocity
        &&& new.off_velocity == self.off_velocity
    }

    /// The ids of the profiles.
    fn ids(&self) -> (r: Vec<u64>)
        ensures
            r@ == profile_ids(self.profiles@),
    {
        let mut ids: Vec<u64> = Vec::new();
        let mut i: usize = 0;
        while i < self.profiles.len()
            invariant
                i <= self.profiles@.len(),
                ids@ =~= profile_ids(self.profiles@).take(i as int),
            decreases self.profiles@.len() - i,
        {
            ids.push(self.profiles[i].id);
            i = i + 1;
        }
        assert(ids@ =~= profile_ids(self.profiles@));
        ids
    }

    /// Repair profile ids, then drop bindings that refer to channels or
    /// profiles that do not exist.
    fn repair(&mut self, channels: &Vec<u64>)
        requires
            top(old(self).repaired_ids()) < u64::MAX,
        ensures
            old(self).repairs_to(channels@, *final(self)),
    {
        if self.profiles.is_empty() {
            self.profiles.push(MidiProfile { id: 1, name: text::copy("Default"), bindings: Vec::new() });
            proof {
                let one = seq![1u64];
                assert(profile_ids(self.profiles@) =~= one);
                assert(proper_ids(one));
                proper_ids_stay(one, self.next_profile_id);
                assert(repaired(one, self.next_profile_id) =~= seq![1nat]);
            }
        }
        let ghost start = *self;
        let ghost ids = old(self).repaired_ids();
        assert(ids == repaired(profile_ids(start.profiles@), start.next_profile_id));
        let (fixed, next) = repair_ids(&self.ids(), self.next_profile_id);
        proof {
            repaired_is_proper(profile_ids(start.profiles@), start.next_profile_id);
        }
        let n: usize = self.profiles.len();
        let mut i: usize = 0;
        while i < n
            invariant
                i <= n,
                n == start.profiles@.len(),
                self.profiles@.len() == n,
                fixed@.len() == n,
                ids.len() == n,
                forall|j: int| 0 <= j < n ==> #[trigger] fixed@[j] == ids[j],
                *self == (MidiConfig { profiles: self.profiles, ..start }),
                forall|j: int|
                    0 <= j < i ==> {
                        &&& (#[trigger] self.profiles@[j]).id == ids[j]
                        &&& self.profiles@[j].name@ == filled_name(start.profiles@[j].name@, "Profile "@, ids[j])
                        &&& self.profiles@[j].bindings == start.profiles@[j].bindings
                    },
                forall|j: int| i <= j < n ==> #[trigger] self.profiles@[j] == start.profiles@[j],
            decreases n - i,
        {
            let p = &mut self.profiles[i];
            p.id = fixed[i];
            if text::is_blank(p.name.as_str()) {
                p.name = text::numbered("Profile ", fixed[i]);
            }
            i = i + 1;
        }
        self.next_profile_id = next;
        assert(profile_ids(self.profiles@) =~= fixed@);
        proof {
            let active = self.active_profile;
            if self.has_profile(active) {
                let k = choose|k: int|
                    0 <= k < self.profiles@.len() && (#[trigger] self.profiles@[k]).id == active;
                assert(fixed@[k] == active);
            }
            if fixed@.contains(active) {
                let k = choose|k: int| 0 <= k < fixed@.len() && fixed@[k] == active;
                assert(self.profiles@[k].id == active);
            }
        }
        if self.profile(self.active_profile).is_none() {
            self.active_profile = self.profiles[0].id;
        }
        let ghost middle = *self;
        let mut k: usize = 0;
        while k < n
            invariant
                k <= n,
                n == start.profiles@.len(),
                middle.profiles@.len() == n,
                self.profiles@.len() == n,
                *self == (MidiConfig { profiles: self.profiles, ..middle }),
                forall|j: int|
                    0 <= j < k ==> {
                        &&& (#[trigger] self.profiles@[j]).id == middle.profiles@[j].id
                        &&& self.profiles@[j].name == middle.profiles@[j].name
                        &&& self.profiles@[j].bindings@ == middle.profiles@[j].bindings@.filter(
                            live_in_profile(channels@, fixed@),
                        )
                    },
                forall|j: int| k <= j < n ==> #[trigger] self.profiles@[j] == middle.profiles@[j],
            decreases n - k,
        {
            let p = &mut self.profiles[k];
            let keep = |b: &MidiBinding| -> (r: bool)
                ensures
                    r == live_in_profile(channels@, fixed@)(*b),
            {
                check_target(&b.target, channels, &fixed) && !matches!(
                    b.target,
                    MidiTarget::SelectProfile { .. }
                )
            };
            retain(&mut p.bindings, keep, Ghost(live_in_profile(channels@, fixed@)));
            k = k + 1;
        }
        let keep = |b: &MidiBinding| -> (r: bool)
            ensures
                r == live(channels@, fixed@)(*b),
        { check_target(&b.target, channels, &fixed) };
        retain(&mut self.global_bindings, keep, Ghost(live(channels@, fixed@)));
        proof {
            assert(profile_ids(self.profiles@) =~= fixed@);
            if old(self).profiles@.len() == 0 {
                let f = live_in_profile(channels@, fixed@);
                filter_keeps(start.profiles@[0].bindings@, f);
                text_is_not_blank();
                assert(self.profiles@[0].bindings@.len() == 0);
            }
        }
    }
}

/// The name of the default profile is not blank.
proof fn text_is_not_blank()
    ensures
        !blank("Default"@),
{
    reveal_strlit("Default");
    assert(!text::is_white("Default"@[0]));
}

// ---- The whole configuration ------------------------------------------------

#[derive(Clone, Debug, PartialEq, Eq)]
pub struct Config {
    pub next_channel_id: u64,
    pub channels: Vec<ChannelConfig>,
    pub master: MasterConfig,
    /// Third mix bus exposed as the "Crossfade VOD Mix" microphone, for
    /// keeping e.g. music out of the VOD/recording track. Off by default so
    /// the two-mix UI stays clean.
    pub vod_mix_enabled: bool,
    /// The setup assistant was shown once; afterwards misconfigurations only
    /// produce a notice instead of the full dialog.
    pub setup_done: bool,
    pub wave_xlr: WaveXlrConfig,
    pub midi: MidiConfig,
}

impl Default for Config {
    fn default() -> (r: Self)
        ensures
            r.is_fresh(),
    {
        let mut mic = ChannelConfig::default();
        mic.id = 1;
        mic.name = text::copy("Microphone");
        mic.permanent = true;
        let mut system = ChannelConfig::default();
        system.id = 2;
        system.name = text::copy("System");
        system.assignment = Some(Assignment::Virtual);
        system.permanent = true;
        let mut channels: Vec<ChannelConfig> = Vec::new();
        channels.push(mic);
        channels.push(system);
        Config {
            next_channel_id: 3,
            channels,
            master: MasterConfig::default(),
            vod_mix_enabled: false,
            setup_done: false,
            wave_xlr: WaveXlrConfig::default(),
            midi: MidiConfig::default(),
        }
    }
}

/// The channel with an id.
pub open spec fn channel_is(id: u64) -> spec_fn(ChannelConfig) -> bool {
    |c: ChannelConfig| c.id == id
}

/// The channels worth keeping from a file without ids: what is assigned, and
/// the two built-in ones.
pub open spec fn worth_keeping() -> spec_fn(ChannelConfig) -> bool {
    |c: ChannelConfig| c.assignment is Some || built_in(c.name@)
}

/// The channels that removing one leaves.
pub open spec fn survives(id: u64) -> spec_fn(ChannelConfig) -> bool {
    |c: ChannelConfig| c.id != id || c.permanent
}

/// The default names.
pub open spec fn template_seq() -> Seq<Seq<char>> {
    Seq::new(6, |i: int| TEMPLATE_NAMES[i]@)
}

/// The names no channel has.
pub open spec fn unused(channels: Seq<ChannelConfig>) -> spec_fn(Seq<char>) -> bool {
    |n: Seq<char>| forall|i: int| 0 <= i < channels.len() ==> (#[trigger] channels[i]).name@ != n
}

/// Whether repairing leaves room for one more effect or VST id on every channel.
pub open spec fn all_fit(s: Seq<ChannelConfig>) -> bool {
    forall|i: int| 0 <= i < s.len() ==> ids_fit((#[trigger] s[i]).fx_ids(), s[i].next_effect_id)
}

/// One channel more.
proof fn all_fit_step(s: Seq<ChannelConfig>, c: ChannelConfig)
    ensures
        all_fit(s.push(c)) <==> all_fit(s) && ids_fit(c.fx_ids(), c.next_effect_id),
{
    let t = s.push(c);
    if all_fit(t) {
        assert forall|i: int| 0 <= i < s.len() implies ids_fit(
            (#[trigger] s[i]).fx_ids(),
            s[i].next_effect_id,
        ) by {
            assert(t[i] == s[i]);
        }
        assert(t[s.len() as int] == c);
    }
}

/// A percentage brought into range, where there is one.
pub open spec fn clamped_percent(v: Option<Level>) -> Option<Level> {
    match v {
        Some(l) => Some(l.clamped(HUNDRED)),
        None => None,
    }
}

/// A percentage brought into range, where there is one.
fn clamp_percent(v: Option<Level>) -> (r: Option<Level>)
    ensures
        r == clamped_percent(v),
{
    match v {
        Some(l) => Some(l.clamp_percent()),
        None => None,
    }
}

impl Config {
    /// The configuration that nobody has touched.
    pub open spec fn is_fresh(self) -> bool {
        &&& self.next_channel_id == 3
        &&& self.channels@.len() == 2
        &&& ({
            let mic = self.channels@[0];
            &&& mic.id == 1
            &&& mic.name@ == "Microphone"@
            &&& mic.assignment is None
            &&& mic.is_fresh()
            &&& !mic.stream_muted
            &&& !mic.vod_muted
            &&& mic.permanent
        })
        &&& ({
            let system = self.channels@[1];
            &&& system.id == 2
            &&& system.name@ == "System"@
            &&& system.assignment == Some(Assignment::Virtual)
            &&& system.is_fresh()
            &&& !system.stream_muted
            &&& !system.vod_muted
            &&& system.permanent
        })
        &&& self.master.is_fresh()
        &&& !self.vod_mix_enabled
        &&& !self.setup_done
        &&& self.wave_xlr.mic_volume is None
        &&& self.wave_xlr.output_volume is None
        &&& self.midi.is_fresh()
    }

    /// Whether a channel with the id exists.
    pub open spec fn has_channel(self, id: u64) -> bool {
        exists|i: int| 0 <= i < self.channels@.len() && (#[trigger] self.channels@[i]).id == id
    }

    /// The position of a channel.
    pub open spec fn position(self, id: u64) -> int {
        first(self.channels@, channel_is(id))
    }

    /// At most eight channels, with distinct ids below the next one to give
    /// out; the same of effects, VST plugins and profiles.
    pub open spec fn wf(self) -> bool {
        &&& self.channels@.len() <= MAX_CHANNELS
        &&& self.next_channel_id > 0
        &&& proper_ids(channel_ids(self.channels@))
        &&& forall|i: int|
            0 <= i < self.channels@.len() ==> (#[trigger] self.channels@[i]).id < self.next_channel_id
        &&& forall|i: int| 0 <= i < self.channels@.len() ==> (#[trigger] self.channels@[i]).wf()
        &&& self.midi.wf()
    }

    /// Every binding drives a channel or selects a profile that exists.
    pub open spec fn bindings_live(self) -> bool {
        let live = live(channel_ids(self.channels@), profile_ids(self.midi.profiles@));
        &&& forall|i: int|
            0 <= i < self.midi.global_bindings@.len() ==> live(#[trigger] self.midi.global_bindings@[i])
        &&& forall|i: int, j: int|
            0 <= i < self.midi.profiles@.len() && 0 <= j < self.midi.profiles@[i].bindings@.len() ==> live(
                #[trigger] self.midi.profiles@[i].bindings@[j],
            )
    }

    /// The channels that repairing starts from: all of them, unless one has
    /// no id, which marks a file from before ids existed.
    pub open spec fn kept_channels(self) -> Seq<ChannelConfig> {
        if self.has_channel(0) {
            self.channels@.filter(worth_keeping())
        } else {
            self.channels@
        }
    }

    /// Whether repairing leaves room for one more id everywhere.
    pub open spec fn ids_have_room(self) -> bool {
        let kept = self.kept_channels();
        &&& ids_fit(channel_ids(kept), self.next_channel_id)
        &&& all_fit(kept)
        &&& top(self.midi.repaired_ids()) < u64::MAX
    }

    /// What repairing makes of a configuration.
    pub open spec fn repairs_to(self, new: Config) -> bool {
        let kept = self.kept_channels();
        let ids = repaired(channel_ids(kept), self.next_channel_id);
        &&& new.channels@.len() == if kept.len() <= MAX_CHANNELS {
            kept.len()
        } else {
            MAX_CHANNELS as nat
        }
        &&& forall|i: int|
            0 <= i < new.channels@.len() ==> kept[i].repairs_to(ids[i], #[trigger] new.channels@[i])
        &&& new.next_channel_id == larger(self.next_channel_id as nat, top(ids) + 1)
        &&& new.master == (MasterConfig {
            monitor_volume: self.master.monitor_volume.clamped(ONE),
            stream_volume: self.master.stream_volume.clamped(ONE),
            vod_volume: self.master.vod_volume.clamped(ONE),
            ..self.master
        })
        &&& new.vod_mix_enabled == self.vod_mix_enabled
        &&& new.setup_done == self.setup_done
        &&& new.wave_xlr.mic_volume == clamped_percent(self.wave_xlr.mic_volume)
        &&& new.wave_xlr.output_volume == clamped_percent(self.wave_xlr.output_volume)
        &&& self.midi.repairs_to(channel_ids(new.channels@), new.midi)
    }

    /// The position of a channel, or the number of channels.
    pub(crate) fn find(&self, id: u64) -> (r: usize)
        ensures
            r == self.position(id),
            r <= self.channels@.len(),
            r < self.channels@.len() <==> self.has_channel(id),
            r < self.channels@.len() ==> self.channels@[r as int].id == id,
    {
        let mut i: usize = 0;
        while i < self.channels.len() && self.channels[i].id != id
            invariant
                i <= self.channels@.len(),
                forall|j: int| 0 <= j < i ==> !channel_is(id)(#[trigger] self.channels@[j]),
            decreases self.channels@.len() - i,
        {
            i = i + 1;
        }
        proof {
            first_is_at(self.channels@, channel_is(id), i as int);
            if self.has_channel(id) {
                let k = choose|k: int| 0 <= k < self.channels@.len() && (#[trigger] self.channels@[k]).id == id;
                crate::list::first_exists(self.channels@, channel_is(id), k);
            }
        }
        i
    }

    /// The channel with an id.
    pub fn channel(&self, id: u64) -> (r: Option<&ChannelConfig>)
        ensures
            r is Some <==> self.has_channel(id),
            r is Some ==> *r->0 == self.channels@[self.position(id)] && r->0.id == id,
    {
        let i = self.find(id);
        if i < self.channels.len() {
            Some(&self.channels[i])
        } else {
            None
        }
    }

    /// The channel with an id, for changing it.
    pub fn channel_mut(&mut self, id: u64) -> (r: Option<&mut ChannelConfig>)
        ensures
            ({
                let s = old(self).channels@;
                let i = old(self).position(id);
                match r {
                    Some(c) => old(self).has_channel(id) && 0 <= i < s.len() && *c == s[i] && c.id == id && final(self).channels@ == s.update(
                        i,
                        *final(c),
                    ) && *final(self) == (Config { channels: final(self).channels, ..*old(self) }),
                    None => !old(self).has_channel(id) && *final(self) == *old(self),
                }
            }),
    {
        let i = self.find(id);
        if i < self.channels.len() {
            Some(&mut self.channels[i])
        } else {
            None
        }
    }

    /// The ids of the channels.
    pub fn ids(&self) -> (r: Vec<u64>)
        ensures
            r@ == channel_ids(self.channels@),
    {
        let mut ids: Vec<u64> = Vec::new();
        let mut i: usize = 0;
        while i < self.channels.len()
            invariant
                i <= self.channels@.len(),
                ids@ =~= channel_ids(self.channels@).take(i as int),
            decreases self.channels@.len() - i,
        {
            ids.push(self.channels[i].id);
            i = i + 1;
        }
        assert(ids@ =~= channel_ids(self.channels@));
        ids
    }

    /// Whether a channel has the name.
    fn name_taken(&self, name: &str) -> (r: bool)
        ensures
            r == !unused(self.channels@)(name@),
    {
        let mut i: usize = 0;
        while i < self.channels.len()
            invariant
                i <= self.channels@.len(),
                forall|j: int| 0 <= j < i ==> (#[trigger] self.channels@[j]).name@ != name@,
            decreases self.channels@.len() - i,
        {
            if text::same(self.channels[i].name.as_str(), name) {
                return true;
            }
            i = i + 1;
        }
        false
    }

    /// Template names not yet used by an existing channel.
    pub fn unused_template_names(&self) -> (r: Vec<&'static str>)
        ensures
            r@.len() == template_seq().filter(unused(self.channels@)).len(),
            forall|i: int|
                0 <= i < r@.len() ==> (#[trigger] r@[i])@ == template_seq().filter(unused(self.channels@))[i],
    {
        let mut r: Vec<&'static str> = Vec::new();
        let ghost s = template_seq();
        let ghost p = unused(self.channels@);
        proof {
            reveal(Seq::filter);
            assert(s.take(0).filter(p) =~= Seq::<Seq<char>>::empty());
        }
        let mut i: usize = 0;
        while i < 6
            invariant
                i <= 6,
                s == template_seq(),
                p == unused(self.channels@),
                r@.len() == s.take(i as int).filter(p).len(),
                forall|j: int| 0 <= j < r@.len() ==> (#[trigger] r@[j])@ == s.take(i as int).filter(p)[j],
            decreases 6 - i,
        {
            proof {
                crate::list::filter_step(s, i as int, p);
            }
            if !self.name_taken(TEMPLATE_NAMES[i]) {
                r.push(TEMPLATE_NAMES[i]);
            }
            i = i + 1;
        }
        assert(s.take(6) =~= s);
        r
    }

    /// The name a new channel gets.
    pub open spec fn new_name(self, name: Option<&str>) -> Seq<char> {
        let free = template_seq().filter(unused(self.channels@));
        match name {
            Some(n) => n@,
            None => if free.len() > 0 {
                free[0]
            } else {
                "Channel "@ + dec(self.next_channel_id as nat)
            },
        }
    }

    /// What adding a channel gives and leaves behind.
    pub open spec fn channel_added(self, name: Option<&str>, r: Option<u64>, new: Config) -> bool {
        &&& r is Some <==> self.channels@.len() < MAX_CHANNELS
        &&& r is None ==> new == self
        &&& r is Some ==> {
            let c = new.channels@.last();
            &&& r->0 == self.next_channel_id
            &&& new.channels@.len() == self.channels@.len() + 1
            &&& new.channels@.drop_last() == self.channels@
            &&& c.id == r->0
            &&& c.name@ == self.new_name(name)
            &&& c.assignment == Some(Assignment::Virtual)
            &&& c.is_fresh()
            &&& c.stream_muted
            &&& c.vod_muted
            &&& !c.permanent
            &&& forall|m: MasterConfig, mix: Mix|
                mix != Mix::Monitor ==> (#[trigger] crate::audio::send_level(c, m, mix)).muted
            &&& new == (Config { channels: new.channels, next_channel_id: (r->0 + 1) as u64, ..self })
        }
    }

    /// Add a channel (as a virtual device by default). Returns its id, or
    /// `None` when the channel limit is reached. A new channel is muted
    /// towards the stream and the VOD track until deliberately unmuted, so it
    /// never leaks audio to the audience or into a recording.
    pub fn add_channel(&mut self, name: Option<&str>) -> (r: Option<u64>)
        requires
            old(self).channels@.len() < MAX_CHANNELS ==> old(self).next_channel_id < u64::MAX,
        ensures
            old(self).channel_added(name, r, *final(self)),
            old(self).wf() ==> final(self).wf(),
            old(self).wf() && r is Some ==> !old(self).has_channel(r->0),
    {
        if self.channels.len() >= MAX_CHANNELS {
            return None;
        }
        let id: u64 = self.next_channel_id;
        let name = match name {
            Some(n) => text::copy(n),
            None => {
                let free = self.unused_template_names();
                if free.len() > 0 {
                    text::copy(free[0])
                } else {
                    text::numbered("Channel ", id)
                }
            },
        };
        self.next_channel_id = id + 1;
        let mut c = ChannelConfig::default();
        c.id = id;
        c.name = name;
        c.assignment = Some(Assignment::Virtual);
        c.stream_muted = true;
        c.vod_muted = true;
        self.channels.push(c);
        proof {
            assert(self.channels@.drop_last() =~= old(self).channels@);
            if old(self).wf() {
                let a = channel_ids(old(self).channels@);
                let b = channel_ids(self.channels@);
                assert forall|i: int, j: int| 0 <= i < j < b.len() implies #[trigger] b[i] != #[trigger] b[j] by {
                    assert(a[i] == b[i]);
                    assert(old(self).channels@[i].id < id);
                    if j < a.len() {
                        assert(a[j] == b[j]);
                    }
                }
                assert forall|i: int| 0 <= i < b.len() implies #[trigger] b[i] != 0 by {
                    if i < a.len() {
                        assert(a[i] == b[i]);
                    }
                }
                assert forall|i: int| 0 <= i < self.channels@.len() implies (#[trigger] self.channels@[i]).id
                    < self.next_channel_id && self.channels@[i].wf() by {
                    if i < a.len() {
                        assert(self.channels@[i] == old(self).channels@[i]);
                    }
                }
            }
        }
        Some(id)
    }

    /// What taking out a channel makes of the configuration.
    pub open spec fn channel_removed(self, id: u64, new: Config) -> bool {
        &&& new.channels@ == self.channels@.filter(survives(id))
        &&& new == (Config { channels: new.channels, ..self })
        &&& forall|i: int|
            0 <= i < self.channels@.len() && (#[trigger] self.channels@[i]).permanent
                ==> new.channels@.contains(self.channels@[i])
    }

    /// Remove a channel, unless it is a built-in one.
    pub fn remove_channel(&mut self, id: u64)
        ensures
            old(self).channel_removed(id, *final(self)),
            old(self).wf() ==> final(self).wf(),
    {
        let keep = |c: &ChannelConfig| -> (k: bool)
            ensures
                k == survives(id)(*c),
        { c.id != id || c.permanent };
        retain(&mut self.channels, keep, Ghost(survives(id)));
        proof {
            let s = old(self).channels@;
            let f = crate::list::filter_positions(s, survives(id));
            filter_keeps(s, survives(id));
            assert forall|i: int| 0 <= i < s.len() && (#[trigger] s[i]).permanent implies self.channels@.contains(
                s[i],
            ) by {
                crate::list::filter_loses_nothing(s, survives(id), i);
            }
            if old(self).wf() {
                let a = channel_ids(s);
                let b = channel_ids(self.channels@);
                assert forall|i: int, j: int| 0 <= i < j < b.len() implies #[trigger] b[i] != #[trigger] b[j] by {
                    assert(f[i] < f[j]);
                    assert(a[f[i]] == b[i] && a[f[j]] == b[j]);
                }
                assert forall|i: int| 0 <= i < b.len() implies #[trigger] b[i] != 0 by {
                    assert(a[f[i]] == b[i]);
                }
                assert forall|i: int| 0 <= i < self.channels@.len() implies (#[trigger] self.channels@[i]).id
                    < self.next_channel_id && self.channels@[i].wf() by {
                    assert(s[f[i]] == self.channels@[i]);
                }
            }
        }
    }

    /// Whether every id in a configuration has room for another above it, as
    /// loading it needs.
    pub fn can_load(&self) -> (r: bool)
        ensures
            r == self.ids_have_room(),
    {
        let migrate = self.find(0) < self.channels.len();
        let mut ids: Vec<u64> = Vec::new();
        let mut fits = true;
        let mut i: usize = 0;
        let ghost p = worth_keeping();
        let ghost s = self.channels@;
        let ghost kept = if migrate {
            s.take(0).filter(p)
        } else {
            s.take(0)
        };
        proof {
            reveal(Seq::filter);
            assert(s.take(0).filter(p) =~= Seq::<ChannelConfig>::empty());
        }
        while i < self.channels.len()
            invariant
                i <= s.len(),
                s == self.channels@,
                p == worth_keeping(),
                migrate == self.has_channel(0),
                kept == if migrate {
                    s.take(i as int).filter(p)
                } else {
                    s.take(i as int)
                },
                ids@ =~= channel_ids(kept),
                fits == all_fit(kept),
            decreases s.len() - i,
        {
            let c = &self.channels[i];
            let ghost was = kept;
            proof {
                crate::list::filter_step(s, i as int, p);
                assert(s.take(i + 1) =~= s.take(i as int).push(s[i as int]));
                kept = if migrate {
                    s.take(i + 1).filter(p)
                } else {
                    s.take(i + 1)
                };
            }
            if !migrate || c.assignment.is_some() || is_built_in(c.name.as_str()) {
                ids.push(c.id);
                let fx = c.all_fx_ids();
                if try_repair(&fx, c.next_effect_id).is_none() {
                    fits = false;
                }
                proof {
                    all_fit_step(was, *c);
                }
            }
            i = i + 1;
        }
        assert(s.take(s.len() as int) =~= s);
        if try_repair(&ids, self.next_channel_id).is_none() {
            fits = false;
        }
        if !self.midi.profiles.is_empty() && try_repair(
            &self.midi.ids(),
            self.midi.next_profile_id,
        ).is_none() {
            fits = false;
        }
        assert(top(seq![1nat]) == 1) by {
            reveal_with_fuel(top, 2);
        }
        fits
    }

    /// The configuration to start with: what was read from disk with the
    /// damage of hand edits and older versions repaired, or the default one.
    pub fn load(parsed: Option<Config>) -> (cfg: Config)
        requires
            parsed is Some ==> parsed->0.ids_have_room(),
        ensures
            parsed is None ==> cfg.is_fresh(),
            parsed is Some ==> parsed->0.repairs_to(cfg),
    {
        let mut cfg = match parsed {
            Some(c) => c,
            None => {
                return Config::default();
            },
        };
        let ghost start = cfg;
        if cfg.find(0) < cfg.channels.len() {
            let keep = |c: &ChannelConfig| -> (k: bool)
                ensures
                    k == worth_keeping()(*c),
            { c.assignment.is_some() || is_built_in(c.name.as_str()) };
            retain(&mut cfg.channels, keep, Ghost(worth_keeping()));
        }
        let ghost kept = start.kept_channels();
        assert(cfg.channels@ == kept);
        let ids = cfg.ids();
        let (fixed, next) = repair_ids(&ids, cfg.next_channel_id);
        let n: usize = cfg.channels.len();
        let mut i: usize = 0;
        while i < n
            invariant
                i <= n,
                n == kept.len(),
                fixed@.len() == n,
                cfg.channels@.len() == n,
                cfg == (Config { channels: cfg.channels, ..start }),
                forall|j: int|
                    0 <= j < n ==> ids_fit((#[trigger] kept[j]).fx_ids(), kept[j].next_effect_id),
                forall|j: int|
                    0 <= j < i ==> kept[j].repairs_to(fixed@[j] as nat, #[trigger] cfg.channels@[j]),
                forall|j: int| i <= j < n ==> #[trigger] cfg.channels@[j] == kept[j],
            decreases n - i,
        {
            assert(cfg.channels@[i as int] == kept[i as int]);
            cfg.channels[i].repair(fixed[i]);
            i = i + 1;
        }
        cfg.channels.truncate(MAX_CHANNELS);
        cfg.next_channel_id = next;
        cfg.master.monitor_volume = cfg.master.monitor_volume.clamp_unit();
        cfg.master.stream_volume = cfg.master.stream_volume.clamp_unit();
        cfg.master.vod_volume = cfg.master.vod_volume.clamp_unit();
        cfg.wave_xlr.mic_volume = clamp_percent(cfg.wave_xlr.mic_volume);
        cfg.wave_xlr.output_volume = clamp_percent(cfg.wave_xlr.output_volume);
        let channels = cfg.ids();
        cfg.midi.repair(&channels);
        cfg
    }
}

// ---- What repairing guarantees ----------------------------------------------

/// A repaired channel has distinct effect and VST ids below the next one.
pub proof fn repaired_channel_is_wf(c: ChannelConfig, id: nat, d: ChannelConfig)
    requires
        c.repairs_to(id, d),
    ensures
        d.wf(),
{
    let ids = repaired(c.fx_ids(), c.next_effect_id);
    let n = c.effects@.len() as int;
    repaired_is_proper(c.fx_ids(), c.next_effect_id);
    top_is_bound(ids);
    let e = renumbered_effects(c.effects@, ids.take(n));
    let v = renumbered_vsts(c.vst_plugins@, ids.skip(n));
    let pe = crate::list::filter_positions(e, has_uri());
    let pv = crate::list::filter_positions(v, has_path());
    let out = d.fx_ids();
    let m = d.effects@.len() as int;
    let at = |i: int|
        if i < m {
            pe[i]
        } else {
            n + pv[i - m]
        };
    assert forall|i: int| 0 <= i < out.len() implies 0 <= at(i) < ids.len() && #[trigger] out[i] == ids[at(i)] by {
        if i < m {
            assert(e[pe[i]] == d.effects@[i]);
            assert(ids.take(n)[pe[i]] == ids[pe[i]]);
            assert(ids[pe[i]] <= top(ids));
        } else {
            assert(v[pv[i - m]] == d.vst_plugins@[i - m]);
            assert(ids.skip(n)[pv[i - m]] == ids[n + pv[i - m]]);
            assert(ids[n + pv[i - m]] <= top(ids));
        }
    }
    assert forall|i: int| 0 <= i < out.len() implies #[trigger] out[i] != 0 && out[i] < d.next_effect_id by {
        assert(out[i] == ids[at(i)]);
        assert(ids[at(i)] <= top(ids));
    }
    assert forall|i: int, j: int| 0 <= i < j < out.len() implies #[trigger] out[i] != #[trigger] out[j] by {
        assert(out[i] == ids[at(i)] && out[j] == ids[at(j)]);
        assert(at(i) < at(j)) by {
            if j < m {
                assert(pe[i] < pe[j]);
            } else if i >= m {
                assert(pv[i - m] < pv[j - m]);
            }
        }
    }
}

/// The largest of proper ids below a bound is below it.
proof fn top_below(ids: Seq<nat>, bound: nat)
    requires
        forall|i: int| 0 <= i < ids.len() ==> #[trigger] ids[i] < bound,
        bound > 0,
    ensures
        top(ids) < bound,
    decreases ids.len(),
{
    if ids.len() > 0 {
        let t = ids.drop_last();
        assert forall|i: int| 0 <= i < t.len() implies #[trigger] t[i] < bound by {
            assert(t[i] == ids[i]);
        }
        top_below(t, bound);
        assert(ids[ids.len() - 1] < bound);
    }
}

/// Numbered names are not blank.
proof fn numbered_is_not_blank(id: nat)
    ensures
        !blank("Channel "@ + dec(id)),
        !blank("Profile "@ + dec(id)),
{
    reveal_strlit("Channel ");
    reveal_strlit("Profile ");
    let c = "Channel "@ + dec(id);
    let p = "Profile "@ + dec(id);
    assert(c[0] == 'C' && !text::is_white(c[0]));
    assert(p[0] == 'P' && !text::is_white(p[0]));
}

/// Repairing a repaired channel changes nothing.
proof fn repaired_channel_stays(c: ChannelConfig, id: nat, d: ChannelConfig)
    requires
        c.repairs_to(id, d),
    ensures
        d.repairs_to(id, d),
{
    repaired_channel_is_wf(c, id, d);
    numbered_is_not_blank(id);
    crate::level::clamping_is_idempotent(c.monitor_volume, ONE);
    crate::level::clamping_is_idempotent(c.stream_volume, ONE);
    crate::level::clamping_is_idempotent(c.vod_volume, ONE);
    let ids = repaired(c.fx_ids(), c.next_effect_id);
    let n = c.effects@.len() as int;
    let e = renumbered_effects(c.effects@, ids.take(n));
    let v = renumbered_vsts(c.vst_plugins@, ids.skip(n));
    filter_keeps(e, has_uri());
    filter_keeps(v, has_path());
    let again = repaired(d.fx_ids(), d.next_effect_id);
    let m = d.effects@.len() as int;
    proper_ids_stay(d.fx_ids(), d.next_effect_id);
    assert(renumbered_effects(d.effects@, again.take(m)) =~= d.effects@) by {
        assert forall|i: int| 0 <= i < m implies again.take(m)[i] as u64 == (#[trigger] d.effects@[i]).id by {
            assert(again[i] == d.fx_ids()[i]);
        }
    }
    assert(renumbered_vsts(d.vst_plugins@, again.skip(m)) =~= d.vst_plugins@) by {
        assert forall|i: int| 0 <= i < d.vst_plugins@.len() implies again.skip(m)[i] as u64 == (
        #[trigger] d.vst_plugins@[i]).id by {
            assert(again[m + i] == d.fx_ids()[m + i]);
        }
    }
    filter_all(d.effects@, has_uri());
    filter_all(d.vst_plugins@, has_path());
    assert forall|i: int| 0 <= i < again.len() implies #[trigger] again[i] < d.next_effect_id by {
        assert(again[i] == d.fx_ids()[i]);
    }
    top_below(again, d.next_effect_id as nat);
}

/// Loading gives a well-formed configuration in which every binding drives
/// something that exists.
pub proof fn loading_makes_wf(c: Config, d: Config)
    requires
        c.repairs_to(d),
    ensures
        d.wf(),
        d.bindings_live(),
{
    let kept = c.kept_channels();
    let ids = repaired(channel_ids(kept), c.next_channel_id);
    repaired_is_proper(channel_ids(kept), c.next_channel_id);
    top_is_bound(ids);
    let out = channel_ids(d.channels@);
    assert forall|i: int| 0 <= i < d.channels@.len() implies (#[trigger] d.channels@[i]).id == ids[i]
        && d.channels@[i].id < d.next_channel_id && d.channels@[i].wf() by {
        assert(ids[i] <= top(ids));
        repaired_channel_is_wf(kept[i], ids[i], d.channels@[i]);
    }
    assert forall|i: int| 0 <= i < out.len() implies #[trigger] out[i] == ids[i] by {
        assert(d.channels@[i].id == ids[i]);
    }
    let m = d.midi;
    let pids = c.midi.repaired_ids();
    repaired_is_proper(profile_ids(c.midi.profiles@), c.midi.next_profile_id);
    top_is_bound(pids);
    let pout = profile_ids(m.profiles@);
    assert forall|i: int| 0 <= i < m.profiles@.len() implies (#[trigger] m.profiles@[i]).id == pids[i]
        && 0 < m.profiles@[i].id < m.next_profile_id by {
        assert(pids[i] <= top(pids));
    }
    assert forall|i: int, j: int| 0 <= i < j < m.profiles@.len() implies (#[trigger] m.profiles@[i]).id != (
    #[trigger] m.profiles@[j]).id by {
        assert(pids[i] != pids[j]);
    }
    assert(m.has_profile(m.active_profile)) by {
        if pout.contains(c.midi.active_profile) {
            let k = choose|k: int| 0 <= k < pout.len() && pout[k] == c.midi.active_profile;
            assert(m.profiles@[k].id == m.active_profile);
        } else {
            assert(m.profiles@[0].id == m.active_profile);
        }
    }
    filter_keeps(c.midi.global_bindings@, live(out, pout));
    assert forall|i: int, j: int|
        0 <= i < m.profiles@.len() && 0 <= j < m.profiles@[i].bindings@.len() implies live(out, pout)(
        #[trigger] m.profiles@[i].bindings@[j],
    ) by {
        if c.midi.profiles@.len() > 0 {
            filter_keeps(c.midi.profiles@[i].bindings@, live_in_profile(out, pout));
            assert(live_in_profile(out, pout)(m.profiles@[i].bindings@[j]));
        }
    }
}

/// Loading tidies every channel: it has a name and levels in range, its color
/// is a color, and the built-in channels cannot be removed.
pub proof fn loading_tidies(c: Config, d: Config, i: int)
    requires
        c.repairs_to(d),
        0 <= i < d.channels@.len(),
    ensures
        !blank(d.channels@[i].name@),
        d.channels@[i].monitor_volume.is_number() ==> d.channels@[i].monitor_volume.within(ONE),
        d.channels@[i].stream_volume.is_number() ==> d.channels@[i].stream_volume.within(ONE),
        d.channels@[i].vod_volume.is_number() ==> d.channels@[i].vod_volume.within(ONE),
        d.channels@[i].color is Some ==> d.channels@[i].rgb() is Some,
        built_in(d.channels@[i].name@) ==> d.channels@[i].permanent,
{
    let kept = c.kept_channels();
    let ids = repaired(channel_ids(kept), c.next_channel_id);
    assert(kept[i].repairs_to(ids[i], d.channels@[i]));
    numbered_is_not_blank(ids[i]);
}

/// Loading is idempotent: what it makes of a configuration, it leaves alone.
pub proof fn loading_is_idempotent(c: Config, d: Config)
    requires
        c.repairs_to(d),
    ensures
        d.repairs_to(d),
        d.ids_have_room(),
{
    loading_makes_wf(c, d);
    let kept = c.kept_channels();
    let ids = repaired(channel_ids(kept), c.next_channel_id);
    let out = channel_ids(d.channels@);
    assert(!d.has_channel(0)) by {
        if d.has_channel(0) {
            let k = choose|k: int| 0 <= k < d.channels@.len() && (#[trigger] d.channels@[k]).id == 0;
            assert(out[k] == 0);
        }
    }
    proper_ids_stay(out, d.next_channel_id);
    let again = repaired(out, d.next_channel_id);
    assert forall|i: int| 0 <= i < d.channels@.len() implies d.channels@[i].repairs_to(
        again[i],
        #[trigger] d.channels@[i],
    ) && ids_fit(d.channels@[i].fx_ids(), d.channels@[i].next_effect_id) by {
        repaired_channel_stays(kept[i], ids[i], d.channels@[i]);
        assert(again[i] == out[i]);
    }
    assert forall|i: int| 0 <= i < again.len() implies #[trigger] again[i] < d.next_channel_id by {
        assert(again[i] == out[i]);
        assert(d.channels@[i].id < d.next_channel_id);
    }
    top_below(again, d.next_channel_id as nat);
    crate::level::clamping_is_idempotent(c.master.monitor_volume, ONE);
    crate::level::clamping_is_idempotent(c.master.stream_volume, ONE);
    crate::level::clamping_is_idempotent(c.master.vod_volume, ONE);
    if c.wave_xlr.mic_volume is Some {
        crate::level::clamping_is_idempotent(c.wave_xlr.mic_volume->0, HUNDRED);
    }
    if c.wave_xlr.output_volume is Some {
        crate::level::clamping_is_idempotent(c.wave_xlr.output_volume->0, HUNDRED);
    }
    repaired_midi_stays(c.midi, out, d.midi);
}

/// Repairing a repaired MIDI section changes nothing.
proof fn repaired_midi_stays(m: MidiConfig, channels: Seq<u64>, d: MidiConfig)
    requires
        m.repairs_to(channels, d),
        d.wf(),
    ensures
        d.repairs_to(channels, d),
        top(d.repaired_ids()) < u64::MAX,
{
    let ids = profile_ids(d.profiles@);
    let pids = m.repaired_ids();
    assert(proper_ids(ids)) by {
        assert forall|i: int| 0 <= i < ids.len() implies #[trigger] ids[i] != 0 by {
            assert(0 < d.profiles@[i].id);
        }
        assert forall|i: int, j: int| 0 <= i < j < ids.len() implies #[trigger] ids[i] != #[trigger] ids[j] by {
            assert(d.profiles@[i].id != d.profiles@[j].id);
        }
    }
    proper_ids_stay(ids, d.next_profile_id);
    let again = d.repaired_ids();
    repaired_is_proper(profile_ids(m.profiles@), m.next_profile_id);
    text_is_not_blank();
    assert forall|i: int| 0 <= i < d.profiles@.len() implies profile_repairs_to(
        d.profiles@[i],
        again[i],
        channels,
        ids,
        #[trigger] d.profiles@[i],
    ) by {
        assert(again[i] == ids[i]);
        let f = live_in_profile(channels, ids);
        if m.profiles@.len() > 0 {
            numbered_is_not_blank(pids[i]);
            filter_keeps(m.profiles@[i].bindings@, f);
        }
        filter_all(d.profiles@[i].bindings@, f);
    }
    assert forall|i: int| 0 <= i < again.len() implies #[trigger] again[i] < d.next_profile_id by {
        assert(again[i] == ids[i]);
        assert(d.profiles@[i].id < d.next_profile_id);
    }
    top_below(again, d.next_profile_id as nat);
    let g = live(channels, ids);
    filter_keeps(m.global_bindings@, g);
    filter_all(d.global_bindings@, g);
    let k = choose|k: int| 0 <= k < d.profiles@.len() && (#[trigger] d.profiles@[k]).id == d.active_profile;
    assert(ids[k] == d.active_profile);
}

/// The default configuration needs no repair.
pub proof fn default_needs_no_repair(d: Config)
    requires
        d.is_fresh(),
    ensures
        d.repairs_to(d),
        d.ids_have_room(),
        d.wf(),
        d.bindings_live(),
{
    reveal_strlit("Microphone");
    reveal_strlit("System");
    text_is_not_blank();
    assert(!text::is_white("Microphone"@[0]));
    assert(!text::is_white("System"@[0]));
    let out = channel_ids(d.channels@);
    assert(!d.has_channel(0));
    assert(proper_ids(out));
    proper_ids_stay(out, 3);
    let again = repaired(out, 3);
    assert(again =~= seq![1nat, 2nat]);
    top_below(again, 3);
    assert forall|i: int| 0 <= i < 2 implies d.channels@[i].repairs_to(
        again[i],
        #[trigger] d.channels@[i],
    ) && ids_fit(d.channels@[i].fx_ids(), d.channels@[i].next_effect_id) by {
        let c = d.channels@[i];
        let r = repaired(c.fx_ids(), 1);
        assert(c.fx_ids() =~= Seq::<u64>::empty());
        filter_all(c.effects@, has_uri());
        filter_all(c.vst_plugins@, has_path());
        assert(renumbered_effects(c.effects@, r.take(0)) =~= c.effects@);
        assert(renumbered_vsts(c.vst_plugins@, r.skip(0)) =~= c.vst_plugins@);
    }
    let m = d.midi;
    let ids = profile_ids(m.profiles@);
    assert(proper_ids(ids));
    proper_ids_stay(ids, 2);
    assert(repaired(ids, 2) =~= seq![1nat]);
    top_below(seq![1nat], 2);
    assert(ids[0] == 1);
    filter_all(m.global_bindings@, live(out, ids));
    filter_all(m.profiles@[0].bindings@, live_in_profile(out, ids));
    loading_makes_wf(d, d);
}

/// Adding a channel and removing it again leaves the channels as they were.
pub proof fn removing_a_new_channel_restores(before: Seq<ChannelConfig>, c: ChannelConfig)
    requires
        !c.permanent,
        forall|i: int| 0 <= i < before.len() ==> (#[trigger] before[i]).id != c.id,
    ensures
        before.push(c).filter(survives(c.id)) == before,
{
    reveal(Seq::filter);
    assert(before.push(c).drop_last() =~= before);
    filter_all(before, survives(c.id));
}

/// Adding a profile and removing it again leaves the profiles as they were.
pub proof fn removing_a_new_profile_restores(before: Seq<MidiProfile>, p: MidiProfile)
    requires
        forall|i: int| 0 <= i < before.len() ==> (#[trigger] before[i]).id != p.id,
    ensures
        before.push(p).filter(profile_is_not(p.id)) == before,
{
    reveal(Seq::filter);
    assert(before.push(p).drop_last() =~= before);
    filter_all(before, profile_is_not(p.id));
}

/// Removing a channel and its bindings leaves only bindings that drive
/// something that exists.
pub proof fn removal_keeps_bindings_live(before: Config, id: u64, after: Config)
    requires
        before.bindings_live(),
        after.channels@ == before.channels@.filter(survives(id)),
        after.midi.profiles@.len() == before.midi.profiles@.len(),
        forall|i: int|
            0 <= i < before.midi.profiles@.len() ==> {
                &&& (#[trigger] after.midi.profiles@[i]).id == before.midi.profiles@[i].id
                &&& after.midi.profiles@[i].bindings@ == before.midi.profiles@[i].bindings@.filter(
                    refers_elsewhere(id),
                )
            },
        after.midi.global_bindings@ == before.midi.global_bindings@.filter(refers_elsewhere(id)),
    ensures
        after.bindings_live(),
{
    let a = channel_ids(before.channels@);
    let b = channel_ids(after.channels@);
    let p = profile_ids(before.midi.profiles@);
    assert(profile_ids(after.midi.profiles@) =~= p);
    assert forall|x: u64| a.contains(x) && x != id implies b.contains(x) by {
        let k = choose|k: int| 0 <= k < a.len() && a[k] == x;
        crate::list::filter_loses_nothing(before.channels@, survives(id), k);
        let j = choose|j: int| 0 <= j < after.channels@.len() && after.channels@[j] == before.channels@[k];
        assert(b[j] == x);
    }
    assert forall|x: MidiBinding| live(a, p)(x) && refers_elsewhere(id)(x) implies #[trigger] live(b, p)(x) by {}
    let g = before.midi.global_bindings@;
    filter_keeps(g, refers_elsewhere(id));
    assert forall|i: int| 0 <= i < after.midi.global_bindings@.len() implies live(b, p)(
        #[trigger] after.midi.global_bindings@[i],
    ) by {
        let x = after.midi.global_bindings@[i];
        assert(g.contains(x));
        let k = choose|k: int| 0 <= k < g.len() && g[k] == x;
        assert(live(a, p)(g[k]));
    }
    assert forall|i: int, j: int|
        0 <= i < after.midi.profiles@.len() && 0 <= j < after.midi.profiles@[i].bindings@.len() implies live(
        b,
        p,
    )(#[trigger] after.midi.profiles@[i].bindings@[j]) by {
        let s = before.midi.profiles@[i].bindings@;
        filter_keeps(s, refers_elsewhere(id));
        let x = after.midi.profiles@[i].bindings@[j];
        assert(s.contains(x));
        let k = choose|k: int| 0 <= k < s.len() && s[k] == x;
        assert(live(a, p)(before.midi.profiles@[i].bindings@[k]));
    }
}

// ---- Levels under keys ------------------------------------------------------

/// The entry of a key.
pub open spec fn key_is(key: Seq<char>) -> spec_fn(KeyedLevel) -> bool {
    |e: KeyedLevel| e.key@ == key
}

/// The level under a key.
pub open spec fn level_of(s: Seq<KeyedLevel>, key: Seq<char>) -> Option<Level> {
    let i = first(s, key_is(key));
    if i < s.len() {
        Some(s[i].value)
    } else {
        None
    }
}

/// Whether keys are in order, without repetitions.
pub open spec fn keys_increase(s: Seq<KeyedLevel>) -> bool {
    forall|i: int, j: int|
        0 <= i < j < s.len() ==> text::precedes((#[trigger] s[i]).key@, (#[trigger] s[j]).key@)
}

/// A level is found under the key of an entry, and under no other, where keys
/// do not repeat.
proof fn level_is_found(s: Seq<KeyedLevel>, i: int)
    requires
        keys_increase(s),
        0 <= i < s.len(),
    ensures
        level_of(s, s[i].key@) == Some(s[i].value),
{
    assert forall|j: int| 0 <= j < i implies !key_is(s[i].key@)(#[trigger] s[j]) by {
        text::order_is_total(s[j].key@, s[i].key@);
    }
    first_is_at(s, key_is(s[i].key@), i);
}

/// What storing a value under a key makes of keyed values.
pub open spec fn level_put(old: Seq<KeyedLevel>, key: Seq<char>, value: Level, new: Seq<KeyedLevel>) -> bool {
    &&& level_of(new, key) == Some(value)
    &&& forall|k: Seq<char>| k != key ==> #[trigger] level_of(new, k) == level_of(old, k)
}

/// Store a level under a key, keeping the order of the keys.
pub fn put_level(s: &mut Vec<KeyedLevel>, key: String, value: Level)
    requires
        keys_increase(old(s)@),
    ensures
        level_put(old(s)@, key@, value, final(s)@),
        keys_increase(final(s)@),
{
    let ghost before = s@;
    let ghost kv = key@;
    let mut i: usize = 0;
    while i < s.len() && text::less(s[i].key.as_str(), key.as_str())
        invariant
            s@ == before,
            kv == key@,
            i <= s@.len(),
            forall|j: int| 0 <= j < i ==> text::precedes((#[trigger] s@[j]).key@, kv),
        decreases s@.len() - i,
    {
        i = i + 1;
    }
    if i < s.len() && text::same(s[i].key.as_str(), key.as_str()) {
        s[i].value = value;
        proof {
            let after = s@;
            assert forall|a: int, b: int| 0 <= a < b < after.len() implies text::precedes(
                (#[trigger] after[a]).key@,
                (#[trigger] after[b]).key@,
            ) by {
                assert(before[a].key@ == after[a].key@ && before[b].key@ == after[b].key@);
            }
            level_is_found(after, i as int);
            assert forall|k: Seq<char>| k != kv implies #[trigger] level_of(after, k) == level_of(before, k) by {
                first_is_least(before, key_is(k));
                let f = first(before, key_is(k));
                assert forall|j: int| 0 <= j < f implies !key_is(k)(#[trigger] after[j]) by {
                    assert(!key_is(k)(before[j]));
                }
                first_is_at(after, key_is(k), f);
            }
        }
        return;
    }
    proof {
        if i < s@.len() {
            text::order_is_total(s@[i as int].key@, kv);
        }
        assert forall|j: int| i <= j < before.len() implies text::precedes(kv, (#[trigger] before[j]).key@) by {
            if j > i {
                text::order_is_transitive(kv, before[i as int].key@, before[j].key@);
            }
        }
    }
    let entry = KeyedLevel { key, value };
    let ghost e = entry;
    s.insert(i, entry);
    proof {
        let after = s@;
        assert(after =~= before.insert(i as int, e));
        assert forall|a: int, b: int| 0 <= a < b < after.len() implies text::precedes(
            (#[trigger] after[a]).key@,
            (#[trigger] after[b]).key@,
        ) by {
            let p = if a < i {
                a
            } else {
                a - 1
            };
            let q = if b < i {
                b
            } else {
                b - 1
            };
            if a == i {
                assert(after[b] == before[q]);
            } else if b == i {
                assert(after[a] == before[p]);
            } else {
                assert(after[a] == before[p] && after[b] == before[q]);
            }
        }
        level_is_found(after, i as int);
        assert forall|k: Seq<char>| k != kv implies #[trigger] level_of(after, k) == level_of(before, k) by {
            first_is_least(before, key_is(k));
            let f = first(before, key_is(k));
            let g = if f < i {
                f
            } else {
                f + 1
            };
            assert forall|j: int| 0 <= j < g implies !key_is(k)(#[trigger] after[j]) by {
                if j < i {
                    assert(!key_is(k)(before[j]));
                } else if j > i {
                    assert(!key_is(k)(before[j - 1]));
                }
            }
            if f < before.len() {
                assert(after[g] == before[f]);
            }
            first_is_at(after, key_is(k), g);
        }
    }
}

impl Config {
    /// Every VST plugin's parameters are in order.
    pub open spec fn params_ordered(self) -> bool {
        forall|i: int, j: int|
            0 <= i < self.channels@.len() && 0 <= j < self.channels@[i].vst_plugins@.len() ==> keys_increase(
                (#[trigger] self.channels@[i].vst_plugins@[j]).params@,
            )
    }

    /// What storing a parameter value makes of the configuration.
    pub open spec fn param_stored(self, id: u64, plugin: u64, index: u32, value: Level, new: Config) -> bool {
        let c = self.position(id);
        let s = self.channels@[c].vst_plugins@;
        let v = first(s, vst_is(plugin));
        if self.has_channel(id) && v < s.len() {
            let d = new.channels@[c];
            let p = d.vst_plugins@[v];
            &&& new.channels@ == self.channels@.update(c, d)
            &&& d == (ChannelConfig { vst_plugins: d.vst_plugins, ..self.channels@[c] })
            &&& d.vst_plugins@ == s.update(v, p)
            &&& p == (VstPluginConfig { params: p.params, ..s[v] })
            &&& level_of(p.params@, dec(index as nat)) == Some(value)
            &&& forall|k: Seq<char>|
                k != dec(index as nat) ==> #[trigger] level_of(p.params@, k) == level_of(s[v].params@, k)
            &&& new == (Config { channels: new.channels, ..self })
        } else {
            new == self
        }
    }

    /// Persist a parameter edit made in a plugin's own window, like a slider
    /// change. Edits of plugins that are not configured are dropped.
    pub fn store_vst_param(&mut self, id: u64, plugin: u64, index: u32, value: Level)
        requires
            old(self).params_ordered(),
        ensures
            old(self).param_stored(id, plugin, index, value, *final(self)),
            final(self).params_ordered(),
    {
        let c = self.find(id);
        if c >= self.channels.len() {
            return;
        }
        let ghost before = *self;
        let ghost s = self.channels@[c as int].vst_plugins@;
        let mut v: usize = 0;
        while v < self.channels[c].vst_plugins.len() && self.channels[c].vst_plugins[v].id != plugin
            invariant
                c < self.channels@.len(),
                *self == before,
                s == self.channels@[c as int].vst_plugins@,
                v <= s.len(),
                forall|j: int| 0 <= j < v ==> !vst_is(plugin)(#[trigger] s[j]),
            decreases s.len() - v,
        {
            v = v + 1;
        }
        proof {
            first_is_at(s, vst_is(plugin), v as int);
        }
        if v >= self.channels[c].vst_plugins.len() {
            return;
        }
        assert(keys_increase(self.channels@[c as int].vst_plugins@[v as int].params@));
        let key = text::decimal(index as u64);
        let ch = &mut self.channels[c];
        put_level(&mut ch.vst_plugins[v].params, key, value);
        proof {
            assert forall|i: int, j: int|
                0 <= i < self.channels@.len() && 0 <= j < self.channels@[i].vst_plugins@.len() implies keys_increase(
                (#[trigger] self.channels@[i].vst_plugins@[j]).params@,
            ) by {
                if i == c && j == v {
                } else {
                    assert(self.channels@[i].vst_plugins@[j] == before.channels@[i].vst_plugins@[j]);
                }
            }
        }
    }
}

// ---- What loading keeps -----------------------------------------------------

/// Loading keeps every binding in a profile that drives a master, and every one
/// that drives a channel that is still there; it keeps every pad that selects a
/// profile that is still there. It invents none, and drops what drives nothing.
pub proof fn loading_keeps_live_bindings(c: Config, d: Config, i: int, j: int)
    requires
        c.repairs_to(d),
        0 <= i < c.midi.profiles@.len(),
        0 <= j < c.midi.profiles@[i].bindings@.len(),
    ensures
        ({
            let b = c.midi.profiles@[i].bindings@[j];
            let kept = d.midi.profiles@[i].bindings@.contains(b);
            match b.target {
                MidiTarget::MasterVolume { .. } => kept,
                MidiTarget::MasterMute { .. } => kept,
                MidiTarget::ChannelVolume { id, .. } => kept <==> d.has_channel(id),
                MidiTarget::ChannelMute { id, .. } => kept <==> d.has_channel(id),
                MidiTarget::ChannelColor { id } => kept <==> d.has_channel(id),
                MidiTarget::SelectProfile { .. } => !kept,
            }
        }),
        forall|k: int|
            0 <= k < d.midi.profiles@[i].bindings@.len() ==> c.midi.profiles@[i].bindings@.contains(
                #[trigger] d.midi.profiles@[i].bindings@[k],
            ),
{
    let channels = channel_ids(d.channels@);
    let profiles = profile_ids(d.midi.profiles@);
    let p = live_in_profile(channels, profiles);
    let s = c.midi.profiles@[i].bindings@;
    let b = s[j];
    assert(profile_repairs_to(c.midi.profiles@[i], c.midi.repaired_ids()[i], channels, profiles, d.midi.profiles@[i]));
    filter_keeps(s, p);
    if p(b) {
        crate::list::filter_loses_nothing(s, p, j);
    } else if s.filter(p).contains(b) {
        let k = choose|k: int| 0 <= k < s.filter(p).len() && s.filter(p)[k] == b;
        assert(p(s.filter(p)[k]));
    }
    match b.target {
        MidiTarget::ChannelVolume { id, .. } => ids_name_channels(d, Some(id)),
        MidiTarget::ChannelMute { id, .. } => ids_name_channels(d, Some(id)),
        MidiTarget::ChannelColor { id } => ids_name_channels(d, Some(id)),
        _ => {},
    }
}

/// A channel is there exactly where its id is.
proof fn ids_name_channels(d: Config, id: Option<u64>)
    ensures
        id is Some ==> (channel_ids(d.channels@).contains(id->0) <==> d.has_channel(id->0)),
{
    let s = channel_ids(d.channels@);
    if id is Some {
        if s.contains(id->0) {
            let k = choose|k: int| 0 <= k < s.len() && s[k] == id->0;
            assert(d.channels@[k].id == id->0);
        }
        if d.has_channel(id->0) {
            let k = choose|k: int| 0 <= k < d.channels@.len() && (#[trigger] d.channels@[k]).id == id->0;
            assert(s[k] == id->0);
        }
    }
}

/// The same of the pads that work in every profile.
pub proof fn loading_keeps_live_pads(c: Config, d: Config, j: int)
    requires
        c.repairs_to(d),
        0 <= j < c.midi.global_bindings@.len(),
    ensures
        ({
            let b = c.midi.global_bindings@[j];
            let kept = d.midi.global_bindings@.contains(b);
            match b.target {
                MidiTarget::SelectProfile { profile } => kept <==> d.midi.has_profile(profile),
                MidiTarget::MasterVolume { .. } => kept,
                MidiTarget::MasterMute { .. } => kept,
                MidiTarget::ChannelVolume { id, .. } => kept <==> d.has_channel(id),
                MidiTarget::ChannelMute { id, .. } => kept <==> d.has_channel(id),
                MidiTarget::ChannelColor { id } => kept <==> d.has_channel(id),
            }
        }),
        forall|k: int|
            0 <= k < d.midi.global_bindings@.len() ==> c.midi.global_bindings@.contains(
                #[trigger] d.midi.global_bindings@[k],
            ),
{
    let channels = channel_ids(d.channels@);
    let profiles = profile_ids(d.midi.profiles@);
    let p = live(channels, profiles);
    let s = c.midi.global_bindings@;
    let b = s[j];
    filter_keeps(s, p);
    if p(b) {
        crate::list::filter_loses_nothing(s, p, j);
    } else if s.filter(p).contains(b) {
        let k = choose|k: int| 0 <= k < s.filter(p).len() && s.filter(p)[k] == b;
        assert(p(s.filter(p)[k]));
    }
    match b.target {
        MidiTarget::ChannelVolume { id, .. } => ids_name_channels(d, Some(id)),
        MidiTarget::ChannelMute { id, .. } => ids_name_channels(d, Some(id)),
        MidiTarget::ChannelColor { id } => ids_name_channels(d, Some(id)),
        MidiTarget::SelectProfile { profile } => {
            if profiles.contains(profile) {
                let k = choose|k: int| 0 <= k < profiles.len() && profiles[k] == profile;
                assert(d.midi.profiles@[k].id == profile);
            }
            if d.midi.has_profile(profile) {
                let k = choose|k: int|
                    0 <= k < d.midi.profiles@.len() && (#[trigger] d.midi.profiles@[k]).id == profile;
                assert(profiles[k] == profile);
            }
        },
        _ => {},
    }
}

/// A channel without damage: a name, levels between silence and full, no color
/// or one of six hexadecimal digits, and effects that name a plugin, under ids
/// of their own.
pub open spec fn is_sound(c: ChannelConfig) -> bool {
    &&& !blank(c.name@)
    &&& c.monitor_volume.bits <= ONE
    &&& c.stream_volume.bits <= ONE
    &&& c.vod_volume.bits <= ONE
    &&& c.color is Some ==> {
        &&& c.color->0@.len() == 7
        &&& c.color->0@[0] == '#'
        &&& forall|i: int|
            1 <= i < 7 ==> {
                let n = (#[trigger] c.color->0@[i]) as u32;
                48 <= n <= 57 || 65 <= n <= 70 || 97 <= n <= 102
            }
    }
    &&& (c.name@ == "Microphone"@ || c.name@ == "System"@) ==> c.permanent
    &&& forall|i: int| 0 <= i < c.effects@.len() ==> (#[trigger] c.effects@[i]).uri@.len() > 0
    &&& forall|i: int| 0 <= i < c.vst_plugins@.len() ==> (#[trigger] c.vst_plugins@[i]).path@.len() > 0
    &&& forall|i: int|
        0 <= i < c.effects@.len() ==> 0 < (#[trigger] c.effects@[i]).id < c.next_effect_id
    &&& forall|i: int|
        0 <= i < c.vst_plugins@.len() ==> 0 < (#[trigger] c.vst_plugins@[i]).id < c.next_effect_id
    &&& forall|i: int, j: int|
        0 <= i < j < c.effects@.len() ==> (#[trigger] c.effects@[i]).id != (#[trigger] c.effects@[j]).id
    &&& forall|i: int, j: int|
        0 <= i < j < c.vst_plugins@.len() ==> (#[trigger] c.vst_plugins@[i]).id != (
        #[trigger] c.vst_plugins@[j]).id
    &&& forall|i: int, j: int|
        0 <= i < c.effects@.len() && 0 <= j < c.vst_plugins@.len() ==> (#[trigger] c.effects@[i]).id != (
        #[trigger] c.vst_plugins@[j]).id
    &&& c.next_effect_id > 0
}

/// Whether two channels are the same, text for text.
pub open spec fn same_channel(c: ChannelConfig, d: ChannelConfig) -> bool {
    &&& d.id == c.id
    &&& d.name@ == c.name@
    &&& d.assignment == c.assignment
    &&& d.monitor_volume == c.monitor_volume
    &&& d.stream_volume == c.stream_volume
    &&& d.vod_volume == c.vod_volume
    &&& d.monitor_muted == c.monitor_muted
    &&& d.stream_muted == c.stream_muted
    &&& d.vod_muted == c.vod_muted
    &&& d.linked == c.linked
    &&& d.color == c.color
    &&& d.permanent == c.permanent
    &&& d.effects@ == c.effects@
    &&& d.vst_plugins@ == c.vst_plugins@
    &&& d.next_effect_id == c.next_effect_id
}

/// A channel without damage is not changed by repairing.
pub proof fn sound_channels_stay(c: ChannelConfig, d: ChannelConfig)
    requires
        is_sound(c),
        c.repairs_to(c.id as nat, d),
    ensures
        same_channel(c, d),
{
    let ids = repaired(c.fx_ids(), c.next_effect_id);
    let n = c.effects@.len() as int;
    let f = c.fx_ids();
    assert(proper_ids(f)) by {
        assert forall|i: int| 0 <= i < f.len() implies #[trigger] f[i] != 0 by {
            if i < n {
                assert(f[i] == c.effects@[i].id);
            } else {
                assert(f[i] == c.vst_plugins@[i - n].id);
            }
        }
        assert forall|i: int, j: int| 0 <= i < j < f.len() implies #[trigger] f[i] != #[trigger] f[j] by {
            if j < n {
                assert(c.effects@[i].id != c.effects@[j].id);
            } else if i >= n {
                assert(c.vst_plugins@[i - n].id != c.vst_plugins@[j - n].id);
            } else {
                assert(c.effects@[i].id != c.vst_plugins@[j - n].id);
            }
        }
    }
    proper_ids_stay(f, c.next_effect_id);
    assert(renumbered_effects(c.effects@, ids.take(n)) =~= c.effects@) by {
        assert forall|i: int| 0 <= i < n implies ids.take(n)[i] as u64 == (#[trigger] c.effects@[i]).id by {
            assert(ids[i] == f[i]);
        }
    }
    assert(renumbered_vsts(c.vst_plugins@, ids.skip(n)) =~= c.vst_plugins@) by {
        assert forall|i: int| 0 <= i < c.vst_plugins@.len() implies ids.skip(n)[i] as u64 == (
        #[trigger] c.vst_plugins@[i]).id by {
            assert(ids[n + i] == f[n + i]);
        }
    }
    filter_all(c.effects@, has_uri());
    filter_all(c.vst_plugins@, has_path());
    assert forall|i: int| 0 <= i < ids.len() implies #[trigger] ids[i] < c.next_effect_id by {
        assert(ids[i] == f[i]);
        if i < n {
            assert(f[i] == c.effects@[i].id);
        } else {
            assert(f[i] == c.vst_plugins@[i - n].id);
        }
    }
    top_below(ids, c.next_effect_id as nat);
}

/// A configuration without damage loads as it is: every channel, level, mute,
/// effect, profile and binding comes back.
pub proof fn sound_configuration_loads_unchanged(c: Config, d: Config)
    requires
        c.repairs_to(d),
        c.channels@.len() <= 8,
        c.next_channel_id > 0,
        forall|i: int|
            0 <= i < c.channels@.len() ==> is_sound(#[trigger] c.channels@[i]) && 0 < c.channels@[i].id
                < c.next_channel_id,
        forall|i: int, j: int|
            0 <= i < j < c.channels@.len() ==> (#[trigger] c.channels@[i]).id != (#[trigger] c.channels@[j]).id,
        c.master.monitor_volume.bits <= ONE,
        c.master.stream_volume.bits <= ONE,
        c.master.vod_volume.bits <= ONE,
        c.wave_xlr.mic_volume is Some ==> c.wave_xlr.mic_volume->0.bits <= HUNDRED,
        c.wave_xlr.output_volume is Some ==> c.wave_xlr.output_volume->0.bits <= HUNDRED,
        c.midi.profiles@.len() > 0,
        c.midi.next_profile_id > 0,
        forall|i: int|
            0 <= i < c.midi.profiles@.len() ==> 0 < (#[trigger] c.midi.profiles@[i]).id < c.midi.next_profile_id
                && !blank(c.midi.profiles@[i].name@),
        forall|i: int, j: int|
            0 <= i < j < c.midi.profiles@.len() ==> (#[trigger] c.midi.profiles@[i]).id != (
            #[trigger] c.midi.profiles@[j]).id,
        c.midi.has_profile(c.midi.active_profile),
        forall|i: int, j: int|
            0 <= i < c.midi.profiles@.len() && 0 <= j < c.midi.profiles@[i].bindings@.len() ==> drives_something(
                c,
                (#[trigger] c.midi.profiles@[i].bindings@[j]).target,
            ) && !(c.midi.profiles@[i].bindings@[j].target is SelectProfile),
        forall|j: int|
            0 <= j < c.midi.global_bindings@.len() ==> drives_something(
                c,
                (#[trigger] c.midi.global_bindings@[j]).target,
            ),
    ensures
        d.channels@.len() == c.channels@.len(),
        forall|i: int| 0 <= i < c.channels@.len() ==> same_channel(c.channels@[i], #[trigger] d.channels@[i]),
        d.next_channel_id == c.next_channel_id,
        d.master == c.master,
        d.vod_mix_enabled == c.vod_mix_enabled,
        d.setup_done == c.setup_done,
        d.wave_xlr.mic_volume == c.wave_xlr.mic_volume,
        d.wave_xlr.output_volume == c.wave_xlr.output_volume,
        d.midi.profiles@.len() == c.midi.profiles@.len(),
        forall|i: int|
            0 <= i < c.midi.profiles@.len() ==> (#[trigger] d.midi.profiles@[i]).id == c.midi.profiles@[i].id
                && d.midi.profiles@[i].name@ == c.midi.profiles@[i].name@ && d.midi.profiles@[i].bindings@
                == c.midi.profiles@[i].bindings@,
        d.midi.global_bindings@ == c.midi.global_bindings@,
        d.midi.active_profile == c.midi.active_profile,
        d.midi.next_profile_id == c.midi.next_profile_id,
        d.midi.pickup == c.midi.pickup,
        d.midi.led_feedback == c.midi.led_feedback,
        d.midi.on_velocity == c.midi.on_velocity,
        d.midi.off_velocity == c.midi.off_velocity,
{
    let all = channel_ids(c.channels@);
    assert(!c.has_channel(0)) by {
        if c.has_channel(0) {
            let k = choose|k: int| 0 <= k < c.channels@.len() && (#[trigger] c.channels@[k]).id == 0;
            assert(is_sound(c.channels@[k]));
        }
    }
    assert(proper_ids(all)) by {
        assert forall|i: int| 0 <= i < all.len() implies #[trigger] all[i] != 0 by {
            assert(is_sound(c.channels@[i]));
        }
        assert forall|i: int, j: int| 0 <= i < j < all.len() implies #[trigger] all[i] != #[trigger] all[j] by {
            assert(c.channels@[i].id != c.channels@[j].id);
        }
    }
    proper_ids_stay(all, c.next_channel_id);
    let ids = repaired(all, c.next_channel_id);
    assert forall|i: int| 0 <= i < c.channels@.len() implies same_channel(
        c.channels@[i],
        #[trigger] d.channels@[i],
    ) by {
        assert(ids[i] == all[i]);
        assert(is_sound(c.channels@[i]));
        sound_channels_stay(c.channels@[i], d.channels@[i]);
    }
    assert forall|i: int| 0 <= i < ids.len() implies #[trigger] ids[i] < c.next_channel_id by {
        assert(ids[i] == all[i]);
        assert(is_sound(c.channels@[i]));
    }
    top_below(ids, c.next_channel_id as nat);
    let out = channel_ids(d.channels@);
    assert(out =~= all) by {
        assert forall|i: int| 0 <= i < out.len() implies out[i] == all[i] by {
            assert(same_channel(c.channels@[i], d.channels@[i]));
        }
    }
    sound_profiles_stay(c, d.midi);
}

/// Whether a target exists in a configuration.
pub open spec fn drives_something(c: Config, t: MidiTarget) -> bool {
    match t {
        MidiTarget::ChannelVolume { id, .. } => c.has_channel(id),
        MidiTarget::ChannelMute { id, .. } => c.has_channel(id),
        MidiTarget::ChannelColor { id } => c.has_channel(id),
        MidiTarget::SelectProfile { profile } => c.midi.has_profile(profile),
        MidiTarget::MasterVolume { .. } => true,
        MidiTarget::MasterMute { .. } => true,
    }
}

/// A MIDI section without damage is not changed by repairing.
proof fn sound_profiles_stay(c: Config, d: MidiConfig)
    requires
        c.midi.repairs_to(channel_ids(c.channels@), d),
        c.midi.profiles@.len() > 0,
        c.midi.next_profile_id > 0,
        forall|i: int|
            0 <= i < c.midi.profiles@.len() ==> 0 < (#[trigger] c.midi.profiles@[i]).id < c.midi.next_profile_id
                && !blank(c.midi.profiles@[i].name@),
        forall|i: int, j: int|
            0 <= i < j < c.midi.profiles@.len() ==> (#[trigger] c.midi.profiles@[i]).id != (
            #[trigger] c.midi.profiles@[j]).id,
        c.midi.has_profile(c.midi.active_profile),
        forall|i: int, j: int|
            0 <= i < c.midi.profiles@.len() && 0 <= j < c.midi.profiles@[i].bindings@.len() ==> drives_something(
                c,
                (#[trigger] c.midi.profiles@[i].bindings@[j]).target,
            ) && !(c.midi.profiles@[i].bindings@[j].target is SelectProfile),
        forall|j: int|
            0 <= j < c.midi.global_bindings@.len() ==> drives_something(
                c,
                (#[trigger] c.midi.global_bindings@[j]).target,
            ),
    ensures
        d.profiles@.len() == c.midi.profiles@.len(),
        forall|i: int|
            0 <= i < c.midi.profiles@.len() ==> (#[trigger] d.profiles@[i]).id == c.midi.profiles@[i].id
                && d.profiles@[i].name@ == c.midi.profiles@[i].name@ && d.profiles@[i].bindings@
                == c.midi.profiles@[i].bindings@,
        d.global_bindings@ == c.midi.global_bindings@,
        d.active_profile == c.midi.active_profile,
        d.next_profile_id == c.midi.next_profile_id,
{
    let m = c.midi;
    let pids = profile_ids(m.profiles@);
    assert(proper_ids(pids)) by {
        assert forall|i: int| 0 <= i < pids.len() implies #[trigger] pids[i] != 0 by {
            assert(0 < m.profiles@[i].id);
        }
        assert forall|i: int, j: int| 0 <= i < j < pids.len() implies #[trigger] pids[i] != #[trigger] pids[j] by {
            assert(m.profiles@[i].id != m.profiles@[j].id);
        }
    }
    proper_ids_stay(pids, m.next_profile_id);
    let ids = m.repaired_ids();
    let out = profile_ids(d.profiles@);
    let channels = channel_ids(c.channels@);
    assert forall|i: int| 0 <= i < m.profiles@.len() implies (#[trigger] d.profiles@[i]).id == m.profiles@[i].id by {
        assert(profile_repairs_to(m.profiles@[i], ids[i], channels, out, d.profiles@[i]));
        assert(ids[i] == pids[i]);
    }
    assert(out =~= pids);
    assert forall|i: int| 0 <= i < ids.len() implies #[trigger] ids[i] < m.next_profile_id by {
        assert(ids[i] == pids[i]);
        assert(0 < m.profiles@[i].id);
    }
    top_below(ids, m.next_profile_id as nat);
    let k = choose|k: int| 0 <= k < m.profiles@.len() && (#[trigger] m.profiles@[k]).id == m.active_profile;
    assert(pids[k] == m.active_profile);
    assert forall|t: MidiTarget| #[trigger] drives_something(c, t) implies target_exists(t, channels, pids) by {
        match t {
            MidiTarget::ChannelVolume { id, .. } => ids_name_channels(c, Some(id)),
            MidiTarget::ChannelMute { id, .. } => ids_name_channels(c, Some(id)),
            MidiTarget::ChannelColor { id } => ids_name_channels(c, Some(id)),
            MidiTarget::SelectProfile { profile } => {
                let q = choose|q: int| 0 <= q < m.profiles@.len() && (#[trigger] m.profiles@[q]).id == profile;
                assert(pids[q] == profile);
            },
            _ => {},
        }
    }
    filter_all(m.global_bindings@, live(channels, pids));
    assert forall|i: int| 0 <= i < m.profiles@.len() implies (#[trigger] d.profiles@[i]).id == m.profiles@[i].id
        && d.profiles@[i].name@ == m.profiles@[i].name@ && d.profiles@[i].bindings@ == m.profiles@[i].bindings@ by {
        assert(profile_repairs_to(m.profiles@[i], ids[i], channels, out, d.profiles@[i]));
        assert(0 < m.profiles@[i].id);
        filter_all(m.profiles@[i].bindings@, live_in_profile(channels, pids));
    }
}

/// Loading drops no channel that has an id, beyond the eighth. Of a file from
/// before ids existed it keeps what has an input and the built-in channels.
pub proof fn loading_keeps_channels(c: Config, d: Config, i: int)
    requires
        c.repairs_to(d),
        0 <= i < c.channels@.len(),
    ensures
        d.channels@.len() <= 8,
        (forall|k: int| 0 <= k < c.channels@.len() ==> (#[trigger] c.channels@[k]).id != 0) ==> {
            &&& c.kept_channels() == c.channels@
            &&& d.channels@.len() == if c.channels@.len() <= 8 {
                c.channels@.len()
            } else {
                8nat
            }
        },
        (exists|k: int| 0 <= k < c.channels@.len() && (#[trigger] c.channels@[k]).id == 0) ==> (
        c.kept_channels().contains(c.channels@[i]) <== c.channels@[i].assignment is Some || c.channels@[i].name@
            == "Microphone"@ || c.channels@[i].name@ == "System"@),
        forall|k: int|
            0 <= k < c.kept_channels().len() && c.has_channel(0) ==> (#[trigger] c.kept_channels()[k]).assignment is Some
                || c.kept_channels()[k].name@ == "Microphone"@ || c.kept_channels()[k].name@ == "System"@,
{
    let s = c.channels@;
    filter_keeps(s, worth_keeping());
    if c.has_channel(0) && worth_keeping()(s[i]) {
        crate::list::filter_loses_nothing(s, worth_keeping(), i);
    }
}

/// Loading changes what is damaged in a channel and leaves its owner's choices:
/// its input, mutes and link stay; levels only move into their range; a name
/// stays unless it is blank; an effect stays as long as it names a plugin.
pub proof fn loading_keeps_choices(c: ChannelConfig, id: nat, d: ChannelConfig)
    requires
        c.repairs_to(id, d),
    ensures
        d.assignment == c.assignment,
        d.monitor_muted == c.monitor_muted,
        d.stream_muted == c.stream_muted,
        d.vod_muted == c.vod_muted,
        d.linked == c.linked,
        !blank(c.name@) ==> d.name@ == c.name@,
        blank(c.name@) ==> d.name@ == "Channel "@ + dec(id),
        c.permanent ==> d.permanent,
        c.monitor_volume.bits <= ONE ==> d.monitor_volume == c.monitor_volume,
        c.stream_volume.bits <= ONE ==> d.stream_volume == c.stream_volume,
        c.vod_volume.bits <= ONE ==> d.vod_volume == c.vod_volume,
        c.monitor_volume.is_above(ONE) && c.monitor_volume.is_number() ==> d.monitor_volume.bits == ONE,
        c.stream_volume.is_above(ONE) && c.stream_volume.is_number() ==> d.stream_volume.bits == ONE,
        c.vod_volume.is_above(ONE) && c.vod_volume.is_number() ==> d.vod_volume.bits == ONE,
        c.color is None ==> d.color is None,
        d.color is Some ==> d.color == c.color,
        (forall|i: int| 0 <= i < c.effects@.len() ==> (#[trigger] c.effects@[i]).uri@.len() > 0) ==> {
            &&& d.effects@.len() == c.effects@.len()
            &&& forall|i: int|
                0 <= i < c.effects@.len() ==> (#[trigger] d.effects@[i]) == (EffectConfig {
                    id: d.effects@[i].id,
                    ..c.effects@[i]
                })
        },
        (forall|i: int| 0 <= i < c.vst_plugins@.len() ==> (#[trigger] c.vst_plugins@[i]).path@.len() > 0) ==> {
            &&& d.vst_plugins@.len() == c.vst_plugins@.len()
            &&& forall|i: int|
                0 <= i < c.vst_plugins@.len() ==> (#[trigger] d.vst_plugins@[i]) == (VstPluginConfig {
                    id: d.vst_plugins@[i].id,
                    ..c.vst_plugins@[i]
                })
        },
        forall|i: int| 0 <= i < d.effects@.len() ==> (#[trigger] d.effects@[i]).uri@.len() > 0,
        forall|i: int| 0 <= i < d.vst_plugins@.len() ==> (#[trigger] d.vst_plugins@[i]).path@.len() > 0,
{
    let ids = repaired(c.fx_ids(), c.next_effect_id);
    let n = c.effects@.len() as int;
    let e = renumbered_effects(c.effects@, ids.take(n));
    let v = renumbered_vsts(c.vst_plugins@, ids.skip(n));
    filter_keeps(e, has_uri());
    filter_keeps(v, has_path());
    if forall|i: int| 0 <= i < c.effects@.len() ==> (#[trigger] c.effects@[i]).uri@.len() > 0 {
        assert forall|i: int| 0 <= i < e.len() implies has_uri()(#[trigger] e[i]) by {
            assert(c.effects@[i].uri@.len() > 0);
        }
        filter_all(e, has_uri());
    }
    if forall|i: int| 0 <= i < c.vst_plugins@.len() ==> (#[trigger] c.vst_plugins@[i]).path@.len() > 0 {
        assert forall|i: int| 0 <= i < v.len() implies has_path()(#[trigger] v[i]) by {
            assert(c.vst_plugins@[i].path@.len() > 0);
        }
        filter_all(v, has_path());
    }
}

/// An id survives loading unless it is missing or an earlier one took it.
pub proof fn ids_survive_unless_taken(ids: Seq<u64>, next: u64, i: int)
    requires
        0 <= i < ids.len(),
        ids[i] != 0,
        forall|j: int| 0 <= j < i ==> #[trigger] repaired(ids, next)[j] != ids[i],
    ensures
        repaired(ids, next)[i] == ids[i],
    decreases ids.len(),
{
    repaired_is_proper(ids, next);
    let t = ids.drop_last();
    repaired_is_proper(t, next);
    let b = repaired(t, next);
    if i < t.len() {
        assert forall|j: int| 0 <= j < i implies #[trigger] b[j] != t[i] by {
            assert(repaired(ids, next)[j] == b[j]);
        }
        ids_survive_unless_taken(t, next, i);
    } else if b.contains(ids[i] as nat) {
        let j = choose|j: int| 0 <= j < b.len() && b[j] == ids[i] as nat;
        assert(repaired(ids, next)[j] == b[j]);
    }
}

/// A new channel comes last, is heard by its owner alone until it is unmuted,
/// plays from a virtual device, has an id no channel had, and disturbs nothing.
pub proof fn new_channels_are_private(c: Config, name: Option<&str>, r: Option<u64>, d: Config)
    requires
        c.channel_added(name, r, d),
        c.channels@.len() < 8,
        c.next_channel_id < u64::MAX,
    ensures
        r == Some(c.next_channel_id),
        d.next_channel_id > c.next_channel_id,
        d.channels@.len() == c.channels@.len() + 1,
        forall|i: int| 0 <= i < c.channels@.len() ==> #[trigger] d.channels@[i] == c.channels@[i],
        ({
            let n = d.channels@[c.channels@.len() as int];
            &&& n.id == c.next_channel_id
            &&& n.stream_muted
            &&& n.vod_muted
            &&& !n.monitor_muted
            &&& !n.permanent
            &&& n.assignment == Some(Assignment::Virtual)
            &&& name is Some ==> n.name@ == name->0@
        }),
        d.master == c.master,
        d.midi == c.midi,
{
    assert forall|i: int| 0 <= i < c.channels@.len() implies #[trigger] d.channels@[i] == c.channels@[i] by {
        assert(d.channels@.drop_last()[i] == c.channels@[i]);
    }
}

/// The name a new channel gets by default is one no channel has, and the first
/// such of the templates.
pub proof fn default_names_are_free(c: Config, i: int)
    requires
        c.new_name(None) != "Channel "@ + dec(c.next_channel_id as nat),
        0 <= i < c.channels@.len(),
    ensures
        c.channels@[i].name@ != c.new_name(None),
        template_seq().contains(c.new_name(None)),
{
    filter_keeps(template_seq(), unused(c.channels@));
    let free = template_seq().filter(unused(c.channels@));
    assert(unused(c.channels@)(free[0]));
}

/// Removing a channel removes that channel and no other, and never a built-in
/// one.
pub proof fn only_the_removed_channel_goes(s: Seq<ChannelConfig>, id: u64, i: int)
    requires
        0 <= i < s.len(),
    ensures
        s[i].permanent || s[i].id != id ==> s.filter(survives(id)).contains(s[i]),
        !s[i].permanent && s[i].id == id ==> !s.filter(survives(id)).contains(s[i]),
        forall|k: int| 0 <= k < s.filter(survives(id)).len() ==> s.contains(#[trigger] s.filter(survives(id))[k]),
{
    filter_keeps(s, survives(id));
    if survives(id)(s[i]) {
        crate::list::filter_loses_nothing(s, survives(id), i);
    } else if s.filter(survives(id)).contains(s[i]) {
        let k = choose|k: int| 0 <= k < s.filter(survives(id)).len() && s.filter(survives(id))[k] == s[i];
        assert(survives(id)(s.filter(survives(id))[k]));
    }
}

/// Controls are the same exactly where device, channel, kind and number agree.
pub proof fn controls_are_told_apart(a: MidiSource, b: MidiSource)
    ensures
        same_control(a, b) ==> a.device@ == b.device@ && a.channel == b.channel && a.kind == b.kind && a.number
            == b.number,
        a.device@ == b.device@ && a.channel == b.channel && a.kind == b.kind && a.number == b.number
            ==> same_control(a, b),
{
}

/// A binding displaces those that use its control or drive its target, and no
/// others; it is stored last.
pub proof fn binding_displaces_rivals(s: Seq<MidiBinding>, b: MidiBinding, i: int)
    requires
        0 <= i < s.len(),
    ensures
        ({
            let t = s.filter(beside(b)).push(b);
            let rival = (s[i].source.device@ == b.source.device@ && s[i].source.channel == b.source.channel
                && s[i].source.kind == b.source.kind && s[i].source.number == b.source.number) || s[i].target
                == b.target;
            &&& t.last() == b
            &&& !rival ==> t.contains(s[i])
            &&& rival ==> !s.filter(beside(b)).contains(s[i])
        }),
{
    let f = s.filter(beside(b));
    filter_keeps(s, beside(b));
    if beside(b)(s[i]) {
        crate::list::filter_loses_nothing(s, beside(b), i);
        let k = choose|k: int| 0 <= k < f.len() && f[k] == s[i];
        assert(f.push(b)[k] == s[i]);
    } else if f.contains(s[i]) {
        let k = choose|k: int| 0 <= k < f.len() && f[k] == s[i];
        assert(beside(b)(f[k]));
    }
}

/// A binding goes into its profile, or to the pads that work in every profile
/// where it selects one; the other profiles stay as they are.
pub proof fn bindings_stay_in_their_profile(m: MidiConfig, profile: u64, b: MidiBinding, new: MidiConfig, i: int)
    requires
        m.binds_to(profile, b, new),
        0 <= i < m.profiles@.len(),
    ensures
        b.target is SelectProfile ==> new.profiles == m.profiles && new.global_bindings@.last() == b,
        !(b.target is SelectProfile) ==> new.global_bindings == m.global_bindings,
        m.profiles@[i].id != profile ==> new.profiles@[i] == m.profiles@[i],
        new.profiles@.len() == m.profiles@.len(),
        new.active_profile == m.active_profile,
        !(b.target is SelectProfile) && m.has_profile(profile) ==> new.profiles@[m.position(profile)].id == profile
            && new.profiles@[m.position(profile)].bindings@.last() == b,
{
    first_is_least(m.profiles@, profile_is(profile));
    if m.has_profile(profile) {
        let k = choose|k: int| 0 <= k < m.profiles@.len() && (#[trigger] m.profiles@[k]).id == profile;
        crate::list::first_exists(m.profiles@, profile_is(profile), k);
    }
}

/// Freeing a target takes its binding and no other.
pub proof fn freeing_takes_one_binding(s: Seq<MidiBinding>, target: MidiTarget, i: int)
    requires
        0 <= i < s.len(),
    ensures
        s[i].target != target ==> s.filter(drives_other(target)).contains(s[i]),
        s[i].target == target ==> !s.filter(drives_other(target)).contains(s[i]),
{
    let f = s.filter(drives_other(target));
    filter_keeps(s, drives_other(target));
    if s[i].target != target {
        crate::list::filter_loses_nothing(s, drives_other(target), i);
    } else if f.contains(s[i]) {
        let k = choose|k: int| 0 <= k < f.len() && f[k] == s[i];
        assert(drives_other(target)(f[k]));
    }
}

/// Removing a channel takes the bindings to its volume, mute and color, in any
/// mix, and leaves those to masters, profiles and other channels.
pub proof fn removed_channels_leave_no_bindings(id: u64, other: u64, mix: Mix, source: MidiSource)
    requires
        other != id,
    ensures
        !refers_elsewhere(id)(MidiBinding { source, target: MidiTarget::ChannelVolume { id, mix } }),
        !refers_elsewhere(id)(MidiBinding { source, target: MidiTarget::ChannelMute { id, mix } }),
        !refers_elsewhere(id)(MidiBinding { source, target: MidiTarget::ChannelColor { id } }),
        refers_elsewhere(id)(MidiBinding { source, target: MidiTarget::ChannelVolume { id: other, mix } }),
        refers_elsewhere(id)(MidiBinding { source, target: MidiTarget::ChannelMute { id: other, mix } }),
        refers_elsewhere(id)(MidiBinding { source, target: MidiTarget::ChannelColor { id: other } }),
        refers_elsewhere(id)(MidiBinding { source, target: MidiTarget::MasterVolume { mix } }),
        refers_elsewhere(id)(MidiBinding { source, target: MidiTarget::MasterMute { mix } }),
        refers_elsewhere(id)(MidiBinding { source, target: MidiTarget::SelectProfile { profile: id } }),
{
}

/// Removing a profile removes it and the pads that select it, and nothing else;
/// the last one stays, and the active one is always one that exists.
pub proof fn removing_a_profile_leaves_the_rest(m: MidiConfig, id: u64, new: MidiConfig, i: int, j: int)
    requires
        m.profile_removed(id, new),
        m.profiles@.len() > 1,
        0 <= i < m.profiles@.len(),
        0 <= j < m.global_bindings@.len(),
    ensures
        m.profiles@[i].id != id ==> new.profiles@.contains(m.profiles@[i]),
        !new.has_profile(id),
        new.has_profile(new.active_profile),
        new.has_profile(m.active_profile) ==> new.active_profile == m.active_profile,
        m.global_bindings@[j].target != (MidiTarget::SelectProfile { profile: id })
            ==> new.global_bindings@.contains(m.global_bindings@[j]),
        m.global_bindings@[j].target == (MidiTarget::SelectProfile { profile: id })
            ==> !new.global_bindings@.contains(m.global_bindings@[j]),
        new.next_profile_id == m.next_profile_id,
{
    let f = selects_other(id);
    let g = m.global_bindings@.filter(f);
    filter_keeps(m.global_bindings@, f);
    if m.profiles@[i].id != id {
        crate::list::filter_loses_nothing(m.profiles@, profile_is_not(id), i);
    }
    if f(m.global_bindings@[j]) {
        crate::list::filter_loses_nothing(m.global_bindings@, f, j);
    } else if g.contains(m.global_bindings@[j]) {
        let k = choose|k: int| 0 <= k < g.len() && g[k] == m.global_bindings@[j];
        assert(f(g[k]));
    }
    if !new.has_profile(m.active_profile) {
        assert(new.profiles@[0].id == new.active_profile);
    }
}

/// Hexadecimal digits count up from zero, in either case, and nothing else is
/// one.
pub proof fn hexadecimal_counts(c: char, d: char)
    ensures
        hex('0') == Some(0u8),
        hex('9') == Some(9u8),
        hex('a') == Some(10u8),
        hex('f') == Some(15u8),
        hex('A') == hex('a'),
        hex('F') == hex('f'),
        hex(c) is Some && hex(d) is Some && d as u32 == c as u32 + 1 ==> hex(d)->0 == hex(c)->0 + 1,
        hex(c) is Some && hex(d) is Some && d as u32 == c as u32 + 32 && c as u32 >= 65 ==> hex(d) == hex(c),
        hex(c) is Some ==> hex(c)->0 < 16,
{
}

/// A color is read component by component: each is written by its own two
/// digits, and what is not a color is none.
pub proof fn colors_are_read_by_component(a: Seq<char>, b: Seq<char>)
    requires
        rgb(a) is Some,
        rgb(b) is Some,
    ensures
        a.len() == 7,
        a[0] == '#',
        a[1] == b[1] && a[2] == b[2] ==> (rgb(a)->0).0 == (rgb(b)->0).0,
        a[3] == b[3] && a[4] == b[4] ==> (rgb(a)->0).1 == (rgb(b)->0).1,
        a[5] == b[5] && a[6] == b[6] ==> (rgb(a)->0).2 == (rgb(b)->0).2,
        (rgb(a)->0).0 == 16 * hex(a[1])->0 + hex(a[2])->0,
        (rgb(a)->0).1 == 16 * hex(a[3])->0 + hex(a[4])->0,
        (rgb(a)->0).2 == 16 * hex(a[5])->0 + hex(a[6])->0,
{
    assert(hex(a[1]) is Some && hex(a[2]) is Some && hex(a[3]) is Some);
    assert(hex(a[4]) is Some && hex(a[5]) is Some && hex(a[6]) is Some);
}

/// Effects are active exactly where one is switched on, of either kind.
pub proof fn effects_are_active_when_on(c: ChannelConfig, i: int)
    ensures
        0 <= i < c.effects@.len() && c.effects@[i].enabled ==> c.has_fx(),
        0 <= i < c.vst_plugins@.len() && c.vst_plugins@[i].enabled ==> c.has_fx(),
        c.effects@.len() == 0 && c.vst_plugins@.len() == 0 ==> !c.has_fx(),
        (forall|k: int| 0 <= k < c.effects@.len() ==> !(#[trigger] c.effects@[k]).enabled) && (forall|k: int|
            0 <= k < c.vst_plugins@.len() ==> !(#[trigger] c.vst_plugins@[k]).enabled) ==> !c.has_fx(),
{
}

/// A new effect comes last, switched on, without settings, and has an id that
/// nothing else of the channel has or had. Everything else stays.
pub proof fn new_effects_come_last(c: ChannelConfig, uri: Seq<char>, name: Seq<char>, r: EffectConfig, d: ChannelConfig)
    requires
        c.wf(),
        c.next_effect_id < u64::MAX,
        c.effect_added(uri, name, r, d),
    ensures
        d.effects@.len() == c.effects@.len() + 1,
        d.effects@.last() == r,
        forall|i: int| 0 <= i < c.effects@.len() ==> #[trigger] d.effects@[i] == c.effects@[i],
        r.uri@ == uri && r.name@ == name && r.enabled && r.controls@.len() == 0,
        forall|i: int| 0 <= i < c.effects@.len() ==> (#[trigger] c.effects@[i]).id != r.id,
        forall|i: int| 0 <= i < c.vst_plugins@.len() ==> (#[trigger] c.vst_plugins@[i]).id != r.id,
        d.next_effect_id > r.id,
        d.vst_plugins == c.vst_plugins,
        d == (ChannelConfig { effects: d.effects, next_effect_id: d.next_effect_id, ..c }),
{
    fx_ids_are_those(c);
}

/// A new VST plugin comes last, switched on, without settings, as it was found,
/// and has an id that nothing else of the channel has or had.
pub proof fn new_plugins_come_last(c: ChannelConfig, entry: VstEntry, id: u64, d: ChannelConfig)
    requires
        c.wf(),
        c.next_effect_id < u64::MAX,
        c.vst_added(entry, id, d),
    ensures
        d.vst_plugins@.len() == c.vst_plugins@.len() + 1,
        forall|i: int| 0 <= i < c.vst_plugins@.len() ==> #[trigger] d.vst_plugins@[i] == c.vst_plugins@[i],
        ({
            let p = d.vst_plugins@.last();
            &&& p.id == id && p.enabled && p.params@.len() == 0
            &&& p.path@ == entry.path@ && p.format == entry.format && p.label@ == entry.label@
            &&& p.unique_id == entry.unique_id && p.name@ == entry.name@
        }),
        forall|i: int| 0 <= i < c.effects@.len() ==> (#[trigger] c.effects@[i]).id != id,
        forall|i: int| 0 <= i < c.vst_plugins@.len() ==> (#[trigger] c.vst_plugins@[i]).id != id,
        d.next_effect_id > id,
        d == (ChannelConfig { vst_plugins: d.vst_plugins, next_effect_id: d.next_effect_id, ..c }),
{
    fx_ids_are_those(c);
    assert forall|i: int| 0 <= i < c.vst_plugins@.len() implies #[trigger] d.vst_plugins@[i]
        == c.vst_plugins@[i] by {
        assert(d.vst_plugins@.drop_last()[i] == c.vst_plugins@[i]);
    }
}

/// The ids of a channel are those of its effects and of its plugins.
proof fn fx_ids_are_those(c: ChannelConfig)
    ensures
        forall|i: int| 0 <= i < c.effects@.len() ==> c.fx_ids().contains((#[trigger] c.effects@[i]).id),
        forall|i: int| 0 <= i < c.vst_plugins@.len() ==> c.fx_ids().contains((#[trigger] c.vst_plugins@[i]).id),
{
    assert forall|i: int| 0 <= i < c.effects@.len() implies c.fx_ids().contains((#[trigger] c.effects@[i]).id) by {
        assert(c.fx_ids()[i] == c.effects@[i].id);
    }
    assert forall|i: int| 0 <= i < c.vst_plugins@.len() implies c.fx_ids().contains(
        (#[trigger] c.vst_plugins@[i]).id,
    ) by {
        assert(c.fx_ids()[c.effects@.len() + i] == c.vst_plugins@[i].id);
    }
}

/// A new profile comes last, without bindings, named after its number, which no
/// profile has. It is not selected, and the others stay.
pub proof fn new_profiles_are_empty(m: MidiConfig, id: u64, new: MidiConfig)
    requires
        m.wf(),
        m.next_profile_id < u64::MAX,
        m.profile_added(id, new),
    ensures
        new.profiles@.len() == m.profiles@.len() + 1,
        forall|i: int|
            0 <= i < m.profiles@.len() ==> #[trigger] new.profiles@[i] == m.profiles@[i] && m.profiles@[i].id != id,
        new.profiles@.last().id == id,
        new.profiles@.last().bindings@.len() == 0,
        new.profiles@.last().name@ == "Profile "@ + dec(id as nat),
        new.active_profile == m.active_profile,
        new.global_bindings == m.global_bindings,
        new.next_profile_id > id,
{
    assert forall|i: int| 0 <= i < m.profiles@.len() implies #[trigger] new.profiles@[i] == m.profiles@[i]
        && m.profiles@[i].id != id by {
        assert(new.profiles@.drop_last()[i] == m.profiles@[i]);
    }
}

/// Taking out a channel's bindings takes exactly those out of every profile and of
/// the global ones.
pub proof fn unbound_channels_lose_their_bindings(m: MidiConfig, channel: u64, new: MidiConfig, i: int, b: MidiBinding)
    requires
        m.channel_unbound(channel, new),
        0 <= i < m.profiles@.len(),
    ensures
        new.profiles@.len() == m.profiles@.len(),
        new.profiles@[i].bindings@.contains(b) <==> m.profiles@[i].bindings@.contains(b)
            && b.target.channel_of() != Some(channel),
        new.global_bindings@.contains(b) <==> m.global_bindings@.contains(b) && b.target.channel_of() != Some(
            channel,
        ),
        new.profiles@[i].id == m.profiles@[i].id && new.profiles@[i].name == m.profiles@[i].name,
        new.active_profile == m.active_profile,
        new.next_profile_id == m.next_profile_id,
{
    assert(new.profiles@[i].bindings@ == m.profiles@[i].bindings@.filter(refers_elsewhere(channel)));
    filtered_holds(m.profiles@[i].bindings@, refers_elsewhere(channel), b);
    filtered_holds(m.global_bindings@, refers_elsewhere(channel), b);
}

/// What is left of bindings after filtering.
pub(crate) proof fn filtered_holds(s: Seq<MidiBinding>, p: spec_fn(MidiBinding) -> bool, b: MidiBinding)
    ensures
        s.filter(p).contains(b) <==> s.contains(b) && p(b),
{
    crate::list::filter_keeps(s, p);
    if s.filter(p).contains(b) {
        let k = choose|k: int| 0 <= k < s.filter(p).len() && s.filter(p)[k] == b;
        assert(p(s.filter(p)[k]));
    }
    if s.contains(b) && p(b) {
        let k = choose|k: int| 0 <= k < s.len() && s[k] == b;
        crate::list::filter_loses_nothing(s, p, k);
    }
}

/// Taking out a channel leaves every other one, and every built-in one, in order;
/// a removable channel of that id is gone. Nothing else changes.
pub proof fn removed_channels_are_gone(c: Config, id: u64, d: Config, i: int)
    requires
        c.channel_removed(id, d),
        0 <= i < c.channels@.len(),
    ensures
        c.channels@[i].id != id || c.channels@[i].permanent ==> d.channels@.contains(c.channels@[i]),
        forall|k: int| 0 <= k < d.channels@.len() ==> (#[trigger] d.channels@[k]).id != id || d.channels@[k].permanent,
        forall|k: int| 0 <= k < d.channels@.len() ==> c.channels@.contains(#[trigger] d.channels@[k]),
        d.midi == c.midi,
        d.master == c.master,
        d.next_channel_id == c.next_channel_id,
{
    crate::list::filter_keeps(c.channels@, survives(id));
    if survives(id)(c.channels@[i]) {
        crate::list::filter_loses_nothing(c.channels@, survives(id), i);
    }
}

/// A parameter value is stored with its plugin, in its channel, under its number;
/// no other value, plugin or channel changes.
pub proof fn parameters_are_stored(
    c: Config,
    p: int,
    v: int,
    index: u32,
    value: Level,
    d: Config,
)
    requires
        proper_ids(channel_ids(c.channels@)),
        0 <= p < c.channels@.len(),
        proper_ids(c.channels@[p].fx_ids()),
        0 <= v < c.channels@[p].vst_plugins@.len(),
        c.param_stored(c.channels@[p].id, c.channels@[p].vst_plugins@[v].id, index, value, d),
    ensures
        ({
            let a = c.channels@[p].vst_plugins@[v];
            let b = d.channels@[p].vst_plugins@[v];
            &&& level_of(b.params@, dec(index as nat)) == Some(value)
            &&& forall|k: Seq<char>|
                k != dec(index as nat) ==> #[trigger] level_of(b.params@, k) == level_of(a.params@, k)
            &&& b == (VstPluginConfig { params: b.params, ..a })
        }),
        d.channels@.len() == c.channels@.len(),
        forall|j: int| 0 <= j < c.channels@.len() && j != p ==> #[trigger] d.channels@[j] == c.channels@[j],
        forall|j: int|
            0 <= j < c.channels@[p].vst_plugins@.len() && j != v ==> #[trigger] d.channels@[p].vst_plugins@[j]
                == c.channels@[p].vst_plugins@[j],
        d.channels@[p].effects == c.channels@[p].effects,
        d.midi == c.midi && d.master == c.master,
{
    channel_found(c, p);
    let s = c.channels@[p].vst_plugins@;
    let ids = c.channels@[p].fx_ids();
    let n = c.channels@[p].effects@.len() as int;
    assert forall|j: int| 0 <= j < v implies !vst_is(s[v].id)(#[trigger] s[j]) by {
        assert(ids[n + j] == s[j].id);
        assert(ids[n + v] == s[v].id);
    }
    first_is_at(s, vst_is(s[v].id), v);
}

/// A channel is found by its id.
pub(crate) proof fn channel_found(c: Config, p: int)
    requires
        proper_ids(channel_ids(c.channels@)),
        0 <= p < c.channels@.len(),
    ensures
        c.has_channel(c.channels@[p].id),
        c.position(c.channels@[p].id) == p,
        forall|j: int| 0 <= j < c.channels@.len() && j != p ==> (#[trigger] c.channels@[j]).id != c.channels@[p].id,
{
    let ids = channel_ids(c.channels@);
    assert forall|j: int| 0 <= j < c.channels@.len() && j != p implies (#[trigger] c.channels@[j]).id
        != c.channels@[p].id by {
        assert(ids[j] == c.channels@[j].id);
        assert(ids[p] == c.channels@[p].id);
    }
    first_is_at(c.channels@, channel_is(c.channels@[p].id), p);
}

/// A blank name is replaced by a numbered one; any other stays as it is.
pub proof fn blank_names_are_filled(name: Seq<char>, what: Seq<char>, id: nat)
    ensures
        blank(name) ==> filled_name(name, what, id) == what + dec(id),
        !blank(name) ==> filled_name(name, what, id) == name,
        clamped_percent(None) is None,
{
}

/// A configuration that nobody has touched plays everything: nothing is muted,
/// masters are at unity gain, channels have no effects and no color, pads light up
/// and faders pick up. It has one profile, which is selected and empty.
pub proof fn fresh_settings_play_everything(c: ChannelConfig, m: MasterConfig, x: MidiConfig)
    ensures
        c.is_fresh() ==> !c.monitor_muted && !c.linked && c.color is None && c.effects@.len() == 0
            && c.vst_plugins@.len() == 0 && c.next_effect_id > 0,
        c.is_fresh() ==> c.monitor_volume.bits == 0x3fe8_0000_0000_0000 && c.stream_volume == c.monitor_volume
            && c.vod_volume == c.monitor_volume,
        m.is_fresh() ==> !m.monitor_muted && !m.stream_muted && !m.vod_muted && m.monitor_device is None,
        m.is_fresh() ==> m.monitor_volume.bits == 0x3ff0_0000_0000_0000 && m.stream_volume == m.monitor_volume
            && m.vod_volume == m.monitor_volume,
        x.is_fresh() ==> x.pickup && x.led_feedback && x.on_velocity == 127 && x.off_velocity == 0,
        x.is_fresh() ==> x.wf() && x.one_to_one() && x.profiles@.len() == 1 && x.profiles@[0].bindings@.len() == 0
            && x.profiles@[0].id == x.active_profile && x.profiles@[0].name@ == "Default"@
            && x.global_bindings@.len() == 0,
{
}

/// The last profile stays, and a full house takes no further channel.
pub proof fn limits_hold(m: MidiConfig, id: u64, new: MidiConfig, c: Config, name: Option<&str>, r: Option<u64>, d: Config)
    ensures
        m.profile_removed(id, new) && m.profiles@.len() <= 1 ==> new == m,
        c.channel_added(name, r, d) && c.channels@.len() >= 8 ==> r is None && d == c,
        c.channel_added(name, r, d) && c.channels@.len() < 8 ==> r is Some && d.channels@.len() == c.channels@.len() + 1,
{
}

/// Freeing a target reaches the profile it was asked for, or the global bindings
/// for a pad that selects a profile, and leaves the others.
pub proof fn freeing_stays_in_its_profile(m: MidiConfig, profile: u64, target: MidiTarget, new: MidiConfig, i: int)
    requires
        m.wf(),
        m.frees(profile, target, new),
        0 <= i < m.profiles@.len(),
    ensures
        new.profiles@.len() == m.profiles@.len(),
        new.profiles@[i].id == m.profiles@[i].id && new.profiles@[i].name == m.profiles@[i].name,
        m.profiles@[i].id != profile || target is SelectProfile ==> new.profiles@[i] == m.profiles@[i],
        !(target is SelectProfile) ==> new.global_bindings == m.global_bindings,
        !(target is SelectProfile) && m.profiles@[i].id == profile ==> new.profiles@[i].bindings@
            == m.profiles@[i].bindings@.filter(drives_other(target)),
        target is SelectProfile ==> new.global_bindings@ == m.global_bindings@.filter(drives_other(target)),
        new.active_profile == m.active_profile && new.next_profile_id == m.next_profile_id,
{
    first_is_at(m.profiles@, profile_is(m.profiles@[i].id), i);
    if m.has_profile(profile) {
        let k = choose|k: int| 0 <= k < m.profiles@.len() && (#[trigger] m.profiles@[k]).id == profile;
        first_is_at(m.profiles@, profile_is(profile), k);
    }
}

/// A stored value is read back under its key, and no other value changes.
pub proof fn stored_values_are_read_back(a: Seq<KeyedLevel>, key: Seq<char>, value: Level, b: Seq<KeyedLevel>, other: Seq<char>)
    requires
        level_put(a, key, value, b),
    ensures
        level_of(b, key) == Some(value),
        other != key ==> level_of(b, other) == level_of(a, other),
{
}

} // verus!
