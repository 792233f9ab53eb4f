//! The audio graph: mix buses, channels and the links between them.
//!
//! Topology on the sound server:
//!
//! ```text
//!  capture source ──┬── module-loopback ──▶ Crossfade_Monitor ── loopback ──▶ headphones
//!  (or app stream    ├── module-loopback ──▶ Crossfade_Stream  (captured by OBS/Discord)
//!   moved into a     └── module-loopback ──▶ Crossfade_Vod     (optional third bus for a
//!   per-channel                                                VOD/recording track)
//!   null sink)
//! ```
//!
//! Every loopback shows up as a sink-input owned by the module that was
//! loaded, so volume and mute per channel and mix are plain sink-input
//! operations. The state kept here decides what to load, unload, move and
//! set; whoever holds the server connection carries it out and reports back.

use vstd::prelude::*;
use vstd::string::StringExecFns;

use crate::config::{ChannelConfig, MasterConfig};
use crate::fx;
use crate::level::Level;
use crate::text;
use crate::text::{dec, ends, lower, occurs};

verus! {

pub const MONITOR_SINK: &'static str = "Crossfade_Monitor";

pub const STREAM_SINK: &'static str = "Crossfade_Stream";

pub const STREAM_MIC: &'static str = "Crossfade_StreamMic";

pub const VOD_SINK: &'static str = "Crossfade_Vod";

pub const VOD_MIC: &'static str = "Crossfade_VodMic";

/// What the names of Crossfade's own devices begin with.
pub const OWN_PREFIX: &'static str = "Crossfade_";

/// What they began with under the project's former name. Leftovers from a
/// crashed session of that time are still reaped at startup.
pub const LEGACY_PREFIX: &'static str = "OpenWave_";

/// The index the server reports for a module that could not be loaded.
pub const INVALID_INDEX: u32 = 0xffff_ffff;

/// The name of a channel's private sink.
pub open spec fn channel_sink(id: u64) -> Seq<char> {
    OWN_PREFIX@ + "Ch"@ + dec(id as nat)
}

/// The name of a channel's private sink.
pub fn channel_sink_name(id: u64) -> (r: String)
    ensures
        r@ == channel_sink(id),
{
    let mut s = text::join(OWN_PREFIX, "Ch");
    text::push_decimal(&mut s, id);
    s
}

/// Whether a device name or description belongs to an Elgato Wave XLR.
pub open spec fn wave_xlr(name: Seq<char>, description: Seq<char>) -> bool {
    ||| occurs(description, "Wave XLR"@)
    ||| occurs(lower(name), "wave_xlr"@)
    ||| occurs(lower(name), "wave-xlr"@)
}

/// Does this device name/description belong to an Elgato Wave XLR?
pub fn is_wave_xlr(name: &str, description: &str) -> (r: bool)
    ensures
        r == wave_xlr(name@, description@),
{
    let n = text::lowered(name);
    text::contains(description, "Wave XLR") || text::contains(n.as_str(), "wave_xlr") || text::contains(
        n.as_str(),
        "wave-xlr",
    )
}

/// The characters that do not break the quoting of module arguments.
pub open spec fn unquoted() -> spec_fn(char) -> bool {
    |c: char| c != '"' && c != '\'' && c != '\\'
}

/// Strip characters that would break PulseAudio module argument quoting.
pub fn sanitize_desc(s: &str) -> (r: String)
    ensures
        r@ == s@.filter(unquoted()),
        forall|i: int| 0 <= i < r@.len() ==> #[trigger] r@[i] != '"' && r@[i] != '\'' && r@[i] != '\\',
{
    let keep = |c: char| -> (k: bool)
        ensures
            k == unquoted()(c),
    { c != '"' && c != '\'' && c != '\\' };
    proof {
        crate::list::filter_keeps(s@, unquoted());
    }
    text::keep_chars(s, keep, Ghost(unquoted()))
}

/// The arguments of a loopback from a source to a sink, whose streams are
/// named after a tag.
pub open spec fn loopback_text(source: Seq<char>, sink: Seq<char>, tag: Seq<char>) -> Seq<char> {
    "source=\""@ + source + "\" sink=\""@ + sink
        + "\" latency_msec=30 sink_input_properties='media.name=\""@ + tag
        + " out\" state.restore-props=false state.restore-target=false' source_output_properties='media.name=\""@
        + tag + " in\" state.restore-props=false state.restore-target=false'"@
}

/// Loopback module arguments. Every stream gets a unique, stable
/// `media.name` and opts out of session-manager volume/target restoring;
/// otherwise WirePlumber "restores" our loopbacks and meters onto whatever
/// sink/source a same-named stream used in an earlier session.
pub fn loopback_args(source: &str, sink: &str, tag: &str) -> (r: String)
    ensures
        r@ == loopback_text(source@, sink@, tag@),
{
    let mut s = text::join("source=\"", source);
    s.append("\" sink=\"");
    s.append(sink);
    s.append("\" latency_msec=30 sink_input_properties='media.name=\"");
    s.append(tag);
    s.append(
        " out\" state.restore-props=false state.restore-target=false' source_output_properties='media.name=\"",
    );
    s.append(tag);
    s.append(" in\" state.restore-props=false state.restore-target=false'");
    s
}

/// The output mixes.
#[derive(Clone, Copy, Debug, PartialEq, Eq, Hash, Structural)]
pub enum Mix {
    Monitor,
    Stream,
    /// Optional third bus for a VOD-safe recording track.
    Vod,
}

impl Mix {
    /// How a mix is called in the interface.
    pub open spec fn shown(self) -> Seq<char> {
        match self {
            Mix::Monitor => "Monitor"@,
            Mix::Stream => "Stream"@,
            Mix::Vod => "VOD"@,
        }
    }

    /// How a mix is called in files, on D-Bus and in stream names.
    pub open spec fn key(self) -> Seq<char> {
        match self {
            Mix::Monitor => "monitor"@,
            Mix::Stream => "stream"@,
            Mix::Vod => "vod"@,
        }
    }

    /// The name of the mix's bus.
    pub open spec fn bus(self) -> Seq<char> {
        match self {
            Mix::Monitor => MONITOR_SINK@,
            Mix::Stream => STREAM_SINK@,
            Mix::Vod => VOD_SINK@,
        }
    }

    /// The name shown for the mix.
    pub fn label(&self) -> (r: &'static str)
        ensures
            r@ == self.shown(),
    {
        match self {
            Mix::Monitor => "Monitor",
            Mix::Stream => "Stream",
            Mix::Vod => "VOD",
        }
    }

    /// The mix's name in files and on D-Bus.
    pub fn as_key(&self) -> (r: &'static str)
        ensures
            r@ == self.key(),
    {
        match self {
            Mix::Monitor => "monitor",
            Mix::Stream => "stream",
            Mix::Vod => "vod",
        }
    }

    /// The name of the mix's bus.
    pub fn sink(&self) -> (r: &'static str)
        ensures
            r@ == self.bus(),
    {
        match self {
            Mix::Monitor => MONITOR_SINK,
            Mix::Stream => STREAM_SINK,
            Mix::Vod => VOD_SINK,
        }
    }

    /// Parse the name used in files and on D-Bus ("monitor" | "stream" |
    /// "vod").
    pub fn from_key(key: &str) -> (r: Option<Mix>)
        ensures
            r is Some ==> key@ == r->0.key(),
            r is None ==> forall|m: Mix| key@ != #[trigger] m.key(),
    {
        if text::same(key, "monitor") {
            Some(Mix::Monitor)
        } else if text::same(key, "stream") {
            Some(Mix::Stream)
        } else if text::same(key, "vod") {
            Some(Mix::Vod)
        } else {
            None
        }
    }
}

/// No two mixes share a name, so a mix is found again by the name it is
/// stored under.
pub proof fn mix_keys_are_distinct(a: Mix, b: Mix)
    ensures
        a.key() == b.key() ==> a == b,
{
    reveal_strlit("monitor");
    reveal_strlit("stream");
    reveal_strlit("vod");
    assert("monitor"@[0] == 'm' && "stream"@[0] == 's' && "vod"@[0] == 'v');
}

/// Different channels have differently named sinks, chains and racks.
pub proof fn names_are_distinct(a: u64, b: u64)
    requires
        a != b,
    ensures
        channel_sink(a) != channel_sink(b),
        fx::chain_sink(a) != fx::chain_sink(b),
        fx::chain_source(a) != fx::chain_source(b),
        fx::vstin_sink(a) != fx::vstin_sink(b),
        fx::vst_node(a) != fx::vst_node(b),
{
    text::decimal_is_injective(a as nat, b as nat);
    let m = dec(a as nat);
    let n = dec(b as nat);
    let e = Seq::<char>::empty();
    text::middle_is_determined(OWN_PREFIX@ + "Ch"@, m, n, e);
    assert(channel_sink(a) =~= OWN_PREFIX@ + "Ch"@ + m + e);
    assert(channel_sink(b) =~= OWN_PREFIX@ + "Ch"@ + n + e);
    text::middle_is_determined("Crossfade_Ch"@, m, n, "_FX"@);
    text::middle_is_determined("Crossfade_Ch"@, m, n, "_FXOut"@);
    text::middle_is_determined("Crossfade_Ch"@, m, n, "_VSTIn"@);
    text::middle_is_determined("Crossfade_Ch"@, m, n, "_VST"@);
}

/// Addresses one managed loopback.
#[derive(Clone, Copy, Debug, PartialEq, Eq, Structural)]
pub enum LoopbackRef {
    Mix(u64, Mix),
    Input(u64),
    MonitorOut,
}

/// What a meter measures.
#[derive(Clone, Copy, Debug, PartialEq, Eq, Hash, Structural)]
pub enum LevelTarget {
    Channel(u64),
    MonitorMix,
    StreamMix,
    VodMix,
}

impl LevelTarget {
    /// The stream name of a meter.
    pub open spec fn meter(self) -> Seq<char> {
        match self {
            LevelTarget::Channel(id) => "Crossfade meter ch"@ + dec(id as nat),
            LevelTarget::MonitorMix => "Crossfade meter monitor"@,
            LevelTarget::StreamMix => "Crossfade meter stream"@,
            LevelTarget::VodMix => "Crossfade meter vod"@,
        }
    }

    /// A stream name of its own for each meter; under a shared one the session
    /// manager would move every meter onto the same source.
    pub fn meter_name(&self) -> (r: String)
        ensures
            r@ == self.meter(),
    {
        match self {
            LevelTarget::Channel(id) => text::numbered("Crossfade meter ch", *id),
            LevelTarget::MonitorMix => text::copy("Crossfade meter monitor"),
            LevelTarget::StreamMix => text::copy("Crossfade meter stream"),
            LevelTarget::VodMix => text::copy("Crossfade meter vod"),
        }
    }
}

/// Meters of different targets have different names.
pub proof fn meter_names_are_distinct(a: LevelTarget, b: LevelTarget)
    requires
        a != b,
    ensures
        a.meter() != b.meter(),
{
    reveal_strlit("Crossfade meter ch");
    reveal_strlit("Crossfade meter monitor");
    reveal_strlit("Crossfade meter stream");
    reveal_strlit("Crossfade meter vod");
    let p = "Crossfade meter ch"@;
    match (a, b) {
        (LevelTarget::Channel(x), LevelTarget::Channel(y)) => {
            text::decimal_is_injective(x as nat, y as nat);
            let e = Seq::<char>::empty();
            text::middle_is_determined(p, dec(x as nat), dec(y as nat), e);
            assert(a.meter() =~= p + dec(x as nat) + e);
            assert(b.meter() =~= p + dec(y as nat) + e);
        },
        _ => {
            if let LevelTarget::Channel(x) = a {
                text::decimal_is_not_empty(x as nat);
            }
            if let LevelTarget::Channel(y) = b {
                text::decimal_is_not_empty(y as nat);
            }
            assert(a.meter().len() > 16 && b.meter().len() > 16);
            assert(a.meter()[16] != b.meter()[16]);
        },
    }
}

/// A capture device.
#[derive(Clone, Debug, PartialEq, Eq)]
pub struct SourceEntry {
    pub name: String,
    pub description: String,
    pub is_monitor: bool,
    /// Current device volume in percent (avg across channels).
    pub volume: Level,
    pub channels: u8,
    /// Server-side index, for matching capture streams to their device.
    pub index: u32,
    /// Owning sound card, for same-card checks against sinks.
    pub card: Option<u32>,
}

/// An output device.
#[derive(Clone, Debug, PartialEq, Eq)]
pub struct SinkEntry {
    pub name: String,
    pub description: String,
    /// Current device volume in percent (avg across channels).
    pub volume: Level,
    pub channels: u8,
    /// Owning sound card, for same-card checks against sources.
    pub card: Option<u32>,
}

impl SourceEntry {
    /// Whether the entry is what the server reports.
    pub open spec fn describes(
        self,
        name: Seq<char>,
        description: Option<&str>,
        volume: Level,
        channels: u8,
        index: u32,
        card: Option<u32>,
    ) -> bool {
        &&& self.name@ == name
        &&& self.description@ == match description {
            Some(d) => d@,
            None => name,
        }
        &&& self.is_monitor == ends(name, ".monitor"@)
        &&& self.volume == volume
        &&& self.channels == channels
        &&& self.index == index
        &&& self.card == card
    }

    /// The entry of a capture device as the server lists it.
    pub fn new(
        name: &str,
        description: Option<&str>,
        volume: Level,
        channels: u8,
        index: u32,
        card: Option<u32>,
    ) -> (r: SourceEntry)
        ensures
            r.describes(name@, description, volume, channels, index, card),
    {
        SourceEntry {
            name: text::copy(name),
            description: match description {
                Some(d) => text::copy(d),
                None => text::copy(name),
            },
            is_monitor: text::ends_with(name, ".monitor"),
            volume,
            channels,
            index,
            card,
        }
    }

    /// A copy of the entry.
    pub fn copied(&self) -> (r: SourceEntry)
        ensures
            r == *self,
    {
        SourceEntry {
            name: self.name.clone(),
            description: self.description.clone(),
            is_monitor: self.is_monitor,
            volume: self.volume,
            channels: self.channels,
            index: self.index,
            card: self.card,
        }
    }
}

impl SinkEntry {
    /// Whether the entry is what the server reports.
    pub open spec fn describes(
        self,
        name: Seq<char>,
        description: Option<&str>,
        volume: Level,
        channels: u8,
        card: Option<u32>,
    ) -> bool {
        &&& self.name@ == name
        &&& self.description@ == match description {
            Some(d) => d@,
            None => name,
        }
        &&& self.volume == volume
        &&& self.channels == channels
        &&& self.card == card
    }

    /// The entry of an output device as the server lists it.
    pub fn new(name: &str, description: Option<&str>, volume: Level, channels: u8, card: Option<u32>) -> (r:
        SinkEntry)
        ensures
            r.describes(name@, description, volume, channels, card),
    {
        SinkEntry {
            name: text::copy(name),
            description: match description {
                Some(d) => text::copy(d),
                None => text::copy(name),
            },
            volume,
            channels,
            card,
        }
    }

    /// A copy of the entry.
    pub fn copied(&self) -> (r: SinkEntry)
        ensures
            r == *self,
    {
        SinkEntry {
            name: self.name.clone(),
            description: self.description.clone(),
            volume: self.volume,
            channels: self.channels,
            card: self.card,
        }
    }
}

/// A playback stream on the server.
#[derive(Clone, Debug, PartialEq, Eq)]
pub struct SinkInputEntry {
    pub index: u32,
    pub app_name: Option<String>,
    pub sink: u32,
    pub owner_module: Option<u32>,
    pub channels: u8,
    pub volume_raw: u32,
    pub mute: bool,
}

/// A capture stream on the server.
#[derive(Clone, Debug, PartialEq, Eq)]
pub struct SourceOutputEntry {
    pub index: u32,
    pub source: u32,
    pub owner_module: Option<u32>,
}

/// A loopback module and the two streams it opened.
#[derive(Clone, Debug, PartialEq, Eq)]
pub struct Loopback {
    pub module: Option<u32>,
    pub sink_input: Option<u32>,
    /// The loopback's capture stream, tracked so it can be re-attached when
    /// it ends up on the wrong device (or unlinked because the device was
    /// absent when the stream was created).
    pub source_output: Option<u32>,
    pub channels: u8,
    /// Sink this loopback must stay attached to (empty = not enforced yet).
    pub target: String,
    /// Source the capture side must stay attached to (empty = not enforced).
    pub source_target: String,
}

impl Default for Loopback {
    fn default() -> (r: Self)
        ensures
            r.is_idle(),
    {
        let e = text::copy("");
        proof {
            reveal_strlit("");
        }
        Loopback {
            module: None,
            sink_input: None,
            source_output: None,
            channels: 0,
            target: e,
            source_target: text::copy(""),
        }
    }
}

impl Loopback {
    /// Nothing loaded and nothing in flight.
    pub open spec fn is_idle(self) -> bool {
        &&& self.module is None
        &&& self.sink_input is None
        &&& self.source_output is None
        &&& self.channels == 0
        &&& self.target@.len() == 0
        &&& self.source_target@.len() == 0
    }

    /// Just loaded: the streams are not known yet.
    pub open spec fn is_loaded(self, module: u32, target: Seq<char>, source: Seq<char>) -> bool {
        &&& self.module == Some(module)
        &&& self.sink_input is None
        &&& self.source_output is None
        &&& self.channels == 0
        &&& self.target@ == target
        &&& self.source_target@ == source
    }

    /// A loopback that was just loaded.
    pub fn loaded(module: u32, target: &str, source: &str) -> (r: Loopback)
        ensures
            r.is_loaded(module, target@, source@),
    {
        Loopback {
            module: Some(module),
            sink_input: None,
            source_output: None,
            channels: 0,
            target: text::copy(target),
            source_target: text::copy(source),
        }
    }
}

/// Wiring deferred until the channel's FX bridge nodes show up on the
/// server (the filter-chain runs in a child process and appears
/// asynchronously).
#[derive(Clone, Debug, PartialEq, Eq)]
pub struct PendingWire {
    /// The channel's real input (capture source or `<sink>.monitor`).
    pub source: String,
    /// Route through the VST rack first.
    pub use_vst: bool,
}

/// What exists on the server for one channel.
#[derive(Clone, Debug, PartialEq, Eq)]
pub struct ChannelRuntime {
    /// The channel's stable id.
    pub id: u64,
    /// Bumped on every rebuild so stale module-load callbacks can tell they
    /// lost the race and must unload what they just created.
    pub generation: u64,
    pub sink_module: Option<u32>,
    /// Feeds the input into the FX bridge when effects are active.
    pub input_loop: Loopback,
    /// Null sink in front of the VST rack (JACK clients are not valid
    /// loopback targets, so the rack taps this sink's monitor).
    pub vstin_module: Option<u32>,
    pub pending_wire: Option<PendingWire>,
    /// Configured capture source that is not on the server yet; the channel
    /// is wired as soon as it appears (USB devices enumerate late at login).
    pub pending_source: Option<String>,
    pub monitor_loop: Loopback,
    pub stream_loop: Loopback,
    pub vod_loop: Loopback,
}

impl ChannelRuntime {
    /// The loopback into a mix.
    pub open spec fn to_mix(self, mix: Mix) -> Loopback {
        match mix {
            Mix::Monitor => self.monitor_loop,
            Mix::Stream => self.stream_loop,
            Mix::Vod => self.vod_loop,
        }
    }

    /// The same runtime with another loopback into a mix.
    pub open spec fn with_mix(self, mix: Mix, l: Loopback) -> ChannelRuntime {
        match mix {
            Mix::Monitor => ChannelRuntime { monitor_loop: l, ..self },
            Mix::Stream => ChannelRuntime { stream_loop: l, ..self },
            Mix::Vod => ChannelRuntime { vod_loop: l, ..self },
        }
    }

    /// Nothing exists on the server, and nothing is waited for.
    pub open spec fn is_bare(self) -> bool {
        &&& self.sink_module is None
        &&& self.input_loop.is_idle()
        &&& self.vstin_module is None
        &&& self.pending_wire is None
        &&& self.monitor_loop.is_idle()
        &&& self.stream_loop.is_idle()
        &&& self.vod_loop.is_idle()
    }

    /// A runtime without anything on the server.
    pub fn bare(id: u64, generation: u64) -> (r: ChannelRuntime)
        ensures
            r.id == id,
            r.generation == generation,
            r.is_bare(),
            r.pending_source is None,
    {
        ChannelRuntime {
            id,
            generation,
            sink_module: None,
            input_loop: Loopback::default(),
            vstin_module: None,
            pending_wire: None,
            pending_source: None,
            monitor_loop: Loopback::default(),
            stream_loop: Loopback::default(),
            vod_loop: Loopback::default(),
        }
    }

    /// The loopback into a mix.
    pub fn mix_loop(&self, mix: Mix) -> (r: &Loopback)
        ensures
            *r == self.to_mix(mix),
    {
        match mix {
            Mix::Monitor => &self.monitor_loop,
            Mix::Stream => &self.stream_loop,
            Mix::Vod => &self.vod_loop,
        }
    }

    /// The loopback into a mix, for changing it.
    pub fn mix_loop_mut(&mut self, mix: Mix) -> (r: &mut Loopback)
        ensures
            *r == old(self).to_mix(mix),
            *final(self) == old(self).with_mix(mix, *final(r)),
    {
        match mix {
            Mix::Monitor => &mut self.monitor_loop,
            Mix::Stream => &mut self.stream_loop,
            Mix::Vod => &mut self.vod_loop,
        }
    }
}

/// Volume and mute of a send: the level, the master level to multiply it
/// with where there is one, and whether it is muted.
#[derive(Clone, Copy, Debug, PartialEq, Eq, Structural)]
pub struct SendLevel {
    pub level: Level,
    pub master: Option<Level>,
    pub muted: bool,
}

/// What a channel sends into a mix. The stream and VOD sends fold their
/// master level in, since those buses have no master loopback of their own.
pub open spec fn send_level(c: ChannelConfig, m: MasterConfig, mix: Mix) -> SendLevel {
    match mix {
        Mix::Monitor => SendLevel { level: c.monitor_volume, master: None, muted: c.monitor_muted },
        Mix::Stream => SendLevel {
            level: c.stream_volume,
            master: Some(m.stream_volume),
            muted: c.stream_muted || m.stream_muted,
        },
        Mix::Vod => SendLevel {
            level: c.vod_volume,
            master: Some(m.vod_volume),
            muted: c.vod_muted || m.vod_muted,
        },
    }
}

/// Effective volume and mute of one channel's send into a mix.
pub fn mix_levels(c: &ChannelConfig, m: &MasterConfig, mix: Mix) -> (r: SendLevel)
    ensures
        r == send_level(*c, *m, mix),
{
    match mix {
        Mix::Monitor => SendLevel { level: c.monitor_volume, master: None, muted: c.monitor_muted },
        Mix::Stream => SendLevel {
            level: c.stream_volume,
            master: Some(m.stream_volume),
            muted: c.stream_muted || m.stream_muted,
        },
        Mix::Vod => SendLevel {
            level: c.vod_volume,
            master: Some(m.vod_volume),
            muted: c.vod_muted || m.vod_muted,
        },
    }
}

/// A muted master silences its bus: no channel is heard on the stream while the
/// stream mix is muted, nor on the VOD track while the VOD mix is. A channel is
/// heard in a mix only where nothing mutes it there, and then it is.
pub proof fn muted_master_silences_its_bus(c: ChannelConfig, m: MasterConfig)
    ensures
        m.stream_muted ==> send_level(c, m, Mix::Stream).muted,
        m.vod_muted ==> send_level(c, m, Mix::Vod).muted,
        c.monitor_muted ==> send_level(c, m, Mix::Monitor).muted,
        c.stream_muted ==> send_level(c, m, Mix::Stream).muted,
        c.vod_muted ==> send_level(c, m, Mix::Vod).muted,
        send_level(c, m, Mix::Monitor).muted ==> c.monitor_muted,
        send_level(c, m, Mix::Stream).muted ==> c.stream_muted || m.stream_muted,
        send_level(c, m, Mix::Vod).muted ==> c.vod_muted || m.vod_muted,
{
}

/// The mixes do not touch each other: what a channel sends into one depends on
/// its own fader and mute there, and on that mix's master. The monitor send does
/// not depend on any master: the monitor output applies it once for all.
pub proof fn mixes_are_independent(c: ChannelConfig, m: MasterConfig, d: ChannelConfig, n: MasterConfig)
    ensures
        c.monitor_volume == d.monitor_volume && c.monitor_muted == d.monitor_muted ==> send_level(
            c,
            m,
            Mix::Monitor,
        ) == send_level(d, n, Mix::Monitor),
        c.stream_volume == d.stream_volume && c.stream_muted == d.stream_muted && m.stream_volume
            == n.stream_volume && m.stream_muted == n.stream_muted ==> send_level(c, m, Mix::Stream) == send_level(
            d,
            n,
            Mix::Stream,
        ),
        c.vod_volume == d.vod_volume && c.vod_muted == d.vod_muted && m.vod_volume == n.vod_volume && m.vod_muted
            == n.vod_muted ==> send_level(c, m, Mix::Vod) == send_level(d, n, Mix::Vod),
{
}

/// Every fader is heard: sends that sound alike come from faders and masters at
/// the same levels.
pub proof fn faders_are_heard(c: ChannelConfig, m: MasterConfig, d: ChannelConfig, n: MasterConfig)
    ensures
        send_level(c, m, Mix::Monitor) == send_level(d, n, Mix::Monitor) ==> c.monitor_volume == d.monitor_volume
            && c.monitor_muted == d.monitor_muted,
        send_level(c, m, Mix::Stream) == send_level(d, n, Mix::Stream) ==> c.stream_volume == d.stream_volume
            && m.stream_volume == n.stream_volume,
        send_level(c, m, Mix::Vod) == send_level(d, n, Mix::Vod) ==> c.vod_volume == d.vod_volume && m.vod_volume
            == n.vod_volume,
        send_level(c, m, Mix::Monitor).level == c.monitor_volume,
        send_level(c, m, Mix::Stream).level == c.stream_volume,
        send_level(c, m, Mix::Vod).level == c.vod_volume,
        send_level(c, m, Mix::Monitor).master is None,
        send_level(c, m, Mix::Stream).master == Some(m.stream_volume),
        send_level(c, m, Mix::Vod).master == Some(m.vod_volume),
{
}

/// A mix is called the same everywhere: its key is its label in small letters,
/// and its bus is named after it.
pub proof fn mix_names_agree(mix: Mix)
    ensures
        lower(mix.shown()) == mix.key(),
        lower(mix.bus()) == "crossfade_"@ + mix.key(),
        mix == Mix::Monitor ==> mix.key() == "monitor"@,
        mix == Mix::Stream ==> mix.key() == "stream"@,
        mix == Mix::Vod ==> mix.key() == "vod"@,
{
    reveal_strlit("Monitor");
    reveal_strlit("Stream");
    reveal_strlit("VOD");
    reveal_strlit("monitor");
    reveal_strlit("stream");
    reveal_strlit("vod");
    reveal_strlit("Crossfade_Monitor");
    reveal_strlit("Crossfade_Stream");
    reveal_strlit("Crossfade_Vod");
    reveal_strlit("crossfade_");
    assert(lower(mix.shown()) =~= mix.key());
    assert(lower(mix.bus()) =~= "crossfade_"@ + mix.key());
}

/// A channel's devices are named after its sink, and no two of them share a
/// name.
pub proof fn channel_devices_are_distinct(id: u64)
    ensures
        channel_sink(id) == "Crossfade_Ch"@ + dec(id as nat),
        fx::chain_sink(id) == channel_sink(id) + "_FX"@,
        fx::chain_source(id) == channel_sink(id) + "_FXOut"@,
        fx::vstin_sink(id) == channel_sink(id) + "_VSTIn"@,
        fx::vst_node(id) == channel_sink(id) + "_VST"@,
        fx::chain_sink(id).len() < fx::vst_node(id).len() < fx::chain_source(id).len(),
        fx::chain_source(id).len() == fx::vstin_sink(id).len(),
        fx::chain_source(id) != fx::vstin_sink(id),
{
    reveal_strlit("Crossfade_");
    reveal_strlit("Ch");
    reveal_strlit("Crossfade_Ch");
    reveal_strlit("_FX");
    reveal_strlit("_FXOut");
    reveal_strlit("_VST");
    reveal_strlit("_VSTIn");
    let d = dec(id as nat);
    assert(OWN_PREFIX@ + "Ch"@ =~= "Crossfade_Ch"@);
    assert(channel_sink(id) =~= "Crossfade_Ch"@ + d);
    assert(fx::chain_sink(id) =~= channel_sink(id) + "_FX"@);
    assert(fx::chain_source(id) =~= channel_sink(id) + "_FXOut"@);
    assert(fx::vstin_sink(id) =~= channel_sink(id) + "_VSTIn"@);
    assert(fx::vst_node(id) =~= channel_sink(id) + "_VST"@);
    let k = channel_sink(id).len() as int + 1;
    assert(fx::chain_source(id)[k] == 'F');
    assert(fx::vstin_sink(id)[k] == 'V');
}

/// A loopback runs from its source to its sink, both its streams carry its tag,
/// and the session manager restores neither their volume nor their device.
pub proof fn loopback_says_what_it_links(source: Seq<char>, sink: Seq<char>, tag: Seq<char>)
    ensures
        text::begins(loopback_text(source, sink, tag), "source=\""@ + source + "\" sink=\""@ + sink + "\" "@),
        occurs(
            loopback_text(source, sink, tag),
            "sink_input_properties='media.name=\""@ + tag
                + " out\" state.restore-props=false state.restore-target=false'"@,
        ),
        occurs(
            loopback_text(source, sink, tag),
            "source_output_properties='media.name=\""@ + tag
                + " in\" state.restore-props=false state.restore-target=false'"@,
        ),
{
    reveal_strlit("\" ");
    reveal_strlit("\" latency_msec=30 sink_input_properties='media.name=\"");
    reveal_strlit("sink_input_properties='media.name=\"");
    reveal_strlit(
        " out\" state.restore-props=false state.restore-target=false' source_output_properties='media.name=\"",
    );
    reveal_strlit(" out\" state.restore-props=false state.restore-target=false'");
    reveal_strlit("source_output_properties='media.name=\"");
    let t = loopback_text(source, sink, tag);
    let head = "source=\""@ + source + "\" sink=\""@ + sink;
    let a = "\" latency_msec=30 sink_input_properties='media.name=\""@;
    let b =
        " out\" state.restore-props=false state.restore-target=false' source_output_properties='media.name=\""@;
    let c = " in\" state.restore-props=false state.restore-target=false'"@;
    let x = head + "\" "@;
    assert(a.subrange(0, 2) =~= "\" "@);
    assert(t.subrange(0, x.len() as int) =~= x);
    let p = "sink_input_properties='media.name=\""@;
    let q = " out\" state.restore-props=false state.restore-target=false'"@;
    assert(a.subrange(a.len() - p.len(), a.len() as int) =~= p);
    assert(b.subrange(0, q.len() as int) =~= q);
    let y = p + tag + q;
    let i = head.len() + a.len() - p.len();
    assert(t.subrange(i, i + y.len()) =~= y);
    assert(text::stands_at(t, y, i));
    let r = "source_output_properties='media.name=\""@;
    assert(b.subrange(b.len() - r.len(), b.len() as int) =~= r);
    let z = r + tag + c;
    let j = t.len() - z.len();
    assert(t.subrange(j, j + z.len()) =~= z);
    assert(text::stands_at(t, z, j));
}

/// A Wave XLR is recognised by its description, or by its name in any case.
pub proof fn wave_xlr_ignores_case(name: Seq<char>, description: Seq<char>)
    ensures
        occurs(description, "Wave XLR"@) ==> wave_xlr(name, description),
        occurs(lower(name), "wave_xlr"@) || occurs(lower(name), "wave-xlr"@) ==> wave_xlr(name, description),
        wave_xlr(name, description) == wave_xlr(lower(name), description),
        wave_xlr(name, description) && !occurs(description, "Wave XLR"@) ==> occurs(lower(name), "wave_xlr"@)
            || occurs(lower(name), "wave-xlr"@),
{
    assert(lower(lower(name)) =~= lower(name));
}

/// The sends of a channel are kept apart: setting one leaves the others, and it
/// is the one that is found again.
pub proof fn sends_are_kept_apart(r: ChannelRuntime, mix: Mix, other: Mix, l: Loopback)
    ensures
        r.with_mix(mix, l).to_mix(mix) == l,
        other != mix ==> r.with_mix(mix, l).to_mix(other) == r.to_mix(other),
        r.with_mix(mix, l).input_loop == r.input_loop,
        r.to_mix(Mix::Monitor) == r.monitor_loop,
        r.to_mix(Mix::Stream) == r.stream_loop,
        r.to_mix(Mix::Vod) == r.vod_loop,
        r.with_mix(mix, r.to_mix(mix)) == r,
{
}

/// A device is shown as the server describes it, or by its name; a source counts as
/// the monitor of a sink by its name.
pub proof fn devices_are_taken_as_reported(
    s: SourceEntry,
    k: SinkEntry,
    name: Seq<char>,
    description: Option<&str>,
    volume: Level,
    channels: u8,
    index: u32,
    card: Option<u32>,
)
    ensures
        s.describes(name, description, volume, channels, index, card) ==> {
            &&& s.name@ == name && s.volume == volume && s.channels == channels && s.index == index && s.card == card
            &&& description is Some ==> s.description@ == description->0@
            &&& description is None ==> s.description@ == name
            &&& s.is_monitor <==> ends(name, ".monitor"@)
        },
        k.describes(name, description, volume, channels, card) ==> {
            &&& k.name@ == name && k.volume == volume && k.channels == channels && k.card == card
            &&& description is Some ==> k.description@ == description->0@
            &&& description is None ==> k.description@ == name
        },
{
}

} // verus!
