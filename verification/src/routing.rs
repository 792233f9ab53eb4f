//! The state of the audio graph and the decisions that bring the server in
//! line with the configuration.

use vstd::prelude::*;
use vstd::string::StringExecFns;

use crate::audio;
use crate::audio::{
    channel_sink, loopback_text, send_level, unquoted, wave_xlr, ChannelRuntime, Loopback, LoopbackRef, Mix,
    PendingWire, SendLevel, SinkEntry, SinkInputEntry, SourceEntry, SourceOutputEntry, INVALID_INDEX,
    LEGACY_PREFIX, MONITOR_SINK, OWN_PREFIX, STREAM_MIC, STREAM_SINK, VOD_MIC, VOD_SINK,
};
use crate::config::{Assignment, ChannelConfig, Config};
use crate::fx;
use crate::level::Level;
use crate::list::{filter_step, first, first_exists, first_is_at, first_is_least, retain};
use crate::text;
use crate::text::{begins, dec, occurs, trim};

verus! {

/// The audio graph as far as Crossfade made it, and what it last saw of the
/// rest of the server.
#[derive(Clone, Debug, PartialEq, Eq)]
pub struct PulseManager {
    /// The connection to the server is up.
    pub connected: bool,
    /// The mix buses exist.
    pub ready: bool,
    pub shutting_down: bool,
    /// Every module Crossfade loaded and has not unloaded.
    pub owned_modules: Vec<u32>,
    pub sinks: Vec<(u32, SinkEntry)>,
    pub sources: Vec<SourceEntry>,
    pub sink_inputs: Vec<SinkInputEntry>,
    pub source_outputs: Vec<SourceOutputEntry>,
    pub default_sink: Option<String>,
    pub default_source: Option<String>,
    /// Per-channel runtime state, one for each channel id.
    pub channels: Vec<ChannelRuntime>,
    /// Modules making up the optional VOD bus (null sink + remap-source),
    /// tracked separately so disabling the mix can unload exactly these.
    pub vod_modules: Vec<u32>,
    pub monitor_out: Loopback,
    pub monitor_out_generation: u64,
    pub monitor_out_pending: bool,
    /// Suppresses monitor-out creation while capture wiring is settling.
    /// The Wave XLR's firmware delivers a silent mic when its playback
    /// stream is opened before its capture stream, so capture must come up
    /// first.
    pub monitor_out_deferred: bool,
    pub refresh_queued: bool,
}

/// The runtime of a channel.
pub open spec fn runtime_is(id: u64) -> spec_fn(ChannelRuntime) -> bool {
    |r: ChannelRuntime| r.id == id
}

/// A module, where there is one.
pub open spec fn opt_module(m: Option<u32>) -> Seq<u32> {
    match m {
        Some(m) => seq![m],
        None => Seq::empty(),
    }
}

/// Modules after one was added.
pub open spec fn with_module(s: Seq<u32>, m: u32) -> Seq<u32> {
    if s.contains(m) {
        s
    } else {
        s.push(m)
    }
}

/// The modules that are not among those that go.
pub open spec fn staying(gone: Seq<u32>) -> spec_fn(u32) -> bool {
    |m: u32| !gone.contains(m)
}

/// Modules after some were removed.
pub open spec fn without(s: Seq<u32>, gone: Seq<u32>) -> Seq<u32> {
    s.filter(staying(gone))
}

/// The modules of a channel.
pub open spec fn modules_of(r: ChannelRuntime) -> Seq<u32> {
    opt_module(r.monitor_loop.module) + opt_module(r.stream_loop.module) + opt_module(r.vod_loop.module)
        + opt_module(r.input_loop.module) + opt_module(r.vstin_module) + opt_module(r.sink_module)
}

/// The arguments of a null sink with a description.
pub open spec fn null_sink_text(name: Seq<char>, desc: Seq<char>) -> Seq<char> {
    "sink_name="@ + name + " sink_properties='device.description=\""@ + desc + "\"'"@
}

/// The arguments of a null sink with a description.
fn null_sink_args(name: &str, desc: &str) -> (r: String)
    ensures
        r@ == null_sink_text(name@, desc@),
{
    let mut s = text::join("sink_name=", name);
    s.append(" sink_properties='device.description=\"");
    s.append(desc);
    s.append("\"'");
    s
}

/// How a channel's device is described to other software.
pub open spec fn channel_desc(id: u64, name: Seq<char>) -> Seq<char> {
    let clean = trim(name).filter(unquoted());
    if clean.len() == 0 {
        "Crossfade Channel "@ + dec(id as nat)
    } else {
        "Crossfade: "@ + clean
    }
}

/// How a channel's device is described to other software.
pub fn channel_description(id: u64, name: &str) -> (r: String)
    ensures
        r@ == channel_desc(id, name@),
{
    let t = text::trimmed(name);
    let clean = audio::sanitize_desc(t.as_str());
    if clean.as_str().is_empty() {
        text::numbered("Crossfade Channel ", id)
    } else {
        text::join("Crossfade: ", clean.as_str())
    }
}

/// What comes after tearing down a channel's routing.
#[derive(Clone, Debug, PartialEq, Eq)]
pub enum RebuildStep {
    /// Nothing: the graph is not up, or the channel is gone.
    Nothing,
    /// The channel has no input: stop its effects.
    Silence,
    /// Wire the channel from this source.
    Wire(String),
    /// Wait for the capture device.
    Park,
    /// Load the channel's null sink with these arguments, then wire the
    /// channel from its monitor.
    LoadSink(String),
}

/// What tearing down and recreating a channel's routing asks for.
#[derive(Clone, Debug, PartialEq, Eq)]
pub struct Rebuild {
    /// Modules to unload.
    pub unload: Vec<u32>,
    /// The channel is not configured any more: drop its effects.
    pub removed: bool,
    /// The generation that callbacks of this rebuild belong to.
    pub generation: u64,
    pub step: RebuildStep,
}

/// What became of a module that was loaded.
#[derive(Clone, Copy, Debug, PartialEq, Eq, Structural)]
pub enum Loaded {
    /// The server could not load it.
    Failed,
    /// It lost a race and must be unloaded.
    Stale,
    /// It is part of the graph now.
    Adopted,
}

/// Whether a module is in a list.
pub fn has_module(v: &Vec<u32>, x: u32) -> (r: bool)
    ensures
        r == v@.contains(x),
{
    let mut i: usize = 0;
    while i < v.len()
        invariant
            i <= v@.len(),
            forall|j: int| 0 <= j < i ==> v@[j] != x,
        decreases v@.len() - i,
    {
        if v[i] == x {
            return true;
        }
        i = i + 1;
    }
    false
}

/// Append a module, where there is one.
fn push_module(v: &mut Vec<u32>, m: Option<u32>)
    ensures
        final(v)@ == old(v)@ + opt_module(m),
{
    if let Some(m) = m {
        v.push(m);
    }
    assert(v@ =~= old(v)@ + opt_module(m));
}

/// Remove modules from a list.
fn remove_modules(v: &mut Vec<u32>, gone: &Vec<u32>)
    ensures
        final(v)@ == without(old(v)@, gone@),
{
    let keep = |m: &u32| -> (k: bool)
        ensures
            k == staying(gone@)(*m),
    { !has_module(gone, *m) };
    retain(v, keep, Ghost(staying(gone@)));
}

/// Add a module to a list.
fn add_module(v: &mut Vec<u32>, m: u32)
    ensures
        final(v)@ == with_module(old(v)@, m),
{
    if !has_module(v, m) {
        v.push(m);
    }
}

impl PulseManager {
    /// Nothing is known of the server and nothing was created on it.
    pub open spec fn is_reset(self) -> bool {
        &&& !self.connected
        &&& !self.ready
        &&& !self.shutting_down
        &&& self.owned_modules@.len() == 0
        &&& self.sinks@.len() == 0
        &&& self.sources@.len() == 0
        &&& self.sink_inputs@.len() == 0
        &&& self.source_outputs@.len() == 0
        &&& self.channels@.len() == 0
        &&& self.vod_modules@.len() == 0
        &&& self.monitor_out.is_idle()
        &&& !self.monitor_out_pending
        &&& !self.monitor_out_deferred
        &&& !self.refresh_queued
    }

    /// Every channel has one runtime at most.
    pub open spec fn wf(self) -> bool {
        forall|i: int, j: int|
            0 <= i < j < self.channels@.len() ==> (#[trigger] self.channels@[i]).id != (
            #[trigger] self.channels@[j]).id
    }

    /// Whether a channel has a runtime.
    pub open spec fn runs(self, id: u64) -> bool {
        exists|i: int| 0 <= i < self.channels@.len() && (#[trigger] self.channels@[i]).id == id
    }

    /// The position of a channel's runtime.
    pub open spec fn position(self, id: u64) -> int {
        first(self.channels@, runtime_is(id))
    }

    /// How often a channel was rebuilt.
    pub open spec fn generation_of(self, id: u64) -> u64 {
        if self.runs(id) {
            self.channels@[self.position(id)].generation
        } else {
            0
        }
    }

    /// The modules of a channel.
    pub open spec fn channel_modules(self, id: u64) -> Seq<u32> {
        if self.runs(id) {
            modules_of(self.channels@[self.position(id)])
        } else {
            Seq::empty()
        }
    }

    /// Whether what a callback of that generation brings comes too late.
    pub open spec fn is_stale(self, id: u64, generation: u64) -> bool {
        ||| !self.runs(id)
        ||| self.channels@[self.position(id)].generation != generation
        ||| self.shutting_down
    }

    /// Whether a source of that name exists.
    pub open spec fn source_exists(self, name: Seq<char>) -> bool {
        exists|i: int| 0 <= i < self.sources@.len() && (#[trigger] self.sources@[i]).name@ == name
    }

    /// Whether a sink of that name exists.
    pub open spec fn sink_exists(self, name: Seq<char>) -> bool {
        exists|i: int| 0 <= i < self.sinks@.len() && (#[trigger] self.sinks@[i]).1.name@ == name
    }

    /// Whether the graph is up.
    pub open spec fn is_active(self) -> bool {
        self.ready && !self.shutting_down
    }

    /// A manager that is not connected.
    pub fn new() -> (r: PulseManager)
        ensures
            r.is_reset(),
            r.default_sink is None,
            r.default_source is None,
            r.monitor_out_generation == 0,
            r.wf(),
            r.accounted(),
    {
        PulseManager {
            connected: false,
            ready: false,
            shutting_down: false,
            owned_modules: Vec::new(),
            sinks: Vec::new(),
            sources: Vec::new(),
            sink_inputs: Vec::new(),
            source_outputs: Vec::new(),
            default_sink: None,
            default_source: None,
            channels: Vec::new(),
            vod_modules: Vec::new(),
            monitor_out: Loopback::default(),
            monitor_out_generation: 0,
            monitor_out_pending: false,
            monitor_out_deferred: false,
            refresh_queued: false,
        }
    }

    /// What is left for a new connection.
    pub open spec fn reconnected(self, new: PulseManager) -> bool {
        &&& new.is_reset()
        &&& new.default_sink == self.default_sink
        &&& new.default_source == self.default_source
        &&& new.monitor_out_generation == self.monitor_out_generation
    }

    /// Forget everything before (re)connecting to the sound server. The
    /// generation of the monitor output keeps counting, so callbacks from an
    /// earlier connection stay recognisable.
    pub fn connect_server(&mut self)
        ensures
            old(self).reconnected(*final(self)),
            final(self).wf(),
            final(self).accounted(),
    {
        self.connected = false;
        self.ready = false;
        self.shutting_down = false;
        self.owned_modules = Vec::new();
        self.channels = Vec::new();
        self.vod_modules = Vec::new();
        self.monitor_out = Loopback::default();
        self.monitor_out_pending = false;
        self.monitor_out_deferred = false;
        self.sinks = Vec::new();
        self.sources = Vec::new();
        self.sink_inputs = Vec::new();
        self.source_outputs = Vec::new();
        self.refresh_queued = false;
    }

    /// The position of a channel's runtime, or the number of runtimes.
    fn find(&self, id: u64) -> (r: usize)
        ensures
            r == self.position(id),
            r <= self.channels@.len(),
            r < self.channels@.len() <==> self.runs(id),
            r < self.channels@.len() ==> self.channels@[r as int].id == id,
    {
        let mut i: usize = 0;
        while i < self.channels.len() && self.channels[i].id != id
            invariant
                i <= self.channels@.len(),
                forall|j: int| 0 <= j < i ==> !runtime_is(id)(#[trigger] self.channels@[j]),
            decreases self.channels@.len() - i,
        {
            i = i + 1;
        }
        proof {
            first_is_at(self.channels@, runtime_is(id), i as int);
            if self.runs(id) {
                let k = choose|k: int| 0 <= k < self.channels@.len() && (#[trigger] self.channels@[k]).id == id;
                first_exists(self.channels@, runtime_is(id), k);
            }
        }
        i
    }

    /// Whether what a callback of that generation brings comes too late.
    pub fn stale(&self, id: u64, generation: u64) -> (r: bool)
        ensures
            r == self.is_stale(id, generation),
    {
        let i = self.find(id);
        i >= self.channels.len() || self.channels[i].generation != generation || self.shutting_down
    }

    /// Whether a capture device exists, Crossfade's own among them.
    pub fn has_source(&self, name: &str) -> (r: bool)
        ensures
            r == self.source_exists(name@),
    {
        let mut i: usize = 0;
        while i < self.sources.len()
            invariant
                i <= self.sources@.len(),
                forall|j: int| 0 <= j < i ==> (#[trigger] self.sources@[j]).name@ != name@,
            decreases self.sources@.len() - i,
        {
            if text::same(self.sources[i].name.as_str(), name) {
                return true;
            }
            i = i + 1;
        }
        false
    }

    /// Whether an output device exists, Crossfade's own among them.
    pub fn has_sink(&self, name: &str) -> (r: bool)
        ensures
            r == self.sink_exists(name@),
    {
        let mut i: usize = 0;
        while i < self.sinks.len()
            invariant
                i <= self.sinks@.len(),
                forall|j: int| 0 <= j < i ==> (#[trigger] self.sinks@[j]).1.name@ != name@,
            decreases self.sinks@.len() - i,
        {
            if text::same(self.sinks[i].1.name.as_str(), name) {
                return true;
            }
            i = i + 1;
        }
        false
    }

    /// What comes after tearing down a channel that is configured.
    pub open spec fn step_for(self, id: u64, c: ChannelConfig, step: RebuildStep) -> bool {
        if !self.is_active() {
            step is Nothing
        } else {
            match c.assignment {
                None => step is Silence,
                Some(Assignment::Source { name }) => if self.source_exists(name@) {
                    step is Wire && step->Wire_0@ == name@
                } else {
                    step is Park
                },
                Some(_) => step is LoadSink && step->LoadSink_0@ == null_sink_text(
                    channel_sink(id),
                    channel_desc(id, c.name@),
                ),
            }
        }
    }

    /// The source a channel waits for after it was torn down.
    pub open spec fn awaited(self, c: ChannelConfig) -> Option<Seq<char>> {
        match c.assignment {
            Some(Assignment::Source { name }) => if self.is_active() && !self.source_exists(name@) {
                Some(name@)
            } else {
                None
            },
            _ => None,
        }
    }

    /// What rebuilding a channel asks for and leaves behind.
    pub open spec fn rebuilt(self, cfg: Config, id: u64, r: Rebuild, new: PulseManager) -> bool {
        let p = self.position(id);
        let c = cfg.channels@[cfg.position(id)];
        let rt = new.channels@[p];
        &&& r.unload@ == self.channel_modules(id)
        &&& r.generation == self.generation_of(id) + 1
        &&& r.removed == !cfg.has_channel(id)
        &&& if cfg.has_channel(id) {
            &&& self.step_for(id, c, r.step)
            &&& new.channels@ == if self.runs(id) {
                self.channels@.update(p, rt)
            } else {
                self.channels@.push(rt)
            }
            &&& rt.id == id
            &&& rt.generation == r.generation
            &&& rt.is_bare()
            &&& match self.awaited(c) {
                Some(name) => rt.pending_source is Some && rt.pending_source->0@ == name,
                None => rt.pending_source is None,
            }
        } else {
            &&& r.step is Nothing
            &&& new.channels@ == if self.runs(id) {
                self.channels@.remove(p)
            } else {
                self.channels@
            }
        }
        &&& new.owned_modules@ == without(self.owned_modules@, r.unload@)
        &&& new == (PulseManager { channels: new.channels, owned_modules: new.owned_modules, ..self })
    }

    /// Tear down and recreate the routing for one channel from its config.
    /// If the channel no longer exists in the config, this just tears it down.
    pub fn rebuild_channel(&mut self, cfg: &Config, id: u64) -> (r: Rebuild)
        requires
            old(self).generation_of(id) < u64::MAX,
        ensures
            old(self).rebuilt(*cfg, id, r, *final(self)),
            old(self).wf() ==> final(self).wf(),
            old(self).wf() ==> forall|g: u64|
                g <= old(self).generation_of(id) ==> #[trigger] final(self).is_stale(id, g),
            old(self).accounted() ==> final(self).accounted(),
    {
        let ghost before = self.channels@;
        let i = self.find(id);
        let n: usize = self.channels.len();
        let mut unload: Vec<u32> = Vec::new();
        let mut generation: u64 = 1;
        if i < n {
            let rt = &self.channels[i];
            generation = rt.generation + 1;
            push_module(&mut unload, rt.monitor_loop.module);
            push_module(&mut unload, rt.stream_loop.module);
            push_module(&mut unload, rt.vod_loop.module);
            push_module(&mut unload, rt.input_loop.module);
            push_module(&mut unload, rt.vstin_module);
            push_module(&mut unload, rt.sink_module);
            assert(unload@ =~= modules_of(*rt));
        }
        remove_modules(&mut self.owned_modules, &unload);
        let active = self.ready && !self.shutting_down;
        let c = match cfg.channel(id) {
            Some(c) => c,
            None => {
                if i < n {
                    self.channels.remove(i);
                }
                proof {
                    if old(self).wf() && i < n {
                        let after = self.channels@;
                        assert forall|a: int, b: int| 0 <= a < b < after.len() implies (#[trigger] after[a]).id
                            != (#[trigger] after[b]).id by {
                            let p = if a < i {
                                a
                            } else {
                                a + 1
                            };
                            let q = if b < i {
                                b
                            } else {
                                b + 1
                            };
                            assert(after[a] == before[p] && after[b] == before[q]);
                        }
                        if self.runs(id) {
                            let k = choose|k: int| 0 <= k < after.len() && (#[trigger] after[k]).id == id;
                            let q = if k < i {
                                k
                            } else {
                                k + 1
                            };
                            assert(before[q] == after[k]);
                            assert(before[i as int].id == id);
                        }
                    }
                }
                proof {
                    if old(self).accounted() {
                        let f = |p: Place|
                            match p {
                                Place::Channel(k, slot) => if i < n && k >= i {
                                    Place::Channel(k + 1, slot)
                                } else {
                                    p
                                },
                                _ => p,
                            };
                        old(self).rebuilt_account(*self, i as int, f, unload@);
                    }
                }
                return Rebuild { unload, removed: true, generation, step: RebuildStep::Nothing };
            },
        };
        let mut rt = ChannelRuntime::bare(id, generation);
        let step = if !active {
            RebuildStep::Nothing
        } else {
            match &c.assignment {
                None => RebuildStep::Silence,
                Some(Assignment::Source { name }) => {
                    if self.has_source(name.as_str()) {
                        RebuildStep::Wire(name.clone())
                    } else {
                        rt.pending_source = Some(name.clone());
                        RebuildStep::Park
                    }
                },
                Some(_) => {
                    let sink = audio::channel_sink_name(id);
                    let desc = channel_description(id, c.name.as_str());
                    RebuildStep::LoadSink(null_sink_args(sink.as_str(), desc.as_str()))
                },
            }
        };
        if i < n {
            self.channels[i] = rt;
        } else {
            self.channels.push(rt);
        }
        proof {
            let after = self.channels@;
            assert(after[i as int].id == id);
            assert forall|j: int| 0 <= j < i implies (#[trigger] after[j]).id != id by {
                first_is_least(before, runtime_is(id));
                assert(!runtime_is(id)(before[j]));
            }
            first_is_at(after, runtime_is(id), i as int);
            if old(self).wf() {
                assert forall|a: int, b: int| 0 <= a < b < after.len() implies (#[trigger] after[a]).id != (
                #[trigger] after[b]).id by {
                    if a == i {
                        if i < n {
                            assert(before[a].id != before[b].id);
                        }
                    } else if b == i {
                        assert(after[a].id != id);
                    } else {
                        assert(before[a].id != before[b].id);
                    }
                }
            }
        }
        proof {
            if old(self).accounted() {
                old(self).rebuilt_account(*self, i as int, |p: Place| p, unload@);
            }
        }
        Rebuild { unload, removed: false, generation, step }
    }
}

/// What becomes of a module the server reports under an index.
pub open spec fn outcome(idx: u32, stale: bool) -> Loaded {
    if idx == INVALID_INDEX {
        Loaded::Failed
    } else if stale {
        Loaded::Stale
    } else {
        Loaded::Adopted
    }
}

/// The stream name of a channel's send into a mix.
pub open spec fn send_tag(id: u64, mix: Mix) -> Seq<char> {
    "Crossfade ch"@ + dec(id as nat) + " "@ + mix.key()
}

/// The stream name of the loopback into a channel's effects.
pub open spec fn input_tag(id: u64) -> Seq<char> {
    "Crossfade ch"@ + dec(id as nat) + " fx-in"@
}

/// The name of the monitor of a sink.
pub open spec fn monitor_of(sink: Seq<char>) -> Seq<char> {
    sink + ".monitor"@
}

/// A channel's send into a mix that is to be loaded.
#[derive(Clone, Debug, PartialEq, Eq)]
pub struct SendLoad {
    pub mix: Mix,
    pub args: String,
}

/// The mixes that channels send into.
pub open spec fn mixes(vod: bool) -> Seq<Mix> {
    if vod {
        seq![Mix::Monitor, Mix::Stream, Mix::Vod]
    } else {
        seq![Mix::Monitor, Mix::Stream]
    }
}

/// Whether a loopback differs from another only in that it is marked as being
/// loaded for a sink.
pub open spec fn marked(old: Loopback, new: Loopback, sink: Seq<char>) -> bool {
    &&& new == (Loopback { target: new.target, ..old })
    &&& new.target@ == sink
}

/// Whether a runtime differs from another only in that its sends are marked as
/// being loaded.
pub open spec fn sends_marked(old: ChannelRuntime, new: ChannelRuntime, vod: bool) -> bool {
    &&& new == (ChannelRuntime {
        monitor_loop: new.monitor_loop,
        stream_loop: new.stream_loop,
        vod_loop: new.vod_loop,
        ..old
    })
    &&& marked(old.monitor_loop, new.monitor_loop, MONITOR_SINK@)
    &&& marked(old.stream_loop, new.stream_loop, STREAM_SINK@)
    &&& if vod {
        marked(old.vod_loop, new.vod_loop, VOD_SINK@)
    } else {
        new.vod_loop == old.vod_loop
    }
}

/// The FX bridge of a channel while it comes up.
#[derive(Clone, Debug, PartialEq, Eq)]
pub enum BridgeStep {
    /// The channel was rebuilt meanwhile.
    Stale,
    /// Load the null sink in front of the VST rack with these arguments.
    LoadVstIn(String),
    /// Wait for the chain's nodes.
    Wait,
}

/// The arguments of the null sink in front of a VST rack.
pub open spec fn vstin_text(id: u64) -> Seq<char> {
    null_sink_text(
        fx::vstin_sink(id),
        "Crossfade Ch "@ + dec(id as nat) + " VST In (internal)"@,
    )
}

/// A volume and mute to set on a stream.
#[derive(Clone, Copy, Debug, PartialEq, Eq, Structural)]
pub struct StreamLevel {
    pub sink_input: u32,
    pub channels: u8,
    pub send: SendLevel,
}

impl PulseManager {
    /// What taking in the null sink of a channel answers, and what it leaves.
    pub open spec fn sink_taken(self, id: u64, generation: u64, idx: u32, r: Loaded, new: PulseManager) -> bool {
        &&& r == outcome(idx, self.is_stale(id, generation))
        &&& !(r is Adopted) ==> new == self
        &&& r is Adopted ==> {
            let p = self.position(id);
            &&& new.owned_modules@ == with_module(self.owned_modules@, idx)
            &&& new.channels@ == self.channels@.update(
                p,
                ChannelRuntime { sink_module: Some(idx), ..self.channels@[p] },
            )
            &&& new == (PulseManager {
                channels: new.channels,
                owned_modules: new.owned_modules,
                ..self
            })
        }
    }

    /// Take in the null sink loaded for a channel.
    pub fn channel_sink_loaded(&mut self, id: u64, generation: u64, idx: u32) -> (r: Loaded)
        ensures
            old(self).sink_taken(id, generation, idx, r, *final(self)),
            old(self).wf() ==> final(self).wf(),
            old(self).accounted() && !old(self).owned_modules@.contains(idx) ==> final(self).accounted(),
    {
        if idx == INVALID_INDEX {
            return Loaded::Failed;
        }
        if self.stale(id, generation) {
            return Loaded::Stale;
        }
        let i = self.find(id);
        add_module(&mut self.owned_modules, idx);
        self.channels[i].sink_module = Some(idx);
        proof {
            if old(self).accounted() && !old(self).owned_modules@.contains(idx) {
                account_grows(*old(self), *self, Place::Channel(i as int, 5), idx);
            }
        }
        Loaded::Adopted
    }

    /// What taking in the null sink of a VST rack answers, and what it leaves.
    pub open spec fn vstin_taken(self, id: u64, generation: u64, idx: u32, r: Loaded, new: PulseManager) -> bool {
        &&& r == outcome(idx, self.is_stale(id, generation))
        &&& !(r is Adopted) ==> new == self
        &&& r is Adopted ==> {
            let p = self.position(id);
            &&& new.owned_modules@ == with_module(self.owned_modules@, idx)
            &&& new.channels@ == self.channels@.update(
                p,
                ChannelRuntime { vstin_module: Some(idx), ..self.channels@[p] },
            )
            &&& new == (PulseManager {
                channels: new.channels,
                owned_modules: new.owned_modules,
                ..self
            })
        }
    }

    /// Take in the null sink loaded in front of a channel's VST rack.
    pub fn vstin_loaded(&mut self, id: u64, generation: u64, idx: u32) -> (r: Loaded)
        ensures
            old(self).vstin_taken(id, generation, idx, r, *final(self)),
            old(self).wf() ==> final(self).wf(),
            old(self).accounted() && !old(self).owned_modules@.contains(idx) ==> final(self).accounted(),
    {
        if idx == INVALID_INDEX {
            return Loaded::Failed;
        }
        if self.stale(id, generation) {
            return Loaded::Stale;
        }
        let i = self.find(id);
        add_module(&mut self.owned_modules, idx);
        self.channels[i].vstin_module = Some(idx);
        proof {
            if old(self).accounted() && !old(self).owned_modules@.contains(idx) {
                account_grows(*old(self), *self, Place::Channel(i as int, 4), idx);
            }
        }
        Loaded::Adopted
    }

    /// What taking in the loopback into the effects answers, and what it leaves.
    pub open spec fn input_taken(
        self,
        id: u64,
        generation: u64,
        source: Seq<char>,
        sink: Seq<char>,
        idx: u32,
        r: Loaded,
        new: PulseManager,
    ) -> bool {
        &&& r == outcome(idx, self.is_stale(id, generation))
        &&& !(r is Adopted) ==> new == self
        &&& r is Adopted ==> {
            let p = self.position(id);
            let l = new.channels@[p].input_loop;
            &&& l.is_loaded(idx, sink, source)
            &&& new.owned_modules@ == with_module(self.owned_modules@, idx)
            &&& new.channels@ == self.channels@.update(
                p,
                ChannelRuntime { input_loop: l, ..self.channels@[p] },
            )
            &&& new == (PulseManager {
                channels: new.channels,
                owned_modules: new.owned_modules,
                ..self
            })
        }
    }

    /// Take in the loopback loaded to feed a channel's effects.
    pub fn input_loaded(&mut self, id: u64, generation: u64, source: &str, sink: &str, idx: u32) -> (r: Loaded)
        ensures
            old(self).input_taken(id, generation, source@, sink@, idx, r, *final(self)),
            old(self).wf() ==> final(self).wf(),
            old(self).accounted() && !old(self).owned_modules@.contains(idx) ==> final(self).accounted(),
    {
        if idx == INVALID_INDEX {
            return Loaded::Failed;
        }
        if self.stale(id, generation) {
            return Loaded::Stale;
        }
        let i = self.find(id);
        add_module(&mut self.owned_modules, idx);
        self.channels[i].input_loop = Loopback::loaded(idx, sink, source);
        proof {
            if old(self).accounted() && !old(self).owned_modules@.contains(idx) {
                account_grows(*old(self), *self, Place::Channel(i as int, 3), idx);
            }
        }
        Loaded::Adopted
    }

    /// Whether a send into a mix that was loaded comes too late. The VOD mix
    /// may have been disabled, and its bus unloaded, while the load was in
    /// flight.
    pub open spec fn send_is_stale(self, cfg: Config, id: u64, generation: u64, mix: Mix) -> bool {
        self.is_stale(id, generation) || (mix == Mix::Vod && !cfg.vod_mix_enabled)
    }

    /// What taking in a send answers, and what it leaves.
    pub open spec fn send_taken(
        self,
        cfg: Config,
        id: u64,
        generation: u64,
        mix: Mix,
        source: Seq<char>,
        idx: u32,
        r: Loaded,
        new: PulseManager,
    ) -> bool {
        &&& r == outcome(idx, self.send_is_stale(cfg, id, generation, mix))
        &&& !(r is Adopted) ==> new == self
        &&& r is Adopted ==> {
            let p = self.position(id);
            let l = new.channels@[p].to_mix(mix);
            &&& l.is_loaded(idx, mix.bus(), source)
            &&& new.owned_modules@ == with_module(self.owned_modules@, idx)
            &&& new.channels@ == self.channels@.update(
                p,
                self.channels@[p].with_mix(mix, l),
            )
            &&& new == (PulseManager {
                channels: new.channels,
                owned_modules: new.owned_modules,
                ..self
            })
        }
    }

    /// Take in a loopback loaded as a channel's send into a mix.
    pub fn send_loaded(&mut self, cfg: &Config, id: u64, generation: u64, mix: Mix, source: &str, idx: u32) -> (r:
        Loaded)
        ensures
            old(self).send_taken(*cfg, id, generation, mix, source@, idx, r, *final(self)),
            old(self).wf() ==> final(self).wf(),
            old(self).accounted() && !old(self).owned_modules@.contains(idx) ==> final(self).accounted(),
    {
        if idx == INVALID_INDEX {
            return Loaded::Failed;
        }
        if self.stale(id, generation) || (mix == Mix::Vod && !cfg.vod_mix_enabled) {
            return Loaded::Stale;
        }
        let i = self.find(id);
        add_module(&mut self.owned_modules, idx);
        let rt = &mut self.channels[i];
        let l = rt.mix_loop_mut(mix);
        *l = Loopback::loaded(idx, mix.sink(), source);
        proof {
            if old(self).accounted() && !old(self).owned_modules@.contains(idx) {
                account_grows(*old(self), *self, Place::Channel(i as int, mix_slot(mix)), idx);
            }
        }
        Loaded::Adopted
    }

    /// What a send into a mix is loaded with, and how it is marked.
    pub open spec fn send_made(self, id: u64, source: Seq<char>, mix: Mix, r: Option<SendLoad>, new: PulseManager) -> bool {
        &&& r is Some <==> self.connected
        &&& r is Some ==> r->0.mix == mix && r->0.args@ == loopback_text(source, mix.bus(), send_tag(id, mix))
        &&& r is None || !self.runs(id) ==> new == self
        &&& r is Some && self.runs(id) ==> {
            let p = self.position(id);
            let l = new.channels@[p].to_mix(mix);
            &&& marked(self.channels@[p].to_mix(mix), l, mix.bus())
            &&& new.channels@ == self.channels@.update(
                p,
                self.channels@[p].with_mix(mix, l),
            )
            &&& new == (PulseManager { channels: new.channels, ..self })
        }
    }

    /// One channel's send into one mix bus. The send is marked as in flight (a
    /// target with no module), so it is not created twice while its module
    /// loads. Without a connection nothing is loaded.
    pub fn create_mix_loopback(&mut self, id: u64, source: &str, mix: Mix) -> (r: Option<SendLoad>)
        ensures
            old(self).send_made(id, source@, mix, r, *final(self)),
            old(self).wf() ==> final(self).wf(),
            final(self).runs(id) == old(self).runs(id),
            final(self).position(id) == old(self).position(id),
            old(self).accounted() ==> final(self).accounted(),
    {
        if !self.connected {
            return None;
        }
        let mut tag = text::numbered("Crossfade ch", id);
        tag.append(" ");
        tag.append(mix.as_key());
        let args = audio::loopback_args(source, mix.sink(), tag.as_str());
        let i = self.find(id);
        let ghost before = self.channels@;
        if i < self.channels.len() {
            let rt = &mut self.channels[i];
            let l = rt.mix_loop_mut(mix);
            l.target = text::copy(mix.sink());
        }
        proof {
            first_is_least(before, runtime_is(id));
            assert forall|j: int| 0 <= j < i implies !runtime_is(id)(#[trigger] self.channels@[j]) by {
                assert(!runtime_is(id)(before[j]));
            }
            first_is_at(self.channels@, runtime_is(id), i as int);
            if old(self).runs(id) {
                assert(self.channels@[i as int].id == id);
            }
        }
        proof {
            if old(self).accounted() {
                account_stays(*old(self), *self);
            }
        }
        Some(SendLoad { mix, args })
    }

    /// What a channel's sends are loaded with, and how they are marked.
    pub open spec fn sends_made(self, vod: bool, id: u64, source: Seq<char>, r: Seq<SendLoad>, new: PulseManager) -> bool {
        &&& r.len() == if self.connected {
            mixes(vod).len()
        } else {
            0
        }
        &&& forall|i: int|
            0 <= i < r.len() ==> (#[trigger] r[i]).mix == mixes(vod)[i] && r[i].args@
                == loopback_text(source, r[i].mix.bus(), send_tag(id, r[i].mix))
        &&& !self.connected || !self.runs(id) ==> new == self
        &&& self.connected && self.runs(id) ==> {
            let p = self.position(id);
            &&& sends_marked(self.channels@[p], new.channels@[p], vod)
            &&& new.channels@ == self.channels@.update(p, new.channels@[p])
            &&& new == (PulseManager { channels: new.channels, ..self })
        }
    }

    /// A channel's sends into all mixes.
    pub fn create_channel_loopbacks(&mut self, cfg: &Config, id: u64, source: &str) -> (r: Vec<SendLoad>)
        ensures
            old(self).sends_made(cfg.vod_mix_enabled, id, source@, r@, *final(self)),
            old(self).wf() ==> final(self).wf(),
            old(self).accounted() ==> final(self).accounted(),
    {
        let mut r: Vec<SendLoad> = Vec::new();
        let ghost s0 = *self;
        if let Some(l) = self.create_mix_loopback(id, source, Mix::Monitor) {
            r.push(l);
        }
        if let Some(l) = self.create_mix_loopback(id, source, Mix::Stream) {
            r.push(l);
        }
        if cfg.vod_mix_enabled {
            if let Some(l) = self.create_mix_loopback(id, source, Mix::Vod) {
                r.push(l);
            }
        }
        proof {
            if s0.connected && s0.runs(id) {
                let p = s0.position(id);
                first_is_least(s0.channels@, runtime_is(id));
                assert(self.channels@ =~= s0.channels@.update(p, self.channels@[p]));
            }
        }
        r
    }

    /// What follows when the effects of a channel are starting.
    pub open spec fn bridge_noted(
        self,
        id: u64,
        generation: u64,
        source: Seq<char>,
        use_vst: bool,
        r: BridgeStep,
        new: PulseManager,
    ) -> bool {
        let p = self.position(id);
        let lost = self.runs(id) && self.channels@[p].generation != generation;
        &&& if lost {
            r is Stale
        } else if use_vst {
            r is LoadVstIn && r->LoadVstIn_0@ == vstin_text(id)
        } else {
            r is Wait
        }
        &&& lost || !self.runs(id) ==> new == self
        &&& !lost && self.runs(id) ==> {
            let w = new.channels@[p].pending_wire;
            &&& w is Some
            &&& w->0.source@ == source
            &&& w->0.use_vst == use_vst
            &&& new.channels@ == self.channels@.update(
                p,
                ChannelRuntime { pending_wire: w, ..self.channels@[p] },
            )
            &&& new == (PulseManager { channels: new.channels, ..self })
        }
    }

    /// Take note that a channel's effects are starting, so that the channel is
    /// wired when their nodes appear.
    pub fn bridge_started(&mut self, id: u64, generation: u64, source: &str, use_vst: bool) -> (r: BridgeStep)
        ensures
            old(self).bridge_noted(id, generation, source@, use_vst, r, *final(self)),
            old(self).wf() ==> final(self).wf(),
            old(self).accounted() ==> final(self).accounted(),
    {
        let i = self.find(id);
        if i < self.channels.len() {
            if self.channels[i].generation != generation {
                return BridgeStep::Stale;
            }
            self.channels[i].pending_wire = Some(PendingWire { source: text::copy(source), use_vst });
        }
        proof {
            if old(self).accounted() {
                account_stays(*old(self), *self);
            }
        }
        if use_vst {
            let name = fx::vstin_sink_name(id);
            let mut desc = text::numbered("Crossfade Ch ", id);
            desc.append(" VST In (internal)");
            BridgeStep::LoadVstIn(null_sink_args(name.as_str(), desc.as_str()))
        } else {
            BridgeStep::Wait
        }
    }

    /// The arguments of the unity-gain loopback feeding the channel input into
    /// the FX bridge.
    pub fn input_loop_args(id: u64, source: &str, sink: &str) -> (r: String)
        ensures
            r@ == loopback_text(source@, sink@, input_tag(id)),
    {
        let mut tag = text::numbered("Crossfade ch", id);
        tag.append(" fx-in");
        audio::loopback_args(source, sink, tag.as_str())
    }

    /// Volume and mute of a channel's send, where its stream is known.
    pub fn apply_channel_mix(&self, cfg: &Config, id: u64, mix: Mix) -> (r: Option<StreamLevel>)
        ensures
            r == self.send_setting(*cfg, id, mix),
    {
        let c = match cfg.channel(id) {
            Some(c) => c,
            None => {
                return None;
            },
        };
        let i = self.find(id);
        if i >= self.channels.len() {
            return None;
        }
        let l = self.channels[i].mix_loop(mix);
        match l.sink_input {
            Some(si) => Some(
                StreamLevel {
                    sink_input: si,
                    channels: l.channels,
                    send: audio::mix_levels(c, &cfg.master, mix),
                },
            ),
            None => None,
        }
    }

    /// What the monitor output is set to.
    pub open spec fn master_set(self, cfg: Config, r: Option<StreamLevel>) -> bool {
        match self.monitor_out.sink_input {
            Some(si) => r == Some(
                StreamLevel {
                    sink_input: si,
                    channels: self.monitor_out.channels,
                    send: SendLevel {
                        level: cfg.master.monitor_volume,
                        master: None,
                        muted: cfg.master.monitor_muted,
                    },
                },
            ),
            None => r is None,
        }
    }

    /// Volume and mute of the monitor output, where its stream is known.
    pub fn apply_master_monitor(&self, cfg: &Config) -> (r: Option<StreamLevel>)
        ensures
            self.master_set(*cfg, r),
    {
        match self.monitor_out.sink_input {
            Some(si) => Some(
                StreamLevel {
                    sink_input: si,
                    channels: self.monitor_out.channels,
                    send: SendLevel {
                        level: cfg.master.monitor_volume,
                        master: None,
                        muted: cfg.master.monitor_muted,
                    },
                },
            ),
            None => None,
        }
    }

    /// What the loopback into the effects is set to.
    pub open spec fn input_set(self, id: u64, r: Option<StreamLevel>) -> bool {
        let l = self.channels@[self.position(id)].input_loop;
        if self.runs(id) && l.sink_input is Some {
            r == Some(
                StreamLevel {
                    sink_input: l.sink_input->0,
                    channels: l.channels,
                    send: SendLevel {
                        level: Level { bits: crate::level::ONE },
                        master: None,
                        muted: false,
                    },
                },
            )
        } else {
            r is None
        }
    }

    /// Unity gain on a channel's FX input loopback, where its stream is known.
    pub fn apply_input_loop(&self, id: u64) -> (r: Option<StreamLevel>)
        ensures
            self.input_set(id, r),
    {
        let i = self.find(id);
        if i >= self.channels.len() {
            return None;
        }
        let l = &self.channels[i].input_loop;
        match l.sink_input {
            Some(si) => Some(
                StreamLevel {
                    sink_input: si,
                    channels: l.channels,
                    send: SendLevel { level: Level::one(), master: None, muted: false },
                },
            ),
            None => None,
        }
    }
}

// ---- The monitor output -----------------------------------------------------

/// The loopback from the monitor bus to the headphones that is to be loaded.
#[derive(Clone, Debug, PartialEq, Eq)]
pub struct MonitorLoad {
    pub generation: u64,
    pub target: String,
    pub args: String,
}

/// What routing the monitor mix asks for.
#[derive(Clone, Debug, PartialEq, Eq)]
pub struct MonitorSetup {
    pub unload: Option<u32>,
    pub load: Option<MonitorLoad>,
}

impl PulseManager {
    /// The sink the monitor mix is to play on: the configured one where it
    /// exists, else the default one unless that is one of Crossfade's own.
    pub open spec fn monitor_target(self, cfg: Config) -> Option<Seq<char>> {
        if cfg.master.monitor_device is Some && self.sink_exists(cfg.master.monitor_device->0@) {
            Some(cfg.master.monitor_device->0@)
        } else if self.default_sink is Some && !begins(self.default_sink->0@, OWN_PREFIX@) {
            Some(self.default_sink->0@)
        } else {
            None
        }
    }

    /// The monitor output without its module and streams.
    pub open spec fn detached(l: Loopback) -> Loopback {
        Loopback { module: None, sink_input: None, source_output: None, ..l }
    }

    /// The sink the monitor mix is to play on.
    fn find_monitor_target(&self, cfg: &Config) -> (r: Option<String>)
        ensures
            r is Some <==> self.monitor_target(*cfg) is Some,
            r is Some ==> r->0@ == self.monitor_target(*cfg)->0,
    {
        if let Some(d) = &cfg.master.monitor_device {
            if self.has_sink(d.as_str()) {
                return Some(d.clone());
            }
        }
        if let Some(d) = &self.default_sink {
            if !text::starts_with(d.as_str(), OWN_PREFIX) {
                return Some(d.clone());
            }
        }
        None
    }

    /// What routing the monitor mix asks for and leaves behind.
    pub open spec fn output_set_up(self, cfg: Config, r: Option<MonitorSetup>, new: PulseManager) -> bool {
        &&& r is Some <==> self.is_active()
        &&& r is None ==> new == self
        &&& r is Some ==> {
            let target = self.monitor_target(cfg);
            let load = r->0.load;
            &&& r->0.unload == self.monitor_out.module
            &&& load is Some <==> target is Some && self.connected
            &&& load is Some ==> {
                &&& load->0.generation == self.monitor_out_generation + 1
                &&& load->0.target@ == target->0
                &&& load->0.args@ == loopback_text(monitor_of(MONITOR_SINK@), target->0, "Crossfade monitor-out"@)
            }
            &&& new.owned_modules@ == without(self.owned_modules@, opt_module(self.monitor_out.module))
            &&& new == (PulseManager {
                owned_modules: new.owned_modules,
                monitor_out: PulseManager::detached(self.monitor_out),
                monitor_out_generation: (self.monitor_out_generation + 1) as u64,
                monitor_out_pending: load is Some,
                monitor_out_deferred: false,
                ..self
            })
        }
    }

    /// Route the monitor mix to the configured (or default) hardware sink.
    pub fn setup_monitor_output(&mut self, cfg: &Config) -> (r: Option<MonitorSetup>)
        requires
            old(self).is_active() ==> old(self).monitor_out_generation < u64::MAX,
        ensures
            old(self).output_set_up(*cfg, r, *final(self)),
            old(self).accounted() ==> final(self).accounted(),
    {
        if !self.ready || self.shutting_down {
            return None;
        }
        self.monitor_out_generation = self.monitor_out_generation + 1;
        self.monitor_out_pending = false;
        self.monitor_out_deferred = false;
        let unload = self.monitor_out.module;
        let mut gone: Vec<u32> = Vec::new();
        push_module(&mut gone, unload);
        assert(gone@ =~= opt_module(unload));
        remove_modules(&mut self.owned_modules, &gone);
        self.monitor_out.module = None;
        self.monitor_out.sink_input = None;
        self.monitor_out.source_output = None;
        proof {
            if old(self).accounted() {
                without_keeps(old(self).owned_modules@, gone@);
                opt_holds(unload, unload->0);
                assert forall|p: Place| (#[trigger] self.recorded(p)) is Some implies self.owned_modules@.contains(
                    self.recorded(p)->0,
                ) by {
                    assert(old(self).recorded(p) == self.recorded(p));
                    opt_holds(unload, self.recorded(p)->0);
                    assert(old(self).recorded(Place::Monitor) == unload);
                }
                account_shrinks(*old(self), *self, |p: Place| p);
            }
        }
        let target = self.find_monitor_target(cfg);
        let ghost middle = *self;
        if !self.connected {
            return Some(MonitorSetup { unload, load: None });
        }
        match target {
            None => Some(MonitorSetup { unload, load: None }),
            Some(target) => {
                self.monitor_out_pending = true;
                proof {
                    if old(self).accounted() {
                        account_stays(middle, *self);
                    }
                }
                let source = text::join(MONITOR_SINK, ".monitor");
                let args = audio::loopback_args(source.as_str(), target.as_str(), "Crossfade monitor-out");
                let generation: u64 = self.monitor_out_generation;
                Some(MonitorSetup { unload, load: Some(MonitorLoad { generation, target, args }) })
            },
        }
    }

    /// What taking in the monitor output answers, and what it leaves.
    pub open spec fn output_taken(self, generation: u64, target: Seq<char>, idx: u32, r: Loaded, new: PulseManager) -> bool {
        &&& r == outcome(
            idx,
            self.monitor_out_generation != generation || self.shutting_down,
        )
        &&& !(r is Adopted) ==> new == (PulseManager { monitor_out_pending: false, ..self })
        &&& r is Adopted ==> {
            &&& new.monitor_out.is_loaded(idx, target, monitor_of(MONITOR_SINK@))
            &&& new.owned_modules@ == with_module(self.owned_modules@, idx)
            &&& new == (PulseManager {
                monitor_out: new.monitor_out,
                owned_modules: new.owned_modules,
                monitor_out_pending: false,
                ..self
            })
        }
    }

    /// Take in the loopback loaded to play the monitor mix.
    pub fn monitor_out_loaded(&mut self, generation: u64, target: &str, idx: u32) -> (r: Loaded)
        ensures
            old(self).output_taken(generation, target@, idx, r, *final(self)),
            old(self).accounted() && !old(self).owned_modules@.contains(idx) ==> final(self).accounted(),
    {
        self.monitor_out_pending = false;
        proof {
            if old(self).accounted() {
                account_stays(*old(self), *self);
            }
        }
        if idx == INVALID_INDEX {
            return Loaded::Failed;
        }
        if self.monitor_out_generation != generation || self.shutting_down {
            return Loaded::Stale;
        }
        add_module(&mut self.owned_modules, idx);
        let source = text::join(MONITOR_SINK, ".monitor");
        self.monitor_out = Loopback::loaded(idx, target, source.as_str());
        proof {
            if old(self).accounted() && !old(self).owned_modules@.contains(idx) {
                account_grows(*old(self), *self, Place::Monitor, idx);
            }
        }
        Loaded::Adopted
    }

    /// What the end of the wait for captures does.
    pub open spec fn deferral_ended(self, r: bool, new: PulseManager) -> bool {
        &&& r == self.monitor_out_deferred
        &&& new == (PulseManager { monitor_out_deferred: false, ..self })
    }

    /// The deferral of the monitor output has lasted long enough. Says whether
    /// it was still in force, in which case the graph is to be refreshed.
    pub fn deferral_expired(&mut self) -> (r: bool)
        ensures
            old(self).deferral_ended(r, *final(self)),
            old(self).accounted() ==> final(self).accounted(),
    {
        let was = self.monitor_out_deferred;
        self.monitor_out_deferred = false;
        proof {
            if old(self).accounted() {
                account_stays(*old(self), *self);
            }
        }
        was
    }

    /// Whether a channel fed by a capture device has its loopback running, or
    /// waits for a device that is not on the server.
    pub open spec fn is_settled(self, c: ChannelConfig) -> bool {
        let rt = self.channels@[self.position(c.id)];
        (c.assignment is Some && c.assignment->0 is Source) ==> {
            &&& self.runs(c.id)
            &&& rt.pending_source is Some || rt.monitor_loop.sink_input is Some
                || rt.input_loop.sink_input is Some
        }
    }

    /// Whether that holds of every channel.
    pub open spec fn all_settled(self, cfg: Config) -> bool {
        forall|i: int| 0 <= i < cfg.channels@.len() ==> self.is_settled(#[trigger] cfg.channels@[i])
    }

    /// Every `Source` channel either has its capture loopback running or is
    /// parked waiting for a device that is not on the server.
    pub fn source_channels_settled(&self, cfg: &Config) -> (r: bool)
        ensures
            r == self.all_settled(*cfg),
    {
        let mut i: usize = 0;
        while i < cfg.channels.len()
            invariant
                i <= cfg.channels@.len(),
                forall|j: int| 0 <= j < i ==> self.is_settled(#[trigger] cfg.channels@[j]),
            decreases cfg.channels@.len() - i,
        {
            let c = &cfg.channels[i];
            if let Some(Assignment::Source { .. }) = c.assignment {
                let k = self.find(c.id);
                if k >= self.channels.len() {
                    assert(!self.is_settled(cfg.channels@[i as int]));
                    return false;
                }
                let rt = &self.channels[k];
                if rt.pending_source.is_none() && rt.monitor_loop.sink_input.is_none()
                    && rt.input_loop.sink_input.is_none() {
                    assert(!self.is_settled(cfg.channels@[i as int]));
                    return false;
                }
            }
            i = i + 1;
        }
        true
    }

    /// Whether the configured monitor device appeared after the monitor output
    /// fell back to another sink.
    pub open spec fn should_retarget(self, cfg: Config) -> bool {
        &&& cfg.master.monitor_device is Some
        &&& cfg.master.monitor_device->0@ != self.monitor_out.target@
        &&& self.sink_exists(cfg.master.monitor_device->0@)
    }

    /// How a refresh ends.
    pub open spec fn refreshed(self, cfg: Config, r: bool, new: PulseManager) -> bool {
        let deferred = self.monitor_out_deferred && !self.all_settled(cfg);
        &&& new == (PulseManager { monitor_out_deferred: deferred, ..self })
        &&& r == (self.ready && !self.monitor_out_pending && !deferred && (self.monitor_out.module is None
            || self.should_retarget(cfg)))
    }

    /// The last step of a refresh: end the deferral once capture has settled,
    /// and say whether the monitor output is to be set up.
    pub fn finish_refresh(&mut self, cfg: &Config) -> (r: bool)
        ensures
            old(self).refreshed(*cfg, r, *final(self)),
            old(self).accounted() ==> final(self).accounted(),
    {
        if self.monitor_out_deferred && self.source_channels_settled(cfg) {
            self.monitor_out_deferred = false;
        }
        proof {
            if old(self).accounted() {
                account_stays(*old(self), *self);
            }
        }
        if !self.ready || self.monitor_out_pending || self.monitor_out_deferred {
            return false;
        }
        if self.monitor_out.module.is_none() {
            return true;
        }
        match &cfg.master.monitor_device {
            Some(d) => !text::same(d.as_str(), self.monitor_out.target.as_str()) && self.has_sink(d.as_str()),
            None => false,
        }
    }
}

// ---- Buses ------------------------------------------------------------------

/// The arguments of a mix bus.
pub open spec fn bus_text(name: Seq<char>, desc: Seq<char>, icon: Seq<char>) -> Seq<char> {
    "sink_name="@ + name + " sink_properties='device.description=\""@ + desc + "\" device.icon_name="@ + icon
        + "'"@
}

/// The arguments of the capture device that exposes a bus.
pub open spec fn mic_text(bus: Seq<char>, name: Seq<char>, desc: Seq<char>) -> Seq<char> {
    "master="@ + bus + ".monitor source_name="@ + name + " source_properties='device.description=\""@ + desc
        + "\" device.icon_name=audio-input-microphone'"@
}

/// The arguments of a mix's bus. Buses deliberately do not carry the name
/// users should look for, which belongs to the capture device in front of
/// them.
pub open spec fn mix_bus_text(mix: Mix) -> Seq<char> {
    match mix {
        Mix::Monitor => bus_text(MONITOR_SINK@, "Crossfade Monitor Bus"@, "audio-headphones"@),
        Mix::Stream => bus_text(STREAM_SINK@, "Crossfade Stream Bus"@, "audio-input-microphone"@),
        Mix::Vod => bus_text(VOD_SINK@, "Crossfade VOD Bus"@, "audio-input-microphone"@),
    }
}

/// The arguments of a mix's bus.
pub fn bus_args(mix: Mix) -> (r: String)
    ensures
        r@ == mix_bus_text(mix),
{
    let desc = match mix {
        Mix::Monitor => "Crossfade Monitor Bus",
        Mix::Stream => "Crossfade Stream Bus",
        Mix::Vod => "Crossfade VOD Bus",
    };
    let icon = match mix {
        Mix::Monitor => "audio-headphones",
        Mix::Stream => "audio-input-microphone",
        Mix::Vod => "audio-input-microphone",
    };
    let mut s = text::join("sink_name=", mix.sink());
    s.append(" sink_properties='device.description=\"");
    s.append(desc);
    s.append("\" device.icon_name=");
    s.append(icon);
    s.append("'");
    s
}

/// The arguments of the capture device of the stream mix, or of the VOD mix.
pub open spec fn mix_mic_text(vod: bool) -> Seq<char> {
    if vod {
        mic_text(VOD_SINK@, VOD_MIC@, "Crossfade VOD Mix"@)
    } else {
        mic_text(STREAM_SINK@, STREAM_MIC@, "Crossfade Stream Mix"@)
    }
}

/// Expose a mix bus as a real capture device ("Crossfade Stream Mix" /
/// "Crossfade VOD Mix") so applications that hide monitor sources can select
/// it as their microphone.
pub fn mix_mic_args(vod: bool) -> (r: String)
    ensures
        r@ == mix_mic_text(vod),
{
    let bus = if vod {
        VOD_SINK
    } else {
        STREAM_SINK
    };
    let name = if vod {
        VOD_MIC
    } else {
        STREAM_MIC
    };
    let desc = if vod {
        "Crossfade VOD Mix"
    } else {
        "Crossfade Stream Mix"
    };
    let mut s = text::join("master=", bus);
    s.append(".monitor source_name=");
    s.append(name);
    s.append(" source_properties='device.description=\"");
    s.append(desc);
    s.append("\" device.icon_name=audio-input-microphone'");
    s
}

/// Whether a module was left over by a crashed session.
pub open spec fn leftover(name: Seq<char>, arg: Seq<char>) -> bool {
    &&& name == "module-null-sink"@ || name == "module-loopback"@ || name == "module-remap-source"@
    &&& occurs(arg, OWN_PREFIX@) || occurs(arg, LEGACY_PREFIX@)
}

/// Whether a module was left over by a crashed session.
pub fn is_leftover(name: &str, arg: &str) -> (r: bool)
    ensures
        r == leftover(name@, arg@),
{
    (text::same(name, "module-null-sink") || text::same(name, "module-loopback") || text::same(
        name,
        "module-remap-source",
    )) && (text::contains(arg, OWN_PREFIX) || text::contains(arg, LEGACY_PREFIX))
}

/// What bringing the VOD bus in line with the configuration asks for.
#[derive(Clone, Debug, PartialEq, Eq)]
pub enum VodStep {
    Nothing,
    /// Unload these modules.
    Unload(Vec<u32>),
    /// Load the bus with these arguments.
    LoadBus(String),
}

/// The modules of the sends into the VOD mix.
pub open spec fn vod_sends(s: Seq<ChannelRuntime>) -> Seq<u32>
    decreases s.len(),
{
    if s.len() == 0 {
        Seq::empty()
    } else {
        vod_sends(s.drop_last()) + opt_module(s.last().vod_loop.module)
    }
}

/// The channels that are wired but do not send into the VOD mix yet.
pub open spec fn lacks_vod() -> spec_fn(ChannelRuntime) -> bool {
    |r: ChannelRuntime|
        r.monitor_loop.source_target@.len() > 0 && r.vod_loop.module is None && r.vod_loop.target@.len() == 0
}

/// A send into the VOD mix that is to be created.
#[derive(Clone, Debug, PartialEq, Eq)]
pub struct MissingSend {
    pub id: u64,
    pub generation: u64,
    pub source: String,
}

impl PulseManager {
    /// What the buses of the mixes are loaded with.
    pub open spec fn buses_made(vod: bool, r: Seq<SendLoad>) -> bool {
        &&& r.len() == mixes(vod).len()
        &&& forall|i: int|
            0 <= i < r.len() ==> (#[trigger] r[i]).mix == mixes(vod)[i] && r[i].args@
                == mix_bus_text(r[i].mix)
    }

    /// The buses to load.
    pub fn create_virtual_sinks(cfg: &Config) -> (r: Vec<SendLoad>)
        ensures
            PulseManager::buses_made(cfg.vod_mix_enabled, r@),
    {
        let mut r: Vec<SendLoad> = Vec::new();
        r.push(SendLoad { mix: Mix::Monitor, args: bus_args(Mix::Monitor) });
        r.push(SendLoad { mix: Mix::Stream, args: bus_args(Mix::Stream) });
        if cfg.vod_mix_enabled {
            r.push(SendLoad { mix: Mix::Vod, args: bus_args(Mix::Vod) });
        }
        r
    }

    /// What taking in a bus answers, and what it leaves.
    pub open spec fn bus_taken(self, mix: Mix, idx: u32, r: bool, new: PulseManager) -> bool {
        &&& r == (idx != INVALID_INDEX)
        &&& !r ==> new == (PulseManager { ready: false, ..self })
        &&& r ==> {
            &&& new.owned_modules@ == with_module(self.owned_modules@, idx)
            &&& new.vod_modules@ == if mix == Mix::Vod {
                self.vod_modules@.push(idx)
            } else {
                self.vod_modules@
            }
            &&& new == (PulseManager {
                owned_modules: new.owned_modules,
                vod_modules: new.vod_modules,
                ..self
            })
        }
    }

    /// Take in a bus loaded while the graph is set up. Says whether that
    /// worked; without its buses the graph is not ready.
    pub fn bus_loaded(&mut self, mix: Mix, idx: u32) -> (r: bool)
        ensures
            old(self).bus_taken(mix, idx, r, *final(self)),
            old(self).accounted() && !old(self).owned_modules@.contains(idx) ==> final(self).accounted(),
    {
        if idx == INVALID_INDEX {
            self.ready = false;
            proof {
                if old(self).accounted() {
                    account_stays(*old(self), *self);
                }
            }
            return false;
        }
        add_module(&mut self.owned_modules, idx);
        if mix == Mix::Vod {
            self.vod_modules.push(idx);
        }
        proof {
            if old(self).accounted() && !old(self).owned_modules@.contains(idx) {
                if mix == Mix::Vod {
                    account_grows(*old(self), *self, Place::Vod(old(self).vod_modules@.len() as int), idx);
                } else {
                    with_keeps(old(self).owned_modules@, idx);
                    account_stays(*old(self), *self);
                }
            }
        }
        true
    }

    /// What taking in the microphone of a mix answers, and what it leaves.
    pub open spec fn mic_taken(self, vod: bool, idx: u32, r: bool, new: PulseManager) -> bool {
        &&& r == (idx != INVALID_INDEX)
        &&& !r ==> new == self
        &&& r ==> {
            &&& new.owned_modules@ == with_module(self.owned_modules@, idx)
            &&& new.vod_modules@ == if vod {
                self.vod_modules@.push(idx)
            } else {
                self.vod_modules@
            }
            &&& new == (PulseManager {
                owned_modules: new.owned_modules,
                vod_modules: new.vod_modules,
                ..self
            })
        }
    }

    /// Take in the capture device loaded for a mix.
    pub fn mix_mic_loaded(&mut self, vod: bool, idx: u32) -> (r: bool)
        ensures
            old(self).mic_taken(vod, idx, r, *final(self)),
            old(self).accounted() && !old(self).owned_modules@.contains(idx) ==> final(self).accounted(),
    {
        if idx == INVALID_INDEX {
            return false;
        }
        add_module(&mut self.owned_modules, idx);
        if vod {
            self.vod_modules.push(idx);
        }
        proof {
            if old(self).accounted() && !old(self).owned_modules@.contains(idx) {
                if vod {
                    account_grows(*old(self), *self, Place::Vod(old(self).vod_modules@.len() as int), idx);
                } else {
                    with_keeps(old(self).owned_modules@, idx);
                    account_stays(*old(self), *self);
                }
            }
        }
        true
    }

    /// What becomes of the graph once it is up.
    pub open spec fn bootstrapped(self, r: bool, new: PulseManager) -> bool {
        &&& r == !self.shutting_down
        &&& new == if r {
            PulseManager { ready: true, monitor_out_deferred: true, ..self }
        } else {
            self
        }
    }

    /// All buses exist: the graph is ready. The monitor output is held back
    /// until the capture loopbacks are up. Says whether to go on.
    pub fn finish_bootstrap(&mut self) -> (r: bool)
        ensures
            old(self).bootstrapped(r, *final(self)),
            old(self).accounted() ==> final(self).accounted(),
    {
        if self.shutting_down {
            return false;
        }
        self.ready = true;
        self.monitor_out_deferred = true;
        proof {
            if old(self).accounted() {
                account_stays(*old(self), *self);
            }
        }
        true
    }

    /// What bringing the VOD bus in line asks for and leaves behind.
    pub open spec fn vod_applied(self, cfg: Config, r: VodStep, new: PulseManager) -> bool {
        let active = self.vod_modules@.len() > 0;
        if !self.is_active() || cfg.vod_mix_enabled == active {
            r is Nothing && new == self
        } else if cfg.vod_mix_enabled {
            &&& new == self
            &&& if self.connected {
                r is LoadBus && r->LoadBus_0@ == mix_bus_text(Mix::Vod)
            } else {
                r is Nothing
            }
        } else {
            &&& r is Unload
            &&& r->Unload_0@ == vod_sends(self.channels@) + self.vod_modules@
            &&& new.owned_modules@ == without(self.owned_modules@, r->Unload_0@)
            &&& new.vod_modules@.len() == 0
            &&& new.channels@.len() == self.channels@.len()
            &&& forall|i: int|
                0 <= i < self.channels@.len() ==> {
                    &&& (#[trigger] new.channels@[i]).vod_loop.is_idle()
                    &&& new.channels@[i] == (ChannelRuntime {
                        vod_loop: new.channels@[i].vod_loop,
                        ..self.channels@[i]
                    })
                }
            &&& new == (PulseManager {
                owned_modules: new.owned_modules,
                vod_modules: new.vod_modules,
                channels: new.channels,
                ..self
            })
        }
    }

    /// Bring the server state in line with `config.vod_mix_enabled`: create
    /// or tear down the VOD bus and every channel's send into it, without
    /// touching the monitor/stream wiring, so toggling the preference never
    /// interrupts audio.
    pub fn apply_vod_mix(&mut self, cfg: &Config) -> (r: VodStep)
        ensures
            old(self).vod_applied(*cfg, r, *final(self)),
            old(self).wf() ==> final(self).wf(),
            old(self).accounted() ==> final(self).accounted(),
    {
        let active = !self.vod_modules.is_empty();
        if !self.ready || self.shutting_down || cfg.vod_mix_enabled == active {
            return VodStep::Nothing;
        }
        if cfg.vod_mix_enabled {
            if self.connected {
                return VodStep::LoadBus(bus_args(Mix::Vod));
            }
            return VodStep::Nothing;
        }
        let ghost before = self.channels@;
        let n: usize = self.channels.len();
        let mut gone: Vec<u32> = Vec::new();
        let mut i: usize = 0;
        while i < n
            invariant
                i <= n,
                n == before.len(),
                before == old(self).channels@,
                self.channels@.len() == n,
                *self == (PulseManager { channels: self.channels, ..*old(self) }),
                gone@ == vod_sends(before.take(i as int)),
                forall|j: int|
                    0 <= j < i ==> {
                        &&& (#[trigger] self.channels@[j]).vod_loop.is_idle()
                        &&& self.channels@[j] == (ChannelRuntime {
                            vod_loop: self.channels@[j].vod_loop,
                            ..before[j]
                        })
                    },
                forall|j: int| i <= j < n ==> #[trigger] self.channels@[j] == before[j],
            decreases n - i,
        {
            assert(before.take(i + 1).drop_last() =~= before.take(i as int));
            assert(before.take(i + 1).last() == before[i as int]);
            let rt = &mut self.channels[i];
            push_module(&mut gone, rt.vod_loop.module);
            rt.vod_loop = Loopback::default();
            i = i + 1;
        }
        assert(before.take(n as int) =~= before);
        gone.append(&mut self.vod_modules);
        remove_modules(&mut self.owned_modules, &gone);
        proof {
            if old(self).wf() {
                assert forall|a: int, b: int| 0 <= a < b < self.channels@.len() implies (
                #[trigger] self.channels@[a]).id != (#[trigger] self.channels@[b]).id by {
                    assert(before[a].id != before[b].id);
                }
            }
        }
        proof {
            if old(self).accounted() {
                without_keeps(old(self).owned_modules@, gone@);
                vod_sends_are_slots(before);
                assert forall|p: Place| (#[trigger] self.recorded(p)) is Some implies self.owned_modules@.contains(
                    self.recorded(p)->0,
                ) by {
                    let m = self.recorded(p)->0;
                    assert(old(self).recorded(p) == Some(m));
                    if gone@.contains(m) {
                        joined_holds(vod_sends(before), old(self).vod_modules@, m);
                        if old(self).vod_modules@.contains(m) {
                            let k = choose|k: int|
                                0 <= k < old(self).vod_modules@.len() && old(self).vod_modules@[k] == m;
                            assert(old(self).recorded(Place::Vod(k)) == Some(m));
                        } else {
                            let k = choose|k: int|
                                0 <= k < before.len() && (#[trigger] before[k]).vod_loop.module == Some(m);
                            assert(old(self).recorded(Place::Channel(k, 2)) == Some(m));
                        }
                    }
                }
                account_shrinks(*old(self), *self, |p: Place| p);
            }
        }
        VodStep::Unload(gone)
    }

    /// What taking in the bus of the VOD mix answers, and what it leaves.
    pub open spec fn vod_bus_taken(self, cfg: Config, idx: u32, r: Loaded, new: PulseManager) -> bool {
        &&& r == outcome(idx, self.shutting_down || !cfg.vod_mix_enabled)
        &&& !(r is Adopted) ==> new == self
        &&& r is Adopted ==> {
            &&& new.owned_modules@ == with_module(self.owned_modules@, idx)
            &&& new.vod_modules@ == self.vod_modules@.push(idx)
            &&& new == (PulseManager {
                owned_modules: new.owned_modules,
                vod_modules: new.vod_modules,
                ..self
            })
        }
    }

    /// Take in the VOD bus.
    pub fn vod_bus_loaded(&mut self, cfg: &Config, idx: u32) -> (r: Loaded)
        ensures
            old(self).vod_bus_taken(*cfg, idx, r, *final(self)),
            old(self).accounted() && !old(self).owned_modules@.contains(idx) ==> final(self).accounted(),
    {
        if idx == INVALID_INDEX {
            return Loaded::Failed;
        }
        if self.shutting_down || !cfg.vod_mix_enabled {
            return Loaded::Stale;
        }
        add_module(&mut self.owned_modules, idx);
        self.vod_modules.push(idx);
        proof {
            if old(self).accounted() && !old(self).owned_modules@.contains(idx) {
                account_grows(*old(self), *self, Place::Vod(old(self).vod_modules@.len() as int), idx);
            }
        }
        Loaded::Adopted
    }

    /// Which sends into the VOD mix are yet to be made.
    pub open spec fn vod_sends_missing(self, r: Seq<MissingSend>) -> bool {
        let s = self.channels@.filter(lacks_vod());
        &&& r.len() == s.len()
        &&& forall|i: int|
            0 <= i < s.len() ==> {
                &&& (#[trigger] r[i]).id == s[i].id
                &&& r[i].generation == s[i].generation
                &&& r[i].source@ == s[i].monitor_loop.source_target@
            }
    }

    /// The sends to add once the VOD bus exists: one for every channel that is
    /// already wired. Parked channels pick it up when they wire, and a send
    /// that is still being loaded is not created twice.
    pub fn missing_vod_sends(&self) -> (r: Vec<MissingSend>)
        ensures
            self.vod_sends_missing(r@),
    {
        let mut r: Vec<MissingSend> = Vec::new();
        let ghost s = self.channels@;
        let ghost p = lacks_vod();
        proof {
            reveal(Seq::filter);
            assert(s.take(0).filter(p) =~= Seq::<ChannelRuntime>::empty());
        }
        let mut i: usize = 0;
        while i < self.channels.len()
            invariant
                i <= s.len(),
                s == self.channels@,
                p == lacks_vod(),
                r@.len() == s.take(i as int).filter(p).len(),
                forall|j: int|
                    0 <= j < r@.len() ==> {
                        let f = s.take(i as int).filter(p);
                        &&& (#[trigger] r@[j]).id == f[j].id
                        &&& r@[j].generation == f[j].generation
                        &&& r@[j].source@ == f[j].monitor_loop.source_target@
                    },
            decreases s.len() - i,
        {
            proof {
                crate::list::filter_step(s, i as int, p);
            }
            let rt = &self.channels[i];
            let source = &rt.monitor_loop.source_target;
            if !source.as_str().is_empty() && rt.vod_loop.module.is_none()
                && rt.vod_loop.target.as_str().is_empty() {
                r.push(MissingSend { id: rt.id, generation: rt.generation, source: source.clone() });
            }
            i = i + 1;
        }
        assert(s.take(s.len() as int) =~= s);
        r
    }
}

// ---- Devices that appear ----------------------------------------------------

/// The source of a name.
pub open spec fn source_is(name: Seq<char>) -> spec_fn(SourceEntry) -> bool {
    |s: SourceEntry| s.name@ == name
}

/// The sink of a name.
pub open spec fn sink_is(name: Seq<char>) -> spec_fn((u32, SinkEntry)) -> bool {
    |s: (u32, SinkEntry)| s.1.name@ == name
}

/// What the arrival of capture devices asks for.
#[derive(Clone, Debug, PartialEq, Eq)]
pub struct Arrivals {
    /// The channels to rebuild.
    pub ready: Vec<u64>,
    /// The monitor output was taken down until capture runs.
    pub bounced: bool,
    /// The module to unload for that.
    pub unload: Option<u32>,
}

impl PulseManager {
    /// The card of the source of a name.
    pub open spec fn source_card(self, name: Seq<char>) -> Option<u32> {
        let i = first(self.sources@, source_is(name));
        if i < self.sources@.len() {
            self.sources@[i].card
        } else {
            None
        }
    }

    /// The card of the sink of a name.
    pub open spec fn sink_card(self, name: Seq<char>) -> Option<u32> {
        let i = first(self.sinks@, sink_is(name));
        if i < self.sinks@.len() {
            self.sinks@[i].1.card
        } else {
            None
        }
    }

    /// The channels whose capture device has appeared.
    pub open spec fn has_arrived(self) -> spec_fn(ChannelRuntime) -> bool {
        |r: ChannelRuntime| r.pending_source is Some && self.source_exists(r.pending_source->0@)
    }

    /// Whether a sink sits on the card of a capture device that has appeared.
    pub open spec fn shares_card(self, sink: Seq<char>) -> bool {
        &&& self.sink_card(sink) is Some
        &&& exists|i: int|
            0 <= i < self.channels@.len() && (self.has_arrived())(#[trigger] self.channels@[i])
                && self.source_card(self.channels@[i].pending_source->0@) == self.sink_card(sink)
    }

    /// Whether the monitor output must make way for capture: it plays, or is
    /// configured to play, on the card of a device that has appeared.
    pub open spec fn must_bounce(self, cfg: Config) -> bool {
        &&& self.monitor_out.module is Some
        &&& self.shares_card(self.monitor_out.target@) || (cfg.master.monitor_device is Some
            && self.shares_card(cfg.master.monitor_device->0@))
    }

    /// The position of the source of a name, or the number of sources.
    fn find_source(&self, name: &str) -> (r: usize)
        ensures
            r == first(self.sources@, source_is(name@)),
            r <= self.sources@.len(),
            r < self.sources@.len() <==> self.source_exists(name@),
    {
        let mut i: usize = 0;
        while i < self.sources.len() && !text::same(self.sources[i].name.as_str(), name)
            invariant
                i <= self.sources@.len(),
                forall|j: int| 0 <= j < i ==> !source_is(name@)(#[trigger] self.sources@[j]),
            decreases self.sources@.len() - i,
        {
            i = i + 1;
        }
        proof {
            first_is_at(self.sources@, source_is(name@), i as int);
            if self.source_exists(name@) {
                let k = choose|k: int|
                    0 <= k < self.sources@.len() && (#[trigger] self.sources@[k]).name@ == name@;
                first_exists(self.sources@, source_is(name@), k);
            }
        }
        i
    }

    /// The position of the sink of a name, or the number of sinks.
    fn find_sink(&self, name: &str) -> (r: usize)
        ensures
            r == first(self.sinks@, sink_is(name@)),
            r <= self.sinks@.len(),
            r < self.sinks@.len() <==> self.sink_exists(name@),
    {
        let mut i: usize = 0;
        while i < self.sinks.len() && !text::same(self.sinks[i].1.name.as_str(), name)
            invariant
                i <= self.sinks@.len(),
                forall|j: int| 0 <= j < i ==> !sink_is(name@)(#[trigger] self.sinks@[j]),
            decreases self.sinks@.len() - i,
        {
            i = i + 1;
        }
        proof {
            first_is_at(self.sinks@, sink_is(name@), i as int);
            if self.sink_exists(name@) {
                let k = choose|k: int|
                    0 <= k < self.sinks@.len() && (#[trigger] self.sinks@[k]).1.name@ == name@;
                first_exists(self.sinks@, sink_is(name@), k);
            }
        }
        i
    }

    /// Whether a sink sits on one of some cards.
    fn on_card(&self, sink: &str, cards: &Vec<u32>) -> (r: bool)
        ensures
            r == (self.sink_card(sink@) is Some && cards@.contains(self.sink_card(sink@)->0)),
    {
        let k = self.find_sink(sink);
        if k < self.sinks.len() {
            match self.sinks[k].1.card {
                Some(c) => has_module(cards, c),
                None => false,
            }
        } else {
            false
        }
    }

    /// What the arrival of awaited sources asks for.
    pub open spec fn sources_arrived(self, cfg: Config, r: Option<Arrivals>, new: PulseManager) -> bool {
        let arrived = self.channels@.filter(self.has_arrived());
        &&& r is Some <==> self.is_active() && arrived.len() > 0
        &&& r is None ==> new == self
        &&& r is Some ==> {
            &&& r->0.ready@.len() == arrived.len()
            &&& forall|i: int| 0 <= i < arrived.len() ==> #[trigger] r->0.ready@[i] == arrived[i].id
            &&& r->0.bounced == self.must_bounce(cfg)
            &&& !r->0.bounced ==> r->0.unload is None && new == self
            &&& r->0.bounced ==> {
                &&& r->0.unload == self.monitor_out.module
                &&& new.owned_modules@ == without(
                    self.owned_modules@,
                    opt_module(self.monitor_out.module),
                )
                &&& new == (PulseManager {
                    owned_modules: new.owned_modules,
                    monitor_out: PulseManager::detached(self.monitor_out),
                    monitor_out_generation: (self.monitor_out_generation + 1) as u64,
                    monitor_out_deferred: true,
                    ..self
                })
            }
        }
    }

    /// Wire channels parked on a capture device that has now appeared. If
    /// the monitor output plays (or is configured to play) on the same card,
    /// tear it down first and let the deferral recreate it once the capture
    /// loopbacks run: the Wave XLR's firmware delivers a silent mic when its
    /// playback stream is opened before its capture stream.
    pub fn check_pending_sources(&mut self, cfg: &Config) -> (r: Option<Arrivals>)
        requires
            old(self).is_active() ==> old(self).monitor_out_generation < u64::MAX,
        ensures
            old(self).sources_arrived(*cfg, r, *final(self)),
            old(self).accounted() ==> final(self).accounted(),
    {
        if !self.ready || self.shutting_down {
            return None;
        }
        let mut ready: Vec<u64> = Vec::new();
        let mut cards: Vec<u32> = Vec::new();
        let ghost s = self.channels@;
        let ghost p = self.has_arrived();
        proof {
            reveal(Seq::filter);
            assert(s.take(0).filter(p) =~= Seq::<ChannelRuntime>::empty());
        }
        let mut i: usize = 0;
        while i < self.channels.len()
            invariant
                i <= s.len(),
                s == self.channels@,
                p == self.has_arrived(),
                *self == *old(self),
                ready@.len() == s.take(i as int).filter(p).len(),
                forall|j: int| 0 <= j < ready@.len() ==> #[trigger] ready@[j] == s.take(i as int).filter(p)[j].id,
                forall|c: u32| #[trigger]
                    cards@.contains(c) <==> exists|j: int|
                        0 <= j < i && p(#[trigger] s[j]) && self.source_card(s[j].pending_source->0@) == Some(c),
            decreases s.len() - i,
        {
            proof {
                crate::list::filter_step(s, i as int, p);
            }
            let ghost was = cards@;
            if let Some(name) = &self.channels[i].pending_source {
                let k = self.find_source(name.as_str());
                if k < self.sources.len() {
                    ready.push(self.channels[i].id);
                    if let Some(c) = self.sources[k].card {
                        cards.push(c);
                    }
                }
            }
            proof {
                assert forall|c: u32| #[trigger]
                    cards@.contains(c) <==> exists|j: int|
                        0 <= j < i + 1 && p(#[trigger] s[j]) && self.source_card(s[j].pending_source->0@)
                            == Some(c) by {
                    let here = p(s[i as int]) && self.source_card(s[i as int].pending_source->0@) == Some(c);
                    assert(cards@.contains(c) <==> was.contains(c) || here) by {
                        if was.contains(c) {
                            let k = choose|k: int| 0 <= k < was.len() && was[k] == c;
                            assert(cards@[k] == c);
                        }
                        if here {
                            assert(cards@[was.len() as int] == c);
                        }
                        if cards@.contains(c) {
                            let k = choose|k: int| 0 <= k < cards@.len() && cards@[k] == c;
                            if k < was.len() {
                                assert(was[k] == c);
                            }
                        }
                    }
                    if was.contains(c) {
                        let j = choose|j: int|
                            0 <= j < i && p(#[trigger] s[j]) && self.source_card(s[j].pending_source->0@)
                                == Some(c);
                        assert(p(s[j]));
                    }
                }
            }
            i = i + 1;
        }
        assert(s.take(s.len() as int) =~= s);
        if ready.is_empty() {
            return None;
        }
        let mut bounced = false;
        if self.monitor_out.module.is_some() {
            bounced = self.on_card(self.monitor_out.target.as_str(), &cards);
            if let Some(d) = &cfg.master.monitor_device {
                if self.on_card(d.as_str(), &cards) {
                    bounced = true;
                }
            }
        }
        assert(bounced == old(self).must_bounce(*cfg));
        if !bounced {
            return Some(Arrivals { ready, bounced, unload: None });
        }
        let unload = self.monitor_out.module;
        self.monitor_out_generation = self.monitor_out_generation + 1;
        self.monitor_out_deferred = true;
        let mut gone: Vec<u32> = Vec::new();
        push_module(&mut gone, unload);
        assert(gone@ =~= opt_module(unload));
        remove_modules(&mut self.owned_modules, &gone);
        self.monitor_out.module = None;
        self.monitor_out.sink_input = None;
        self.monitor_out.source_output = None;
        proof {
            if old(self).accounted() {
                without_keeps(old(self).owned_modules@, gone@);
                opt_holds(unload, unload->0);
                assert forall|p: Place| (#[trigger] self.recorded(p)) is Some implies self.owned_modules@.contains(
                    self.recorded(p)->0,
                ) by {
                    assert(old(self).recorded(p) == self.recorded(p));
                    opt_holds(unload, self.recorded(p)->0);
                    assert(old(self).recorded(Place::Monitor) == unload);
                }
                account_shrinks(*old(self), *self, |p: Place| p);
            }
        }
        Some(Arrivals { ready, bounced, unload })
    }
}

// ---- Streams that drift -----------------------------------------------------

/// The raw volume of unity gain.
pub const UNITY_RAW: u32 = 0x10000;

/// The raw volumes a channel's sends should have.
#[derive(Clone, Copy, Debug, PartialEq, Eq, Structural)]
pub struct SendRaws {
    pub monitor: u32,
    pub stream: u32,
    pub vod: u32,
}

/// A stream that is to be moved to a device.
#[derive(Clone, Debug, PartialEq, Eq)]
pub struct StreamMove {
    pub stream: u32,
    pub device: String,
}

/// What drifted from the configuration.
#[derive(Clone, Debug, PartialEq, Eq)]
pub struct DriftMoves {
    /// Playback streams to move to a sink.
    pub sinks: Vec<StreamMove>,
    /// Capture streams to move to a source.
    pub sources: Vec<StreamMove>,
    /// Loopbacks whose volume and mute must be applied again: the sends, the
    /// monitor output, then the loopbacks into effects.
    pub applies: Vec<LoopbackRef>,
}

/// A loopback with what it should be set to.
pub struct Managed {
    pub which: LoopbackRef,
    pub link: Loopback,
    pub raw: u32,
    pub mute: bool,
}

/// Moves as plain values.
pub open spec fn moves(s: Seq<StreamMove>) -> Seq<(u32, Seq<char>)> {
    Seq::new(s.len(), |i: int| (s[i].stream, s[i].device@))
}

/// The loopbacks into effects.
pub open spec fn feeds_effects() -> spec_fn(LoopbackRef) -> bool {
    |w: LoopbackRef| w is Input
}

/// The loopbacks that play in a mix or on the monitor device.
pub open spec fn plays_out() -> spec_fn(LoopbackRef) -> bool {
    |w: LoopbackRef| !(w is Input)
}

/// Loopbacks in the order in which they are set: those into effects come last.
pub open spec fn inputs_last(s: Seq<LoopbackRef>) -> Seq<LoopbackRef> {
    s.filter(plays_out()) + s.filter(feeds_effects())
}

/// Put the loopbacks into effects behind the others.
fn put_inputs_last(v: &Vec<LoopbackRef>) -> (r: Vec<LoopbackRef>)
    ensures
        r@ == inputs_last(v@),
{
    let mut out: Vec<LoopbackRef> = Vec::new();
    let mut late: Vec<LoopbackRef> = Vec::new();
    let ghost s = v@;
    proof {
        reveal(Seq::filter);
        assert(s.take(0).filter(plays_out()) =~= Seq::empty());
        assert(s.take(0).filter(feeds_effects()) =~= Seq::empty());
    }
    let mut i: usize = 0;
    while i < v.len()
        invariant
            i <= v@.len(),
            s == v@,
            out@ == s.take(i as int).filter(plays_out()),
            late@ == s.take(i as int).filter(feeds_effects()),
        decreases v@.len() - i,
    {
        proof {
            filter_step(s, i as int, plays_out());
            filter_step(s, i as int, feeds_effects());
        }
        if let LoopbackRef::Input(_) = v[i] {
            late.push(v[i]);
        } else {
            out.push(v[i]);
        }
        i = i + 1;
    }
    assert(s.take(i as int) =~= s);
    out.append(&mut late);
    out
}

/// The stream a module owns.
pub open spec fn input_of(module: u32) -> spec_fn(SinkInputEntry) -> bool {
    |e: SinkInputEntry| e.owner_module == Some(module)
}

/// The capture stream a module owns.
pub open spec fn output_of(module: u32) -> spec_fn(SourceOutputEntry) -> bool {
    |e: SourceOutputEntry| e.owner_module == Some(module)
}

/// The stream with an index.
pub open spec fn input_at(index: u32) -> spec_fn(SinkInputEntry) -> bool {
    |e: SinkInputEntry| e.index == index
}

/// The capture stream with an index.
pub open spec fn output_at(index: u32) -> spec_fn(SourceOutputEntry) -> bool {
    |e: SourceOutputEntry| e.index == index
}

/// The name of the sink with an index, as last listed.
pub open spec fn sink_name(s: Seq<(u32, SinkEntry)>, index: u32) -> Option<Seq<char>>
    decreases s.len(),
{
    if s.len() == 0 {
        None
    } else if s.last().0 == index {
        Some(s.last().1.name@)
    } else {
        sink_name(s.drop_last(), index)
    }
}

/// The name of the source with an index, as last listed.
pub open spec fn source_name(s: Seq<SourceEntry>, index: u32) -> Option<Seq<char>>
    decreases s.len(),
{
    if s.len() == 0 {
        None
    } else if s.last().index == index {
        Some(s.last().name@)
    } else {
        source_name(s.drop_last(), index)
    }
}

/// The distance of two numbers.
pub open spec fn distance(a: u32, b: u32) -> int {
    if a >= b {
        a - b
    } else {
        b - a
    }
}

impl PulseManager {
    /// A loopback with the streams its module opened, as far as they are on the
    /// server now and were not known before.
    pub open spec fn matched(self, l: Loopback) -> Loopback {
        let i = first(self.sink_inputs@, input_of(l.module->0));
        let o = first(self.source_outputs@, output_of(l.module->0));
        let heard = l.module is Some && l.sink_input is None && i < self.sink_inputs@.len();
        let recorded = l.module is Some && l.source_output is None && o < self.source_outputs@.len();
        Loopback {
            sink_input: if heard {
                Some(self.sink_inputs@[i].index)
            } else {
                l.sink_input
            },
            channels: if heard {
                self.sink_inputs@[i].channels
            } else {
                l.channels
            },
            source_output: if recorded {
                Some(self.source_outputs@[o].index)
            } else {
                l.source_output
            },
            ..l
        }
    }

    /// A runtime whose loopbacks are matched.
    pub open spec fn matched_runtime(self, r: ChannelRuntime) -> ChannelRuntime {
        ChannelRuntime {
            monitor_loop: self.matched(r.monitor_loop),
            stream_loop: self.matched(r.stream_loop),
            vod_loop: self.matched(r.vod_loop),
            input_loop: self.matched(r.input_loop),
            ..r
        }
    }

    /// Where the capture side of a loopback must be moved: it sits on another
    /// source than intended, and the intended one exists.
    pub open spec fn source_move(self, l: Loopback) -> Option<(u32, Seq<char>)> {
        let o = first(self.source_outputs@, output_at(l.source_output->0));
        if l.source_target@.len() > 0 && l.source_output is Some && o < self.source_outputs@.len()
            && source_name(self.sources@, self.source_outputs@[o].source) != Some(l.source_target@)
            && self.source_exists(l.source_target@) {
            Some((l.source_output->0, l.source_target@))
        } else {
            None
        }
    }

    /// Where the playback side of a loopback must be moved: it sits on another
    /// sink than intended.
    pub open spec fn sink_move(self, l: Loopback) -> Option<(u32, Seq<char>)> {
        let i = first(self.sink_inputs@, input_at(l.sink_input->0));
        if l.sink_input is Some && i < self.sink_inputs@.len() && l.target@.len() > 0 && sink_name(
            self.sinks@,
            self.sink_inputs@[i].sink,
        ) != Some(l.target@) {
            Some((l.sink_input->0, l.target@))
        } else {
            None
        }
    }

    /// Whether a loopback's volume or mute differs from what it should be.
    pub open spec fn drifted(self, l: Loopback, raw: u32, mute: bool) -> bool {
        let i = first(self.sink_inputs@, input_at(l.sink_input->0));
        &&& l.sink_input is Some
        &&& i < self.sink_inputs@.len()
        &&& distance(self.sink_inputs@[i].volume_raw, raw) > 1 || self.sink_inputs@[i].mute != mute
    }

    /// The loopbacks of one configured channel.
    pub open spec fn channel_links(self, cfg: Config, raws: Seq<SendRaws>, i: int) -> Seq<Managed> {
        let c = cfg.channels@[i];
        let rt = self.channels@[self.position(c.id)];
        if self.runs(c.id) {
            seq![
                Managed {
                    which: LoopbackRef::Mix(c.id, Mix::Monitor),
                    link: rt.monitor_loop,
                    raw: raws[i].monitor,
                    mute: send_level(c, cfg.master, Mix::Monitor).muted,
                },
                Managed {
                    which: LoopbackRef::Mix(c.id, Mix::Stream),
                    link: rt.stream_loop,
                    raw: raws[i].stream,
                    mute: send_level(c, cfg.master, Mix::Stream).muted,
                },
                Managed {
                    which: LoopbackRef::Mix(c.id, Mix::Vod),
                    link: rt.vod_loop,
                    raw: raws[i].vod,
                    mute: send_level(c, cfg.master, Mix::Vod).muted,
                },
                Managed {
                    which: LoopbackRef::Input(c.id),
                    link: rt.input_loop,
                    raw: UNITY_RAW,
                    mute: false,
                },
            ]
        } else {
            Seq::empty()
        }
    }

    /// The loopbacks of the first `n` configured channels.
    pub open spec fn links_upto(self, cfg: Config, raws: Seq<SendRaws>, n: int) -> Seq<Managed>
        decreases n,
    {
        if n <= 0 {
            Seq::empty()
        } else {
            self.links_upto(cfg, raws, n - 1) + self.channel_links(cfg, raws, n - 1)
        }
    }

    /// Every loopback, in the order in which they are checked: those of the
    /// channels, then the monitor output.
    pub open spec fn links(self, cfg: Config, raws: Seq<SendRaws>, master: u32) -> Seq<Managed> {
        self.links_upto(cfg, raws, cfg.channels@.len() as int).push(
            Managed {
                which: LoopbackRef::MonitorOut,
                link: self.monitor_out,
                raw: master,
                mute: cfg.master.monitor_muted,
            },
        )
    }

    /// The playback streams to move.
    pub open spec fn sink_moves(self, s: Seq<Managed>) -> Seq<(u32, Seq<char>)>
        decreases s.len(),
    {
        if s.len() == 0 {
            Seq::empty()
        } else {
            let rest = self.sink_moves(s.drop_last());
            match self.sink_move(s.last().link) {
                Some(m) => rest.push(m),
                None => rest,
            }
        }
    }

    /// The capture streams to move.
    pub open spec fn source_moves(self, s: Seq<Managed>) -> Seq<(u32, Seq<char>)>
        decreases s.len(),
    {
        if s.len() == 0 {
            Seq::empty()
        } else {
            let rest = self.source_moves(s.drop_last());
            match self.source_move(s.last().link) {
                Some(m) => rest.push(m),
                None => rest,
            }
        }
    }

    /// The loopbacks to set again, in the order in which they are checked.
    pub open spec fn reapplied(self, s: Seq<Managed>) -> Seq<LoopbackRef>
        decreases s.len(),
    {
        if s.len() == 0 {
            Seq::empty()
        } else {
            let rest = self.reapplied(s.drop_last());
            if self.drifted(s.last().link, s.last().raw, s.last().mute) {
                rest.push(s.last().which)
            } else {
                rest
            }
        }
    }

    /// Whether a loopback is as it should be: its streams, as far as they are
    /// on the server, are on the intended devices, with the intended volume
    /// and mute. A capture device that is missing cannot be asked for.
    pub open spec fn settled(self, x: Managed) -> bool {
        let l = x.link;
        let i = first(self.sink_inputs@, input_at(l.sink_input->0));
        let o = first(self.source_outputs@, output_at(l.source_output->0));
        let heard = self.sink_inputs@[i];
        &&& l.sink_input is Some && i < self.sink_inputs@.len() ==> {
            &&& l.target@.len() > 0 ==> sink_name(self.sinks@, heard.sink) == Some(l.target@)
            &&& distance(heard.volume_raw, x.raw) <= 1
            &&& heard.mute == x.mute
        }
        &&& l.source_output is Some && o < self.source_outputs@.len() && l.source_target@.len() > 0
            && self.source_exists(l.source_target@) ==> source_name(
            self.sources@,
            self.source_outputs@[o].source,
        ) == Some(l.source_target@)
    }

    /// What one more loopback adds to the corrections.
    proof fn one_more_link(self, s: Seq<Managed>, x: Managed)
        ensures
            self.sink_moves(s.push(x)) == match self.sink_move(x.link) {
                Some(m) => self.sink_moves(s).push(m),
                None => self.sink_moves(s),
            },
            self.source_moves(s.push(x)) == match self.source_move(x.link) {
                Some(m) => self.source_moves(s).push(m),
                None => self.source_moves(s),
            },
            self.reapplied(s.push(x)) == if self.drifted(x.link, x.raw, x.mute) {
                self.reapplied(s).push(x.which)
            } else {
                self.reapplied(s)
            },
    {
        assert(s.push(x).drop_last() =~= s);
    }

    /// The position of a playback stream, or the number of them.
    fn find_input(&self, index: u32) -> (r: usize)
        ensures
            r == first(self.sink_inputs@, input_at(index)),
            r <= self.sink_inputs@.len(),
    {
        let mut i: usize = 0;
        while i < self.sink_inputs.len() && self.sink_inputs[i].index != index
            invariant
                i <= self.sink_inputs@.len(),
                forall|j: int| 0 <= j < i ==> !input_at(index)(#[trigger] self.sink_inputs@[j]),
            decreases self.sink_inputs@.len() - i,
        {
            i = i + 1;
        }
        proof {
            first_is_at(self.sink_inputs@, input_at(index), i as int);
        }
        i
    }

    /// The position of a capture stream, or the number of them.
    fn find_output(&self, index: u32) -> (r: usize)
        ensures
            r == first(self.source_outputs@, output_at(index)),
            r <= self.source_outputs@.len(),
    {
        let mut i: usize = 0;
        while i < self.source_outputs.len() && self.source_outputs[i].index != index
            invariant
                i <= self.source_outputs@.len(),
                forall|j: int| 0 <= j < i ==> !output_at(index)(#[trigger] self.source_outputs@[j]),
            decreases self.source_outputs@.len() - i,
        {
            i = i + 1;
        }
        proof {
            first_is_at(self.source_outputs@, output_at(index), i as int);
        }
        i
    }

    /// Whether the sink with an index has a name.
    fn sink_named(&self, index: u32, name: &str) -> (r: bool)
        ensures
            r == (sink_name(self.sinks@, index) == Some(name@)),
    {
        let mut i: usize = self.sinks.len();
        assert(self.sinks@.take(i as int) =~= self.sinks@);
        while i > 0
            invariant
                i <= self.sinks@.len(),
                sink_name(self.sinks@, index) == sink_name(self.sinks@.take(i as int), index),
            decreases i,
        {
            assert(self.sinks@.take(i as int).drop_last() =~= self.sinks@.take(i - 1));
            i = i - 1;
            if self.sinks[i].0 == index {
                return text::same(self.sinks[i].1.name.as_str(), name);
            }
        }
        false
    }

    /// Whether the source with an index has a name.
    fn source_named(&self, index: u32, name: &str) -> (r: bool)
        ensures
            r == (source_name(self.sources@, index) == Some(name@)),
    {
        let mut i: usize = self.sources.len();
        assert(self.sources@.take(i as int) =~= self.sources@);
        while i > 0
            invariant
                i <= self.sources@.len(),
                source_name(self.sources@, index) == source_name(self.sources@.take(i as int), index),
            decreases i,
        {
            assert(self.sources@.take(i as int).drop_last() =~= self.sources@.take(i - 1));
            i = i - 1;
            if self.sources[i].index == index {
                return text::same(self.sources[i].name.as_str(), name);
            }
        }
        false
    }

    /// Associate a loopback with the streams its module opened.
    fn match_loopback(&self, l: &Loopback) -> (r: (Option<u32>, u8, Option<u32>))
        ensures
            (Loopback { sink_input: r.0, channels: r.1, source_output: r.2, ..*l }) == self.matched(*l),
    {
        let mut sink_input = l.sink_input;
        let mut channels: u8 = l.channels;
        let mut source_output = l.source_output;
        if let Some(m) = l.module {
            if sink_input.is_none() {
                let mut i: usize = 0;
                while i < self.sink_inputs.len() && self.sink_inputs[i].owner_module != Some(m)
                    invariant
                        i <= self.sink_inputs@.len(),
                        forall|j: int| 0 <= j < i ==> !input_of(m)(#[trigger] self.sink_inputs@[j]),
                    decreases self.sink_inputs@.len() - i,
                {
                    i = i + 1;
                }
                proof {
                    first_is_at(self.sink_inputs@, input_of(m), i as int);
                }
                if i < self.sink_inputs.len() {
                    sink_input = Some(self.sink_inputs[i].index);
                    channels = self.sink_inputs[i].channels;
                }
            }
            if source_output.is_none() {
                let mut i: usize = 0;
                while i < self.source_outputs.len() && self.source_outputs[i].owner_module != Some(m)
                    invariant
                        i <= self.source_outputs@.len(),
                        forall|j: int| 0 <= j < i ==> !output_of(m)(#[trigger] self.source_outputs@[j]),
                    decreases self.source_outputs@.len() - i,
                {
                    i = i + 1;
                }
                proof {
                    first_is_at(self.source_outputs@, output_of(m), i as int);
                }
                if i < self.source_outputs.len() {
                    source_output = Some(self.source_outputs[i].index);
                }
            }
        }
        (sink_input, channels, source_output)
    }

    /// Queue what a loopback needs: a move when it sits on the wrong sink, or
    /// its capture stream on the wrong source, and its volume and mute when
    /// they differ.
    fn check_drift(&self, which: LoopbackRef, l: &Loopback, raw: u32, mute: bool, plan: &mut DriftMoves)
        ensures
            moves(final(plan).sources@) == match self.source_move(*l) {
                Some(m) => moves(old(plan).sources@).push(m),
                None => moves(old(plan).sources@),
            },
            moves(final(plan).sinks@) == match self.sink_move(*l) {
                Some(m) => moves(old(plan).sinks@).push(m),
                None => moves(old(plan).sinks@),
            },
            final(plan).applies@ == if self.drifted(*l, raw, mute) {
                old(plan).applies@.push(which)
            } else {
                old(plan).applies@
            },
    {
        let ghost before = *plan;
        if !l.source_target.as_str().is_empty() {
            if let Some(so) = l.source_output {
                let o = self.find_output(so);
                if o < self.source_outputs.len() && !self.source_named(
                    self.source_outputs[o].source,
                    l.source_target.as_str(),
                ) && self.has_source(l.source_target.as_str()) {
                    plan.sources.push(StreamMove { stream: so, device: l.source_target.clone() });
                    assert(moves(plan.sources@) =~= moves(before.sources@).push((so, l.source_target@)));
                }
            }
        }
        if let Some(si) = l.sink_input {
            let i = self.find_input(si);
            if i < self.sink_inputs.len() {
                let entry = &self.sink_inputs[i];
                if !l.target.as_str().is_empty() && !self.sink_named(entry.sink, l.target.as_str()) {
                    plan.sinks.push(StreamMove { stream: si, device: l.target.clone() });
                    assert(moves(plan.sinks@) =~= moves(before.sinks@).push((si, l.target@)));
                }
                let off: u32 = if entry.volume_raw >= raw {
                    entry.volume_raw - raw
                } else {
                    raw - entry.volume_raw
                };
                if off > 1 || entry.mute != mute {
                    plan.applies.push(which);
                }
            }
        }
    }

    /// What is learnt of the loopbacks, and what brings them back where they belong.
    pub open spec fn drift_corrected(
        self,
        cfg: Config,
        raws: Seq<SendRaws>,
        master: u32,
        r: DriftMoves,
        new: PulseManager,
    ) -> bool {
        &&& new.channels@ == Seq::new(
            self.channels@.len(),
            |i: int| self.matched_runtime(self.channels@[i]),
        )
        &&& new == (PulseManager {
            channels: new.channels,
            monitor_out: self.matched(self.monitor_out),
            ..self
        })
        &&& ({
            let links = new.links(cfg, raws, master);
            &&& moves(r.sinks@) == new.sink_moves(links)
            &&& moves(r.sources@) == new.source_moves(links)
            &&& r.applies@ == inputs_last(new.reapplied(links))
        })
    }

    /// Associate freshly loaded loopback modules with the streams they
    /// created, then find every managed loopback that drifted. Session
    /// managers may asynchronously overwrite stream volumes right after
    /// creation; checking on every refresh converges back to the configured
    /// state, because only what differs is written.
    ///
    /// The raw volumes are those the configured levels amount to, one entry
    /// for each configured channel.
    pub fn match_pending_loopbacks(&mut self, cfg: &Config, raws: &Vec<SendRaws>, master: u32) -> (r: DriftMoves)
        requires
            raws@.len() == cfg.channels@.len(),
        ensures
            old(self).drift_corrected(*cfg, raws@, master, r, *final(self)),
            old(self).wf() ==> final(self).wf(),
            old(self).accounted() ==> final(self).accounted(),
    {
        let ghost before = *self;
        let n: usize = self.channels.len();
        let mut i: usize = 0;
        while i < n
            invariant
                i <= n,
                n == before.channels@.len(),
                self.channels@.len() == n,
                *self == (PulseManager { channels: self.channels, ..before }),
                forall|j: int|
                    0 <= j < i ==> #[trigger] self.channels@[j] == before.matched_runtime(before.channels@[j]),
                forall|j: int| i <= j < n ==> #[trigger] self.channels@[j] == before.channels@[j],
            decreases n - i,
        {
            let m = self.match_loopback(&self.channels[i].monitor_loop);
            let s = self.match_loopback(&self.channels[i].stream_loop);
            let v = self.match_loopback(&self.channels[i].vod_loop);
            let f = self.match_loopback(&self.channels[i].input_loop);
            let rt = &mut self.channels[i];
            rt.monitor_loop.sink_input = m.0;
            rt.monitor_loop.channels = m.1;
            rt.monitor_loop.source_output = m.2;
            rt.stream_loop.sink_input = s.0;
            rt.stream_loop.channels = s.1;
            rt.stream_loop.source_output = s.2;
            rt.vod_loop.sink_input = v.0;
            rt.vod_loop.channels = v.1;
            rt.vod_loop.source_output = v.2;
            rt.input_loop.sink_input = f.0;
            rt.input_loop.channels = f.1;
            rt.input_loop.source_output = f.2;
            i = i + 1;
        }
        assert(self.channels@ =~= Seq::new(
            before.channels@.len(),
            |i: int| before.matched_runtime(before.channels@[i]),
        ));
        let o = self.match_loopback(&self.monitor_out);
        self.monitor_out.sink_input = o.0;
        self.monitor_out.channels = o.1;
        self.monitor_out.source_output = o.2;
        let mut plan = DriftMoves { sinks: Vec::new(), sources: Vec::new(), applies: Vec::new() };
        let ghost mut done: Seq<Managed> = Seq::empty();
        proof {
            assert(moves(plan.sinks@) =~= self.sink_moves(done));
            assert(moves(plan.sources@) =~= self.source_moves(done));
            assert(plan.applies@ =~= self.reapplied(done));
        }
        let ghost after = *self;
        let mut k: usize = 0;
        while k < cfg.channels.len()
            invariant
                k <= cfg.channels@.len(),
                raws@.len() == cfg.channels@.len(),
                *self == after,
                done == after.links_upto(*cfg, raws@, k as int),
                moves(plan.sinks@) == after.sink_moves(done),
                moves(plan.sources@) == after.source_moves(done),
                plan.applies@ == after.reapplied(done),
            decreases cfg.channels@.len() - k,
        {
            let c = &cfg.channels[k];
            let p = self.find(c.id);
            let ghost start = done;
            if p < self.channels.len() {
                let rt = &self.channels[p];
                let raw = raws[k];
                let monitor = audio::mix_levels(c, &cfg.master, Mix::Monitor);
                let stream = audio::mix_levels(c, &cfg.master, Mix::Stream);
                let vod = audio::mix_levels(c, &cfg.master, Mix::Vod);
                let ghost add = after.channel_links(*cfg, raws@, k as int);
                self.check_drift(
                    LoopbackRef::Mix(c.id, Mix::Monitor),
                    &rt.monitor_loop,
                    raw.monitor,
                    monitor.muted,
                    &mut plan,
                );
                proof {
                    after.one_more_link(done, add[0]);
                    done = done.push(add[0]);
                }
                self.check_drift(
                    LoopbackRef::Mix(c.id, Mix::Stream),
                    &rt.stream_loop,
                    raw.stream,
                    stream.muted,
                    &mut plan,
                );
                proof {
                    after.one_more_link(done, add[1]);
                    done = done.push(add[1]);
                }
                self.check_drift(
                    LoopbackRef::Mix(c.id, Mix::Vod),
                    &rt.vod_loop,
                    raw.vod,
                    vod.muted,
                    &mut plan,
                );
                proof {
                    after.one_more_link(done, add[2]);
                    done = done.push(add[2]);
                }
                self.check_drift(LoopbackRef::Input(c.id), &rt.input_loop, UNITY_RAW, false, &mut plan);
                proof {
                    after.one_more_link(done, add[3]);
                    done = done.push(add[3]);
                    assert(done =~= start + add);
                }
            } else {
                proof {
                    assert(done =~= start + after.channel_links(*cfg, raws@, k as int));
                }
            }
            k = k + 1;
        }
        self.check_drift(
            LoopbackRef::MonitorOut,
            &self.monitor_out,
            master,
            cfg.master.monitor_muted,
            &mut plan,
        );
        proof {
            after.one_more_link(done, after.links(*cfg, raws@, master).last());
            if old(self).wf() {
                assert forall|a: int, b: int| 0 <= a < b < self.channels@.len() implies (
                #[trigger] self.channels@[a]).id != (#[trigger] self.channels@[b]).id by {
                    assert(before.channels@[a].id != before.channels@[b].id);
                }
            }
        }
        plan.applies = put_inputs_last(&plan.applies);
        proof {
            if old(self).accounted() {
                account_stays(*old(self), *self);
            }
        }
        plan
    }
}

// ---- Applications -----------------------------------------------------------

/// Whether a stream belongs to a loopback of Crossfade's own.
pub open spec fn is_own_stream(owned: Seq<u32>, e: SinkInputEntry) -> bool {
    e.owner_module is Some && owned.contains(e.owner_module->0)
}

impl PulseManager {
    /// The streams of an application that must move to a sink.
    pub open spec fn misplaced(self, app: Seq<char>, target: Seq<char>) -> spec_fn(SinkInputEntry) -> bool {
        |e: SinkInputEntry|
            {
                &&& !is_own_stream(self.owned_modules@, e)
                &&& e.app_name is Some
                &&& e.app_name->0@ == app
                &&& sink_name(self.sinks@, e.sink) != Some(target)
            }
    }

    /// The moves into one channel: those of the application assigned to it, once
    /// the channel's sink exists.
    pub open spec fn channel_moves(self, c: ChannelConfig) -> Seq<(u32, Seq<char>)> {
        let target = channel_sink(c.id);
        match c.assignment {
            Some(Assignment::App { name }) => if self.runs(c.id)
                && self.channels@[self.position(c.id)].sink_module is Some && self.sink_exists(target) {
                let s = self.sink_inputs@.filter(self.misplaced(name@, target));
                Seq::new(s.len(), |i: int| (s[i].index, target))
            } else {
                Seq::empty()
            },
            _ => Seq::empty(),
        }
    }

    /// The moves into the first `n` channels.
    pub open spec fn app_moves(self, s: Seq<ChannelConfig>, n: int) -> Seq<(u32, Seq<char>)>
        decreases n,
    {
        if n <= 0 {
            Seq::empty()
        } else {
            self.app_moves(s, n - 1) + self.channel_moves(s[n - 1])
        }
    }

    /// Whether a stream belongs to a loopback of Crossfade's own.
    fn own_stream(&self, e: &SinkInputEntry) -> (r: bool)
        ensures
            r == is_own_stream(self.owned_modules@, *e),
    {
        match e.owner_module {
            Some(m) => has_module(&self.owned_modules, m),
            None => false,
        }
    }

    /// Move application streams matching an `App` assignment into that
    /// channel's private sink.
    pub fn reconcile_apps(&self, cfg: &Config) -> (r: Vec<StreamMove>)
        ensures
            moves(r@) == self.app_moves(cfg.channels@, cfg.channels@.len() as int),
    {
        let mut out: Vec<StreamMove> = Vec::new();
        assert(moves(out@) =~= Seq::<(u32, Seq<char>)>::empty());
        let mut i: usize = 0;
        while i < cfg.channels.len()
            invariant
                i <= cfg.channels@.len(),
                moves(out@) == self.app_moves(cfg.channels@, i as int),
            decreases cfg.channels@.len() - i,
        {
            let c = &cfg.channels[i];
            let ghost start = moves(out@);
            let ghost s = self.sink_inputs@;
            assert(start + Seq::<(u32, Seq<char>)>::empty() =~= start);
            if let Some(Assignment::App { name }) = &c.assignment {
                let k = self.find(c.id);
                if k < self.channels.len() && self.channels[k].sink_module.is_some() {
                    let target = audio::channel_sink_name(c.id);
                    if self.has_sink(target.as_str()) {
                        let ghost p = self.misplaced(name@, target@);
                        proof {
                            reveal(Seq::filter);
                            assert(s.take(0).filter(p) =~= Seq::<SinkInputEntry>::empty());
                        }
                        let mut j: usize = 0;
                        assert(moves(out@) =~= start + Seq::new(
                            s.take(0).filter(p).len(),
                            |i: int| (s.take(0).filter(p)[i].index, target@),
                        ));
                        while j < self.sink_inputs.len()
                            invariant
                                j <= s.len(),
                                s == self.sink_inputs@,
                                p == self.misplaced(name@, target@),
                                moves(out@) == start + Seq::new(
                                    s.take(j as int).filter(p).len(),
                                    |i: int| (s.take(j as int).filter(p)[i].index, target@),
                                ),
                            decreases s.len() - j,
                        {
                            proof {
                                crate::list::filter_step(s, j as int, p);
                            }
                            let e = &self.sink_inputs[j];
                            let ghost before = moves(out@);
                            let hit = match &e.app_name {
                                Some(n) => text::same(n.as_str(), name.as_str()),
                                None => false,
                            };
                            if hit && !self.own_stream(e) && !self.sink_named(e.sink, target.as_str()) {
                                out.push(StreamMove { stream: e.index, device: target.clone() });
                                assert(moves(out@) =~= before.push((e.index, target@)));
                            }
                            assert(moves(out@) =~= start + Seq::new(
                                s.take(j + 1).filter(p).len(),
                                |i: int| (s.take(j + 1).filter(p)[i].index, target@),
                            ));
                            j = j + 1;
                        }
                        assert(s.take(s.len() as int) =~= s);
                    }
                }
            }
            assert(moves(out@) =~= start + self.channel_moves(*c));
            i = i + 1;
        }
        out
    }

    /// Whether an application plays under a name, on streams that are not
    /// Crossfade's own.
    pub open spec fn app_plays(self, name: Seq<char>) -> bool {
        &&& name.len() > 0
        &&& exists|i: int|
            0 <= i < self.sink_inputs@.len() && !is_own_stream(
                self.owned_modules@,
                #[trigger] self.sink_inputs@[i],
            ) && self.sink_inputs@[i].app_name is Some && self.sink_inputs@[i].app_name->0@ == name
    }

    /// The names of the applications that play, in order.
    pub fn app_names(&self) -> (r: Vec<String>)
        ensures
            text::increasing(r@),
            forall|n: Seq<char>| #[trigger] text::listed(r@, n) <==> self.app_plays(n),
    {
        let mut out: Vec<String> = Vec::new();
        let mut i: usize = 0;
        while i < self.sink_inputs.len()
            invariant
                i <= self.sink_inputs@.len(),
                text::increasing(out@),
                forall|n: Seq<char>| #[trigger]
                    text::listed(out@, n) <==> n.len() > 0 && exists|j: int|
                        0 <= j < i && !is_own_stream(self.owned_modules@, #[trigger] self.sink_inputs@[j])
                            && self.sink_inputs@[j].app_name is Some && self.sink_inputs@[j].app_name->0@ == n,
            decreases self.sink_inputs@.len() - i,
        {
            let e = &self.sink_inputs[i];
            let ghost was = out@;
            let ghost hit = !is_own_stream(self.owned_modules@, *e) && e.app_name is Some
                && e.app_name->0@.len() > 0;
            if !self.own_stream(e) {
                if let Some(n) = &e.app_name {
                    if !n.as_str().is_empty() {
                        text::insert_ordered(&mut out, n.clone());
                    }
                }
            }
            proof {
                assert forall|n: Seq<char>| #[trigger]
                    text::listed(out@, n) <==> n.len() > 0 && exists|j: int|
                        0 <= j < i + 1 && !is_own_stream(self.owned_modules@, #[trigger] self.sink_inputs@[j])
                            && self.sink_inputs@[j].app_name is Some && self.sink_inputs@[j].app_name->0@ == n by {
                    assert(text::listed(out@, n) <==> text::listed(was, n) || (hit && e.app_name->0@ == n));
                    if text::listed(was, n) {
                        let j = choose|j: int|
                            0 <= j < i && !is_own_stream(self.owned_modules@, #[trigger] self.sink_inputs@[j])
                                && self.sink_inputs@[j].app_name is Some && self.sink_inputs@[j].app_name->0@
                                == n;
                        assert(!is_own_stream(self.owned_modules@, self.sink_inputs@[j]));
                    }
                    if hit && e.app_name->0@ == n {
                        assert(!is_own_stream(self.owned_modules@, self.sink_inputs@[i as int]));
                    }
                }
            }
            i = i + 1;
        }
        out
    }
}

// ---- Wiring through effects -------------------------------------------------

/// A channel whose effects are up, or have failed, and that can be wired.
#[derive(Clone, Debug, PartialEq, Eq)]
pub struct ReadyWire {
    pub id: u64,
    pub generation: u64,
    pub source: String,
    pub use_vst: bool,
    /// Wire past the effects, so that the channel is never left silent.
    pub direct: bool,
}

/// How a channel is to be wired.
#[derive(Clone, Debug, PartialEq, Eq)]
pub struct WirePlan {
    /// The loopback into the effects: source, sink and arguments.
    pub input: Option<InputLoad>,
    /// What the sends and the meter listen to.
    pub source: String,
    pub sends: Vec<SendLoad>,
    /// Start linking the VST rack.
    pub link_vst: bool,
}

/// The loopback into a channel's effects that is to be loaded.
#[derive(Clone, Debug, PartialEq, Eq)]
pub struct InputLoad {
    pub source: String,
    pub sink: String,
    pub args: String,
}

/// What wiring a channel from a source asks for first.
#[derive(Clone, Debug, PartialEq, Eq)]
pub enum WireStep {
    /// The plugin catalog is not there yet: come back when it is.
    AwaitCatalog,
    /// The channel is not configured.
    Gone,
    /// No active effects: wire it directly.
    Direct,
    /// Start the effects with this chain configuration.
    Effects(String),
}

impl PulseManager {
    /// Whether a channel that waits for its effects can be wired, and how.
    pub open spec fn wire_state(self, fx: fx::FxManager, r: ChannelRuntime) -> Option<(bool, bool)> {
        let vst = r.pending_wire->0.use_vst && fx.rack_up(r.id);
        if r.pending_wire is None {
            None
        } else if !fx.chain_up(r.id) {
            Some((false, true))
        } else if !self.sink_exists(fx::chain_sink(r.id)) || !self.source_exists(fx::chain_source(r.id)) {
            None
        } else if vst && !self.sink_exists(fx::vstin_sink(r.id)) {
            None
        } else {
            Some((vst, false))
        }
    }

    /// The channels that can be wired.
    pub open spec fn wireable(self, fx: fx::FxManager) -> spec_fn(ChannelRuntime) -> bool {
        |r: ChannelRuntime| self.wire_state(fx, r) is Some
    }

    /// Whether a plan describes how to wire a channel.
    pub open spec fn wires(self, fx: fx::FxManager, r: ChannelRuntime, w: ReadyWire) -> bool {
        &&& w.id == r.id
        &&& w.generation == r.generation
        &&& w.source@ == r.pending_wire->0.source@
        &&& Some((w.use_vst, w.direct)) == self.wire_state(fx, r)
    }

    /// Whether a waiting channel can be wired.
    fn check_wire(&self, fx: &fx::FxManager, r: &ChannelRuntime) -> (w: Option<ReadyWire>)
        ensures
            w is Some <==> self.wire_state(*fx, *r) is Some,
            w is Some ==> self.wires(*fx, *r, w->0),
    {
        let p = match &r.pending_wire {
            Some(p) => p,
            None => {
                return None;
            },
        };
        if fx.chain_failed(r.id) {
            return Some(
                ReadyWire {
                    id: r.id,
                    generation: r.generation,
                    source: p.source.clone(),
                    use_vst: false,
                    direct: true,
                },
            );
        }
        let sink = fx::chain_sink_name(r.id);
        let source = fx::chain_source_name(r.id);
        if !self.has_sink(sink.as_str()) || !self.has_source(source.as_str()) {
            return None;
        }
        let use_vst = p.use_vst && fx.vst_running(r.id);
        let vstin = fx::vstin_sink_name(r.id);
        if use_vst && !self.has_sink(vstin.as_str()) {
            return None;
        }
        Some(
            ReadyWire {
                id: r.id,
                generation: r.generation,
                source: p.source.clone(),
                use_vst,
                direct: false,
            },
        )
    }

    /// Which waiting channels are wired now.
    pub open spec fn wires_ready(self, fx: fx::FxManager, r: Seq<ReadyWire>, new: PulseManager) -> bool {
        &&& !self.is_active() ==> r.len() == 0 && new == self
        &&& self.is_active() ==> {
            let s = self.channels@.filter(self.wireable(fx));
            &&& r.len() == s.len()
            &&& forall|i: int| 0 <= i < s.len() ==> self.wires(fx, s[i], #[trigger] r[i])
            &&& new.channels@ == Seq::new(
                self.channels@.len(),
                |i: int|
                    if self.wireable(fx)(self.channels@[i]) {
                        ChannelRuntime { pending_wire: None, ..self.channels@[i] }
                    } else {
                        self.channels@[i]
                    },
            )
            &&& new == (PulseManager { channels: new.channels, ..self })
        }
    }

    /// Find every channel whose FX bridge nodes have appeared on the server
    /// (or whose chain has died, in which case it falls back to the direct
    /// path so the channel is never left silent). They wait no longer.
    pub fn check_pending_wires(&mut self, fx: &fx::FxManager) -> (r: Vec<ReadyWire>)
        ensures
            old(self).wires_ready(*fx, r@, *final(self)),
            old(self).wf() ==> final(self).wf(),
            old(self).accounted() ==> final(self).accounted(),
    {
        let mut out: Vec<ReadyWire> = Vec::new();
        if !self.ready || self.shutting_down {
            return out;
        }
        let ghost before = *self;
        let ghost s = self.channels@;
        let ghost p = self.wireable(*fx);
        proof {
            reveal(Seq::filter);
            assert(s.take(0).filter(p) =~= Seq::<ChannelRuntime>::empty());
        }
        let n: usize = self.channels.len();
        let mut i: usize = 0;
        while i < n
            invariant
                i <= n,
                n == s.len(),
                s == before.channels@,
                p == before.wireable(*fx),
                self.channels@.len() == n,
                *self == (PulseManager { channels: self.channels, ..before }),
                out@.len() == s.take(i as int).filter(p).len(),
                forall|j: int|
                    0 <= j < out@.len() ==> before.wires(
                        *fx,
                        s.take(i as int).filter(p)[j],
                        #[trigger] out@[j],
                    ),
                forall|j: int|
                    0 <= j < i ==> #[trigger] self.channels@[j] == if p(s[j]) {
                        ChannelRuntime { pending_wire: None, ..s[j] }
                    } else {
                        s[j]
                    },
                forall|j: int| i <= j < n ==> #[trigger] self.channels@[j] == s[j],
            decreases n - i,
        {
            proof {
                crate::list::filter_step(s, i as int, p);
            }
            let found = self.check_wire(fx, &self.channels[i]);
            assert(found is Some <==> p(s[i as int]));
            if let Some(w) = found {
                out.push(w);
                self.channels[i].pending_wire = None;
            }
            i = i + 1;
        }
        proof {
            assert(s.take(s.len() as int) =~= s);
            assert(self.channels@ =~= Seq::new(
                s.len(),
                |i: int|
                    if p(s[i]) {
                        ChannelRuntime { pending_wire: None, ..s[i] }
                    } else {
                        s[i]
                    },
            ));
            if old(self).wf() {
                assert forall|a: int, b: int| 0 <= a < b < self.channels@.len() implies (
                #[trigger] self.channels@[a]).id != (#[trigger] self.channels@[b]).id by {
                    assert(s[a].id != s[b].id);
                }
            }
        }
        proof {
            if old(self).accounted() {
                account_stays(*old(self), *self);
            }
        }
        out
    }

    /// What a wired channel's sends and meter listen to.
    pub open spec fn post_source(w: ReadyWire) -> Seq<char> {
        if w.direct {
            w.source@
        } else {
            fx::chain_source(w.id)
        }
    }

    /// Where a wired channel's input goes.
    pub open spec fn bridge_in(w: ReadyWire) -> Seq<char> {
        if w.use_vst {
            fx::vstin_sink(w.id)
        } else {
            fx::chain_sink(w.id)
        }
    }

    /// Whether a plan wires a channel.
    pub open spec fn wired(w: ReadyWire, vod: bool, connected: bool, r: WirePlan) -> bool {
        &&& r.source@ == PulseManager::post_source(w)
        &&& r.link_vst == (w.use_vst && !w.direct)
        &&& r.input is Some <==> !w.direct && connected
        &&& r.input is Some ==> {
            &&& r.input->0.source@ == w.source@
            &&& r.input->0.sink@ == PulseManager::bridge_in(w)
            &&& r.input->0.args@ == loopback_text(w.source@, PulseManager::bridge_in(w), input_tag(w.id))
        }
        &&& r.sends@.len() == if connected {
            mixes(vod).len()
        } else {
            0
        }
        &&& forall|i: int|
            0 <= i < r.sends@.len() ==> (#[trigger] r.sends@[i]).mix == mixes(vod)[i] && r.sends@[i].args@
                == loopback_text(r.source@, r.sends@[i].mix.bus(), send_tag(w.id, r.sends@[i].mix))
    }

    /// Whether the sends of a channel, and nothing else, are marked as being loaded.
    pub open spec fn sends_under_way(self, id: u64, vod: bool, new: PulseManager) -> bool {
        &&& !self.connected || !self.runs(id) ==> new == self
        &&& self.connected && self.runs(id) ==> {
            let p = self.position(id);
            &&& sends_marked(self.channels@[p], new.channels@[p], vod)
            &&& new.channels@ == self.channels@.update(p, new.channels@[p])
            &&& new == (PulseManager { channels: new.channels, ..self })
        }
    }

    /// Wire a channel that can be wired: its input into the effects, and their
    /// output into the mixes; or the input straight into the mixes.
    pub fn wire(&mut self, cfg: &Config, w: &ReadyWire) -> (r: WirePlan)
        ensures
            old(self).sends_under_way(w.id, cfg.vod_mix_enabled, *final(self)),
            PulseManager::wired(*w, cfg.vod_mix_enabled, old(self).connected, r),
            old(self).wf() ==> final(self).wf(),
            old(self).accounted() ==> final(self).accounted(),
    {
        if w.direct {
            let sends = self.create_channel_loopbacks(cfg, w.id, w.source.as_str());
            return WirePlan { input: None, source: w.source.clone(), sends, link_vst: false };
        }
        let sink = if w.use_vst {
            fx::vstin_sink_name(w.id)
        } else {
            fx::chain_sink_name(w.id)
        };
        let post = fx::chain_source_name(w.id);
        let input = if self.connected {
            let args = PulseManager::input_loop_args(w.id, w.source.as_str(), sink.as_str());
            Some(InputLoad { source: w.source.clone(), sink, args })
        } else {
            None
        };
        let sends = self.create_channel_loopbacks(cfg, w.id, post.as_str());
        WirePlan { input, source: post, sends, link_vst: w.use_vst }
    }

    /// How a channel's input is to be routed.
    pub open spec fn decided(
        cfg: Config,
        id: u64,
        scan_pending: bool,
        catalog: Option<&crate::lv2::Catalog>,
        values: Seq<Vec<String>>,
        r: WireStep,
    ) -> bool {
        let c = cfg.channels@[cfg.position(id)];
        let cat = match catalog {
            Some(c) => Some(*c),
            None => None,
        };
        if !cfg.has_channel(id) {
            r is Gone
        } else if c.effects@.len() > 0 && scan_pending {
            r is AwaitCatalog
        } else if !c.has_fx() {
            r is Direct
        } else {
            r is Effects && r->Effects_0@ == fx::chain_text(id, c, values, cat)
        }
    }

    /// Decide how to route a channel's input: straight into the mix loopbacks,
    /// or through its FX bridge. A channel with effects waits while the catalog
    /// of installed plugins is being read. `values` holds the control values of
    /// each effect as decimal text.
    pub fn wire_channel_input(
        cfg: &Config,
        id: u64,
        scan_pending: bool,
        catalog: Option<&crate::lv2::Catalog>,
        values: &Vec<Vec<String>>,
    ) -> (r: WireStep)
        requires
            cfg.has_channel(id) ==> {
                let c = cfg.channels@[cfg.position(id)];
                &&& values@.len() == c.effects@.len()
                &&& forall|i: int|
                    0 <= i < values@.len() ==> (#[trigger] values@[i])@.len() == c.effects@[i].controls@.len()
            },
            catalog is Some ==> catalog->0.wf(),
        ensures
            PulseManager::decided(*cfg, id, scan_pending, catalog, values@, r),
    {
        let c = match cfg.channel(id) {
            Some(c) => c,
            None => {
                return WireStep::Gone;
            },
        };
        if c.effects.len() > 0 && scan_pending {
            return WireStep::AwaitCatalog;
        }
        match fx::chain_conf(id, c, values, catalog) {
            Some(conf) => WireStep::Effects(conf),
            None => WireStep::Direct,
        }
    }
}

// ---- The connection ---------------------------------------------------------

/// The state of the connection to the server.
#[derive(Clone, Copy, Debug, PartialEq, Eq, Structural)]
pub enum ContextState {
    Ready,
    Failed,
    Terminated,
    Other,
}

/// What a change of the connection's state asks for.
#[derive(Clone, Copy, Debug, PartialEq, Eq, Structural)]
pub enum ContextStep {
    Nothing,
    /// Clean up what a crashed session left and create the buses.
    Start,
    /// Report that the connection failed.
    ReportFailed,
    /// Report that the server ended the connection.
    ReportTerminated,
}

impl PulseManager {
    /// What a change of the connection's state asks for and leaves behind.
    pub open spec fn followed(self, state: ContextState, r: ContextStep, new: PulseManager) -> bool {
        &&& r == match state {
            ContextState::Ready => ContextStep::Start,
            ContextState::Failed => ContextStep::ReportFailed,
            ContextState::Terminated => if self.shutting_down {
                ContextStep::Nothing
            } else {
                ContextStep::ReportTerminated
            },
            ContextState::Other => ContextStep::Nothing,
        }
        &&& new == (PulseManager {
            connected: state == ContextState::Ready,
            ready: self.ready && !(r is ReportFailed) && !(r is ReportTerminated),
            ..self
        })
    }

    /// Follow a change of the connection's state.
    pub fn on_state_change(&mut self, state: ContextState) -> (r: ContextStep)
        ensures
            old(self).followed(state, r, *final(self)),
            old(self).accounted() ==> final(self).accounted(),
    {
        self.connected = state == ContextState::Ready;
        let r = match state {
            ContextState::Ready => ContextStep::Start,
            ContextState::Failed => {
                self.ready = false;
                ContextStep::ReportFailed
            },
            ContextState::Terminated => {
                if self.shutting_down {
                    ContextStep::Nothing
                } else {
                    self.ready = false;
                    ContextStep::ReportTerminated
                }
            },
            ContextState::Other => ContextStep::Nothing,
        };
        proof {
            if old(self).accounted() {
                account_stays(*old(self), *self);
            }
        }
        r
    }

    /// Whether a refresh is to be started.
    pub open spec fn refresh_scheduled(self, r: bool, new: PulseManager) -> bool {
        &&& r == (!self.refresh_queued && !self.shutting_down)
        &&& new == (PulseManager {
            refresh_queued: self.refresh_queued || r,
            ..self
        })
    }

    /// Ask for a refresh. Says whether one is to be queued: one is enough until
    /// it runs.
    pub fn schedule_refresh(&mut self) -> (r: bool)
        ensures
            old(self).refresh_scheduled(r, *final(self)),
            old(self).accounted() ==> final(self).accounted(),
    {
        if self.refresh_queued || self.shutting_down {
            return false;
        }
        self.refresh_queued = true;
        proof {
            if old(self).accounted() {
                account_stays(*old(self), *self);
            }
        }
        true
    }

    /// What leaving unloads and leaves behind.
    pub open spec fn taken_down(self, r: Seq<u32>, new: PulseManager) -> bool {
        &&& r == self.owned_modules@
        &&& new.owned_modules@.len() == 0
        &&& new == (PulseManager {
            owned_modules: new.owned_modules,
            ready: false,
            shutting_down: true,
            ..self
        })
    }

    /// Shut down: gives every module that was created, to be unloaded.
    pub fn shutdown(&mut self) -> (r: Vec<u32>)
        ensures
            old(self).taken_down(r@, *final(self)),
            old(self).accounted() ==> forall|p: Place|
                (#[trigger] old(self).recorded(p)) is Some ==> r@.contains(old(self).recorded(p)->0),
    {
        self.shutting_down = true;
        self.ready = false;
        let mut mods: Vec<u32> = Vec::new();
        core::mem::swap(&mut mods, &mut self.owned_modules);
        mods
    }

    /// A helper of a channel died. Says whether to rebuild the channel around
    /// whatever is still running.
    pub fn helper_died(&self) -> (r: bool)
        ensures
            r == !self.shutting_down,
    {
        !self.shutting_down
    }

    /// A loopback.
    pub open spec fn loopback(self, which: LoopbackRef) -> Option<Loopback> {
        match which {
            LoopbackRef::Mix(id, mix) => if self.runs(id) {
                Some(self.channels@[self.position(id)].to_mix(mix))
            } else {
                None
            },
            LoopbackRef::Input(id) => if self.runs(id) {
                Some(self.channels@[self.position(id)].input_loop)
            } else {
                None
            },
            LoopbackRef::MonitorOut => Some(self.monitor_out),
        }
    }

    /// The same state but for one loopback.
    pub open spec fn differs_in(self, new: PulseManager, which: LoopbackRef, l: Loopback) -> bool {
        match which {
            LoopbackRef::Mix(id, mix) => {
                let p = self.position(id);
                &&& new.channels@ == self.channels@.update(p, self.channels@[p].with_mix(mix, l))
                &&& new == (PulseManager { channels: new.channels, ..self })
            },
            LoopbackRef::Input(id) => {
                let p = self.position(id);
                &&& new.channels@ == self.channels@.update(
                    p,
                    ChannelRuntime { input_loop: l, ..self.channels@[p] },
                )
                &&& new == (PulseManager { channels: new.channels, ..self })
            },
            LoopbackRef::MonitorOut => new == (PulseManager { monitor_out: l, ..self }),
        }
    }

    /// Whether a stream belongs to a loopback, and what is noted then.
    pub open spec fn stream_learnt(
        self,
        which: LoopbackRef,
        module: u32,
        stream: u32,
        channels: u8,
        r: bool,
        new: PulseManager,
    ) -> bool {
        let l = self.loopback(which);
        &&& r == (l is Some && l->0.module == Some(module))
        &&& !r ==> new == self
        &&& r ==> self.differs_in(
            new,
            which,
            Loopback { sink_input: Some(stream), channels, ..l->0 },
        )
    }

    /// Note the stream that a loopback's module opened, right after the module
    /// was loaded, so its volume can be applied at once: the shorter the stream
    /// plays at its default level, the smaller the audible pop. Says whether
    /// the loopback still has that module; it may have been rebuilt meanwhile.
    pub fn new_loopback_stream(&mut self, which: LoopbackRef, module: u32, stream: u32, channels: u8) -> (r: bool)
        ensures
            old(self).stream_learnt(which, module, stream, channels, r, *final(self)),
            old(self).wf() ==> final(self).wf(),
            old(self).accounted() ==> final(self).accounted(),
    {
        match which {
            LoopbackRef::Mix(id, mix) => {
                let i = self.find(id);
                if i >= self.channels.len() {
                    return false;
                }
                if self.channels[i].mix_loop(mix).module != Some(module) {
                    return false;
                }
                let rt = &mut self.channels[i];
                let l = rt.mix_loop_mut(mix);
                l.sink_input = Some(stream);
                l.channels = channels;
                proof {
                    if old(self).accounted() {
                        account_stays(*old(self), *self);
                    }
                }
                true
            },
            LoopbackRef::Input(id) => {
                let i = self.find(id);
                if i >= self.channels.len() {
                    return false;
                }
                if self.channels[i].input_loop.module != Some(module) {
                    return false;
                }
                let rt = &mut self.channels[i];
                rt.input_loop.sink_input = Some(stream);
                rt.input_loop.channels = channels;
                proof {
                    if old(self).accounted() {
                        account_stays(*old(self), *self);
                    }
                }
                true
            },
            LoopbackRef::MonitorOut => {
                if self.monitor_out.module != Some(module) {
                    return false;
                }
                self.monitor_out.sink_input = Some(stream);
                self.monitor_out.channels = channels;
                proof {
                    if old(self).accounted() {
                        account_stays(*old(self), *self);
                    }
                }
                true
            },
        }
    }

    /// Volume and mute of a channel's send, where its stream is known.
    pub open spec fn send_setting(self, cfg: Config, id: u64, mix: Mix) -> Option<StreamLevel> {
        let l = self.channels@[self.position(id)].to_mix(mix);
        if cfg.has_channel(id) && self.runs(id) && l.sink_input is Some {
            Some(
                StreamLevel {
                    sink_input: l.sink_input->0,
                    channels: l.channels,
                    send: send_level(cfg.channels@[cfg.position(id)], cfg.master, mix),
                },
            )
        } else {
            None
        }
    }

    /// The settings of the first `n` channels' sends into a mix.
    pub open spec fn send_settings(self, cfg: Config, mix: Mix, n: int) -> Seq<StreamLevel>
        decreases n,
    {
        if n <= 0 {
            Seq::empty()
        } else {
            let rest = self.send_settings(cfg, mix, n - 1);
            match self.send_setting(cfg, cfg.channels@[n - 1].id, mix) {
                Some(s) => rest.push(s),
                None => rest,
            }
        }
    }

    /// Volume and mute of every channel's send into a mix.
    fn apply_master(&self, cfg: &Config, mix: Mix) -> (r: Vec<StreamLevel>)
        ensures
            r@ == self.send_settings(*cfg, mix, cfg.channels@.len() as int),
    {
        let mut out: Vec<StreamLevel> = Vec::new();
        let mut i: usize = 0;
        while i < cfg.channels.len()
            invariant
                i <= cfg.channels@.len(),
                out@ == self.send_settings(*cfg, mix, i as int),
            decreases cfg.channels@.len() - i,
        {
            if let Some(s) = self.apply_channel_mix(cfg, cfg.channels[i].id, mix) {
                out.push(s);
            }
            i = i + 1;
        }
        out
    }

    /// The stream master changed: every channel's send follows.
    pub fn apply_master_stream(&self, cfg: &Config) -> (r: Vec<StreamLevel>)
        ensures
            r@ == self.send_settings(*cfg, Mix::Stream, cfg.channels@.len() as int),
    {
        self.apply_master(cfg, Mix::Stream)
    }

    /// The VOD master changed: every channel's send follows.
    pub fn apply_master_vod(&self, cfg: &Config) -> (r: Vec<StreamLevel>)
        ensures
            r@ == self.send_settings(*cfg, Mix::Vod, cfg.channels@.len() as int),
    {
        self.apply_master(cfg, Mix::Vod)
    }
}

// ---- What the interface asks ------------------------------------------------

/// The sources that are not Crossfade's own.
pub open spec fn foreign_source() -> spec_fn(SourceEntry) -> bool {
    |s: SourceEntry| !begins(s.name@, OWN_PREFIX@)
}

/// The sinks that are not Crossfade's own.
pub open spec fn foreign_sink() -> spec_fn((u32, SinkEntry)) -> bool {
    |s: (u32, SinkEntry)| !begins(s.1.name@, OWN_PREFIX@)
}

/// The capture side of a Wave XLR.
pub open spec fn xlr_source() -> spec_fn(SourceEntry) -> bool {
    |s: SourceEntry| !s.is_monitor && !begins(s.name@, OWN_PREFIX@) && wave_xlr(s.name@, s.description@)
}

/// The output side of a Wave XLR.
pub open spec fn xlr_sink() -> spec_fn((u32, SinkEntry)) -> bool {
    |s: (u32, SinkEntry)| !begins(s.1.name@, OWN_PREFIX@) && wave_xlr(s.1.name@, s.1.description@)
}

impl PulseManager {
    /// The capture devices that are not Crossfade's own.
    pub fn sources(&self) -> (r: Vec<SourceEntry>)
        ensures
            r@ == self.sources@.filter(foreign_source()),
    {
        let mut out: Vec<SourceEntry> = Vec::new();
        let ghost s = self.sources@;
        let ghost p = foreign_source();
        proof {
            reveal(Seq::filter);
            assert(s.take(0).filter(p) =~= Seq::<SourceEntry>::empty());
        }
        let mut i: usize = 0;
        while i < self.sources.len()
            invariant
                i <= s.len(),
                s == self.sources@,
                p == foreign_source(),
                out@ == s.take(i as int).filter(p),
            decreases s.len() - i,
        {
            proof {
                crate::list::filter_step(s, i as int, p);
            }
            if !text::starts_with(self.sources[i].name.as_str(), OWN_PREFIX) {
                out.push(self.sources[i].copied());
            }
            i = i + 1;
        }
        assert(s.take(s.len() as int) =~= s);
        out
    }

    /// Whether these are the outputs to choose from.
    pub open spec fn outputs_listed(self, r: Seq<SinkEntry>) -> bool {
        &&& r.len() == self.sinks@.filter(foreign_sink()).len()
        &&& forall|i: int| 0 <= i < r.len() ==> #[trigger] r[i] == self.sinks@.filter(foreign_sink())[i].1
    }

    /// The output devices that are not Crossfade's own.
    pub fn output_sinks(&self) -> (r: Vec<SinkEntry>)
        ensures
            self.outputs_listed(r@),
    {
        let mut out: Vec<SinkEntry> = Vec::new();
        let ghost s = self.sinks@;
        let ghost p = foreign_sink();
        proof {
            reveal(Seq::filter);
            assert(s.take(0).filter(p) =~= Seq::<(u32, SinkEntry)>::empty());
        }
        let mut i: usize = 0;
        while i < self.sinks.len()
            invariant
                i <= s.len(),
                s == self.sinks@,
                p == foreign_sink(),
                out@.len() == s.take(i as int).filter(p).len(),
                forall|j: int| 0 <= j < out@.len() ==> #[trigger] out@[j] == s.take(i as int).filter(p)[j].1,
            decreases s.len() - i,
        {
            proof {
                crate::list::filter_step(s, i as int, p);
            }
            if !text::starts_with(self.sinks[i].1.name.as_str(), OWN_PREFIX) {
                out.push(self.sinks[i].1.copied());
            }
            i = i + 1;
        }
        assert(s.take(s.len() as int) =~= s);
        out
    }

    /// How a capture device is described.
    pub fn source_description(&self, name: &str) -> (r: Option<String>)
        ensures
            r is Some <==> self.source_exists(name@),
            r is Some ==> r->0@ == self.sources@[first(self.sources@, source_is(name@))].description@,
    {
        let i = self.find_source(name);
        if i < self.sources.len() {
            Some(self.sources[i].description.clone())
        } else {
            None
        }
    }

    /// The default output device.
    pub fn default_sink(&self) -> (r: Option<String>)
        ensures
            r == self.default_sink,
    {
        match &self.default_sink {
            Some(s) => Some(s.clone()),
            None => None,
        }
    }

    /// The default capture device.
    pub fn default_source(&self) -> (r: Option<String>)
        ensures
            r == self.default_source,
    {
        match &self.default_source {
            Some(s) => Some(s.clone()),
            None => None,
        }
    }

    /// How many channels a capture device has, for setting its volume.
    pub fn source_channels(&self, name: &str) -> (r: Option<u8>)
        ensures
            r is Some <==> self.source_exists(name@),
            r is Some ==> r->0 == self.sources@[first(self.sources@, source_is(name@))].channels,
    {
        let i = self.find_source(name);
        if i < self.sources.len() {
            Some(self.sources[i].channels)
        } else {
            None
        }
    }

    /// How many channels an output device has, for setting its volume.
    pub fn sink_channels(&self, name: &str) -> (r: Option<u8>)
        ensures
            r is Some <==> self.sink_exists(name@),
            r is Some ==> r->0 == self.sinks@[first(self.sinks@, sink_is(name@))].1.channels,
    {
        let i = self.find_sink(name);
        if i < self.sinks.len() {
            Some(self.sinks[i].1.channels)
        } else {
            None
        }
    }

    /// Whether this is the Wave XLR's capture device.
    pub open spec fn xlr_source_found(self, r: Option<SourceEntry>) -> bool {
        let i = first(self.sources@, xlr_source());
        r == if i < self.sources@.len() {
            Some(self.sources@[i])
        } else {
            None
        }
    }

    /// The Wave XLR's capture device ("Elgato Wave XLR Mono"), if connected.
    pub fn wave_xlr_source(&self) -> (r: Option<SourceEntry>)
        ensures
            self.xlr_source_found(r),
    {
        let mut i: usize = 0;
        while i < self.sources.len()
            invariant
                i <= self.sources@.len(),
                forall|j: int| 0 <= j < i ==> !xlr_source()(#[trigger] self.sources@[j]),
            decreases self.sources@.len() - i,
        {
            let s = &self.sources[i];
            if !s.is_monitor && !text::starts_with(s.name.as_str(), OWN_PREFIX) && audio::is_wave_xlr(
                s.name.as_str(),
                s.description.as_str(),
            ) {
                proof {
                    first_is_at(self.sources@, xlr_source(), i as int);
                }
                return Some(s.copied());
            }
            i = i + 1;
        }
        proof {
            first_is_at(self.sources@, xlr_source(), i as int);
        }
        None
    }

    /// Whether this is the Wave XLR's playback device.
    pub open spec fn xlr_sink_found(self, r: Option<SinkEntry>) -> bool {
        let i = first(self.sinks@, xlr_sink());
        r == if i < self.sinks@.len() {
            Some(self.sinks@[i].1)
        } else {
            None
        }
    }

    /// The Wave XLR's output device ("Elgato Wave XLR Analog Stereo"), if
    /// connected.
    pub fn wave_xlr_sink(&self) -> (r: Option<SinkEntry>)
        ensures
            self.xlr_sink_found(r),
    {
        let mut i: usize = 0;
        while i < self.sinks.len()
            invariant
                i <= self.sinks@.len(),
                forall|j: int| 0 <= j < i ==> !xlr_sink()(#[trigger] self.sinks@[j]),
            decreases self.sinks@.len() - i,
        {
            let s = &self.sinks[i].1;
            if !text::starts_with(s.name.as_str(), OWN_PREFIX) && audio::is_wave_xlr(
                s.name.as_str(),
                s.description.as_str(),
            ) {
                proof {
                    first_is_at(self.sinks@, xlr_sink(), i as int);
                }
                return Some(s.copied());
            }
            i = i + 1;
        }
        proof {
            first_is_at(self.sinks@, xlr_sink(), i as int);
        }
        None
    }
}

// ---- Every recorded module is owned -----------------------------------------

/// A place where a module is recorded: one of six slots of a channel, the VOD
/// modules, or the monitor output.
pub enum Place {
    Channel(int, int),
    Vod(int),
    Monitor,
}

/// The module in a slot of a channel.
pub open spec fn slot_of(r: ChannelRuntime, slot: int) -> Option<u32> {
    if slot == 0 {
        r.monitor_loop.module
    } else if slot == 1 {
        r.stream_loop.module
    } else if slot == 2 {
        r.vod_loop.module
    } else if slot == 3 {
        r.input_loop.module
    } else if slot == 4 {
        r.vstin_module
    } else if slot == 5 {
        r.sink_module
    } else {
        None
    }
}

impl PulseManager {
    /// The module recorded at a place.
    pub open spec fn recorded(self, p: Place) -> Option<u32> {
        match p {
            Place::Channel(k, slot) => if 0 <= k < self.channels@.len() {
                slot_of(self.channels@[k], slot)
            } else {
                None
            },
            Place::Vod(k) => if 0 <= k < self.vod_modules@.len() {
                Some(self.vod_modules@[k])
            } else {
                None
            },
            Place::Monitor => self.monitor_out.module,
        }
    }

    /// Every recorded module is owned, and recorded once. So shutting down,
    /// which unloads what is owned, leaves nothing of the graph behind.
    pub open spec fn accounted(self) -> bool {
        &&& forall|p: Place| (#[trigger] self.recorded(p)) is Some ==> self.owned_modules@.contains(
            self.recorded(p)->0,
        )
        &&& forall|p: Place, q: Place|
            p != q && (#[trigger] self.recorded(p)) is Some ==> self.recorded(p) != #[trigger] self.recorded(q)
    }
}

/// What is left after removing some modules.
proof fn without_keeps(s: Seq<u32>, gone: Seq<u32>)
    ensures
        forall|m: u32| #[trigger] without(s, gone).contains(m) <==> s.contains(m) && !gone.contains(m),
{
    let w = without(s, gone);
    assert forall|m: u32| #[trigger] w.contains(m) <==> s.contains(m) && !gone.contains(m) by {
        crate::list::filter_keeps(s, staying(gone));
        if w.contains(m) {
            let k = choose|k: int| 0 <= k < w.len() && w[k] == m;
            assert(staying(gone)(w[k]));
        }
        if s.contains(m) && !gone.contains(m) {
            let k = choose|k: int| 0 <= k < s.len() && s[k] == m;
            crate::list::filter_loses_nothing(s, staying(gone), k);
        }
    }
}

/// What is there after adding a module.
proof fn with_keeps(s: Seq<u32>, m: u32)
    ensures
        forall|x: u32| #[trigger] with_module(s, m).contains(x) <==> s.contains(x) || x == m,
{
    let w = with_module(s, m);
    assert forall|x: u32| #[trigger] w.contains(x) <==> s.contains(x) || x == m by {
        if s.contains(x) {
            let k = choose|k: int| 0 <= k < s.len() && s[k] == x;
            assert(w[k] == x);
        }
        if x == m && !s.contains(m) {
            assert(w[s.len() as int] == m);
        }
        if w.contains(x) {
            let k = choose|k: int| 0 <= k < w.len() && w[k] == x;
            if k < s.len() {
                assert(s[k] == x);
            }
        }
    }
}

/// What two lists hold together.
proof fn joined_holds(a: Seq<u32>, b: Seq<u32>, m: u32)
    ensures
        (a + b).contains(m) <==> a.contains(m) || b.contains(m),
{
    let c = a + b;
    if a.contains(m) {
        let k = choose|k: int| 0 <= k < a.len() && a[k] == m;
        assert(c[k] == m);
    }
    if b.contains(m) {
        let k = choose|k: int| 0 <= k < b.len() && b[k] == m;
        assert(c[a.len() + k] == m);
    }
    if c.contains(m) {
        let k = choose|k: int| 0 <= k < c.len() && c[k] == m;
        if k < a.len() {
            assert(a[k] == m);
        } else {
            assert(b[k - a.len()] == m);
        }
    }
}

/// What a list of one module or none holds.
proof fn opt_holds(o: Option<u32>, m: u32)
    ensures
        opt_module(o).contains(m) <==> o == Some(m),
{
    if o == Some(m) {
        assert(opt_module(o)[0] == m);
    }
}

/// The modules of a channel are those in its slots.
proof fn modules_are_slots(r: ChannelRuntime, m: u32)
    ensures
        modules_of(r).contains(m) <==> {
            ||| slot_of(r, 0) == Some(m)
            ||| slot_of(r, 1) == Some(m)
            ||| slot_of(r, 2) == Some(m)
            ||| slot_of(r, 3) == Some(m)
            ||| slot_of(r, 4) == Some(m)
            ||| slot_of(r, 5) == Some(m)
        },
{
    let a = opt_module(r.monitor_loop.module);
    let b = opt_module(r.stream_loop.module);
    let c = opt_module(r.vod_loop.module);
    let d = opt_module(r.input_loop.module);
    let e = opt_module(r.vstin_module);
    let f = opt_module(r.sink_module);
    joined_holds(a, b, m);
    joined_holds(a + b, c, m);
    joined_holds(a + b + c, d, m);
    joined_holds(a + b + c + d, e, m);
    joined_holds(a + b + c + d + e, f, m);
    opt_holds(r.monitor_loop.module, m);
    opt_holds(r.stream_loop.module, m);
    opt_holds(r.vod_loop.module, m);
    opt_holds(r.input_loop.module, m);
    opt_holds(r.vstin_module, m);
    opt_holds(r.sink_module, m);
}

/// The sends into the VOD mix are those in the slots for it.
proof fn vod_sends_are_slots(s: Seq<ChannelRuntime>)
    ensures
        forall|m: u32| #[trigger]
            vod_sends(s).contains(m) <==> exists|k: int|
                0 <= k < s.len() && (#[trigger] s[k]).vod_loop.module == Some(m),
    decreases s.len(),
{
    if s.len() > 0 {
        let t = s.drop_last();
        vod_sends_are_slots(t);
        let a = vod_sends(t);
        let b = opt_module(s.last().vod_loop.module);
        let all = vod_sends(s);
        assert forall|m: u32| #[trigger]
            all.contains(m) <==> exists|k: int|
                0 <= k < s.len() && (#[trigger] s[k]).vod_loop.module == Some(m) by {
            if all.contains(m) {
                let k = choose|k: int| 0 <= k < all.len() && all[k] == m;
                if k < a.len() {
                    assert(a[k] == m);
                    assert(a.contains(m));
                    let j = choose|j: int| 0 <= j < t.len() && (#[trigger] t[j]).vod_loop.module == Some(m);
                    assert(s[j].vod_loop.module == Some(m));
                } else {
                    assert(s[s.len() - 1].vod_loop.module == Some(m));
                }
            }
            if exists|k: int| 0 <= k < s.len() && (#[trigger] s[k]).vod_loop.module == Some(m) {
                let k = choose|k: int| 0 <= k < s.len() && (#[trigger] s[k]).vod_loop.module == Some(m);
                if k < t.len() {
                    assert(t[k].vod_loop.module == Some(m));
                    assert(a.contains(m));
                    let j = choose|j: int| 0 <= j < a.len() && a[j] == m;
                    assert(all[j] == m);
                } else {
                    assert(all[a.len() as int] == m);
                }
            }
        }
    }
}

/// Where nothing is recorded that was not, and nothing is given up that is
/// still recorded, the account stays in order. `f` says where what is recorded
/// now was recorded before.
proof fn account_shrinks(before: PulseManager, after: PulseManager, f: spec_fn(Place) -> Place)
    requires
        before.accounted(),
        forall|p: Place| (#[trigger] after.recorded(p)) is Some ==> before.recorded(f(p)) == after.recorded(p),
        forall|p: Place, q: Place|
            p != q && (#[trigger] after.recorded(p)) is Some && (#[trigger] after.recorded(q)) is Some ==> f(p)
                != f(q),
        forall|p: Place| (#[trigger] after.recorded(p)) is Some ==> after.owned_modules@.contains(
            after.recorded(p)->0,
        ),
    ensures
        after.accounted(),
{
    assert forall|p: Place, q: Place|
        p != q && (#[trigger] after.recorded(p)) is Some implies after.recorded(p)
        != #[trigger] after.recorded(q) by {
        if after.recorded(q) is Some {
            assert(before.recorded(f(p)) is Some && before.recorded(f(q)) is Some);
        }
    }
}

/// Taking in a module that was not owned keeps the account in order.
proof fn account_grows(before: PulseManager, after: PulseManager, at: Place, m: u32)
    requires
        before.accounted(),
        !before.owned_modules@.contains(m),
        after.owned_modules@ == with_module(before.owned_modules@, m),
        after.recorded(at) == Some(m),
        forall|p: Place| p != at ==> #[trigger] after.recorded(p) == before.recorded(p),
    ensures
        after.accounted(),
{
    with_keeps(before.owned_modules@, m);
    assert forall|p: Place| (#[trigger] after.recorded(p)) is Some implies after.owned_modules@.contains(
        after.recorded(p)->0,
    ) by {
        if p != at {
            assert(before.recorded(p) is Some);
        }
    }
    assert forall|p: Place, q: Place|
        p != q && (#[trigger] after.recorded(p)) is Some implies after.recorded(p)
        != #[trigger] after.recorded(q) by {
        if p != at {
            assert(before.recorded(p) is Some);
        }
        if q != at && before.recorded(q) is Some {
            assert(before.owned_modules@.contains(before.recorded(q)->0));
        }
    }
}

/// The slot of a send.
pub open spec fn mix_slot(mix: Mix) -> int {
    match mix {
        Mix::Monitor => 0,
        Mix::Stream => 1,
        Mix::Vod => 2,
    }
}

impl PulseManager {
    /// Tearing down a channel keeps the account in order.
    proof fn rebuilt_account(self, after: PulseManager, i: int, f: spec_fn(Place) -> Place, gone: Seq<u32>)
        requires
            self.accounted(),
            0 <= i,
            gone == if i < self.channels@.len() {
                modules_of(self.channels@[i])
            } else {
                Seq::empty()
            },
            after.owned_modules@ == without(self.owned_modules@, gone),
            forall|p: Place| (#[trigger] after.recorded(p)) is Some ==> {
                &&& self.recorded(f(p)) == after.recorded(p)
                &&& forall|j: int| f(p) != Place::Channel(i, j)
            },
            forall|p: Place, q: Place|
                p != q && (#[trigger] after.recorded(p)) is Some && (#[trigger] after.recorded(q)) is Some ==> f(p)
                    != f(q),
        ensures
            after.accounted(),
    {
        without_keeps(self.owned_modules@, gone);
        assert forall|p: Place| (#[trigger] after.recorded(p)) is Some implies after.owned_modules@.contains(
            after.recorded(p)->0,
        ) by {
            let m = after.recorded(p)->0;
            assert(self.recorded(f(p)) == Some(m));
            if gone.contains(m) {
                let r = self.channels@[i];
                modules_are_slots(r, m);
                let j: int = if slot_of(r, 0) == Some(m) {
                    0
                } else if slot_of(r, 1) == Some(m) {
                    1
                } else if slot_of(r, 2) == Some(m) {
                    2
                } else if slot_of(r, 3) == Some(m) {
                    3
                } else if slot_of(r, 4) == Some(m) {
                    4
                } else {
                    5
                };
                assert(self.recorded(Place::Channel(i, j)) == Some(m));
            }
        }
        account_shrinks(self, after, f);
    }
}

/// A change that leaves all records alone, and gives up nothing, keeps the
/// account in order.
proof fn account_stays(before: PulseManager, after: PulseManager)
    requires
        before.accounted(),
        forall|p: Place| #[trigger] after.recorded(p) == before.recorded(p),
        forall|m: u32| before.owned_modules@.contains(m) ==> #[trigger] after.owned_modules@.contains(m),
    ensures
        after.accounted(),
{
    assert forall|p: Place| (#[trigger] after.recorded(p)) is Some implies after.owned_modules@.contains(
        after.recorded(p)->0,
    ) by {
        assert(before.recorded(p) is Some);
    }
    assert forall|p: Place, q: Place|
        p != q && (#[trigger] after.recorded(p)) is Some implies after.recorded(p)
        != #[trigger] after.recorded(q) by {
        assert(before.recorded(p) is Some);
        assert(before.recorded(q) == after.recorded(q));
    }
}

// ---- What Crossfade loads is recognised as its own ---------------------------

/// A text stands in what it is part of.
proof fn part_occurs(a: Seq<char>, n: Seq<char>, b: Seq<char>)
    ensures
        occurs(a + n + b, n),
{
    let s = a + n + b;
    assert(s.subrange(a.len() as int, (a.len() + n.len()) as int) =~= n);
    assert(text::stands_at(s, n, a.len() as int));
}

/// What stands in a part stands in the whole.
proof fn occurs_in_whole(a: Seq<char>, m: Seq<char>, b: Seq<char>, n: Seq<char>)
    requires
        occurs(m, n),
    ensures
        occurs(a + m + b, n),
{
    let i = choose|i: int| text::stands_at(m, n, i);
    let s = a + m + b;
    assert(s.subrange(a.len() + i, a.len() + i + n.len()) =~= m.subrange(i, i + n.len()));
    assert(text::stands_at(s, n, a.len() + i));
}

/// The names of Crossfade's devices hold its prefix.
proof fn own_names_hold_prefix(id: u64)
    ensures
        occurs(channel_sink(id), OWN_PREFIX@),
        occurs(fx::vstin_sink(id), OWN_PREFIX@),
        occurs(fx::chain_sink(id), OWN_PREFIX@),
        occurs(MONITOR_SINK@, OWN_PREFIX@),
        occurs(STREAM_SINK@, OWN_PREFIX@),
        occurs(VOD_SINK@, OWN_PREFIX@),
{
    reveal_strlit("Crossfade_");
    reveal_strlit("Crossfade_Ch");
    reveal_strlit("Crossfade_Monitor");
    reveal_strlit("Crossfade_Stream");
    reveal_strlit("Crossfade_Vod");
    let e = Seq::<char>::empty();
    let p = OWN_PREFIX@;
    let d = dec(id as nat);
    part_occurs(e, p, "Ch"@ + d);
    assert(e + p + ("Ch"@ + d) =~= channel_sink(id));
    let c = "Crossfade_Ch"@;
    assert(c.subrange(0, p.len() as int) =~= p);
    assert(text::stands_at(c, p, 0));
    occurs_in_whole(e, c, d + "_VSTIn"@, p);
    assert(e + c + (d + "_VSTIn"@) =~= fx::vstin_sink(id));
    occurs_in_whole(e, c, d + "_FX"@, p);
    assert(e + c + (d + "_FX"@) =~= fx::chain_sink(id));
    assert(MONITOR_SINK@.subrange(0, p.len() as int) =~= p);
    assert(text::stands_at(MONITOR_SINK@, p, 0));
    assert(STREAM_SINK@.subrange(0, p.len() as int) =~= p);
    assert(text::stands_at(STREAM_SINK@, p, 0));
    assert(VOD_SINK@.subrange(0, p.len() as int) =~= p);
    assert(text::stands_at(VOD_SINK@, p, 0));
}

/// Only what differs is corrected: nothing is asked of the server exactly where
/// every loopback is as it should be.
pub proof fn only_drift_is_corrected(m: PulseManager, s: Seq<Managed>)
    ensures
        (m.sink_moves(s).len() == 0 && m.source_moves(s).len() == 0 && inputs_last(m.reapplied(s)).len() == 0)
            <==> (forall|i: int| 0 <= i < s.len() ==> m.settled(#[trigger] s[i])),
{
    let all = m.reapplied(s);
    drift_is_found(m, s);
    crate::list::filter_keeps(all, plays_out());
    crate::list::filter_keeps(all, feeds_effects());
    if all.len() > 0 {
        if all[0] is Input {
            crate::list::filter_loses_nothing(all, feeds_effects(), 0);
        } else {
            crate::list::filter_loses_nothing(all, plays_out(), 0);
        }
    }
}

/// What drifted is found, and nothing else.
proof fn drift_is_found(m: PulseManager, s: Seq<Managed>)
    ensures
        (m.sink_moves(s).len() == 0 && m.source_moves(s).len() == 0 && m.reapplied(s).len() == 0) <==> (forall|
            i: int,
        |
            0 <= i < s.len() ==> m.settled(#[trigger] s[i])),
    decreases s.len(),
{
    if s.len() > 0 {
        let t = s.drop_last();
        drift_is_found(m, t);
        assert(forall|i: int| 0 <= i < t.len() ==> #[trigger] s[i] == t[i]);
        assert(forall|i: int| 0 <= i < t.len() ==> #[trigger] t[i] == s[i]);
        assert(s[s.len() - 1] == s.last());
    }
}

/// An application's streams are moved into its channel once: none is moved
/// while they all play there.
pub proof fn gathered_applications_stay(m: PulseManager, c: ChannelConfig)
    requires
        c.assignment is Some && c.assignment->0 is App,
        forall|i: int|
            0 <= i < m.sink_inputs@.len() && !is_own_stream(m.owned_modules@, #[trigger] m.sink_inputs@[i])
                && m.sink_inputs@[i].app_name is Some && m.sink_inputs@[i].app_name->0@ == (
            c.assignment->0)->App_name@ ==> sink_name(m.sinks@, m.sink_inputs@[i].sink) == Some(channel_sink(c.id)),
    ensures
        m.channel_moves(c).len() == 0,
{
    let p = m.misplaced((c.assignment->0)->App_name@, channel_sink(c.id));
    let s = m.sink_inputs@;
    crate::list::filter_keeps(s, p);
    if s.filter(p).len() > 0 {
        let x = s.filter(p)[0];
        assert(s.contains(x) && p(x));
        let k = choose|k: int| 0 <= k < s.len() && s[k] == x;
        assert(p(s[k]));
    }
}

/// A null sink with one of Crossfade's names is recognised as its own.
pub proof fn null_sinks_are_recognised(name: Seq<char>, desc: Seq<char>)
    requires
        occurs(name, OWN_PREFIX@),
    ensures
        leftover("module-null-sink"@, null_sink_text(name, desc)),
{
    let tail = " sink_properties='device.description=\""@ + desc + "\"'"@;
    occurs_in_whole("sink_name="@, name, tail, OWN_PREFIX@);
    assert("sink_name="@ + name + tail =~= null_sink_text(name, desc));
}

/// A loopback into one of Crossfade's sinks is recognised as its own.
pub proof fn loopbacks_are_recognised(source: Seq<char>, sink: Seq<char>, tag: Seq<char>)
    requires
        occurs(source, OWN_PREFIX@) || occurs(sink, OWN_PREFIX@),
    ensures
        leftover("module-loopback"@, loopback_text(source, sink, tag)),
{
    let rest = "\" latency_msec=30 sink_input_properties='media.name=\""@ + tag
        + " out\" state.restore-props=false state.restore-target=false' source_output_properties='media.name=\""@
        + tag + " in\" state.restore-props=false state.restore-target=false'"@;
    if occurs(source, OWN_PREFIX@) {
        let tail = "\" sink=\""@ + sink + rest;
        occurs_in_whole("source=\""@, source, tail, OWN_PREFIX@);
        assert("source=\""@ + source + tail =~= loopback_text(source, sink, tag));
    } else {
        let head = "source=\""@ + source + "\" sink=\""@;
        occurs_in_whole(head, sink, rest, OWN_PREFIX@);
        assert(head + sink + rest =~= loopback_text(source, sink, tag));
    }
}

/// After a crash, everything that wiring a channel or the monitor output loads
/// is recognised as Crossfade's own.
pub proof fn everything_loaded_is_recognised(
    id: u64,
    name: Seq<char>,
    source: Seq<char>,
    mix: Mix,
    target: Seq<char>,
)
    ensures
        leftover("module-null-sink"@, null_sink_text(channel_sink(id), channel_desc(id, name))),
        leftover("module-null-sink"@, vstin_text(id)),
        leftover("module-loopback"@, loopback_text(source, mix.bus(), send_tag(id, mix))),
        leftover("module-loopback"@, loopback_text(source, fx::vstin_sink(id), input_tag(id))),
        leftover("module-loopback"@, loopback_text(source, fx::chain_sink(id), input_tag(id))),
        leftover(
            "module-loopback"@,
            loopback_text(monitor_of(MONITOR_SINK@), target, "Crossfade monitor-out"@),
        ),
{
    own_names_hold_prefix(id);
    null_sinks_are_recognised(channel_sink(id), channel_desc(id, name));
    null_sinks_are_recognised(
        fx::vstin_sink(id),
        "Crossfade Ch "@ + dec(id as nat) + " VST In (internal)"@,
    );
    loopbacks_are_recognised(source, mix.bus(), send_tag(id, mix));
    loopbacks_are_recognised(source, fx::vstin_sink(id), input_tag(id));
    loopbacks_are_recognised(source, fx::chain_sink(id), input_tag(id));
    let e = Seq::<char>::empty();
    occurs_in_whole(e, MONITOR_SINK@, ".monitor"@, OWN_PREFIX@);
    assert(e + MONITOR_SINK@ + ".monitor"@ =~= monitor_of(MONITOR_SINK@));
    loopbacks_are_recognised(monitor_of(MONITOR_SINK@), target, "Crossfade monitor-out"@);
}

/// The mix buses and the capture devices in front of them are recognised too.
pub proof fn buses_are_recognised(mix: Mix, vod: bool)
    ensures
        leftover("module-null-sink"@, mix_bus_text(mix)),
        leftover("module-remap-source"@, mix_mic_text(vod)),
{
    own_names_hold_prefix(0);
    let desc = match mix {
        Mix::Monitor => "Crossfade Monitor Bus"@,
        Mix::Stream => "Crossfade Stream Bus"@,
        Mix::Vod => "Crossfade VOD Bus"@,
    };
    let icon = match mix {
        Mix::Monitor => "audio-headphones"@,
        _ => "audio-input-microphone"@,
    };
    let tail = " sink_properties='device.description=\""@ + desc + "\" device.icon_name="@ + icon + "'"@;
    occurs_in_whole("sink_name="@, mix.bus(), tail, OWN_PREFIX@);
    assert("sink_name="@ + mix.bus() + tail =~= mix_bus_text(mix));
    let bus = if vod {
        VOD_SINK@
    } else {
        STREAM_SINK@
    };
    let name = if vod {
        VOD_MIC@
    } else {
        STREAM_MIC@
    };
    let say = if vod {
        "Crossfade VOD Mix"@
    } else {
        "Crossfade Stream Mix"@
    };
    let rest = ".monitor source_name="@ + name + " source_properties='device.description=\""@ + say
        + "\" device.icon_name=audio-input-microphone'"@;
    occurs_in_whole("master="@, bus, rest, OWN_PREFIX@);
    assert("master="@ + bus + rest =~= mix_mic_text(vod));
}

// ---- How audio flows --------------------------------------------------------

/// With its rack, a channel's input goes into the null sink whose monitor the
/// link script connects to the rack; without it, into the chain. Either way the
/// mixes listen to the chain's output, and past the effects to the input itself.
pub proof fn wiring_goes_through_the_effects(w: ReadyWire, vod: bool, connected: bool, r: WirePlan)
    requires
        PulseManager::wired(w, vod, connected, r),
    ensures
        w.direct ==> r.input is None && !r.link_vst && r.source@ == w.source@,
        !w.direct ==> r.source@ == "Crossfade_Ch"@ + dec(w.id as nat) + "_FXOut"@ && r.link_vst == w.use_vst,
        !w.direct && connected ==> r.input is Some && r.input->0.source@ == w.source@,
        !w.direct && connected && w.use_vst ==> {
            let sink = r.input->0.sink@;
            &&& sink == "Crossfade_Ch"@ + dec(w.id as nat) + "_VSTIn"@
            &&& sink != fx::chain_sink(w.id)
            &&& occurs(fx::link_script_text(w.id), "pw-link '"@ + sink + ":monitor_FL' "@)
            &&& occurs(fx::link_script_text(w.id), "pw-link '"@ + sink + ":monitor_FR' "@)
        },
        !w.direct && connected && !w.use_vst ==> r.input->0.sink@ == "Crossfade_Ch"@ + dec(w.id as nat) + "_FX"@,
        r.input is Some ==> begins(
            r.input->0.args@,
            "source=\""@ + w.source@ + "\" sink=\""@ + r.input->0.sink@ + "\" "@,
        ),
        !connected ==> r.input is None && r.sends@.len() == 0,
{
    audio::channel_devices_are_distinct(w.id);
    let d = dec(w.id as nat);
    let sink = PulseManager::bridge_in(w);
    if r.input is Some {
        audio::loopback_says_what_it_links(w.source@, sink, input_tag(w.id));
    }
    if !w.direct && connected && w.use_vst {
        reveal_strlit("_VSTIn");
        reveal_strlit("_FX");
        reveal_strlit(":monitor_FL' '");
        reveal_strlit(":monitor_FR' '");
        reveal_strlit(":monitor_FL' ");
        reveal_strlit(":monitor_FR' ");
        reveal_strlit(":audio-in1' 2>&1; pw-link '");
        reveal_strlit("pw-link '");
        let s = fx::link_script_text(w.id);
        let b = fx::vst_node(w.id);
        let n = "pw-link '"@ + sink + ":monitor_FL' "@;
        assert(s.subrange(0, n.len() as int) =~= n);
        assert(text::stands_at(s, n, 0));
        let head = "pw-link '"@ + sink + ":monitor_FL' '"@ + b + ":audio-in1' 2>&1; "@;
        reveal_strlit(":audio-in1' 2>&1; ");
        let m = "pw-link '"@ + sink + ":monitor_FR' "@;
        let i = head.len() as int;
        assert(s.subrange(i, i + m.len()) =~= m);
        assert(text::stands_at(s, m, i));
    }
}

/// Every channel is sent into the monitor and the stream mix, and into the VOD
/// mix exactly while it is enabled; into each once, from what it was wired to.
pub proof fn channels_reach_every_mix(w: ReadyWire, vod: bool, r: WirePlan, mix: Mix)
    requires
        PulseManager::wired(w, vod, true, r),
    ensures
        mix != Mix::Vod || vod ==> exists|i: int|
            0 <= i < r.sends@.len() && (#[trigger] r.sends@[i]).mix == mix && begins(
                r.sends@[i].args@,
                "source=\""@ + r.source@ + "\" sink=\""@ + mix.bus() + "\" "@,
            ),
        !vod ==> forall|i: int| 0 <= i < r.sends@.len() ==> (#[trigger] r.sends@[i]).mix != Mix::Vod,
        forall|i: int, j: int|
            0 <= i < j < r.sends@.len() ==> (#[trigger] r.sends@[i]).mix != (#[trigger] r.sends@[j]).mix,
{
    if mix != Mix::Vod || vod {
        let i: int = match mix {
            Mix::Monitor => 0,
            Mix::Stream => 1,
            Mix::Vod => 2,
        };
        assert(r.sends@[i].mix == mix);
        audio::loopback_says_what_it_links(r.source@, mix.bus(), send_tag(w.id, mix));
    }
}

/// The buses that are loaded are those that channels send into.
pub proof fn mixes_follow_the_configuration(vod: bool)
    ensures
        mixes(vod).contains(Mix::Monitor),
        mixes(vod).contains(Mix::Stream),
        mixes(vod).contains(Mix::Vod) <==> vod,
        mixes(vod).no_duplicates(),
{
    assert(mixes(vod)[0] == Mix::Monitor);
    assert(mixes(vod)[1] == Mix::Stream);
    if vod {
        assert(mixes(vod)[2] == Mix::Vod);
    }
}

/// A channel waits for its effects only while their chain runs. When the chain
/// is gone the channel is wired past it, so it is never left silent; while the
/// chain runs it is wired through it, once its nodes are there, and through the
/// rack where one is wanted and runs.
pub proof fn waiting_channels_are_wired(m: PulseManager, fx: fx::FxManager, r: ChannelRuntime, w: ReadyWire)
    requires
        r.pending_wire is Some,
    ensures
        !fx.chain_up(r.id) ==> m.wire_state(fx, r) is Some,
        m.wires(fx, r, w) ==> {
            &&& w.id == r.id
            &&& w.source@ == r.pending_wire->0.source@
            &&& w.direct == !fx.chain_up(r.id)
            &&& w.use_vst ==> r.pending_wire->0.use_vst && fx.rack_up(r.id) && !w.direct
            &&& !w.direct && r.pending_wire->0.use_vst && fx.rack_up(r.id) ==> w.use_vst
            &&& !w.direct ==> m.sink_exists("Crossfade_Ch"@ + dec(r.id as nat) + "_FX"@) && m.source_exists(
                "Crossfade_Ch"@ + dec(r.id as nat) + "_FXOut"@,
            )
            &&& w.use_vst ==> m.sink_exists("Crossfade_Ch"@ + dec(r.id as nat) + "_VSTIn"@)
        },
{
}

/// How a channel is routed follows from its configuration alone: without active
/// effects straight into the mixes, with them through a chain of its own; with
/// any effect configured nothing is decided before the catalog is there.
pub proof fn routing_follows_the_effects(
    cfg: Config,
    id: u64,
    scan_pending: bool,
    catalog: Option<&crate::lv2::Catalog>,
    values: Seq<Vec<String>>,
    r: WireStep,
)
    requires
        PulseManager::decided(cfg, id, scan_pending, catalog, values, r),
        cfg.has_channel(id),
    ensures
        ({
            let c = cfg.channels@[cfg.position(id)];
            let on = (exists|i: int| 0 <= i < c.effects@.len() && (#[trigger] c.effects@[i]).enabled) || (exists|
                i: int,
            |
                0 <= i < c.vst_plugins@.len() && (#[trigger] c.vst_plugins@[i]).enabled);
            &&& !(r is Gone)
            &&& r is AwaitCatalog <==> scan_pending && c.effects@.len() > 0
            &&& !(r is AwaitCatalog) ==> (r is Effects <==> on) && (r is Direct <==> !on)
        }),
{
}

/// After a rebuild a channel with a capture device is wired from that device,
/// or waits for exactly that device while it is missing; one with applications
/// or a virtual device gets a sink of its own; one without input is silenced.
/// Nothing happens while the graph is down or the channel is gone.
pub proof fn rebuilding_follows_the_assignment(m: PulseManager, cfg: Config, id: u64, r: Rebuild, new: PulseManager)
    requires
        m.rebuilt(cfg, id, r, new),
        m.wf(),
    ensures
        r.removed <==> !cfg.has_channel(id),
        !cfg.has_channel(id) || !m.ready || m.shutting_down ==> r.step is Nothing,
        !cfg.has_channel(id) ==> !new.runs(id),
        cfg.has_channel(id) && m.ready && !m.shutting_down ==> {
            let a = cfg.channels@[cfg.position(id)].assignment;
            let rt = new.channels@[m.position(id)];
            &&& a is None ==> r.step is Silence
            &&& a is Some && a->0 is Source && m.source_exists((a->0)->Source_name@) ==> r.step is Wire
                && r.step->Wire_0@ == (a->0)->Source_name@ && rt.pending_source is None
            &&& a is Some && a->0 is Source && !m.source_exists((a->0)->Source_name@) ==> r.step is Park
                && rt.pending_source is Some && rt.pending_source->0@ == (a->0)->Source_name@
            &&& a is Some && !(a->0 is Source) ==> r.step is LoadSink && rt.pending_source is None && begins(
                r.step->LoadSink_0@,
                "sink_name=Crossfade_Ch"@ + dec(id as nat) + " "@,
            )
        },
        cfg.has_channel(id) ==> new.runs(id) && new.generation_of(id) == m.generation_of(id) + 1,
        forall|k: int|
            0 <= k < r.unload@.len() ==> !new.owned_modules@.contains(#[trigger] r.unload@[k]),
        r.unload@ == m.channel_modules(id),
        forall|other: u64|
            other != id && m.runs(other) ==> #[trigger] new.channels@.contains(m.channels@[m.position(other)]),
        cfg.has_channel(id) ==> {
            let rt = new.channels@[m.position(id)];
            &&& rt.id == id && rt.sink_module is None && rt.vstin_module is None && rt.pending_wire is None
            &&& rt.monitor_loop.module is None && rt.monitor_loop.target@.len() == 0
            &&& rt.stream_loop.module is None && rt.stream_loop.target@.len() == 0
            &&& rt.vod_loop.module is None && rt.vod_loop.target@.len() == 0
            &&& rt.input_loop.module is None && rt.input_loop.target@.len() == 0
            &&& rt.monitor_loop.source_target@.len() == 0 && rt.input_loop.source_target@.len() == 0
        },
        forall|x: u32| #[trigger]
            new.owned_modules@.contains(x) <==> m.owned_modules@.contains(x) && !r.unload@.contains(x),
        new.monitor_out == m.monitor_out && new.vod_modules == m.vod_modules && new.ready == m.ready,
{
    without_keeps(m.owned_modules@, r.unload@);
    let p = m.position(id);
    first_is_least(m.channels@, runtime_is(id));
    if m.runs(id) {
        let k = choose|k: int| 0 <= k < m.channels@.len() && (#[trigger] m.channels@[k]).id == id;
        first_exists(m.channels@, runtime_is(id), k);
    } else if p < m.channels@.len() {
        assert(m.channels@[p].id == id);
    }
    if cfg.has_channel(id) {
        assert(new.channels@[p].id == id);
        assert forall|j: int| 0 <= j < p implies !runtime_is(id)(#[trigger] new.channels@[j]) by {
            assert(!runtime_is(id)(m.channels@[j]));
        }
        first_is_at(new.channels@, runtime_is(id), p);
        reveal_strlit("sink_name=");
        reveal_strlit("Crossfade_Ch");
        reveal_strlit("sink_name=Crossfade_Ch");
        reveal_strlit(" sink_properties='device.description=\"");
        reveal_strlit(" ");
        audio::channel_devices_are_distinct(id);
        let name = cfg.channels@[cfg.position(id)].name@;
        let t = null_sink_text(channel_sink(id), channel_desc(id, name));
        let n = "sink_name=Crossfade_Ch"@ + dec(id as nat) + " "@;
        assert(t.subrange(0, n.len() as int) =~= n);
    } else {
        assert forall|i: int| 0 <= i < new.channels@.len() implies (#[trigger] new.channels@[i]).id != id by {
            if m.runs(id) {
                let o = if i < p {
                    i
                } else {
                    i + 1
                };
                assert(new.channels@[i] == m.channels@[o]);
                if o < p {
                    assert(m.channels@[o].id != m.channels@[p].id);
                } else {
                    assert(m.channels@[p].id != m.channels@[o].id);
                }
            } else {
                assert(new.channels@[i] == m.channels@[i]);
            }
        }
    }
    crate::list::filter_keeps(m.owned_modules@, staying(r.unload@));
    assert forall|k: int| 0 <= k < r.unload@.len() implies !new.owned_modules@.contains(#[trigger] r.unload@[k]) by {
        let s = new.owned_modules@;
        if s.contains(r.unload@[k]) {
            let i = choose|i: int| 0 <= i < s.len() && s[i] == r.unload@[k];
            assert(staying(r.unload@)(s[i]));
            assert(r.unload@.contains(r.unload@[k]));
        }
    }
    assert forall|other: u64| other != id && m.runs(other) implies #[trigger] new.channels@.contains(
        m.channels@[m.position(other)],
    ) by {
        let q = m.position(other);
        first_is_least(m.channels@, runtime_is(other));
        let k = choose|k: int| 0 <= k < m.channels@.len() && (#[trigger] m.channels@[k]).id == other;
        first_exists(m.channels@, runtime_is(other), k);
        assert(m.channels@[q].id == other);
        let o = if cfg.has_channel(id) || !m.runs(id) || q < p {
            q
        } else {
            q - 1
        };
        assert(new.channels@[o] == m.channels@[q]);
    }
}

/// A channel gives up every module it had when it is rebuilt: its sends, the
/// loopback into its effects, the sink in front of its rack and its own sink.
pub proof fn channels_own_all_their_modules(r: ChannelRuntime, x: u32)
    ensures
        modules_of(r).contains(x) <==> r.monitor_loop.module == Some(x) || r.stream_loop.module == Some(x)
            || r.vod_loop.module == Some(x) || r.input_loop.module == Some(x) || r.vstin_module == Some(x)
            || r.sink_module == Some(x),
{
    let a = opt_module(r.monitor_loop.module);
    let b = opt_module(r.stream_loop.module);
    let c = opt_module(r.vod_loop.module);
    let d = opt_module(r.input_loop.module);
    let e = opt_module(r.vstin_module);
    let f = opt_module(r.sink_module);
    either_holds(a, b, x);
    either_holds(a + b, c, x);
    either_holds(a + b + c, d, x);
    either_holds(a + b + c + d, e, x);
    either_holds(a + b + c + d + e, f, x);
    some_holds(r.monitor_loop.module, x);
    some_holds(r.stream_loop.module, x);
    some_holds(r.vod_loop.module, x);
    some_holds(r.input_loop.module, x);
    some_holds(r.vstin_module, x);
    some_holds(r.sink_module, x);
}

/// What two lists hold together.
proof fn either_holds(a: Seq<u32>, b: Seq<u32>, x: u32)
    ensures
        (a + b).contains(x) <==> a.contains(x) || b.contains(x),
{
    let s = a + b;
    if s.contains(x) {
        let i = choose|i: int| 0 <= i < s.len() && s[i] == x;
        if i < a.len() {
            assert(a[i] == x);
        } else {
            assert(b[i - a.len()] == x);
        }
    }
    if a.contains(x) {
        let i = choose|i: int| 0 <= i < a.len() && a[i] == x;
        assert(s[i] == x);
    }
    if b.contains(x) {
        let i = choose|i: int| 0 <= i < b.len() && b[i] == x;
        assert(s[a.len() + i] == x);
    }
}

/// What a module that may be missing holds.
proof fn some_holds(m: Option<u32>, x: u32)
    ensures
        opt_module(m).contains(x) <==> m == Some(x),
{
    if m == Some(x) {
        assert(opt_module(m)[0] == x);
    }
}

/// A module is adopted only where the server loaded it and nothing overtook the
/// request; one that comes too late is unloaded, and one that failed is not.
pub proof fn late_modules_are_unloaded(m: PulseManager, id: u64, generation: u64, idx: u32)
    ensures
        outcome(0xffff_ffff, m.is_stale(id, generation)) is Failed,
        idx != 0xffff_ffff && (m.shutting_down || !m.runs(id) || m.generation_of(id) != generation) ==> outcome(
            idx,
            m.is_stale(id, generation),
        ) is Stale,
        idx != 0xffff_ffff && !m.shutting_down && m.runs(id) && m.generation_of(id) == generation ==> outcome(
            idx,
            m.is_stale(id, generation),
        ) is Adopted,
{
}

/// A send into the VOD mix that arrives while the mix is disabled is unloaded;
/// the other mixes do not care.
pub proof fn late_vod_sends_are_unloaded(m: PulseManager, cfg: Config, id: u64, generation: u64, mix: Mix)
    ensures
        !cfg.vod_mix_enabled ==> m.send_is_stale(cfg, id, generation, Mix::Vod),
        cfg.vod_mix_enabled || mix != Mix::Vod ==> m.send_is_stale(cfg, id, generation, mix) == m.is_stale(
            id,
            generation,
        ),
{
}

/// The monitor mix plays on the configured device while that exists. Else it
/// plays on the default output, but never into a device of Crossfade's own,
/// which would feed the mix back into itself.
pub proof fn monitor_plays_where_configured(m: PulseManager, cfg: Config)
    ensures
        ({
            let d = cfg.master.monitor_device;
            let t = m.monitor_target(cfg);
            &&& d is Some && m.sink_exists(d->0@) ==> t == Some(d->0@)
            &&& (d is None || !m.sink_exists(d->0@)) && t is Some ==> m.default_sink is Some && t->0
                == m.default_sink->0@ && !begins(t->0, "Crossfade_"@)
            &&& (d is None || !m.sink_exists(d->0@)) && m.default_sink is Some && !begins(
                m.default_sink->0@,
                "Crossfade_"@,
            ) ==> t is Some
        }),
{
}

/// Setting up the monitor output replaces it: the old loopback goes, the new one
/// runs from the monitor bus to the device the mix is to play on, and callbacks
/// of an earlier set-up are out of date.
pub proof fn monitor_output_is_replaced(m: PulseManager, cfg: Config, r: Option<MonitorSetup>, new: PulseManager)
    requires
        m.output_set_up(cfg, r, new),
        m.ready,
        !m.shutting_down,
        m.monitor_out_generation < u64::MAX,
    ensures
        r is Some,
        r->0.unload == m.monitor_out.module,
        new.monitor_out.module is None,
        new.monitor_out_generation > m.monitor_out_generation,
        !new.monitor_out_deferred,
        new.monitor_out_pending <==> r->0.load is Some,
        r->0.load is Some <==> m.monitor_target(cfg) is Some && m.connected,
        r->0.load is Some ==> r->0.load->0.generation == new.monitor_out_generation && begins(
            r->0.load->0.args@,
            "source=\"Crossfade_Monitor.monitor\" sink=\""@ + m.monitor_target(cfg)->0 + "\" "@,
        ),
        r->0.load is Some ==> r->0.load->0.target@ == m.monitor_target(cfg)->0,
        new.channels == m.channels,
        new.vod_modules == m.vod_modules,
        m.monitor_out.module is Some ==> !new.owned_modules@.contains(m.monitor_out.module->0),
        forall|x: u32|
            m.owned_modules@.contains(x) && m.monitor_out.module != Some(x) ==> #[trigger] new.owned_modules@.contains(
                x,
            ),
{
    without_keeps(m.owned_modules@, opt_module(m.monitor_out.module));
    if let Some(x) = m.monitor_out.module {
        some_holds(m.monitor_out.module, x);
    }
    if r->0.load is Some {
        let t = m.monitor_target(cfg)->0;
        let src = monitor_of(MONITOR_SINK@);
        audio::loopback_says_what_it_links(src, t, "Crossfade monitor-out"@);
        reveal_strlit("source=\"");
        reveal_strlit("\" sink=\"");
        reveal_strlit("Crossfade_Monitor");
        reveal_strlit(".monitor");
        reveal_strlit("source=\"Crossfade_Monitor.monitor\" sink=\"");
        assert("source=\""@ + src + "\" sink=\""@ =~= "source=\"Crossfade_Monitor.monitor\" sink=\""@);
        assert("source=\""@ + src + "\" sink=\""@ + t + "\" "@
            =~= "source=\"Crossfade_Monitor.monitor\" sink=\""@ + t + "\" "@);
    }
}

/// The monitor output waits for capture: it is not set up while it is deferred
/// and a channel with a capture device neither runs nor waits for its device.
/// Otherwise it is set up where it is missing, or plays elsewhere although the
/// configured device is there; and never while one is being loaded.
pub proof fn monitor_output_waits_for_capture(m: PulseManager, cfg: Config, r: bool, new: PulseManager, i: int)
    requires
        m.refreshed(cfg, r, new),
        0 <= i < cfg.channels@.len(),
    ensures
        ({
            let c = cfg.channels@[i];
            let rt = m.channels@[m.position(c.id)];
            m.monitor_out_deferred && c.assignment is Some && c.assignment->0 is Source && (!m.runs(c.id) || (
            rt.pending_source is None && rt.monitor_loop.sink_input is None && rt.input_loop.sink_input is None))
                ==> !r && new.monitor_out_deferred
        }),
        m.monitor_out_pending || !m.ready ==> !r,
        m.ready && !m.monitor_out_pending && !m.monitor_out_deferred && m.monitor_out.module is None ==> r,
        m.monitor_out.module is Some && r ==> cfg.master.monitor_device is Some
            && cfg.master.monitor_device->0@ != m.monitor_out.target@ && m.sink_exists(
            cfg.master.monitor_device->0@,
        ),
        m.ready && !m.monitor_out_pending && !m.monitor_out_deferred && cfg.master.monitor_device is Some
            && cfg.master.monitor_device->0@ != m.monitor_out.target@ && m.sink_exists(
            cfg.master.monitor_device->0@,
        ) ==> r,
        !m.monitor_out_deferred ==> !new.monitor_out_deferred,
{
    assert(m.all_settled(cfg) ==> m.is_settled(cfg.channels@[i]));
}

/// Deferral ends once no channel with a capture device is still coming up.
pub proof fn deferral_ends_when_capture_runs(m: PulseManager, cfg: Config, r: bool, new: PulseManager)
    requires
        m.refreshed(cfg, r, new),
        forall|i: int|
            #![trigger cfg.channels@[i]]
            0 <= i < cfg.channels@.len() && cfg.channels@[i].assignment is Some
                && cfg.channels@[i].assignment->0 is Source ==> m.runs(cfg.channels@[i].id) && (
            m.channels@[m.position(cfg.channels@[i].id)].pending_source is Some
                || m.channels@[m.position(cfg.channels@[i].id)].monitor_loop.sink_input is Some
                || m.channels@[m.position(cfg.channels@[i].id)].input_loop.sink_input is Some),
    ensures
        !new.monitor_out_deferred,
        m.ready && !m.monitor_out_pending && m.monitor_out.module is None ==> r,
{
}

/// The monitor output makes way only for a capture device that has just
/// appeared on the card it plays on, or is configured to play on.
pub proof fn output_makes_way_for_its_card(m: PulseManager, cfg: Config, i: int)
    requires
        0 <= i < m.channels@.len(),
        m.channels@[i].pending_source is Some,
        m.source_exists(m.channels@[i].pending_source->0@),
        m.source_card(m.channels@[i].pending_source->0@) is Some,
    ensures
        ({
            let card = m.source_card(m.channels@[i].pending_source->0@);
            let d = cfg.master.monitor_device;
            &&& m.monitor_out.module is Some && m.sink_card(m.monitor_out.target@) == card ==> m.must_bounce(cfg)
            &&& m.monitor_out.module is Some && d is Some && m.sink_card(d->0@) == card ==> m.must_bounce(cfg)
            &&& m.monitor_out.module is None ==> !m.must_bounce(cfg)
        }),
        m.sink_card(m.monitor_out.target@) is None && (cfg.master.monitor_device is None || m.sink_card(
            cfg.master.monitor_device->0@,
        ) is None) ==> !m.must_bounce(cfg),
{
    assert((m.has_arrived())(m.channels@[i]));
}

/// Toggling the VOD mix touches nothing but the VOD mix. Enabling loads its bus,
/// disabling unloads its bus and every send into it, and doing neither while the
/// server agrees already does nothing.
pub proof fn vod_mix_comes_and_goes_alone(m: PulseManager, cfg: Config, r: VodStep, new: PulseManager, i: int)
    requires
        m.vod_applied(cfg, r, new),
        m.ready,
        !m.shutting_down,
        m.connected,
        0 <= i < m.channels@.len(),
    ensures
        r is Nothing <==> cfg.vod_mix_enabled == (m.vod_modules@.len() > 0),
        r is LoadBus <==> cfg.vod_mix_enabled && m.vod_modules@.len() == 0,
        r is LoadBus ==> begins(r->LoadBus_0@, "sink_name=Crossfade_Vod "@),
        r is Unload ==> {
            &&& m.channels@[i].vod_loop.module is Some ==> r->Unload_0@.contains(m.channels@[i].vod_loop.module->0)
            &&& forall|k: int| 0 <= k < m.vod_modules@.len() ==> r->Unload_0@.contains(#[trigger] m.vod_modules@[k])
            &&& new.channels@[i].vod_loop.module is None
            &&& new.vod_modules@.len() == 0
        },
        new.channels@.len() == m.channels@.len(),
        new.channels@[i].monitor_loop == m.channels@[i].monitor_loop,
        new.channels@[i].stream_loop == m.channels@[i].stream_loop,
        new.channels@[i].input_loop == m.channels@[i].input_loop,
        new.channels@[i].generation == m.channels@[i].generation,
        new.channels@[i].id == m.channels@[i].id,
        new.channels@[i].pending_source == m.channels@[i].pending_source,
        new.channels@[i].pending_wire == m.channels@[i].pending_wire,
        new.channels@[i].sink_module == m.channels@[i].sink_module,
        new.channels@[i].vstin_module == m.channels@[i].vstin_module,
        new.monitor_out == m.monitor_out,
        !(r is Unload) ==> new == m,
        r is Unload ==> forall|x: u32| #[trigger]
            new.owned_modules@.contains(x) <==> m.owned_modules@.contains(x) && !r->Unload_0@.contains(x),
        r is Unload ==> new.channels@[i].vod_loop.target@.len() == 0,
{
    if r is Unload {
        without_keeps(m.owned_modules@, r->Unload_0@);
    }
    if r is LoadBus {
        reveal_strlit("sink_name=");
        reveal_strlit("Crossfade_Vod");
        reveal_strlit("sink_name=Crossfade_Vod ");
        reveal_strlit(" sink_properties='device.description=\"");
        let t = mix_bus_text(Mix::Vod);
        let n = "sink_name=Crossfade_Vod "@;
        assert(t.subrange(0, n.len() as int) =~= n);
    }
    if r is Unload {
        let a = vod_sends(m.channels@);
        let b = m.vod_modules@;
        if m.channels@[i].vod_loop.module is Some {
            let x = m.channels@[i].vod_loop.module->0;
            vod_send_is_listed(m.channels@, i);
            either_holds(a, b, x);
        }
        assert forall|k: int| 0 <= k < b.len() implies r->Unload_0@.contains(#[trigger] b[k]) by {
            assert(b.contains(b[k]));
            either_holds(a, b, b[k]);
        }
        assert(new.channels@[i].vod_loop.is_idle());
    }
}

/// Every send into the VOD mix is listed.
proof fn vod_send_is_listed(s: Seq<ChannelRuntime>, i: int)
    requires
        0 <= i < s.len(),
        s[i].vod_loop.module is Some,
    ensures
        vod_sends(s).contains(s[i].vod_loop.module->0),
    decreases s.len(),
{
    let x = s[i].vod_loop.module->0;
    let t = s.drop_last();
    either_holds(vod_sends(t), opt_module(s.last().vod_loop.module), x);
    some_holds(s.last().vod_loop.module, x);
    if i < t.len() {
        assert(t[i] == s[i]);
        vod_send_is_listed(t, i);
    }
}

/// A wired channel gets its send into a VOD mix that has just come up, and a
/// channel that has one, or is getting one, does not get a second.
pub proof fn missing_vod_sends_are_found(r: ChannelRuntime)
    ensures
        r.vod_loop.module is Some ==> !lacks_vod()(r),
        r.vod_loop.target@.len() > 0 ==> !lacks_vod()(r),
        r.monitor_loop.source_target@.len() == 0 ==> !lacks_vod()(r),
        r.monitor_loop.source_target@.len() > 0 && r.vod_loop.is_idle() ==> lacks_vod()(r),
{
}

/// The connection's end is reported unless it was asked for; without it the
/// graph is not up, and only a ready connection starts anything.
pub proof fn connection_is_followed(m: PulseManager, state: ContextState, r: ContextStep, new: PulseManager)
    requires
        m.followed(state, r, new),
    ensures
        new.connected <==> state is Ready,
        r is Start <==> state is Ready,
        state is Failed ==> !new.ready && r is ReportFailed,
        state is Terminated && !m.shutting_down ==> !new.ready && r is ReportTerminated,
        state is Terminated && m.shutting_down ==> r is Nothing,
        new.ready ==> m.ready,
        m.ready && (state is Ready || state is Other) ==> new.ready,
        new.shutting_down == m.shutting_down,
        new.owned_modules == m.owned_modules,
{
}

/// Only modules with Crossfade's names, present or former, are cleaned up after
/// a crash; what belongs to others stays.
pub proof fn foreign_modules_are_left_alone(name: Seq<char>, arg: Seq<char>)
    ensures
        !occurs(arg, "Crossfade_"@) && !occurs(arg, "OpenWave_"@) ==> !leftover(name, arg),
        name != "module-null-sink"@ && name != "module-loopback"@ && name != "module-remap-source"@ ==> !leftover(
            name,
            arg,
        ),
        occurs(arg, "Crossfade_"@) || occurs(arg, "OpenWave_"@) ==> leftover("module-null-sink"@, arg) && leftover(
            "module-loopback"@,
            arg,
        ) && leftover("module-remap-source"@, arg),
{
}

/// The capture devices for other software tap the bus they are named after.
pub proof fn mix_mics_tap_their_bus()
    ensures
        begins(mix_mic_text(false), "master=Crossfade_Stream.monitor source_name=Crossfade_StreamMic "@),
        begins(mix_mic_text(true), "master=Crossfade_Vod.monitor source_name=Crossfade_VodMic "@),
        occurs(mix_mic_text(false), "\"Crossfade Stream Mix\""@),
        occurs(mix_mic_text(true), "\"Crossfade VOD Mix\""@),
{
    reveal_strlit("master=");
    reveal_strlit("Crossfade_Stream");
    reveal_strlit("Crossfade_Vod");
    reveal_strlit("Crossfade_StreamMic");
    reveal_strlit("Crossfade_VodMic");
    reveal_strlit(".monitor source_name=");
    reveal_strlit(" source_properties='device.description=\"");
    reveal_strlit("master=Crossfade_Stream.monitor source_name=Crossfade_StreamMic ");
    reveal_strlit("master=Crossfade_Vod.monitor source_name=Crossfade_VodMic ");
    reveal_strlit("Crossfade Stream Mix");
    reveal_strlit("Crossfade VOD Mix");
    reveal_strlit("\"Crossfade Stream Mix\"");
    reveal_strlit("\"Crossfade VOD Mix\"");
    reveal_strlit("\" device.icon_name=audio-input-microphone'");
    let a = mix_mic_text(false);
    let b = mix_mic_text(true);
    let x = "master=Crossfade_Stream.monitor source_name=Crossfade_StreamMic "@;
    let y = "master=Crossfade_Vod.monitor source_name=Crossfade_VodMic "@;
    assert(a.subrange(0, x.len() as int) =~= x);
    assert(b.subrange(0, y.len() as int) =~= y);
    let p = "\"Crossfade Stream Mix\""@;
    let q = "\"Crossfade VOD Mix\""@;
    let i = x.len() + " source_properties='device.description=\""@.len() - 2;
    let j = y.len() + " source_properties='device.description=\""@.len() - 2;
    assert(a.subrange(i, i + p.len()) =~= p);
    assert(b.subrange(j, j + q.len()) =~= q);
    assert(text::stands_at(a, p, i));
    assert(text::stands_at(b, q, j));
}

/// A channel's device is described by the channel's name, trimmed, without the
/// characters that would break the quoting; a nameless channel by its number.
pub proof fn device_descriptions_are_safe(id: u64, name: Seq<char>)
    ensures
        begins(channel_desc(id, name), "Crossfade"@),
        forall|i: int|
            0 <= i < channel_desc(id, name).len() ==> {
                let c = #[trigger] channel_desc(id, name)[i];
                c != '"' && c != '\'' && c != '\\'
            },
        trim(name).filter(unquoted()).len() > 0 ==> channel_desc(id, name) == "Crossfade: "@ + trim(name).filter(
            unquoted(),
        ),
        text::blank(name) ==> channel_desc(id, name) == "Crossfade Channel "@ + dec(id as nat),
{
    reveal_strlit("Crossfade");
    reveal_strlit("Crossfade: ");
    reveal_strlit("Crossfade Channel ");
    let t = trim(name);
    let s = channel_desc(id, name);
    assert(s.subrange(0, 9) =~= "Crossfade"@);
    crate::list::filter_keeps(t, unquoted());
    text::decimal_is_digits(id as nat);
    text::trim_is_empty_when_blank(name);
    assert forall|i: int| 0 <= i < s.len() implies ({
        let c = #[trigger] s[i];
        c != '"' && c != '\'' && c != '\\'
    }) by {
        let clean = t.filter(unquoted());
        if clean.len() > 0 {
            if i >= 11 {
                assert(s[i] == clean[i - 11]);
                assert(unquoted()(clean[i - 11]));
            }
        } else if i >= 18 {
            assert(s[i] == dec(id as nat)[i - 18]);
        }
    }
}

/// A drifting stream is put back where its loopback belongs: the move concerns
/// the loopback's own stream and goes to its own target, and only to a capture
/// device that is there.
pub proof fn drift_is_moved_back(m: PulseManager, l: Loopback)
    ensures
        m.sink_move(l) is Some ==> l.sink_input == Some((m.sink_move(l)->0).0) && (m.sink_move(l)->0).1 == l.target@
            && l.target@.len() > 0,
        m.source_move(l) is Some ==> l.source_output == Some((m.source_move(l)->0).0) && (m.source_move(l)->0).1
            == l.source_target@ && m.source_exists(l.source_target@),
        l.sink_input is None ==> m.sink_move(l) is None,
        l.source_output is None ==> m.source_move(l) is None,
{
}

/// Every loopback of a running channel is watched, with the volume and mute its
/// faders ask for; the one into its effects always runs open at unity gain. The
/// monitor output is watched with the monitor master.
pub proof fn every_loopback_is_watched(m: PulseManager, cfg: Config, raws: Seq<SendRaws>, master: u32, i: int)
    requires
        0 <= i < cfg.channels@.len(),
        m.runs(cfg.channels@[i].id),
    ensures
        ({
            let c = cfg.channels@[i];
            let rt = m.channels@[m.position(c.id)];
            let s = m.links(cfg, raws, master);
            &&& s.contains(
                Managed {
                    which: LoopbackRef::Mix(c.id, Mix::Monitor),
                    link: rt.monitor_loop,
                    raw: raws[i].monitor,
                    mute: c.monitor_muted,
                },
            )
            &&& s.contains(
                Managed {
                    which: LoopbackRef::Mix(c.id, Mix::Stream),
                    link: rt.stream_loop,
                    raw: raws[i].stream,
                    mute: c.stream_muted || cfg.master.stream_muted,
                },
            )
            &&& s.contains(
                Managed {
                    which: LoopbackRef::Mix(c.id, Mix::Vod),
                    link: rt.vod_loop,
                    raw: raws[i].vod,
                    mute: c.vod_muted || cfg.master.vod_muted,
                },
            )
            &&& s.contains(
                Managed { which: LoopbackRef::Input(c.id), link: rt.input_loop, raw: 0x10000, mute: false },
            )
            &&& s.contains(
                Managed {
                    which: LoopbackRef::MonitorOut,
                    link: m.monitor_out,
                    raw: master,
                    mute: cfg.master.monitor_muted,
                },
            )
        }),
{
    let s = m.links(cfg, raws, master);
    let add = m.channel_links(cfg, raws, i);
    let n = cfg.channels@.len() as int;
    let all = m.links_upto(cfg, raws, n);
    let at = links_are_kept(m, cfg, raws, i, n);
    assert(s[at] == add[0]);
    assert(s[at + 1] == add[1]);
    assert(s[at + 2] == add[2]);
    assert(s[at + 3] == add[3]);
    assert(s[all.len() as int] == s.last());
}

/// Where the loopbacks of a channel stand among all.
proof fn links_are_kept(m: PulseManager, cfg: Config, raws: Seq<SendRaws>, i: int, n: int) -> (at: int)
    requires
        0 <= i < n,
    ensures
        0 <= at,
        at + m.channel_links(cfg, raws, i).len() <= m.links_upto(cfg, raws, n).len(),
        forall|k: int|
            0 <= k < m.channel_links(cfg, raws, i).len() ==> m.links_upto(cfg, raws, n)[at + k] == (
            #[trigger] m.channel_links(cfg, raws, i)[k]),
    decreases n,
{
    if i == n - 1 {
        m.links_upto(cfg, raws, n - 1).len() as int
    } else {
        links_are_kept(m, cfg, raws, i, n - 1)
    }
}

/// Volumes count as the same up to one step either way.
pub proof fn one_step_is_no_drift(a: u32, b: u32)
    ensures
        distance(a, b) == distance(b, a),
        a <= b ==> a + distance(a, b) == b,
        distance(a, b) >= 0,
{
}

/// A stream that drifted in volume or mute is set again, and one that is as it
/// should be is not.
pub proof fn drift_is_told_from_the_stream(m: PulseManager, l: Loopback, i: int, raw: u32, mute: bool)
    requires
        0 <= i < m.sink_inputs@.len(),
        l.sink_input == Some(m.sink_inputs@[i].index),
        forall|j: int| 0 <= j < i ==> (#[trigger] m.sink_inputs@[j]).index != m.sink_inputs@[i].index,
    ensures
        m.sink_inputs@[i].mute != mute ==> m.drifted(l, raw, mute),
        m.sink_inputs@[i].volume_raw > raw + 1 || m.sink_inputs@[i].volume_raw + 1 < raw ==> m.drifted(l, raw, mute),
        m.sink_inputs@[i].mute == mute && m.sink_inputs@[i].volume_raw == raw ==> !m.drifted(l, raw, mute),
{
    first_is_at(m.sink_inputs@, input_at(m.sink_inputs@[i].index), i);
}

/// A loopback learns the streams its own module opened, and no others; what it
/// knows already it keeps, and so does where it belongs.
pub proof fn loopbacks_learn_their_own_streams(m: PulseManager, l: Loopback)
    ensures
        m.matched(l).module == l.module,
        m.matched(l).target == l.target,
        m.matched(l).source_target == l.source_target,
        l.sink_input is Some ==> m.matched(l).sink_input == l.sink_input,
        l.source_output is Some ==> m.matched(l).source_output == l.source_output,
        l.module is None ==> m.matched(l) == l,
        l.sink_input is None && m.matched(l).sink_input is Some ==> exists|i: int|
            0 <= i < m.sink_inputs@.len() && (#[trigger] m.sink_inputs@[i]).owner_module == l.module
                && m.matched(l).sink_input == Some(m.sink_inputs@[i].index) && m.matched(l).channels
                == m.sink_inputs@[i].channels,
        l.source_output is None && m.matched(l).source_output is Some ==> exists|i: int|
            0 <= i < m.source_outputs@.len() && (#[trigger] m.source_outputs@[i]).owner_module == l.module
                && m.matched(l).source_output == Some(m.source_outputs@[i].index),
        l.module is Some && l.sink_input is None && (exists|i: int|
            0 <= i < m.sink_inputs@.len() && (#[trigger] m.sink_inputs@[i]).owner_module == l.module)
            ==> m.matched(l).sink_input is Some,
{
    if l.module is Some {
        let x = l.module->0;
        first_is_least(m.sink_inputs@, input_of(x));
        first_is_least(m.source_outputs@, output_of(x));
        if exists|i: int| 0 <= i < m.sink_inputs@.len() && (#[trigger] m.sink_inputs@[i]).owner_module == l.module {
            let i = choose|i: int|
                0 <= i < m.sink_inputs@.len() && (#[trigger] m.sink_inputs@[i]).owner_module == l.module;
            first_exists(m.sink_inputs@, input_of(x), i);
        }
    }
}

/// Matching touches every loopback of a channel and nothing else of it.
pub proof fn all_loopbacks_are_matched(m: PulseManager, r: ChannelRuntime)
    ensures
        m.matched_runtime(r).monitor_loop == m.matched(r.monitor_loop),
        m.matched_runtime(r).stream_loop == m.matched(r.stream_loop),
        m.matched_runtime(r).vod_loop == m.matched(r.vod_loop),
        m.matched_runtime(r).input_loop == m.matched(r.input_loop),
        m.matched_runtime(r).id == r.id,
        m.matched_runtime(r).generation == r.generation,
        m.matched_runtime(r).sink_module == r.sink_module,
        m.matched_runtime(r).pending_source == r.pending_source,
{
}

/// A stream of an application that is assigned to a channel is moved into that
/// channel's sink, wherever else it plays; streams of Crossfade's own and of
/// other applications stay where they are.
pub proof fn applications_go_to_their_channel(m: PulseManager, c: ChannelConfig, k: int)
    requires
        c.assignment is Some && c.assignment->0 is App,
        m.runs(c.id),
        m.channels@[m.position(c.id)].sink_module is Some,
        m.sink_exists("Crossfade_Ch"@ + dec(c.id as nat)),
        0 <= k < m.sink_inputs@.len(),
    ensures
        ({
            let e = m.sink_inputs@[k];
            let sink = "Crossfade_Ch"@ + dec(c.id as nat);
            let foreign = e.owner_module is None || !m.owned_modules@.contains(e.owner_module->0);
            foreign && e.app_name is Some && e.app_name->0@ == (c.assignment->0)->App_name@ && sink_name(
                m.sinks@,
                e.sink,
            ) != Some(sink) ==> m.channel_moves(c).contains((e.index, sink))
        }),
        forall|j: int|
            0 <= j < m.channel_moves(c).len() ==> {
                let mv = #[trigger] m.channel_moves(c)[j];
                &&& mv.1 == "Crossfade_Ch"@ + dec(c.id as nat)
                &&& exists|i: int|
                    0 <= i < m.sink_inputs@.len() && (#[trigger] m.sink_inputs@[i]).index == mv.0
                        && m.sink_inputs@[i].app_name is Some && m.sink_inputs@[i].app_name->0@ == (
                    c.assignment->0)->App_name@ && (m.sink_inputs@[i].owner_module is None
                        || !m.owned_modules@.contains(m.sink_inputs@[i].owner_module->0))
            },
{
    audio::channel_devices_are_distinct(c.id);
    let target = channel_sink(c.id);
    let p = m.misplaced((c.assignment->0)->App_name@, target);
    let s = m.sink_inputs@.filter(p);
    crate::list::filter_keeps(m.sink_inputs@, p);
    if p(m.sink_inputs@[k]) {
        crate::list::filter_loses_nothing(m.sink_inputs@, p, k);
        let j = choose|j: int| 0 <= j < s.len() && s[j] == m.sink_inputs@[k];
        assert(m.channel_moves(c)[j] == (m.sink_inputs@[k].index, target));
    }
    assert forall|j: int| 0 <= j < m.channel_moves(c).len() implies ({
        let mv = #[trigger] m.channel_moves(c)[j];
        &&& mv.1 == "Crossfade_Ch"@ + dec(c.id as nat)
        &&& exists|i: int|
            0 <= i < m.sink_inputs@.len() && (#[trigger] m.sink_inputs@[i]).index == mv.0
                && m.sink_inputs@[i].app_name is Some && m.sink_inputs@[i].app_name->0@ == (
            c.assignment->0)->App_name@ && (m.sink_inputs@[i].owner_module is None || !m.owned_modules@.contains(
                m.sink_inputs@[i].owner_module->0,
            ))
    }) by {
        assert(p(s[j]));
        assert(m.sink_inputs@.contains(s[j]));
        let i = choose|i: int| 0 <= i < m.sink_inputs@.len() && m.sink_inputs@[i] == s[j];
        assert(m.sink_inputs@[i].index == m.channel_moves(c)[j].0);
    }
}

/// Nothing is moved for a channel that no application is assigned to.
pub proof fn other_channels_move_nothing(m: PulseManager, c: ChannelConfig)
    requires
        c.assignment is None || !(c.assignment->0 is App),
    ensures
        m.channel_moves(c).len() == 0,
{
}

/// The device of a stream is the one listed under its index.
pub proof fn devices_are_found_by_index(sinks: Seq<(u32, SinkEntry)>, sources: Seq<SourceEntry>, i: int, j: int)
    ensures
        0 <= i < sinks.len() && (forall|k: int| i < k < sinks.len() ==> (#[trigger] sinks[k]).0 != sinks[i].0)
            ==> sink_name(sinks, sinks[i].0) == Some(sinks[i].1.name@),
        0 <= j < sources.len() && (forall|k: int|
            j < k < sources.len() ==> (#[trigger] sources[k]).index != sources[j].index) ==> source_name(
            sources,
            sources[j].index,
        ) == Some(sources[j].name@),
    decreases sinks.len() + sources.len(),
{
    if 0 <= i < sinks.len() - 1 && (forall|k: int| i < k < sinks.len() ==> (#[trigger] sinks[k]).0 != sinks[i].0) {
        let t = sinks.drop_last();
        assert(sinks[sinks.len() - 1].0 != sinks[i].0);
        assert forall|k: int| i < k < t.len() implies (#[trigger] t[k]).0 != t[i].0 by {
            assert(t[k] == sinks[k]);
        }
        devices_are_found_by_index(t, sources, i, -1);
    }
    if 0 <= j < sources.len() - 1 && (forall|k: int|
        j < k < sources.len() ==> (#[trigger] sources[k]).index != sources[j].index) {
        let t = sources.drop_last();
        assert(sources[sources.len() - 1].index != sources[j].index);
        assert forall|k: int| j < k < t.len() implies (#[trigger] t[k]).index != t[j].index by {
            assert(t[k] == sources[k]);
        }
        devices_are_found_by_index(sinks, t, -1, j);
    }
}

/// Crossfade's own devices are not offered, and everything else is.
pub proof fn own_devices_are_hidden(s: SourceEntry, k: (u32, SinkEntry))
    ensures
        foreign_source()(s) <==> !begins(s.name@, "Crossfade_"@),
        foreign_sink()(k) <==> !begins(k.1.name@, "Crossfade_"@),
        xlr_source()(s) ==> !s.is_monitor && !begins(s.name@, "Crossfade_"@) && wave_xlr(s.name@, s.description@),
        !s.is_monitor && !begins(s.name@, "Crossfade_"@) && wave_xlr(s.name@, s.description@) ==> xlr_source()(s),
        xlr_sink()(k) <==> !begins(k.1.name@, "Crossfade_"@) && wave_xlr(k.1.name@, k.1.description@),
{
}

/// What is set on a channel's stream is what the channel sends into that mix.
pub proof fn sends_are_set_as_configured(m: PulseManager, cfg: Config, id: u64)
    requires
        cfg.has_channel(id),
        m.runs(id),
    ensures
        ({
            let c = cfg.channels@[cfg.position(id)];
            let rt = m.channels@[m.position(id)];
            let s = m.send_setting(cfg, id, Mix::Stream);
            let v = m.send_setting(cfg, id, Mix::Vod);
            let o = m.send_setting(cfg, id, Mix::Monitor);
            &&& o is Some <==> rt.monitor_loop.sink_input is Some
            &&& s is Some <==> rt.stream_loop.sink_input is Some
            &&& v is Some <==> rt.vod_loop.sink_input is Some
            &&& o is Some ==> Some(o->0.sink_input) == rt.monitor_loop.sink_input && o->0.send.level
                == c.monitor_volume && o->0.send.muted == c.monitor_muted
            &&& s is Some ==> Some(s->0.sink_input) == rt.stream_loop.sink_input && s->0.send.level
                == c.stream_volume && s->0.send.muted == (c.stream_muted || cfg.master.stream_muted)
            &&& v is Some ==> Some(v->0.sink_input) == rt.vod_loop.sink_input && v->0.send.level == c.vod_volume
                && v->0.send.muted == (c.vod_muted || cfg.master.vod_muted)
        }),
{
}

/// Moving a master reaches every channel's send into that mix.
pub proof fn masters_reach_every_channel(m: PulseManager, cfg: Config, mix: Mix, i: int, n: int)
    requires
        0 <= i < n <= cfg.channels@.len(),
        m.send_setting(cfg, cfg.channels@[i].id, mix) is Some,
    ensures
        m.send_settings(cfg, mix, n).contains(m.send_setting(cfg, cfg.channels@[i].id, mix)->0),
    decreases n,
{
    let x = m.send_setting(cfg, cfg.channels@[i].id, mix)->0;
    let rest = m.send_settings(cfg, mix, n - 1);
    let all = m.send_settings(cfg, mix, n);
    if i < n - 1 {
        masters_reach_every_channel(m, cfg, mix, i, n - 1);
        let k = choose|k: int| 0 <= k < rest.len() && rest[k] == x;
        assert(all[k] == x);
    } else {
        assert(all[rest.len() as int] == x);
    }
}

/// A channel's runtime is found by its id.
proof fn runtime_found(m: PulseManager, p: int)
    requires
        m.wf(),
        0 <= p < m.channels@.len(),
    ensures
        m.runs(m.channels@[p].id),
        m.position(m.channels@[p].id) == p,
{
    first_is_at(m.channels@, runtime_is(m.channels@[p].id), p);
}

/// A module that came in time is owned from then on, and recorded as what it was
/// loaded for, and nothing else of the channel or of any other changes.
pub proof fn modules_are_recorded(m: PulseManager, p: int, idx: u32, r: Loaded, new: PulseManager)
    requires
        m.wf(),
        0 <= p < m.channels@.len(),
        !m.shutting_down,
        idx != 0xffff_ffff,
        m.sink_taken(m.channels@[p].id, m.channels@[p].generation, idx, r, new) || m.vstin_taken(
            m.channels@[p].id,
            m.channels@[p].generation,
            idx,
            r,
            new,
        ),
    ensures
        r is Adopted,
        new.owned_modules@.contains(idx),
        forall|x: u32| m.owned_modules@.contains(x) ==> #[trigger] new.owned_modules@.contains(x),
        new == (PulseManager { channels: new.channels, owned_modules: new.owned_modules, ..m }),
        ({
            let c = m.channels@[p];
            &&& m.sink_taken(c.id, c.generation, idx, r, new) ==> new.channels@ == m.channels@.update(
                p,
                ChannelRuntime { sink_module: Some(idx), ..c },
            )
            &&& m.vstin_taken(c.id, c.generation, idx, r, new) ==> new.channels@ == m.channels@.update(
                p,
                ChannelRuntime { vstin_module: Some(idx), ..c },
            )
        }),
{
    runtime_found(m, p);
    with_keeps(m.owned_modules@, idx);
}

/// A send that came in time is recorded in the slot of its own mix, with the
/// device it taps and the bus it plays on. Its streams are not known yet.
pub proof fn sends_are_recorded(
    m: PulseManager,
    cfg: Config,
    p: int,
    mix: Mix,
    source: Seq<char>,
    idx: u32,
    r: Loaded,
    new: PulseManager,
)
    requires
        m.wf(),
        0 <= p < m.channels@.len(),
        !m.shutting_down,
        idx != 0xffff_ffff,
        mix == Mix::Vod ==> cfg.vod_mix_enabled,
        m.send_taken(cfg, m.channels@[p].id, m.channels@[p].generation, mix, source, idx, r, new),
    ensures
        r is Adopted,
        new.owned_modules@.contains(idx),
        forall|x: u32| m.owned_modules@.contains(x) ==> #[trigger] new.owned_modules@.contains(x),
        new == (PulseManager { channels: new.channels, owned_modules: new.owned_modules, ..m }),
        new.channels@.len() == m.channels@.len(),
        forall|j: int| 0 <= j < m.channels@.len() && j != p ==> #[trigger] new.channels@[j] == m.channels@[j],
        ({
            let a = m.channels@[p];
            let b = new.channels@[p];
            match mix {
                Mix::Monitor => {
                    &&& b == (ChannelRuntime { monitor_loop: b.monitor_loop, ..a })
                    &&& b.monitor_loop.module == Some(idx) && b.monitor_loop.sink_input is None
                    &&& b.monitor_loop.source_output is None
                    &&& b.monitor_loop.target@ == "Crossfade_Monitor"@
                    &&& b.monitor_loop.source_target@ == source
                },
                Mix::Stream => {
                    &&& b == (ChannelRuntime { stream_loop: b.stream_loop, ..a })
                    &&& b.stream_loop.module == Some(idx) && b.stream_loop.sink_input is None
                    &&& b.stream_loop.source_output is None
                    &&& b.stream_loop.target@ == "Crossfade_Stream"@
                    &&& b.stream_loop.source_target@ == source
                },
                Mix::Vod => {
                    &&& b == (ChannelRuntime { vod_loop: b.vod_loop, ..a })
                    &&& b.vod_loop.module == Some(idx) && b.vod_loop.sink_input is None
                    &&& b.vod_loop.source_output is None
                    &&& b.vod_loop.target@ == "Crossfade_Vod"@
                    &&& b.vod_loop.source_target@ == source
                },
            }
        }),
{
    runtime_found(m, p);
    with_keeps(m.owned_modules@, idx);
}

/// The loopback into a channel's effects is recorded as such, with the device it
/// taps and the sink it plays on.
pub proof fn effect_input_is_recorded(
    m: PulseManager,
    p: int,
    source: Seq<char>,
    sink: Seq<char>,
    idx: u32,
    r: Loaded,
    new: PulseManager,
)
    requires
        m.wf(),
        0 <= p < m.channels@.len(),
        !m.shutting_down,
        idx != 0xffff_ffff,
        m.input_taken(m.channels@[p].id, m.channels@[p].generation, source, sink, idx, r, new),
    ensures
        r is Adopted,
        new.owned_modules@.contains(idx),
        forall|x: u32| m.owned_modules@.contains(x) ==> #[trigger] new.owned_modules@.contains(x),
        new == (PulseManager { channels: new.channels, owned_modules: new.owned_modules, ..m }),
        ({
            let l = new.channels@[p].input_loop;
            &&& new.channels@ == m.channels@.update(p, ChannelRuntime { input_loop: l, ..m.channels@[p] })
            &&& l.module == Some(idx)
            &&& l.sink_input is None
            &&& l.source_output is None
            &&& l.target@ == sink
            &&& l.source_target@ == source
        }),
{
    runtime_found(m, p);
    with_keeps(m.owned_modules@, idx);
}

/// What could not be loaded, or came for an older generation of its channel, for
/// a channel that is gone or while everything is taken down, changes nothing.
pub proof fn late_modules_change_nothing(
    m: PulseManager,
    cfg: Config,
    id: u64,
    generation: u64,
    mix: Mix,
    source: Seq<char>,
    sink: Seq<char>,
    idx: u32,
    r: Loaded,
    new: PulseManager,
)
    requires
        m.wf(),
        ({
            ||| idx == 0xffff_ffff
            ||| m.shutting_down
            ||| forall|i: int|
                0 <= i < m.channels@.len() ==> (#[trigger] m.channels@[i]).id != id || m.channels@[i].generation
                    != generation
        }),
        ({
            ||| m.sink_taken(id, generation, idx, r, new)
            ||| m.vstin_taken(id, generation, idx, r, new)
            ||| m.input_taken(id, generation, source, sink, idx, r, new)
            ||| m.send_taken(cfg, id, generation, mix, source, idx, r, new)
        }),
    ensures
        new == m,
        r == if idx == 0xffff_ffff {
            Loaded::Failed
        } else {
            Loaded::Stale
        },
{
    if m.runs(id) {
        let i = choose|i: int| 0 <= i < m.channels@.len() && (#[trigger] m.channels@[i]).id == id;
        runtime_found(m, i);
    }
}

/// The modules of the VOD mix are counted as its own, beside being owned like any
/// other; those of the other mixes are not. A bus that cannot be loaded keeps the
/// graph from being ready.
pub proof fn buses_are_taken_in(m: PulseManager, mix: Mix, vod: bool, idx: u32, r: bool, new: PulseManager)
    requires
        m.bus_taken(mix, idx, r, new) || m.mic_taken(vod, idx, r, new),
    ensures
        r == (idx != 0xffff_ffff),
        r ==> {
            &&& new.owned_modules@.contains(idx)
            &&& forall|x: u32| m.owned_modules@.contains(x) ==> #[trigger] new.owned_modules@.contains(x)
            &&& new == (PulseManager {
                owned_modules: new.owned_modules,
                vod_modules: new.vod_modules,
                ..m
            })
        },
        r && m.bus_taken(mix, idx, r, new) ==> new.vod_modules@ == if mix == Mix::Vod {
            m.vod_modules@.push(idx)
        } else {
            m.vod_modules@
        },
        r && m.mic_taken(vod, idx, r, new) ==> new.vod_modules@ == if vod {
            m.vod_modules@.push(idx)
        } else {
            m.vod_modules@
        },
        !r && m.bus_taken(mix, idx, r, new) ==> !new.ready && new.owned_modules == m.owned_modules && new.channels
            == m.channels,
        !r && m.mic_taken(vod, idx, r, new) ==> new == m,
{
    with_keeps(m.owned_modules@, idx);
}

/// The bus of the VOD mix is kept only while that mix is enabled and Crossfade
/// runs; else it is unloaded again.
pub proof fn vod_bus_is_wanted(m: PulseManager, cfg: Config, idx: u32, r: Loaded, new: PulseManager)
    requires
        m.vod_bus_taken(cfg, idx, r, new),
    ensures
        r is Adopted <==> idx != 0xffff_ffff && cfg.vod_mix_enabled && !m.shutting_down,
        r is Failed <==> idx == 0xffff_ffff,
        r is Adopted ==> new.owned_modules@.contains(idx) && new.vod_modules@ == m.vod_modules@.push(idx)
            && new.channels == m.channels,
        forall|x: u32| m.owned_modules@.contains(x) ==> #[trigger] new.owned_modules@.contains(x),
        !(r is Adopted) ==> new == m,
{
    with_keeps(m.owned_modules@, idx);
}

/// The monitor output taps the monitor bus and plays on the sink it was loaded
/// for. One that was replaced meanwhile is unloaded. Either way nothing is in
/// flight any more.
pub proof fn monitor_output_is_recorded(
    m: PulseManager,
    generation: u64,
    target: Seq<char>,
    idx: u32,
    r: Loaded,
    new: PulseManager,
)
    requires
        m.output_taken(generation, target, idx, r, new),
    ensures
        r is Adopted <==> idx != 0xffff_ffff && generation == m.monitor_out_generation && !m.shutting_down,
        r is Failed <==> idx == 0xffff_ffff,
        !new.monitor_out_pending,
        r is Adopted ==> {
            &&& new.monitor_out.module == Some(idx)
            &&& new.monitor_out.target@ == target
            &&& new.monitor_out.source_target@ == "Crossfade_Monitor.monitor"@
            &&& new.monitor_out.sink_input is None
            &&& new.monitor_out.source_output is None
            &&& new.owned_modules@.contains(idx)
            &&& new.channels == m.channels
            &&& new.monitor_out_generation == m.monitor_out_generation
        },
        !(r is Adopted) ==> new == (PulseManager { monitor_out_pending: false, ..m }),
        forall|x: u32| m.owned_modules@.contains(x) ==> #[trigger] new.owned_modules@.contains(x),
{
    with_keeps(m.owned_modules@, idx);
    reveal_strlit("Crossfade_Monitor");
    reveal_strlit(".monitor");
    reveal_strlit("Crossfade_Monitor.monitor");
    assert("Crossfade_Monitor"@ + ".monitor"@ =~= "Crossfade_Monitor.monitor"@);
}

/// The monitor output plays at the monitor master's volume, muted with it; the
/// loopback into a channel's effects plays open at unity gain, whatever is
/// configured.
pub proof fn outputs_are_set_as_configured(m: PulseManager, cfg: Config, p: int, a: Option<StreamLevel>, b: Option<StreamLevel>)
    requires
        m.wf(),
        0 <= p < m.channels@.len(),
        m.master_set(cfg, a),
        m.input_set(m.channels@[p].id, b),
    ensures
        a is Some <==> m.monitor_out.sink_input is Some,
        a is Some ==> {
            &&& Some(a->0.sink_input) == m.monitor_out.sink_input
            &&& a->0.channels == m.monitor_out.channels
            &&& a->0.send.level == cfg.master.monitor_volume
            &&& a->0.send.master is None
            &&& a->0.send.muted == cfg.master.monitor_muted
        },
        b is Some <==> m.channels@[p].input_loop.sink_input is Some,
        b is Some ==> {
            &&& Some(b->0.sink_input) == m.channels@[p].input_loop.sink_input
            &&& b->0.channels == m.channels@[p].input_loop.channels
            &&& b->0.send.level.bits == 0x3ff0_0000_0000_0000
            &&& b->0.send.master is None
            &&& !b->0.send.muted
        },
{
    runtime_found(m, p);
}

/// A channel whose effects are starting waits to be wired from its own source,
/// with a VST rack where it has one. The sink in front of the rack is the one
/// that the rack reads from.
pub proof fn starting_effects_are_waited_for(
    m: PulseManager,
    p: int,
    generation: u64,
    source: Seq<char>,
    use_vst: bool,
    r: BridgeStep,
    new: PulseManager,
)
    requires
        m.wf(),
        0 <= p < m.channels@.len(),
        m.bridge_noted(m.channels@[p].id, generation, source, use_vst, r, new),
    ensures
        generation != m.channels@[p].generation ==> r is Stale && new == m,
        generation == m.channels@[p].generation ==> {
            let w = new.channels@[p].pending_wire;
            &&& r is LoadVstIn <==> use_vst
            &&& r is Wait <==> !use_vst
            &&& w is Some && w->0.source@ == source && w->0.use_vst == use_vst
            &&& new.channels@ == m.channels@.update(p, ChannelRuntime { pending_wire: w, ..m.channels@[p] })
            &&& new == (PulseManager { channels: new.channels, ..m })
            &&& r is LoadVstIn ==> begins(
                r->LoadVstIn_0@,
                "sink_name=Crossfade_Ch"@ + dec(m.channels@[p].id as nat) + "_VSTIn "@,
            )
        },
{
    runtime_found(m, p);
    let id = m.channels@[p].id;
    audio::channel_devices_are_distinct(id);
    let d = dec(id as nat);
    reveal_strlit("sink_name=");
    reveal_strlit("Crossfade_Ch");
    reveal_strlit("sink_name=Crossfade_Ch");
    reveal_strlit("_VSTIn");
    reveal_strlit("_VSTIn ");
    reveal_strlit(" sink_properties='device.description=\"");
    let n = "sink_name=Crossfade_Ch"@ + d + "_VSTIn "@;
    let t = vstin_text(id);
    assert(t.subrange(0, n.len() as int) =~= n);
}

/// The bus of each mix is the sink that the mix is known by, and says what it is.
pub proof fn buses_say_what_they_are()
    ensures
        begins(mix_bus_text(Mix::Monitor), "sink_name=Crossfade_Monitor "@),
        begins(mix_bus_text(Mix::Stream), "sink_name=Crossfade_Stream "@),
        begins(mix_bus_text(Mix::Vod), "sink_name=Crossfade_Vod "@),
        occurs(mix_bus_text(Mix::Monitor), "Crossfade Monitor Bus"@),
        occurs(mix_bus_text(Mix::Stream), "Crossfade Stream Bus"@),
        occurs(mix_bus_text(Mix::Vod), "Crossfade VOD Bus"@),
{
    reveal_strlit("sink_name=");
    reveal_strlit("Crossfade_Monitor");
    reveal_strlit("Crossfade_Stream");
    reveal_strlit("Crossfade_Vod");
    reveal_strlit("sink_name=Crossfade_Monitor ");
    reveal_strlit("sink_name=Crossfade_Stream ");
    reveal_strlit("sink_name=Crossfade_Vod ");
    reveal_strlit(" sink_properties='device.description=\"");
    let m = mix_bus_text(Mix::Monitor);
    let s = mix_bus_text(Mix::Stream);
    let v = mix_bus_text(Mix::Vod);
    assert(m.subrange(0, 28) =~= "sink_name=Crossfade_Monitor "@);
    assert(s.subrange(0, 27) =~= "sink_name=Crossfade_Stream "@);
    assert(v.subrange(0, 24) =~= "sink_name=Crossfade_Vod "@);
    let head = " sink_properties='device.description=\""@;
    let h = "\" device.icon_name="@ + "audio-headphones"@ + "'"@;
    let i = "\" device.icon_name="@ + "audio-input-microphone"@ + "'"@;
    part_occurs("sink_name="@ + "Crossfade_Monitor"@ + head, "Crossfade Monitor Bus"@, h);
    part_occurs("sink_name="@ + "Crossfade_Stream"@ + head, "Crossfade Stream Bus"@, i);
    part_occurs("sink_name="@ + "Crossfade_Vod"@ + head, "Crossfade VOD Bus"@, i);
    assert(m =~= "sink_name="@ + "Crossfade_Monitor"@ + head + "Crossfade Monitor Bus"@ + h);
    assert(s =~= "sink_name="@ + "Crossfade_Stream"@ + head + "Crossfade Stream Bus"@ + i);
    assert(v =~= "sink_name="@ + "Crossfade_Vod"@ + head + "Crossfade VOD Bus"@ + i);
}

/// Every send a channel gets taps the source it is to be fed from and plays on the
/// bus of its own mix, under a name that says so; while there is a connection there
/// is one for each mix, and all of them count as under way.
pub proof fn every_mix_gets_a_send(
    m: PulseManager,
    vod: bool,
    p: int,
    source: Seq<char>,
    r: Seq<SendLoad>,
    new: PulseManager,
)
    requires
        m.wf(),
        0 <= p < m.channels@.len(),
        m.sends_made(vod, m.channels@[p].id, source, r, new),
    ensures
        !m.connected ==> r.len() == 0 && new == m,
        m.connected ==> {
            let d = "Crossfade ch"@ + dec(m.channels@[p].id as nat);
            let a = m.channels@[p];
            let b = new.channels@[p];
            &&& r.len() == if vod {
                3int
            } else {
                2int
            }
            &&& r[0].mix == Mix::Monitor && r[0].args@ == loopback_text(
                source,
                "Crossfade_Monitor"@,
                d + " monitor"@,
            )
            &&& r[1].mix == Mix::Stream && r[1].args@ == loopback_text(source, "Crossfade_Stream"@, d + " stream"@)
            &&& vod ==> r[2].mix == Mix::Vod && r[2].args@ == loopback_text(source, "Crossfade_Vod"@, d + " vod"@)
            &&& b.monitor_loop.target@ == "Crossfade_Monitor"@ && b.monitor_loop.module == a.monitor_loop.module
            &&& b.stream_loop.target@ == "Crossfade_Stream"@ && b.stream_loop.module == a.stream_loop.module
            &&& vod ==> b.vod_loop.target@ == "Crossfade_Vod"@ && b.vod_loop.module == a.vod_loop.module
            &&& !vod ==> b.vod_loop == a.vod_loop
            &&& b.input_loop == a.input_loop && b.generation == a.generation && b.id == a.id
            &&& b.pending_wire == a.pending_wire && b.pending_source == a.pending_source
            &&& new.owned_modules == m.owned_modules
            &&& forall|j: int|
                0 <= j < m.channels@.len() && j != p ==> #[trigger] new.channels@[j] == m.channels@[j]
        },
{
    runtime_found(m, p);
    let d = "Crossfade ch"@ + dec(m.channels@[p].id as nat);
    reveal_strlit(" ");
    reveal_strlit("monitor");
    reveal_strlit("stream");
    reveal_strlit("vod");
    reveal_strlit(" monitor");
    reveal_strlit(" stream");
    reveal_strlit(" vod");
    assert(send_tag(m.channels@[p].id, Mix::Monitor) =~= d + " monitor"@);
    assert(send_tag(m.channels@[p].id, Mix::Stream) =~= d + " stream"@);
    assert(send_tag(m.channels@[p].id, Mix::Vod) =~= d + " vod"@);
}

/// One send is loaded for the mix it was asked for, from the source it was asked
/// for, and only that send counts as under way.
pub proof fn sends_are_made_for_their_mix(
    m: PulseManager,
    p: int,
    source: Seq<char>,
    mix: Mix,
    r: Option<SendLoad>,
    new: PulseManager,
)
    requires
        m.wf(),
        0 <= p < m.channels@.len(),
        m.send_made(m.channels@[p].id, source, mix, r, new),
    ensures
        r is Some <==> m.connected,
        r is None ==> new == m,
        r is Some ==> {
            let a = m.channels@[p];
            let b = new.channels@[p];
            &&& r->0.mix == mix
            &&& begins(
                r->0.args@,
                "source=\""@ + source + "\" sink=\""@ + (match mix {
                    Mix::Monitor => "Crossfade_Monitor"@,
                    Mix::Stream => "Crossfade_Stream"@,
                    Mix::Vod => "Crossfade_Vod"@,
                }) + "\" "@,
            )
            &&& mix == Mix::Monitor ==> b.monitor_loop.target@ == "Crossfade_Monitor"@ && b == (ChannelRuntime {
                monitor_loop: b.monitor_loop,
                ..a
            })
            &&& mix == Mix::Stream ==> b.stream_loop.target@ == "Crossfade_Stream"@ && b == (ChannelRuntime {
                stream_loop: b.stream_loop,
                ..a
            })
            &&& mix == Mix::Vod ==> b.vod_loop.target@ == "Crossfade_Vod"@ && b == (ChannelRuntime {
                vod_loop: b.vod_loop,
                ..a
            })
            &&& b.monitor_loop.module == a.monitor_loop.module
            &&& b.stream_loop.module == a.stream_loop.module
            &&& b.vod_loop.module == a.vod_loop.module
            &&& new.channels@ == m.channels@.update(p, b)
            &&& new.owned_modules == m.owned_modules
        },
{
    runtime_found(m, p);
    audio::loopback_says_what_it_links(source, mix.bus(), send_tag(m.channels@[p].id, mix));
}

/// Every enabled mix gets its bus when the graph is set up.
pub proof fn every_mix_gets_a_bus(vod: bool, r: Seq<SendLoad>)
    requires
        PulseManager::buses_made(vod, r),
    ensures
        r.len() == if vod {
            3int
        } else {
            2int
        },
        r[0].mix == Mix::Monitor && begins(r[0].args@, "sink_name=Crossfade_Monitor "@),
        r[1].mix == Mix::Stream && begins(r[1].args@, "sink_name=Crossfade_Stream "@),
        vod ==> r[2].mix == Mix::Vod && begins(r[2].args@, "sink_name=Crossfade_Vod "@),
{
    buses_say_what_they_are();
}

/// A channel that waits for its capture device is rebuilt exactly when that device
/// has appeared. Where the monitor output makes way, its module is given up, it
/// waits, and whatever of it was still under way is stale.
pub proof fn arrived_sources_are_used(m: PulseManager, cfg: Config, i: int, r: Option<Arrivals>, new: PulseManager)
    requires
        m.wf(),
        m.ready && !m.shutting_down,
        0 <= i < m.channels@.len(),
        m.monitor_out_generation < u64::MAX,
        m.sources_arrived(cfg, r, new),
    ensures
        ({
            let c = m.channels@[i];
            let here = c.pending_source is Some && exists|k: int|
                0 <= k < m.sources@.len() && (#[trigger] m.sources@[k]).name@ == c.pending_source->0@;
            here <==> r is Some && r->0.ready@.contains(c.id)
        }),
        new.channels == m.channels,
        r is None || !r->0.bounced ==> new == m,
        r is Some && r->0.bounced ==> {
            &&& r->0.unload == m.monitor_out.module
            &&& new.monitor_out.module is None
            &&& new.monitor_out.sink_input is None
            &&& new.monitor_out.source_output is None
            &&& new.monitor_out.target == m.monitor_out.target
            &&& new.monitor_out.source_target == m.monitor_out.source_target
            &&& new.monitor_out_deferred
            &&& new.monitor_out_generation == m.monitor_out_generation + 1
            &&& m.monitor_out.module is Some ==> !new.owned_modules@.contains(m.monitor_out.module->0)
            &&& forall|x: u32|
                m.owned_modules@.contains(x) && m.monitor_out.module != Some(x)
                    ==> #[trigger] new.owned_modules@.contains(x)
        },
{
    let f = m.has_arrived();
    let s = m.channels@.filter(f);
    crate::list::filter_keeps(m.channels@, f);
    let c = m.channels@[i];
    if f(c) {
        crate::list::filter_loses_nothing(m.channels@, f, i);
        let k = choose|k: int| 0 <= k < s.len() && s[k] == c;
        assert(r->0.ready@[k] == c.id);
    }
    if r is Some && r->0.ready@.contains(c.id) {
        let k = choose|k: int| 0 <= k < r->0.ready@.len() && r->0.ready@[k] == c.id;
        assert(f(s[k]) && s[k].id == c.id);
        assert(m.channels@.contains(s[k]));
        let j = choose|j: int| 0 <= j < m.channels@.len() && m.channels@[j] == s[k];
        assert(m.channels@[j].id == m.channels@[i].id);
        assert(i == j);
    }
    without_keeps(m.owned_modules@, opt_module(m.monitor_out.module));
    if let Some(x) = m.monitor_out.module {
        assert(seq![x][0] == x);
        assert(opt_module(m.monitor_out.module).contains(x));
    }
}

/// While the graph is not up, arrivals and waiting channels are left alone.
pub proof fn idle_graph_does_nothing(
    m: PulseManager,
    cfg: Config,
    fx: fx::FxManager,
    r: Option<Arrivals>,
    w: Seq<ReadyWire>,
    a: PulseManager,
    b: PulseManager,
)
    requires
        !m.ready || m.shutting_down,
        m.sources_arrived(cfg, r, a),
        m.wires_ready(fx, w, b),
    ensures
        r is None && a == m,
        w.len() == 0 && b == m,
{
}

/// A waiting channel that can be wired now is handed out for it, once: it does not
/// wait any more. One that cannot goes on waiting. Nothing else changes.
pub proof fn wires_are_handed_out_once(m: PulseManager, fx: fx::FxManager, i: int, r: Seq<ReadyWire>, new: PulseManager)
    requires
        m.ready && !m.shutting_down,
        0 <= i < m.channels@.len(),
        m.wires_ready(fx, r, new),
    ensures
        ({
            let c = m.channels@[i];
            let ready = m.wire_state(fx, c) is Some;
            &&& ready ==> exists|k: int|
                0 <= k < r.len() && (#[trigger] r[k]).id == c.id && r[k].generation == c.generation
                    && r[k].source@ == c.pending_wire->0.source@ && Some((r[k].use_vst, r[k].direct))
                    == m.wire_state(fx, c)
            &&& ready ==> new.channels@[i].pending_wire is None
            &&& !ready ==> new.channels@[i].pending_wire == c.pending_wire
            &&& new.channels@[i] == (ChannelRuntime { pending_wire: new.channels@[i].pending_wire, ..c })
        }),
        new.channels@.len() == m.channels@.len(),
        new == (PulseManager { channels: new.channels, ..m }),
        forall|k: int|
            0 <= k < r.len() ==> exists|j: int|
                0 <= j < m.channels@.len() && (#[trigger] m.channels@[j]).id == (#[trigger] r[k]).id
                    && m.channels@[j].pending_wire is Some,
{
    let f = m.wireable(fx);
    let s = m.channels@.filter(f);
    crate::list::filter_keeps(m.channels@, f);
    let c = m.channels@[i];
    if f(c) {
        crate::list::filter_loses_nothing(m.channels@, f, i);
        let k = choose|k: int| 0 <= k < s.len() && s[k] == c;
        assert(m.wires(fx, s[k], r[k]));
    }
    assert forall|k: int| 0 <= k < r.len() implies exists|j: int|
        0 <= j < m.channels@.len() && (#[trigger] m.channels@[j]).id == (#[trigger] r[k]).id
            && m.channels@[j].pending_wire is Some by {
        assert(m.wires(fx, s[k], r[k]));
        assert(f(s[k]));
        assert(m.channels@.contains(s[k]));
        let j = choose|j: int| 0 <= j < m.channels@.len() && m.channels@[j] == s[k];
        assert(m.channels@[j].id == r[k].id);
    }
}

/// The sends into the VOD mix that are missing are those of the channels that are
/// heard elsewhere, each from the source that its monitor send taps.
pub proof fn missing_vod_sends_are_made(m: PulseManager, i: int, r: Seq<MissingSend>)
    requires
        0 <= i < m.channels@.len(),
        m.vod_sends_missing(r),
    ensures
        ({
            let c = m.channels@[i];
            c.monitor_loop.source_target@.len() > 0 && c.vod_loop.module is None && c.vod_loop.target@.len() == 0
                ==> exists|k: int|
                0 <= k < r.len() && (#[trigger] r[k]).id == c.id && r[k].generation == c.generation
                    && r[k].source@ == c.monitor_loop.source_target@
        }),
        forall|k: int|
            0 <= k < r.len() ==> exists|j: int|
                0 <= j < m.channels@.len() && (#[trigger] m.channels@[j]).id == (#[trigger] r[k]).id
                    && m.channels@[j].vod_loop.module is None && m.channels@[j].vod_loop.target@.len() == 0
                    && m.channels@[j].monitor_loop.source_target@ == r[k].source@ && r[k].source@.len() > 0,
{
    let f = lacks_vod();
    let s = m.channels@.filter(f);
    crate::list::filter_keeps(m.channels@, f);
    let c = m.channels@[i];
    if f(c) {
        crate::list::filter_loses_nothing(m.channels@, f, i);
        let k = choose|k: int| 0 <= k < s.len() && s[k] == c;
        assert(r[k].id == s[k].id);
    }
    assert forall|k: int| 0 <= k < r.len() implies exists|j: int|
        0 <= j < m.channels@.len() && (#[trigger] m.channels@[j]).id == (#[trigger] r[k]).id
            && m.channels@[j].vod_loop.module is None && m.channels@[j].vod_loop.target@.len() == 0
            && m.channels@[j].monitor_loop.source_target@ == r[k].source@ && r[k].source@.len() > 0 by {
        assert(r[k].id == s[k].id);
        assert(f(s[k]));
        assert(m.channels@.contains(s[k]));
        let j = choose|j: int| 0 <= j < m.channels@.len() && m.channels@[j] == s[k];
        assert(m.channels@[j].id == r[k].id);
    }
}

/// What is found of a list of loopbacks has the move of each one that drifted.
proof fn drift_is_collected(m: PulseManager, s: Seq<Managed>, k: int)
    requires
        0 <= k < s.len(),
    ensures
        m.sink_move(s[k].link) is Some ==> m.sink_moves(s).contains(m.sink_move(s[k].link)->0),
        m.source_move(s[k].link) is Some ==> m.source_moves(s).contains(m.source_move(s[k].link)->0),
        m.drifted(s[k].link, s[k].raw, s[k].mute) ==> m.reapplied(s).contains(s[k].which),
    decreases s.len(),
{
    let t = s.drop_last();
    if k < t.len() {
        drift_is_collected(m, t, k);
        assert(t[k] == s[k]);
        if let Some(x) = m.sink_move(s[k].link) {
            let j = choose|j: int| 0 <= j < m.sink_moves(t).len() && m.sink_moves(t)[j] == x;
            assert(m.sink_moves(s)[j] == x);
        }
        if let Some(x) = m.source_move(s[k].link) {
            let j = choose|j: int| 0 <= j < m.source_moves(t).len() && m.source_moves(t)[j] == x;
            assert(m.source_moves(s)[j] == x);
        }
        if m.drifted(s[k].link, s[k].raw, s[k].mute) {
            let x = s[k].which;
            let j = choose|j: int| 0 <= j < m.reapplied(t).len() && m.reapplied(t)[j] == x;
            assert(m.reapplied(s)[j] == x);
        }
    } else {
        if m.sink_move(s[k].link) is Some {
            assert(m.sink_moves(s).last() == m.sink_move(s[k].link)->0);
        }
        if m.source_move(s[k].link) is Some {
            assert(m.source_moves(s).last() == m.source_move(s[k].link)->0);
        }
        if m.drifted(s[k].link, s[k].raw, s[k].mute) {
            assert(m.reapplied(s).last() == s[k].which);
        }
    }
}

/// Everything that drifted is brought back: each stream that is on another device
/// than intended is moved, each volume or mute that differs is set again, for the
/// sends of every channel, the loopbacks into effects and the monitor output.
pub proof fn drift_is_brought_back(
    m: PulseManager,
    cfg: Config,
    raws: Seq<SendRaws>,
    master: u32,
    r: DriftMoves,
    new: PulseManager,
    k: int,
)
    requires
        m.drift_corrected(cfg, raws, master, r, new),
        0 <= k < new.links(cfg, raws, master).len(),
    ensures
        ({
            let x = new.links(cfg, raws, master)[k];
            &&& new.sink_move(x.link) is Some ==> moves(r.sinks@).contains(new.sink_move(x.link)->0)
            &&& new.source_move(x.link) is Some ==> moves(r.sources@).contains(new.source_move(x.link)->0)
            &&& new.drifted(x.link, x.raw, x.mute) ==> r.applies@.contains(x.which)
        }),
        new.monitor_out == m.matched(m.monitor_out),
        new.channels@.len() == m.channels@.len(),
        forall|j: int|
            0 <= j < m.channels@.len() ==> #[trigger] new.channels@[j] == m.matched_runtime(m.channels@[j]),
        new.owned_modules == m.owned_modules,
{
    let s = new.links(cfg, raws, master);
    drift_is_collected(new, s, k);
    let all = new.reapplied(s);
    if new.drifted(s[k].link, s[k].raw, s[k].mute) {
        let j = choose|j: int| 0 <= j < all.len() && all[j] == s[k].which;
        let a = all.filter(plays_out());
        let b = all.filter(feeds_effects());
        if all[j] is Input {
            crate::list::filter_loses_nothing(all, feeds_effects(), j);
            let i = choose|i: int| 0 <= i < b.len() && b[i] == all[j];
            assert((a + b)[a.len() + i] == all[j]);
        } else {
            crate::list::filter_loses_nothing(all, plays_out(), j);
            let i = choose|i: int| 0 <= i < a.len() && a[i] == all[j];
            assert((a + b)[i] == all[j]);
        }
    }
}

/// What any channel asks to have moved is moved.
pub proof fn every_channel_gathers_its_applications(m: PulseManager, s: Seq<ChannelConfig>, i: int, n: int, x: (u32, Seq<char>))
    requires
        0 <= i < n,
        m.channel_moves(s[i]).contains(x),
    ensures
        m.app_moves(s, n).contains(x),
    decreases n,
{
    let a = m.app_moves(s, n - 1);
    let b = m.channel_moves(s[n - 1]);
    if i == n - 1 {
        let j = choose|j: int| 0 <= j < b.len() && b[j] == x;
        assert((a + b)[a.len() + j] == x);
    } else {
        every_channel_gathers_its_applications(m, s, i, n - 1, x);
        let j = choose|j: int| 0 <= j < a.len() && a[j] == x;
        assert((a + b)[j] == x);
    }
}

/// A stream is taken for a loopback's own only where the loopback's module made
/// it; then the loopback knows it, with its channels, and nothing else changes.
pub proof fn streams_are_learnt_by_module(
    m: PulseManager,
    which: LoopbackRef,
    module: u32,
    stream: u32,
    channels: u8,
    r: bool,
    new: PulseManager,
)
    requires
        m.wf(),
        m.stream_learnt(which, module, stream, channels, r, new),
    ensures
        r <==> m.loopback(which) is Some && m.loopback(which)->0.module == Some(module),
        !r ==> new == m,
        r ==> {
            let l = m.loopback(which)->0;
            let k = new.loopback(which);
            &&& k is Some
            &&& k->0 == (Loopback { sink_input: Some(stream), channels, ..l })
            &&& new.owned_modules == m.owned_modules
            &&& forall|other: LoopbackRef| other != which ==> #[trigger] new.loopback(other) == m.loopback(other)
        },
{
    if r {
        let id = match which {
            LoopbackRef::Mix(id, _) => id,
            LoopbackRef::Input(id) => id,
            LoopbackRef::MonitorOut => 0,
        };
        if which != LoopbackRef::MonitorOut {
            let p = m.position(id);
            crate::list::first_is_least(m.channels@, runtime_is(id));
            let i = choose|i: int| 0 <= i < m.channels@.len() && (#[trigger] m.channels@[i]).id == id;
            runtime_found(m, i);
            assert forall|j: int| 0 <= j < m.channels@.len() implies (#[trigger] new.channels@[j]).id
                == m.channels@[j].id by {}
            assert(new.wf());
            assert forall|j: u64| #[trigger] new.runs(j) == m.runs(j) && (m.runs(j) ==> new.position(j)
                == m.position(j)) by {
                if m.runs(j) {
                    let q = choose|q: int| 0 <= q < m.channels@.len() && (#[trigger] m.channels@[q]).id == j;
                    runtime_found(m, q);
                    runtime_found(new, q);
                    assert(new.channels@[q].id == j);
                }
                if new.runs(j) {
                    let q = choose|q: int| 0 <= q < new.channels@.len() && (#[trigger] new.channels@[q]).id == j;
                    assert(m.channels@[q].id == j);
                }
            }
            assert forall|other: LoopbackRef| other != which implies #[trigger] new.loopback(other)
                == m.loopback(other) by {
                let o = match other {
                    LoopbackRef::Mix(o, _) => o,
                    LoopbackRef::Input(o) => o,
                    LoopbackRef::MonitorOut => 0,
                };
                assert(new.runs(o) == m.runs(o));
                if m.runs(o) {
                    let q = choose|q: int| 0 <= q < m.channels@.len() && (#[trigger] m.channels@[q]).id == o;
                    runtime_found(m, q);
                }
            }
            assert(new.runs(id) == m.runs(id));
        }
    }
}

/// The loopbacks are told apart: a send is the one of its mix, of its channel.
pub proof fn loopbacks_are_told_apart(m: PulseManager, p: int)
    requires
        m.wf(),
        0 <= p < m.channels@.len(),
    ensures
        ({
            let c = m.channels@[p];
            &&& m.loopback(LoopbackRef::Mix(c.id, Mix::Monitor)) == Some(c.monitor_loop)
            &&& m.loopback(LoopbackRef::Mix(c.id, Mix::Stream)) == Some(c.stream_loop)
            &&& m.loopback(LoopbackRef::Mix(c.id, Mix::Vod)) == Some(c.vod_loop)
            &&& m.loopback(LoopbackRef::Input(c.id)) == Some(c.input_loop)
            &&& m.loopback(LoopbackRef::MonitorOut) == Some(m.monitor_out)
        }),
{
    runtime_found(m, p);
}

/// The graph comes up ready, with the monitor output waiting for captures, unless
/// Crossfade is leaving. The wait ends once, and no refresh is queued twice, nor
/// while Crossfade is leaving.
pub proof fn waiting_ends_once(m: PulseManager, a: PulseManager, b: PulseManager, x: bool, y: bool)
    ensures
        m.bootstrapped(x, a) && !m.shutting_down ==> x && a.ready && a.monitor_out_deferred && a.channels
            == m.channels && a.owned_modules == m.owned_modules,
        m.bootstrapped(x, a) && m.shutting_down ==> !x && a == m,
        m.deferral_ended(x, a) ==> x == m.monitor_out_deferred && !a.monitor_out_deferred,
        m.deferral_ended(x, a) && a.deferral_ended(y, b) ==> !y && b == a,
        m.refresh_scheduled(x, a) && m.shutting_down ==> !x && a == m,
        m.refresh_scheduled(x, a) && !m.shutting_down ==> a.refresh_queued && x == !m.refresh_queued && a.channels
            == m.channels && a.owned_modules == m.owned_modules,
        m.refresh_scheduled(x, a) && a.refresh_scheduled(y, b) ==> !y && b == a,
{
}

/// Leaving unloads every module there is and marks everything as going down.
pub proof fn leaving_unloads_everything(m: PulseManager, r: Seq<u32>, new: PulseManager, i: int)
    requires
        m.taken_down(r, new),
        0 <= i < m.owned_modules@.len(),
    ensures
        r.contains(m.owned_modules@[i]),
        r.len() == m.owned_modules@.len(),
        new.owned_modules@.len() == 0,
        new.shutting_down && !new.ready,
{
}

/// Every output that is not Crossfade's own is offered, and none that is.
pub proof fn every_foreign_output_is_offered(m: PulseManager, r: Seq<SinkEntry>, i: int)
    requires
        m.outputs_listed(r),
        0 <= i < m.sinks@.len(),
    ensures
        !begins(m.sinks@[i].1.name@, "Crossfade_"@) ==> r.contains(m.sinks@[i].1),
        forall|k: int| 0 <= k < r.len() ==> !begins((#[trigger] r[k]).name@, "Crossfade_"@),
{
    let s = m.sinks@.filter(foreign_sink());
    crate::list::filter_keeps(m.sinks@, foreign_sink());
    if foreign_sink()(m.sinks@[i]) {
        crate::list::filter_loses_nothing(m.sinks@, foreign_sink(), i);
        let k = choose|k: int| 0 <= k < s.len() && s[k] == m.sinks@[i];
        assert(r[k] == s[k].1);
    }
    assert forall|k: int| 0 <= k < r.len() implies !begins((#[trigger] r[k]).name@, "Crossfade_"@) by {
        assert(r[k] == s[k].1);
        assert(foreign_sink()(s[k]));
    }
}

/// A Wave XLR is found where one is connected: what is found is one, is no monitor
/// and none of Crossfade's own devices.
pub proof fn wave_xlr_is_found(m: PulseManager, a: Option<SourceEntry>, b: Option<SinkEntry>, i: int, k: int)
    requires
        m.xlr_source_found(a),
        m.xlr_sink_found(b),
        0 <= i < m.sources@.len(),
        0 <= k < m.sinks@.len(),
    ensures
        ({
            let s = m.sources@[i];
            wave_xlr(s.name@, s.description@) && !s.is_monitor && !begins(s.name@, "Crossfade_"@) ==> a is Some
        }),
        a is Some ==> wave_xlr(a->0.name@, a->0.description@) && !a->0.is_monitor && !begins(
            a->0.name@,
            "Crossfade_"@,
        ) && m.sources@.contains(a->0),
        ({
            let s = m.sinks@[k].1;
            wave_xlr(s.name@, s.description@) && !begins(s.name@, "Crossfade_"@) ==> b is Some
        }),
        b is Some ==> wave_xlr(b->0.name@, b->0.description@) && !begins(b->0.name@, "Crossfade_"@),
{
    let p = first(m.sources@, xlr_source());
    let q = first(m.sinks@, xlr_sink());
    first_is_least(m.sources@, xlr_source());
    first_is_least(m.sinks@, xlr_sink());
    if p < m.sources@.len() {
        assert(xlr_source()(m.sources@[p]));
    } else {
        assert(!xlr_source()(m.sources@[i]));
    }
    if q < m.sinks@.len() {
        assert(xlr_sink()(m.sinks@[q]));
    } else {
        assert(!xlr_sink()(m.sinks@[k]));
    }
}

/// The monitor output is set up again when it is missing, or when the configured
/// device is there and it plays elsewhere; never while it is under way or waits for
/// captures, nor before the graph is up.
pub proof fn monitor_returns_to_its_device(m: PulseManager, cfg: Config, r: bool, new: PulseManager)
    requires
        m.refreshed(cfg, r, new),
    ensures
        !m.ready || m.monitor_out_pending || new.monitor_out_deferred ==> !r,
        m.ready && !m.monitor_out_pending && !new.monitor_out_deferred && m.monitor_out.module is None ==> r,
        m.ready && !m.monitor_out_pending && !new.monitor_out_deferred && cfg.master.monitor_device is Some
            && cfg.master.monitor_device->0@ != m.monitor_out.target@ && (exists|i: int|
            0 <= i < m.sinks@.len() && (#[trigger] m.sinks@[i]).1.name@ == cfg.master.monitor_device->0@) ==> r,
        r && m.monitor_out.module is Some ==> cfg.master.monitor_device is Some && cfg.master.monitor_device->0@
            != m.monitor_out.target@ && exists|i: int|
            0 <= i < m.sinks@.len() && (#[trigger] m.sinks@[i]).1.name@ == cfg.master.monitor_device->0@,
        new.channels == m.channels && new.owned_modules == m.owned_modules && new.monitor_out == m.monitor_out,
{
}

/// A new connection starts from nothing: no device, stream, channel or module of an
/// earlier one is remembered, and nothing is under way.
pub proof fn connections_start_from_nothing(m: PulseManager)
    requires
        m.is_reset(),
    ensures
        m.channels@.len() == 0 && m.owned_modules@.len() == 0 && m.vod_modules@.len() == 0,
        m.sinks@.len() == 0 && m.sources@.len() == 0 && m.sink_inputs@.len() == 0 && m.source_outputs@.len() == 0,
        !m.connected && !m.ready && !m.shutting_down,
        !m.monitor_out_pending && !m.monitor_out_deferred && !m.refresh_queued,
        m.monitor_out.module is None && m.monitor_out.sink_input is None && m.monitor_out.source_output is None,
        m.monitor_out.target@.len() == 0 && m.monitor_out.source_target@.len() == 0,
{
}

/// An application is named exactly while a stream of it plays that is not one of
/// Crossfade's own.
pub proof fn playing_applications_are_named(m: PulseManager, i: int, name: Seq<char>)
    requires
        0 <= i < m.sink_inputs@.len(),
    ensures
        ({
            let e = m.sink_inputs@[i];
            let foreign = e.owner_module is None || !m.owned_modules@.contains(e.owner_module->0);
            foreign && e.app_name is Some && e.app_name->0@.len() > 0 ==> m.app_plays(e.app_name->0@)
        }),
        m.app_plays(name) ==> name.len() > 0 && exists|k: int|
            0 <= k < m.sink_inputs@.len() && (#[trigger] m.sink_inputs@[k]).app_name is Some
                && m.sink_inputs@[k].app_name->0@ == name && (m.sink_inputs@[k].owner_module is None
                || !m.owned_modules@.contains(m.sink_inputs@[k].owner_module->0)),
{
    if m.app_plays(name) {
        let k = choose|k: int|
            0 <= k < m.sink_inputs@.len() && !is_own_stream(m.owned_modules@, #[trigger] m.sink_inputs@[k])
                && m.sink_inputs@[k].app_name is Some && m.sink_inputs@[k].app_name->0@ == name;
        assert(m.sink_inputs@[k].app_name is Some);
    }
}

/// Neither the monitor output nor the VOD mix is touched while the graph is down.
pub proof fn idle_graph_stays(
    m: PulseManager,
    cfg: Config,
    r: Option<MonitorSetup>,
    a: PulseManager,
    s: VodStep,
    b: PulseManager,
)
    requires
        !m.ready || m.shutting_down,
        m.output_set_up(cfg, r, a),
        m.vod_applied(cfg, s, b),
    ensures
        r is None && a == m,
        s is Nothing && b == m,
{
}

/// A device's card is the one the server gives for it; an unknown device has none.
pub proof fn cards_are_those_of_the_device(m: PulseManager, name: Seq<char>, i: int)
    ensures
        0 <= i < m.sources@.len() && m.sources@[i].name@ == name && (forall|j: int|
            0 <= j < i ==> (#[trigger] m.sources@[j]).name@ != name) ==> m.source_card(name) == m.sources@[i].card,
        0 <= i < m.sinks@.len() && m.sinks@[i].1.name@ == name && (forall|j: int|
            0 <= j < i ==> (#[trigger] m.sinks@[j]).1.name@ != name) ==> m.sink_card(name) == m.sinks@[i].1.card,
        !m.source_exists(name) ==> m.source_card(name) is None,
        !m.sink_exists(name) ==> m.sink_card(name) is None,
{
    first_is_least(m.sources@, source_is(name));
    first_is_least(m.sinks@, sink_is(name));
    if 0 <= i < m.sources@.len() && m.sources@[i].name@ == name && (forall|j: int|
        0 <= j < i ==> (#[trigger] m.sources@[j]).name@ != name) {
        first_is_at(m.sources@, source_is(name), i);
    }
    if 0 <= i < m.sinks@.len() && m.sinks@[i].1.name@ == name && (forall|j: int|
        0 <= j < i ==> (#[trigger] m.sinks@[j]).1.name@ != name) {
        first_is_at(m.sinks@, sink_is(name), i);
    }
    if first(m.sources@, source_is(name)) < m.sources@.len() {
        assert(m.sources@[first(m.sources@, source_is(name))].name@ == name);
    }
    if first(m.sinks@, sink_is(name)) < m.sinks@.len() {
        assert(m.sinks@[first(m.sinks@, sink_is(name))].1.name@ == name);
    }
}

/// A new connection knows the defaults of the earlier one until it learns its own,
/// and tells its monitor outputs from the earlier ones.
pub proof fn connections_keep_their_count(m: PulseManager, new: PulseManager)
    requires
        m.reconnected(new),
    ensures
        new.monitor_out_generation == m.monitor_out_generation,
        new.default_sink == m.default_sink && new.default_source == m.default_source,
        new.channels@.len() == 0 && new.owned_modules@.len() == 0 && !new.ready && !new.connected,
{
}

/// Wiring a channel marks its sends as under way to the buses of the enabled mixes,
/// and touches nothing else; without a connection nothing is under way.
pub proof fn wiring_marks_the_sends(m: PulseManager, p: int, vod: bool, new: PulseManager)
    requires
        m.wf(),
        0 <= p < m.channels@.len(),
        m.sends_under_way(m.channels@[p].id, vod, new),
    ensures
        !m.connected ==> new == m,
        m.connected ==> {
            let a = m.channels@[p];
            let b = new.channels@[p];
            &&& b.monitor_loop.target@ == "Crossfade_Monitor"@ && b.monitor_loop.module == a.monitor_loop.module
            &&& b.stream_loop.target@ == "Crossfade_Stream"@ && b.stream_loop.module == a.stream_loop.module
            &&& vod ==> b.vod_loop.target@ == "Crossfade_Vod"@ && b.vod_loop.module == a.vod_loop.module
            &&& !vod ==> b.vod_loop == a.vod_loop
            &&& b == (ChannelRuntime {
                monitor_loop: b.monitor_loop,
                stream_loop: b.stream_loop,
                vod_loop: b.vod_loop,
                ..a
            })
            &&& new.channels@ == m.channels@.update(p, b)
            &&& new == (PulseManager { channels: new.channels, ..m })
        },
{
    runtime_found(m, p);
}

} // verus!
