//! The control core: one set of mixer mutations shared by the interface, MIDI
//! controllers and D-Bus.

use vstd::prelude::*;

use crate::audio::Mix;
use crate::config::{
    channel_is, refers_elsewhere, removal_keeps_bindings_live, survives, Assignment, ChannelConfig, Config,
    MasterConfig, MidiConfig, MidiProfile,
};
use crate::level::{Level, ONE};
use crate::list::{first_exists, first_is_at, first_is_least};
use crate::text;

verus! {

/// One mixer mutation, shared by MIDI dispatch and the D-Bus API (and any
/// future remote-control surface).
#[derive(Clone, Copy, Debug, PartialEq, Eq, Structural)]
pub enum ControlAction {
    SetChannelVolume { id: u64, mix: Mix, value: Level },
    /// `muted: None` toggles.
    SetChannelMute { id: u64, mix: Mix, muted: Option<bool> },
    SetMasterVolume { mix: Mix, value: Level },
    SetMasterMute { mix: Mix, muted: Option<bool> },
    SelectMidiProfile { id: u64 },
}

/// What an action amounts to.
#[derive(Clone, Copy, Debug, PartialEq, Eq, Structural)]
pub enum ControlStep {
    Nothing,
    ChannelVolume { id: u64, mix: Mix, value: Level },
    ChannelMute { id: u64, mix: Mix, muted: bool },
    MasterVolume { mix: Mix, value: Level },
    MasterMute { mix: Mix, muted: bool },
    Profile { id: u64 },
}

/// A channel's level in a mix.
pub open spec fn level_in(c: ChannelConfig, mix: Mix) -> Level {
    match mix {
        Mix::Monitor => c.monitor_volume,
        Mix::Stream => c.stream_volume,
        Mix::Vod => c.vod_volume,
    }
}

/// Whether a channel is muted in a mix.
pub open spec fn muted_in(c: ChannelConfig, mix: Mix) -> bool {
    match mix {
        Mix::Monitor => c.monitor_muted,
        Mix::Stream => c.stream_muted,
        Mix::Vod => c.vod_muted,
    }
}

/// A channel muted or not in a mix.
pub open spec fn with_muted(c: ChannelConfig, mix: Mix, on: bool) -> ChannelConfig {
    match mix {
        Mix::Monitor => ChannelConfig { monitor_muted: on, ..c },
        Mix::Stream => ChannelConfig { stream_muted: on, ..c },
        Mix::Vod => ChannelConfig { vod_muted: on, ..c },
    }
}

/// A mix's master level.
pub open spec fn master_level(m: MasterConfig, mix: Mix) -> Level {
    match mix {
        Mix::Monitor => m.monitor_volume,
        Mix::Stream => m.stream_volume,
        Mix::Vod => m.vod_volume,
    }
}

/// Whether a mix is muted.
pub open spec fn master_muted(m: MasterConfig, mix: Mix) -> bool {
    match mix {
        Mix::Monitor => m.monitor_muted,
        Mix::Stream => m.stream_muted,
        Mix::Vod => m.vod_muted,
    }
}

/// The masters after one fader was moved.
pub open spec fn with_master_level(m: MasterConfig, mix: Mix, v: Level) -> MasterConfig {
    match mix {
        Mix::Monitor => MasterConfig { monitor_volume: v, ..m },
        Mix::Stream => MasterConfig { stream_volume: v, ..m },
        Mix::Vod => MasterConfig { vod_volume: v, ..m },
    }
}

/// The masters after one mix was muted or unmuted.
pub open spec fn with_master_muted(m: MasterConfig, mix: Mix, on: bool) -> MasterConfig {
    match mix {
        Mix::Monitor => MasterConfig { monitor_muted: on, ..m },
        Mix::Stream => MasterConfig { stream_muted: on, ..m },
        Mix::Vod => MasterConfig { vod_muted: on, ..m },
    }
}

/// The channel of an id.
pub open spec fn the_channel(cfg: Config, id: u64) -> ChannelConfig {
    cfg.channels@[cfg.position(id)]
}

/// A mute state that is given, or the other than now.
pub open spec fn given_or_flipped(muted: Option<bool>, now: bool) -> bool {
    match muted {
        Some(b) => b,
        None => !now,
    }
}

/// VOD targets are inert while the VOD mix is disabled.
pub open spec fn is_inert(cfg: Config, mix: Mix) -> bool {
    mix == Mix::Vod && !cfg.vod_mix_enabled
}

/// What an action amounts to.
pub open spec fn step_of(cfg: Config, action: ControlAction) -> ControlStep {
    match action {
        ControlAction::SetChannelVolume { id, mix, value } => if is_inert(cfg, mix) || !cfg.has_channel(id) {
            ControlStep::Nothing
        } else {
            ControlStep::ChannelVolume { id, mix, value: value.clamped(ONE) }
        },
        ControlAction::SetChannelMute { id, mix, muted } => if is_inert(cfg, mix) || !cfg.has_channel(id) {
            ControlStep::Nothing
        } else {
            ControlStep::ChannelMute {
                id,
                mix,
                muted: given_or_flipped(muted, muted_in(the_channel(cfg, id), mix)),
            }
        },
        ControlAction::SetMasterVolume { mix, value } => if is_inert(cfg, mix) {
            ControlStep::Nothing
        } else {
            ControlStep::MasterVolume { mix, value: value.clamped(ONE) }
        },
        ControlAction::SetMasterMute { mix, muted } => if is_inert(cfg, mix) {
            ControlStep::Nothing
        } else {
            ControlStep::MasterMute { mix, muted: given_or_flipped(muted, master_muted(cfg.master, mix)) }
        },
        ControlAction::SelectMidiProfile { id } => if !cfg.midi.has_profile(id) || cfg.midi.active_profile == id {
            ControlStep::Nothing
        } else {
            ControlStep::Profile { id }
        },
    }
}

/// A channel's level in a mix.
pub fn channel_level(c: &ChannelConfig, mix: Mix) -> (r: Level)
    ensures
        r == level_in(*c, mix),
{
    match mix {
        Mix::Monitor => c.monitor_volume,
        Mix::Stream => c.stream_volume,
        Mix::Vod => c.vod_volume,
    }
}

/// Whether a channel is muted in a mix.
pub fn channel_muted(c: &ChannelConfig, mix: Mix) -> (r: bool)
    ensures
        r == muted_in(*c, mix),
{
    match mix {
        Mix::Monitor => c.monitor_muted,
        Mix::Stream => c.stream_muted,
        Mix::Vod => c.vod_muted,
    }
}

/// Whether a mix is muted.
pub fn mix_muted(m: &MasterConfig, mix: Mix) -> (r: bool)
    ensures
        r == master_muted(*m, mix),
{
    match mix {
        Mix::Monitor => m.monitor_muted,
        Mix::Stream => m.stream_muted,
        Mix::Vod => m.vod_muted,
    }
}

/// A mix's master level.
pub fn mix_level(m: &MasterConfig, mix: Mix) -> (r: Level)
    ensures
        r == master_level(*m, mix),
{
    match mix {
        Mix::Monitor => m.monitor_volume,
        Mix::Stream => m.stream_volume,
        Mix::Vod => m.vod_volume,
    }
}

/// A mute state that is given, or the other than now.
fn given_or_flip(muted: Option<bool>, now: bool) -> (r: bool)
    ensures
        r == given_or_flipped(muted, now),
{
    match muted {
        Some(b) => b,
        None => !now,
    }
}

/// Decide what an action amounts to.
pub fn perform(cfg: &Config, action: ControlAction) -> (r: ControlStep)
    ensures
        r == step_of(*cfg, action),
{
    match action {
        ControlAction::SetChannelVolume { id, mix, value } => {
            if (mix == Mix::Vod && !cfg.vod_mix_enabled) || cfg.channel(id).is_none() {
                return ControlStep::Nothing;
            }
            ControlStep::ChannelVolume { id, mix, value: value.clamp_unit() }
        },
        ControlAction::SetChannelMute { id, mix, muted } => {
            if mix == Mix::Vod && !cfg.vod_mix_enabled {
                return ControlStep::Nothing;
            }
            match cfg.channel(id) {
                Some(c) => ControlStep::ChannelMute {
                    id,
                    mix,
                    muted: given_or_flip(muted, channel_muted(c, mix)),
                },
                None => ControlStep::Nothing,
            }
        },
        ControlAction::SetMasterVolume { mix, value } => {
            if mix == Mix::Vod && !cfg.vod_mix_enabled {
                return ControlStep::Nothing;
            }
            ControlStep::MasterVolume { mix, value: value.clamp_unit() }
        },
        ControlAction::SetMasterMute { mix, muted } => {
            if mix == Mix::Vod && !cfg.vod_mix_enabled {
                return ControlStep::Nothing;
            }
            ControlStep::MasterMute { mix, muted: given_or_flip(muted, mix_muted(&cfg.master, mix)) }
        },
        ControlAction::SelectMidiProfile { id } => {
            if cfg.midi.profile(id).is_none() || cfg.midi.active_profile == id {
                return ControlStep::Nothing;
            }
            ControlStep::Profile { id }
        },
    }
}

// ---- Edits ------------------------------------------------------------------

/// The mixes whose faders follow when one of a linked channel moves. The VOD
/// fader is linked only while the VOD mix is enabled.
pub open spec fn followers(linked: bool, vod: bool, mix: Mix) -> Seq<Mix> {
    if !linked {
        Seq::empty()
    } else {
        match mix {
            Mix::Monitor => if vod {
                seq![Mix::Stream, Mix::Vod]
            } else {
                seq![Mix::Stream]
            },
            Mix::Stream => if vod {
                seq![Mix::Monitor, Mix::Vod]
            } else {
                seq![Mix::Monitor]
            },
            Mix::Vod => seq![Mix::Monitor, Mix::Stream],
        }
    }
}

/// A channel after some of its faders were moved to a level.
pub open spec fn with_levels(c: ChannelConfig, mixes: Seq<Mix>, v: Level) -> ChannelConfig {
    ChannelConfig {
        monitor_volume: if mixes.contains(Mix::Monitor) {
            v
        } else {
            c.monitor_volume
        },
        stream_volume: if mixes.contains(Mix::Stream) {
            v
        } else {
            c.stream_volume
        },
        vod_volume: if mixes.contains(Mix::Vod) {
            v
        } else {
            c.vod_volume
        },
        ..c
    }
}

/// Whether two configurations differ at most in one channel.
pub open spec fn only_channel_differs(old: Config, new: Config, id: u64, c: ChannelConfig) -> bool {
    &&& new.channels@ == old.channels@.update(old.position(id), c)
    &&& new == (Config { channels: new.channels, ..old })
}

/// Whether two assignments are the same.
pub open spec fn same_assignment(a: Option<Assignment>, b: Option<Assignment>) -> bool {
    match (a, b) {
        (None, None) => true,
        (Some(Assignment::Source { name: x }), Some(Assignment::Source { name: y })) => x@ == y@,
        (Some(Assignment::App { name: x }), Some(Assignment::App { name: y })) => x@ == y@,
        (Some(Assignment::Virtual), Some(Assignment::Virtual)) => true,
        _ => false,
    }
}

/// Whether two optional texts are the same.
pub open spec fn same_text(a: Option<String>, b: Option<String>) -> bool {
    match (a, b) {
        (None, None) => true,
        (Some(x), Some(y)) => x@ == y@,
        _ => false,
    }
}

/// Whether two assignments are the same.
pub fn assignments_match(a: &Option<Assignment>, b: &Option<Assignment>) -> (r: bool)
    ensures
        r == same_assignment(*a, *b),
{
    match (a, b) {
        (None, None) => true,
        (Some(Assignment::Source { name: x }), Some(Assignment::Source { name: y })) => text::same(
            x.as_str(),
            y.as_str(),
        ),
        (Some(Assignment::App { name: x }), Some(Assignment::App { name: y })) => text::same(
            x.as_str(),
            y.as_str(),
        ),
        (Some(Assignment::Virtual), Some(Assignment::Virtual)) => true,
        _ => false,
    }
}

/// Whether two optional texts are the same.
pub fn texts_match(a: &Option<String>, b: &Option<String>) -> (r: bool)
    ensures
        r == same_text(*a, *b),
{
    match (a, b) {
        (None, None) => true,
        (Some(x), Some(y)) => text::same(x.as_str(), y.as_str()),
        _ => false,
    }
}

/// Whether an assignment gives the channel a device of its own, which apps can
/// play into.
pub open spec fn has_device(a: Option<Assignment>) -> bool {
    a is Some && !(a->0 is Source)
}

impl Config {
    /// What moving a fader answers and makes of the configuration.
    pub open spec fn fader_moved(self, id: u64, mix: Mix, v: Level, r: Option<Vec<Mix>>, new: Config) -> bool {
        &&& r is Some <==> self.has_channel(id)
        &&& r is None ==> new == self
        &&& r is Some ==> {
            let c = the_channel(self, id);
            let moved = seq![mix] + followers(c.linked, self.vod_mix_enabled, mix);
            &&& r->0@ == moved
            &&& only_channel_differs(self, new, id, with_levels(c, moved, v))
        }
    }

    /// A fader was moved. Gives the mixes to apply: the fader's own, then those
    /// of the faders that followed. None without such a channel.
    pub fn set_channel_volume(&mut self, id: u64, mix: Mix, v: Level) -> (r: Option<Vec<Mix>>)
        ensures
            old(self).fader_moved(id, mix, v, r, *final(self)),
    {
        let vod = self.vod_mix_enabled;
        let i = self.find(id);
        if i >= self.channels.len() {
            return None;
        }
        let mut moved: Vec<Mix> = Vec::new();
        moved.push(mix);
        let ghost before = self.channels@;
        let c = &mut self.channels[i];
        let ghost c0 = *c;
        if c.linked {
            if mix != Mix::Monitor {
                moved.push(Mix::Monitor);
            }
            if mix != Mix::Stream {
                moved.push(Mix::Stream);
            }
            if mix != Mix::Vod && vod {
                moved.push(Mix::Vod);
            }
        }
        proof {
            assert(moved@ =~= seq![mix] + followers(c0.linked, vod, mix));
            assert(moved@[0] == mix);
            if c0.linked {
                assert(moved@.contains(moved@[1]));
                if moved@.len() > 2 {
                    assert(moved@.contains(moved@[2]));
                }
            }
        }
        let all = c.linked;
        if mix == Mix::Monitor || all {
            c.monitor_volume = v;
        }
        if mix == Mix::Stream || all {
            c.stream_volume = v;
        }
        if mix == Mix::Vod || (all && vod) {
            c.vod_volume = v;
        }
        Some(moved)
    }

    /// What linking the faders of a channel answers and makes of the configuration.
    pub open spec fn faders_linked(self, id: u64, on: bool, r: Option<Vec<Mix>>, new: Config) -> bool {
        &&& r is Some <==> self.has_channel(id)
        &&& r is None ==> new == self
        &&& r is Some ==> {
            let c = the_channel(self, id);
            let moved = followers(on, self.vod_mix_enabled, Mix::Monitor);
            &&& r->0@ == moved
            &&& only_channel_differs(
                self,
                new,
                id,
                ChannelConfig { linked: on, ..with_levels(c, moved, c.monitor_volume) },
            )
        }
    }

    /// The faders of a channel were linked or unlinked. On linking, the others
    /// go where the monitor fader is. Gives the mixes to apply.
    pub fn set_linked(&mut self, id: u64, on: bool) -> (r: Option<Vec<Mix>>)
        ensures
            old(self).faders_linked(id, on, r, *final(self)),
    {
        let vod = self.vod_mix_enabled;
        let i = self.find(id);
        if i >= self.channels.len() {
            return None;
        }
        let mut moved: Vec<Mix> = Vec::new();
        let c = &mut self.channels[i];
        c.linked = on;
        if on {
            c.stream_volume = c.monitor_volume;
            moved.push(Mix::Stream);
            if vod {
                c.vod_volume = c.monitor_volume;
                moved.push(Mix::Vod);
            }
        }
        proof {
            assert(moved@ =~= followers(on, vod, Mix::Monitor));
            if on {
                assert(moved@[0] == Mix::Stream);
                if vod {
                    assert(moved@[1] == Mix::Vod);
                }
            }
        }
        Some(moved)
    }

    /// What muting a channel in a mix answers and makes of the configuration.
    pub open spec fn mute_set(self, id: u64, mix: Mix, on: bool, r: bool, new: Config) -> bool {
        &&& r == self.has_channel(id)
        &&& !r ==> new == self
        &&& r ==> only_channel_differs(
            self,
            new,
            id,
            with_muted(the_channel(self, id), mix, on),
        )
    }

    /// A channel was muted or unmuted in a mix. Says whether there is such a
    /// channel.
    pub fn set_channel_mute(&mut self, id: u64, mix: Mix, on: bool) -> (r: bool)
        ensures
            old(self).mute_set(id, mix, on, r, *final(self)),
    {
        let i = self.find(id);
        if i >= self.channels.len() {
            return false;
        }
        let c = &mut self.channels[i];
        match mix {
            Mix::Monitor => {
                c.monitor_muted = on;
            },
            Mix::Stream => {
                c.stream_muted = on;
            },
            Mix::Vod => {
                c.vod_muted = on;
            },
        }
        true
    }

    /// What moving a master fader makes of the configuration.
    pub open spec fn master_moved(self, mix: Mix, v: Level, new: Config) -> bool {
        &&& new == (Config { master: new.master, ..self })
        &&& new.master == with_master_level(self.master, mix, v)
    }

    /// A master fader was moved.
    pub fn set_master_volume(&mut self, mix: Mix, v: Level)
        ensures
            old(self).master_moved(mix, v, *final(self)),
    {
        match mix {
            Mix::Monitor => {
                self.master.monitor_volume = v;
            },
            Mix::Stream => {
                self.master.stream_volume = v;
            },
            Mix::Vod => {
                self.master.vod_volume = v;
            },
        }
    }

    /// What muting a mix makes of the configuration.
    pub open spec fn master_mute_set(self, mix: Mix, on: bool, new: Config) -> bool {
        &&& new == (Config { master: new.master, ..self })
        &&& new.master == with_master_muted(self.master, mix, on)
    }

    /// A mix was muted or unmuted.
    pub fn set_master_mute(&mut self, mix: Mix, on: bool)
        ensures
            old(self).master_mute_set(mix, on, *final(self)),
    {
        match mix {
            Mix::Monitor => {
                self.master.monitor_muted = on;
            },
            Mix::Stream => {
                self.master.stream_muted = on;
            },
            Mix::Vod => {
                self.master.vod_muted = on;
            },
        }
    }

    /// What choosing the monitor device answers and makes of the configuration.
    pub open spec fn monitor_chosen(self, device: Option<String>, r: bool, new: Config) -> bool {
        &&& r == !same_text(self.master.monitor_device, device)
        &&& new == if r {
            Config {
                master: MasterConfig { monitor_device: device, ..self.master },
                ..self
            }
        } else {
            self
        }
    }

    /// Another device was chosen for the monitor mix. Says whether it differs,
    /// so that the output is to be set up anew.
    pub fn set_monitor_device(&mut self, device: Option<String>) -> (r: bool)
        ensures
            old(self).monitor_chosen(device, r, *final(self)),
    {
        if texts_match(&self.master.monitor_device, &device) {
            return false;
        }
        self.master.monitor_device = device;
        true
    }

    /// What renaming a channel answers and makes of the configuration.
    pub open spec fn renamed(self, id: u64, name: String, r: bool, new: Config) -> bool {
        &&& r == self.has_channel(id)
        &&& !r ==> new == self
        &&& r ==> only_channel_differs(
            self,
            new,
            id,
            ChannelConfig { name, ..the_channel(self, id) },
        )
    }

    /// A channel was renamed.
    pub fn rename_channel(&mut self, id: u64, name: String) -> (r: bool)
        ensures
            old(self).renamed(id, name, r, *final(self)),
    {
        let i = self.find(id);
        if i >= self.channels.len() {
            return false;
        }
        self.channels[i].name = name;
        true
    }

    /// What coloring a channel answers and makes of the configuration.
    pub open spec fn recolored(self, id: u64, color: Option<String>, r: bool, new: Config) -> bool {
        &&& r == self.has_channel(id)
        &&& !r ==> new == self
        &&& r ==> only_channel_differs(
            self,
            new,
            id,
            ChannelConfig { color, ..the_channel(self, id) },
        )
    }

    /// A channel's color was chosen or cleared.
    pub fn set_channel_color(&mut self, id: u64, color: Option<String>) -> (r: bool)
        ensures
            old(self).recolored(id, color, r, *final(self)),
    {
        let i = self.find(id);
        if i >= self.channels.len() {
            return false;
        }
        self.channels[i].color = color;
        true
    }

    /// What assigning an input answers and makes of the configuration.
    pub open spec fn assigned(self, id: u64, assignment: Option<Assignment>, r: bool, new: Config) -> bool {
        &&& r == (self.has_channel(id) && !same_assignment(
            the_channel(self, id).assignment,
            assignment,
        ))
        &&& !r ==> new == self
        &&& r ==> only_channel_differs(
            self,
            new,
            id,
            ChannelConfig { assignment, ..the_channel(self, id) },
        )
    }

    /// Another input was chosen for a channel. Says whether it differs, so that
    /// the channel is to be rebuilt.
    pub fn set_assignment(&mut self, id: u64, assignment: Option<Assignment>) -> (r: bool)
        ensures
            old(self).assigned(id, assignment, r, *final(self)),
    {
        let i = self.find(id);
        if i >= self.channels.len() {
            return false;
        }
        if assignments_match(&self.channels[i].assignment, &assignment) {
            return false;
        }
        self.channels[i].assignment = assignment;
        true
    }

    /// Whether it is right that a channel needs a device of its own.
    pub open spec fn wants_sink(self, id: u64, r: bool) -> bool {
        r == (self.has_channel(id) && has_device(the_channel(self, id).assignment))
    }

    /// Whether a channel exposes a device named after it, which a rename must
    /// recreate.
    pub fn needs_sink(&self, id: u64) -> (r: bool)
        ensures
            self.wants_sink(id, r),
    {
        match self.channel(id) {
            Some(c) => match &c.assignment {
                Some(Assignment::App { .. }) => true,
                Some(Assignment::Virtual) => true,
                _ => false,
            },
            None => false,
        }
    }

    /// What selecting a profile answers and makes of the configuration.
    pub open spec fn profile_selected(self, id: u64, r: bool, new: Config) -> bool {
        &&& r == (self.midi.has_profile(id) && self.midi.active_profile != id)
        &&& new == if r {
            Config { midi: MidiConfig { active_profile: id, ..self.midi }, ..self }
        } else {
            self
        }
    }

    /// Another profile was selected.
    pub fn select_profile(&mut self, id: u64) -> (r: bool)
        ensures
            old(self).profile_selected(id, r, *final(self)),
            old(self).midi.wf() ==> final(self).midi.wf(),
    {
        if self.midi.profile(id).is_none() || self.midi.active_profile == id {
            return false;
        }
        self.midi.active_profile = id;
        proof {
            let k = choose|k: int|
                0 <= k < old(self).midi.profiles@.len() && (#[trigger] old(self).midi.profiles@[k]).id == id;
            assert(self.midi.profiles@[k].id == id);
        }
        true
    }

    /// What deleting a channel makes of the configuration.
    pub open spec fn channel_deleted(self, id: u64, new: Config) -> bool {
        &&& new.channels@ == self.channels@.filter(survives(id))
        &&& new.midi.global_bindings@ == self.midi.global_bindings@.filter(refers_elsewhere(id))
        &&& new.midi.profiles@.len() == self.midi.profiles@.len()
        &&& forall|i: int|
            0 <= i < self.midi.profiles@.len() ==> {
                &&& (#[trigger] new.midi.profiles@[i]).bindings@
                    == self.midi.profiles@[i].bindings@.filter(refers_elsewhere(id))
                &&& new.midi.profiles@[i] == (MidiProfile {
                    bindings: new.midi.profiles@[i].bindings,
                    ..self.midi.profiles@[i]
                })
            }
        &&& new == (Config {
            channels: new.channels,
            midi: MidiConfig {
                profiles: new.midi.profiles,
                global_bindings: new.midi.global_bindings,
                ..self.midi
            },
            ..self
        })
    }

    /// Remove a channel with every binding that refers to it.
    pub fn delete_channel(&mut self, id: u64)
        ensures
            old(self).channel_deleted(id, *final(self)),
            old(self).wf() ==> final(self).wf(),
            old(self).bindings_live() ==> final(self).bindings_live(),
    {
        self.remove_channel(id);
        self.midi.remove_channel_bindings(id);
        proof {
            if old(self).bindings_live() {
                removal_keeps_bindings_live(*old(self), id, *self);
            }
        }
    }
}

/// Performing an action and then reading gives what was asked for: a level is
/// the clamped one.
pub proof fn volume_is_read_back(cfg: Config, id: u64, mix: Mix, value: Level, after: ChannelConfig)
    requires
        cfg.has_channel(id),
        !is_inert(cfg, mix),
        ({
            let c = the_channel(cfg, id);
            let moved = seq![mix] + followers(c.linked, cfg.vod_mix_enabled, mix);
            let step = step_of(cfg, ControlAction::SetChannelVolume { id, mix, value });
            after == with_levels(c, moved, step->ChannelVolume_value)
        }),
    ensures
        level_in(after, mix) == value.clamped(ONE),
        the_channel(cfg, id).linked ==> after.monitor_volume == after.stream_volume,
        the_channel(cfg, id).linked && cfg.vod_mix_enabled ==> after.monitor_volume == after.vod_volume,
        !the_channel(cfg, id).linked ==> forall|m: Mix|
            m != mix ==> #[trigger] level_in(after, m) == level_in(the_channel(cfg, id), m),
{
    let c = the_channel(cfg, id);
    let moved = seq![mix] + followers(c.linked, cfg.vod_mix_enabled, mix);
    assert(moved[0] == mix);
    if c.linked {
        assert(moved.contains(moved[1]));
        if moved.len() > 2 {
            assert(moved.contains(moved[2]));
        }
        if cfg.vod_mix_enabled || mix == Mix::Vod {
            assert(moved.contains(moved[2]));
        }
    }
}

/// Toggling a mute twice restores it.
pub proof fn toggling_twice_restores(c: ChannelConfig, mix: Mix)
    ensures
        ({
            let once = with_muted(c, mix, given_or_flipped(None, muted_in(c, mix)));
            with_muted(once, mix, given_or_flipped(None, muted_in(once, mix))) == c
        }),
{
}

/// Toggling a channel's mute and then reading it gives the other state.
pub proof fn toggled_mute_is_read_back(cfg: Config, id: u64, mix: Mix, after: Config)
    requires
        cfg.has_channel(id),
        !is_inert(cfg, mix),
        ({
            let step = step_of(cfg, ControlAction::SetChannelMute { id, mix, muted: None });
            only_channel_differs(
                cfg,
                after,
                id,
                with_muted(the_channel(cfg, id), mix, step->ChannelMute_muted),
            )
        }),
    ensures
        after.has_channel(id),
        muted_in(the_channel(after, id), mix) == !muted_in(the_channel(cfg, id), mix),
{
    let p = channel_is(id);
    let i = cfg.position(id);
    first_is_least(cfg.channels@, p);
    let k = choose|k: int| 0 <= k < cfg.channels@.len() && (#[trigger] cfg.channels@[k]).id == id;
    first_exists(cfg.channels@, p, k);
    assert forall|j: int| 0 <= j < i implies !p(#[trigger] after.channels@[j]) by {
        assert(!p(cfg.channels@[j]));
    }
    first_is_at(after.channels@, p, i);
    assert(after.channels@[i].id == id);
}

/// The mix an action is about.
pub open spec fn mix_of_action(action: ControlAction) -> Option<Mix> {
    match action {
        ControlAction::SetChannelVolume { mix, .. } => Some(mix),
        ControlAction::SetChannelMute { mix, .. } => Some(mix),
        ControlAction::SetMasterVolume { mix, .. } => Some(mix),
        ControlAction::SetMasterMute { mix, .. } => Some(mix),
        ControlAction::SelectMidiProfile { .. } => None,
    }
}

/// While the VOD mix is disabled, no action on it does anything.
pub proof fn disabled_vod_is_inert(cfg: Config, action: ControlAction)
    requires
        !cfg.vod_mix_enabled,
        mix_of_action(action) == Some(Mix::Vod),
    ensures
        step_of(cfg, action) == ControlStep::Nothing,
{
}

/// Setting a mute to what it is changes nothing, whatever it is.
pub proof fn muting_is_idempotent(c: ChannelConfig, mix: Mix, on: bool)
    ensures
        with_muted(with_muted(c, mix, on), mix, on) == with_muted(c, mix, on),
        muted_in(with_muted(c, mix, on), mix) == on,
{
}

/// Muting a channel in a mix mutes it there and nowhere else, and changes
/// nothing else.
pub proof fn channel_mutes_are_separate(c: ChannelConfig, on: bool)
    ensures
        with_muted(c, Mix::Monitor, on).monitor_muted == on,
        with_muted(c, Mix::Stream, on).stream_muted == on,
        with_muted(c, Mix::Vod, on).vod_muted == on,
        with_muted(c, Mix::Monitor, on) == (ChannelConfig {
            monitor_muted: with_muted(c, Mix::Monitor, on).monitor_muted,
            ..c
        }),
        with_muted(c, Mix::Stream, on) == (ChannelConfig {
            stream_muted: with_muted(c, Mix::Stream, on).stream_muted,
            ..c
        }),
        with_muted(c, Mix::Vod, on) == (ChannelConfig {
            vod_muted: with_muted(c, Mix::Vod, on).vod_muted,
            ..c
        }),
        muted_in(c, Mix::Monitor) <==> c.monitor_muted,
        muted_in(c, Mix::Stream) <==> c.stream_muted,
        muted_in(c, Mix::Vod) <==> c.vod_muted,
        level_in(c, Mix::Monitor) == c.monitor_volume,
        level_in(c, Mix::Stream) == c.stream_volume,
        level_in(c, Mix::Vod) == c.vod_volume,
{
}

/// What is set of a master is read back, of that mix alone; the other masters,
/// the levels (or mutes) and the monitor device stay.
pub proof fn masters_are_separate(m: MasterConfig, mix: Mix, other: Mix, v: Level, on: bool)
    requires
        other != mix,
    ensures
        master_level(with_master_level(m, mix, v), mix) == v,
        master_level(with_master_level(m, mix, v), other) == master_level(m, other),
        master_muted(with_master_level(m, mix, v), mix) == master_muted(m, mix),
        master_muted(with_master_level(m, mix, v), other) == master_muted(m, other),
        master_muted(with_master_muted(m, mix, on), mix) == on,
        master_muted(with_master_muted(m, mix, on), other) == master_muted(m, other),
        master_level(with_master_muted(m, mix, on), mix) == master_level(m, mix),
        master_level(with_master_muted(m, mix, on), other) == master_level(m, other),
        with_master_level(m, mix, v).monitor_device == m.monitor_device,
        with_master_muted(m, mix, on).monitor_device == m.monitor_device,
        master_level(m, Mix::Monitor) == m.monitor_volume,
        master_level(m, Mix::Stream) == m.stream_volume,
        master_level(m, Mix::Vod) == m.vod_volume,
        master_muted(m, Mix::Monitor) <==> m.monitor_muted,
        master_muted(m, Mix::Stream) <==> m.stream_muted,
        master_muted(m, Mix::Vod) <==> m.vod_muted,
{
}

/// Toggling the mute of a mix gives the opposite of what that mix had, and
/// toggling it twice restores the masters.
pub proof fn toggling_a_master_flips_it(cfg: Config, mix: Mix, once: Config)
    requires
        mix != Mix::Vod || cfg.vod_mix_enabled,
        ({
            let step = step_of(cfg, ControlAction::SetMasterMute { mix, muted: None });
            once == (Config { master: with_master_muted(cfg.master, mix, step->MasterMute_muted), ..cfg })
        }),
    ensures
        step_of(cfg, ControlAction::SetMasterMute { mix, muted: None }) is MasterMute,
        step_of(cfg, ControlAction::SetMasterMute { mix, muted: None })->MasterMute_mix == mix,
        mix == Mix::Monitor ==> once.master.monitor_muted == !cfg.master.monitor_muted,
        mix == Mix::Stream ==> once.master.stream_muted == !cfg.master.stream_muted,
        mix == Mix::Vod ==> once.master.vod_muted == !cfg.master.vod_muted,
        mix != Mix::Monitor ==> once.master.monitor_muted == cfg.master.monitor_muted,
        mix != Mix::Stream ==> once.master.stream_muted == cfg.master.stream_muted,
        mix != Mix::Vod ==> once.master.vod_muted == cfg.master.vod_muted,
        ({
            let again = step_of(once, ControlAction::SetMasterMute { mix, muted: None });
            with_master_muted(once.master, mix, again->MasterMute_muted) == cfg.master
        }),
{
}

/// Toggling the mute of a channel gives the opposite of what that channel had in
/// that mix, and toggling it twice restores the channel.
pub proof fn toggling_a_channel_flips_it(cfg: Config, id: u64, mix: Mix)
    requires
        cfg.has_channel(id),
        mix != Mix::Vod || cfg.vod_mix_enabled,
    ensures
        ({
            let step = step_of(cfg, ControlAction::SetChannelMute { id, mix, muted: None });
            let c = cfg.channels@[cfg.position(id)];
            let once = with_muted(c, mix, step->ChannelMute_muted);
            &&& step is ChannelMute
            &&& step->ChannelMute_id == id
            &&& step->ChannelMute_mix == mix
            &&& mix == Mix::Monitor ==> once.monitor_muted == !c.monitor_muted
            &&& mix == Mix::Stream ==> once.stream_muted == !c.stream_muted
            &&& mix == Mix::Vod ==> once.vod_muted == !c.vod_muted
            &&& with_muted(once, mix, !step->ChannelMute_muted) == c
        }),
{
}

/// A request that names a state gets that state, whatever it was before, and
/// concerns the channel and mix it names.
pub proof fn requests_are_met(cfg: Config, id: u64, mix: Mix, on: bool, v: Level)
    requires
        mix != Mix::Vod || cfg.vod_mix_enabled,
        v.within(ONE),
    ensures
        cfg.has_channel(id) ==> step_of(cfg, ControlAction::SetChannelMute { id, mix, muted: Some(on) })
            == (ControlStep::ChannelMute { id, mix, muted: on }),
        cfg.has_channel(id) ==> step_of(cfg, ControlAction::SetChannelVolume { id, mix, value: v })
            == (ControlStep::ChannelVolume { id, mix, value: v }),
        step_of(cfg, ControlAction::SetMasterMute { mix, muted: Some(on) }) == (ControlStep::MasterMute {
            mix,
            muted: on,
        }),
        step_of(cfg, ControlAction::SetMasterVolume { mix, value: v }) == (ControlStep::MasterVolume {
            mix,
            value: v,
        }),
        !cfg.has_channel(id) ==> step_of(cfg, ControlAction::SetChannelMute { id, mix, muted: Some(on) }) is Nothing,
        !cfg.has_channel(id) ==> step_of(cfg, ControlAction::SetChannelVolume { id, mix, value: v }) is Nothing,
{
}

/// A fader is never moved outside its range: what is too loud becomes full
/// level, what is below zero becomes silence.
pub proof fn faders_stay_in_range(cfg: Config, id: u64, mix: Mix, v: Level)
    requires
        mix != Mix::Vod || cfg.vod_mix_enabled,
        v.is_number(),
    ensures
        step_of(cfg, ControlAction::SetMasterVolume { mix, value: v })->MasterVolume_value.within(ONE),
        cfg.has_channel(id) ==> step_of(
            cfg,
            ControlAction::SetChannelVolume { id, mix, value: v },
        )->ChannelVolume_value.within(ONE),
        v.is_above(ONE) ==> step_of(cfg, ControlAction::SetMasterVolume { mix, value: v })->MasterVolume_value.bits
            == ONE,
        v.is_negative() ==> step_of(cfg, ControlAction::SetMasterVolume { mix, value: v })->MasterVolume_value.bits
            == 0,
{
}

/// A profile is selected exactly where it exists and is not the active one.
pub proof fn profiles_are_selected_once(cfg: Config, id: u64)
    ensures
        step_of(cfg, ControlAction::SelectMidiProfile { id }) == (ControlStep::Profile { id })
            <==> cfg.midi.has_profile(id) && cfg.midi.active_profile != id,
        !cfg.midi.has_profile(id) || cfg.midi.active_profile == id ==> step_of(
            cfg,
            ControlAction::SelectMidiProfile { id },
        ) is Nothing,
{
}

/// Moving a fader of an unlinked channel moves it alone. On a linked one the
/// monitor and stream faders both follow, and the VOD fader while the VOD mix is
/// enabled. Nothing but faders moves.
pub proof fn linked_faders_move_together(c: ChannelConfig, vod: bool, mix: Mix, v: Level)
    ensures
        ({
            let moved = seq![mix] + followers(c.linked, vod, mix);
            let d = with_levels(c, moved, v);
            &&& d == (ChannelConfig {
                monitor_volume: d.monitor_volume,
                stream_volume: d.stream_volume,
                vod_volume: d.vod_volume,
                ..c
            })
            &&& mix == Mix::Monitor || c.linked ==> d.monitor_volume == v
            &&& mix == Mix::Stream || c.linked ==> d.stream_volume == v
            &&& mix == Mix::Vod || (c.linked && vod) ==> d.vod_volume == v
            &&& mix != Mix::Monitor && !c.linked ==> d.monitor_volume == c.monitor_volume
            &&& mix != Mix::Stream && !c.linked ==> d.stream_volume == c.stream_volume
            &&& mix != Mix::Vod && !(c.linked && vod) ==> d.vod_volume == c.vod_volume
        }),
{
    let f = followers(c.linked, vod, mix);
    let moved = seq![mix] + f;
    assert(moved[0] == mix);
    assert(moved.contains(mix));
    assert forall|m: Mix| #[trigger] moved.contains(m) implies m == mix || f.contains(m) by {
        let i = choose|i: int| 0 <= i < moved.len() && moved[i] == m;
        if i > 0 {
            assert(f[i - 1] == m);
        }
    }
    if c.linked {
        assert(moved[1] == f[0]);
        assert(moved.contains(f[0]));
        if f.len() > 1 {
            assert(moved[2] == f[1]);
            assert(moved.contains(f[1]));
        }
    }
}

/// Linking puts the other faders where the monitor fader is, the VOD fader only
/// while the VOD mix is enabled; unlinking moves none.
pub proof fn linking_levels_the_faders(c: ChannelConfig, vod: bool, on: bool)
    ensures
        ({
            let d = with_levels(c, followers(on, vod, Mix::Monitor), c.monitor_volume);
            &&& d.monitor_volume == c.monitor_volume
            &&& on ==> d.stream_volume == c.monitor_volume
            &&& on && vod ==> d.vod_volume == c.monitor_volume
            &&& !vod ==> d.vod_volume == c.vod_volume
            &&& !on ==> d == c
        }),
{
    let f = followers(on, vod, Mix::Monitor);
    if on {
        assert(f.contains(f[0]));
        if vod {
            assert(f.contains(f[1]));
        }
    }
    assert forall|m: Mix| #[trigger] f.contains(m) implies on && (m == Mix::Stream || (m == Mix::Vod && vod)) by {
        let i = choose|i: int| 0 <= i < f.len() && f[i] == m;
    }
}

/// Assignments are the same exactly where they are of one kind and name the same
/// device or application.
pub proof fn assignments_compare_by_name(x: String, y: String)
    ensures
        same_assignment(Some(Assignment::Source { name: x }), Some(Assignment::Source { name: y })) <==> x@ == y@,
        same_assignment(Some(Assignment::App { name: x }), Some(Assignment::App { name: y })) <==> x@ == y@,
        !same_assignment(Some(Assignment::Source { name: x }), Some(Assignment::App { name: y })),
        !same_assignment(Some(Assignment::App { name: x }), Some(Assignment::Source { name: y })),
        !same_assignment(None, Some(Assignment::Virtual)),
        !same_assignment(Some(Assignment::Virtual), None),
        !same_assignment(Some(Assignment::Virtual), Some(Assignment::App { name: x })),
        !same_assignment(Some(Assignment::Source { name: x }), None),
        same_assignment(None, None),
        same_assignment(Some(Assignment::Virtual), Some(Assignment::Virtual)),
        same_text(Some(x), Some(y)) <==> x@ == y@,
        !same_text(Some(x), None),
        !same_text(None, Some(x)),
        same_text(None, None),
{
}

/// Applications and virtual devices play into a device of the channel's own; a
/// capture device and no input do not.
pub proof fn devices_come_with_assignments(name: String)
    ensures
        has_device(Some(Assignment::App { name })),
        has_device(Some(Assignment::Virtual)),
        !has_device(Some(Assignment::Source { name })),
        !has_device(None),
{
}

/// An edit of a channel reaches that channel, changes what it is about and nothing
/// else of it, and leaves every other channel, the masters and the bindings alone.
pub proof fn edits_reach_their_channel(
    cfg: Config,
    p: int,
    name: String,
    color: Option<String>,
    mix: Mix,
    on: bool,
    r: bool,
    new: Config,
)
    requires
        cfg.wf(),
        0 <= p < cfg.channels@.len(),
        ({
            let id = cfg.channels@[p].id;
            ||| cfg.renamed(id, name, r, new)
            ||| cfg.recolored(id, color, r, new)
            ||| cfg.mute_set(id, mix, on, r, new)
        }),
    ensures
        r,
        new.channels@.len() == cfg.channels@.len(),
        forall|j: int| 0 <= j < cfg.channels@.len() && j != p ==> #[trigger] new.channels@[j] == cfg.channels@[j],
        new.master == cfg.master && new.midi == cfg.midi && new.vod_mix_enabled == cfg.vod_mix_enabled,
        ({
            let a = cfg.channels@[p];
            let b = new.channels@[p];
            &&& cfg.renamed(a.id, name, r, new) ==> b == (ChannelConfig { name, ..a })
            &&& cfg.recolored(a.id, color, r, new) ==> b == (ChannelConfig { color, ..a })
            &&& cfg.mute_set(a.id, Mix::Monitor, on, r, new) ==> b == (ChannelConfig { monitor_muted: on, ..a })
            &&& cfg.mute_set(a.id, Mix::Stream, on, r, new) ==> b == (ChannelConfig { stream_muted: on, ..a })
            &&& cfg.mute_set(a.id, Mix::Vod, on, r, new) ==> b == (ChannelConfig { vod_muted: on, ..a })
        }),
{
    crate::config::channel_found(cfg, p);
}

/// Edits of a channel that does not exist are refused and change nothing.
pub proof fn edits_of_missing_channels_are_refused(
    cfg: Config,
    id: u64,
    name: String,
    color: Option<String>,
    assignment: Option<Assignment>,
    mix: Mix,
    on: bool,
    v: Level,
    r: bool,
    moved: Option<Vec<Mix>>,
    new: Config,
)
    requires
        forall|i: int| 0 <= i < cfg.channels@.len() ==> (#[trigger] cfg.channels@[i]).id != id,
    ensures
        cfg.renamed(id, name, r, new) ==> !r && new == cfg,
        cfg.recolored(id, color, r, new) ==> !r && new == cfg,
        cfg.assigned(id, assignment, r, new) ==> !r && new == cfg,
        cfg.mute_set(id, mix, on, r, new) ==> !r && new == cfg,
        cfg.fader_moved(id, mix, v, moved, new) ==> moved is None && new == cfg,
        cfg.faders_linked(id, on, moved, new) ==> moved is None && new == cfg,
{
}

/// Assigning another input to a channel changes that channel's assignment and
/// nothing else; assigning the one it has changes nothing and says so.
pub proof fn assignments_are_taken_over(cfg: Config, p: int, assignment: Option<Assignment>, r: bool, new: Config)
    requires
        cfg.wf(),
        0 <= p < cfg.channels@.len(),
        cfg.assigned(cfg.channels@[p].id, assignment, r, new),
    ensures
        r == !same_assignment(cfg.channels@[p].assignment, assignment),
        !r ==> new == cfg,
        r ==> {
            &&& new.channels@ == cfg.channels@.update(p, ChannelConfig { assignment, ..cfg.channels@[p] })
            &&& new == (Config { channels: new.channels, ..cfg })
        },
{
    crate::config::channel_found(cfg, p);
}

/// Moving a fader moves it to the level asked for, and reports its mix first. An
/// unlinked fader moves alone; linked ones move together, the VOD fader only while
/// that mix is enabled or when it is the one that was moved.
pub proof fn faders_move_as_asked(cfg: Config, p: int, mix: Mix, v: Level, r: Option<Vec<Mix>>, new: Config)
    requires
        cfg.wf(),
        0 <= p < cfg.channels@.len(),
        cfg.fader_moved(cfg.channels@[p].id, mix, v, r, new),
    ensures
        r is Some,
        r->0@.len() > 0 && r->0@[0] == mix,
        ({
            let a = cfg.channels@[p];
            let b = new.channels@[p];
            &&& b.monitor_volume == if mix == Mix::Monitor || a.linked {
                v
            } else {
                a.monitor_volume
            }
            &&& b.stream_volume == if mix == Mix::Stream || a.linked {
                v
            } else {
                a.stream_volume
            }
            &&& b.vod_volume == if mix == Mix::Vod || (a.linked && cfg.vod_mix_enabled) {
                v
            } else {
                a.vod_volume
            }
            &&& b == (ChannelConfig {
                monitor_volume: b.monitor_volume,
                stream_volume: b.stream_volume,
                vod_volume: b.vod_volume,
                ..a
            })
            &&& r->0@.contains(Mix::Monitor) <==> mix == Mix::Monitor || a.linked
            &&& r->0@.contains(Mix::Stream) <==> mix == Mix::Stream || a.linked
            &&& r->0@.contains(Mix::Vod) <==> mix == Mix::Vod || (a.linked && cfg.vod_mix_enabled)
        }),
        new.channels@.len() == cfg.channels@.len(),
        forall|j: int| 0 <= j < cfg.channels@.len() && j != p ==> #[trigger] new.channels@[j] == cfg.channels@[j],
        new == (Config { channels: new.channels, ..cfg }),
{
    crate::config::channel_found(cfg, p);
    let a = cfg.channels@[p];
    let moved = seq![mix] + followers(a.linked, cfg.vod_mix_enabled, mix);
    assert(moved[0] == mix);
    if a.linked {
        assert(moved[1] == followers(true, cfg.vod_mix_enabled, mix)[0]);
        if mix == Mix::Vod || cfg.vod_mix_enabled {
            assert(moved[2] == followers(true, cfg.vod_mix_enabled, mix)[1]);
        }
    }
}

/// Linking brings the other faders to the monitor fader, the VOD fader only while
/// that mix is enabled, and reports those; unlinking moves none.
pub proof fn linking_moves_the_others(cfg: Config, p: int, on: bool, r: Option<Vec<Mix>>, new: Config)
    requires
        cfg.wf(),
        0 <= p < cfg.channels@.len(),
        cfg.faders_linked(cfg.channels@[p].id, on, r, new),
    ensures
        r is Some,
        ({
            let a = cfg.channels@[p];
            let b = new.channels@[p];
            &&& b.linked == on
            &&& b.monitor_volume == a.monitor_volume
            &&& b.stream_volume == if on {
                a.monitor_volume
            } else {
                a.stream_volume
            }
            &&& b.vod_volume == if on && cfg.vod_mix_enabled {
                a.monitor_volume
            } else {
                a.vod_volume
            }
            &&& b.name == a.name && b.id == a.id && b.assignment == a.assignment
            &&& b.monitor_muted == a.monitor_muted && b.stream_muted == a.stream_muted && b.vod_muted == a.vod_muted
            &&& !r->0@.contains(Mix::Monitor)
            &&& r->0@.contains(Mix::Stream) <==> on
            &&& r->0@.contains(Mix::Vod) <==> on && cfg.vod_mix_enabled
        }),
        new.channels@.len() == cfg.channels@.len(),
        forall|j: int| 0 <= j < cfg.channels@.len() && j != p ==> #[trigger] new.channels@[j] == cfg.channels@[j],
        new == (Config { channels: new.channels, ..cfg }),
{
    crate::config::channel_found(cfg, p);
    let moved = followers(on, cfg.vod_mix_enabled, Mix::Monitor);
    if on {
        assert(moved[0] == Mix::Stream);
        if cfg.vod_mix_enabled {
            assert(moved[1] == Mix::Vod);
        }
    }
}

/// A master's volume and mute are set on the mix they were asked for, and on no
/// other; channels and bindings stay.
pub proof fn masters_are_set_as_asked(cfg: Config, v: Level, on: bool, new: Config)
    ensures
        cfg.master_moved(Mix::Monitor, v, new) ==> new.master == (MasterConfig { monitor_volume: v, ..cfg.master }),
        cfg.master_moved(Mix::Stream, v, new) ==> new.master == (MasterConfig { stream_volume: v, ..cfg.master }),
        cfg.master_moved(Mix::Vod, v, new) ==> new.master == (MasterConfig { vod_volume: v, ..cfg.master }),
        cfg.master_mute_set(Mix::Monitor, on, new) ==> new.master == (MasterConfig {
            monitor_muted: on,
            ..cfg.master
        }),
        cfg.master_mute_set(Mix::Stream, on, new) ==> new.master == (MasterConfig { stream_muted: on, ..cfg.master }),
        cfg.master_mute_set(Mix::Vod, on, new) ==> new.master == (MasterConfig { vod_muted: on, ..cfg.master }),
        forall|mix: Mix| #[trigger]
            cfg.master_moved(mix, v, new) ==> new == (Config { master: new.master, ..cfg }),
        forall|mix: Mix| #[trigger]
            cfg.master_mute_set(mix, on, new) ==> new == (Config { master: new.master, ..cfg }),
{
}

/// Choosing another monitor device is taken over; choosing the same is no change.
pub proof fn monitor_choice_is_taken_over(cfg: Config, device: Option<String>, r: bool, new: Config)
    requires
        cfg.monitor_chosen(device, r, new),
    ensures
        r <==> (match (cfg.master.monitor_device, device) {
            (Some(a), Some(b)) => a@ != b@,
            (None, None) => false,
            _ => true,
        }),
        r ==> new.master == (MasterConfig { monitor_device: device, ..cfg.master }),
        !r ==> new == cfg,
        new.channels == cfg.channels && new.midi == cfg.midi,
{
}

/// A profile that exists can be selected, and only such a one; selecting the
/// active one is no change. Nothing but the selection changes.
pub proof fn only_profiles_are_selected(cfg: Config, id: u64, r: bool, new: Config)
    requires
        cfg.profile_selected(id, r, new),
    ensures
        r <==> id != cfg.midi.active_profile && exists|i: int|
            0 <= i < cfg.midi.profiles@.len() && (#[trigger] cfg.midi.profiles@[i]).id == id,
        r ==> new.midi.active_profile == id,
        !r ==> new == cfg,
        new.midi.profiles == cfg.midi.profiles && new.midi.global_bindings == cfg.midi.global_bindings,
        new.channels == cfg.channels && new.master == cfg.master,
{
}

/// Deleting a channel takes it out, unless it is built in, with all bindings that
/// drive it; every other channel and binding stays.
pub proof fn deleted_channels_leave_nothing(cfg: Config, id: u64, new: Config, i: int, k: int, b: crate::config::MidiBinding)
    requires
        cfg.channel_deleted(id, new),
        0 <= i < cfg.channels@.len(),
        0 <= k < cfg.midi.profiles@.len(),
    ensures
        cfg.channels@[i].id != id || cfg.channels@[i].permanent ==> new.channels@.contains(cfg.channels@[i]),
        forall|j: int|
            0 <= j < new.channels@.len() ==> (#[trigger] new.channels@[j]).id != id || new.channels@[j].permanent,
        new.midi.global_bindings@.contains(b) <==> cfg.midi.global_bindings@.contains(b) && b.target.channel_of()
            != Some(id),
        new.midi.profiles@[k].bindings@.contains(b) <==> cfg.midi.profiles@[k].bindings@.contains(b)
            && b.target.channel_of() != Some(id),
        new.midi.profiles@.len() == cfg.midi.profiles@.len(),
        new.midi.active_profile == cfg.midi.active_profile,
        new.master == cfg.master,
{
    crate::list::filter_keeps(cfg.channels@, survives(id));
    if survives(id)(cfg.channels@[i]) {
        crate::list::filter_loses_nothing(cfg.channels@, survives(id), i);
    }
    assert(new.midi.profiles@[k].bindings@ == cfg.midi.profiles@[k].bindings@.filter(refers_elsewhere(id)));
    crate::config::filtered_holds(cfg.midi.profiles@[k].bindings@, refers_elsewhere(id), b);
    crate::config::filtered_holds(cfg.midi.global_bindings@, refers_elsewhere(id), b);
}

/// A channel needs a device of its own for applications and as a virtual device; not
/// for a capture device, nor without an input, nor where there is no such channel.
pub proof fn devices_are_made_where_needed(cfg: Config, p: int, id: u64, r: bool)
    requires
        cfg.wf(),
        0 <= p < cfg.channels@.len(),
    ensures
        cfg.wants_sink(cfg.channels@[p].id, r) ==> r == (cfg.channels@[p].assignment is Some && !(
        cfg.channels@[p].assignment->0 is Source)),
        cfg.wants_sink(id, r) && (forall|i: int|
            0 <= i < cfg.channels@.len() ==> (#[trigger] cfg.channels@[i]).id != id) ==> !r,
{
    crate::config::channel_found(cfg, p);
}

} // verus!
