//! What MIDI controllers drive, and what their pads show.

use vstd::prelude::*;

use crate::audio::Mix;
use crate::config::{
    beside, drives_other, profile_is, same_control, Config, MidiBinding, MidiConfig, MidiKind, MidiSource, MidiTarget,
};
use crate::control;
use crate::control::{is_inert, level_in, master_level, master_muted, muted_in, the_channel, ControlAction};
use crate::fx::put;
use crate::level::Level;
use crate::list::{first, first_exists, first_is_at, first_is_least, retain};
use crate::midi;
use crate::midi::PAD_PALETTE;
use crate::text;

verus! {

/// An armed "Learn MIDI" dialog waiting for the next hardware event.
#[derive(Clone, Copy, Debug, PartialEq, Eq, Structural)]
pub struct LearnRequest {
    pub target: MidiTarget,
    /// Profile the binding is stored in (the active one when armed).
    pub profile: u64,
}

/// Runtime fader-pickup / edge-detection state of a bound hardware control.
/// Never persisted; cleared on profile switches and binding edits.
#[derive(Clone, Debug, PartialEq, Eq)]
pub struct PickupState {
    pub source: MidiSource,
    pub engaged: bool,
    /// Previous incoming value.
    pub last_in: Option<u8>,
    /// Value as of the last write, to detect outside changes.
    pub last_written: Option<u8>,
}

/// How an incoming fader value compares to its target's current level and to
/// what the fader did before. The levels are doubles; whoever holds them makes
/// these tests.
#[derive(Clone, Copy, Debug, PartialEq, Eq, Structural)]
pub struct FaderTests {
    /// The target has moved away from the last value written.
    pub drifted: bool,
    /// The value is close to the target.
    pub near: bool,
    /// The target lies between the previous value and this one.
    pub crossed: bool,
}

/// What an incoming message is for.
#[derive(Clone, Copy, Debug, PartialEq, Eq, Structural)]
pub enum Dispatch {
    /// A dialog is waiting to learn it.
    Learn,
    /// Nothing is bound to it.
    Ignore,
    /// It moves the volume of a target.
    Fader(MidiTarget),
    /// It is a button for an action.
    Button(ControlAction),
}

/// A binding of a control.
pub open spec fn binds(source: MidiSource) -> spec_fn(MidiBinding) -> bool {
    |b: MidiBinding| same_control(b.source, source)
}

/// The bindings that are live: the global ones, then those of the active
/// profile.
pub open spec fn live_bindings(m: MidiConfig) -> Seq<MidiBinding> {
    m.global_bindings@ + m.profiles@[m.active_position()].bindings@
}

/// The target a control drives.
pub open spec fn target_of(m: MidiConfig, source: MidiSource) -> Option<MidiTarget> {
    let s = live_bindings(m);
    let i = first(s, binds(source));
    if i < s.len() {
        Some(s[i].target)
    } else {
        None
    }
}

/// What a control with a target is for.
pub open spec fn use_of(target: MidiTarget) -> Dispatch {
    match target {
        MidiTarget::ChannelVolume { .. } => Dispatch::Fader(target),
        MidiTarget::MasterVolume { .. } => Dispatch::Fader(target),
        MidiTarget::ChannelMute { id, mix } => Dispatch::Button(
            ControlAction::SetChannelMute { id, mix, muted: None },
        ),
        MidiTarget::MasterMute { mix } => Dispatch::Button(ControlAction::SetMasterMute { mix, muted: None }),
        MidiTarget::SelectProfile { profile } => Dispatch::Button(
            ControlAction::SelectMidiProfile { id: profile },
        ),
        MidiTarget::ChannelColor { .. } => Dispatch::Ignore,
    }
}

/// The target a control drives.
pub fn find_target(m: &MidiConfig, source: &MidiSource) -> (r: Option<MidiTarget>)
    requires
        m.profiles@.len() > 0,
    ensures
        r == target_of(*m, *source),
{
    let ghost s = live_bindings(*m);
    let active = m.active();
    let ghost n = m.global_bindings@.len() as int;
    let mut i: usize = 0;
    while i < m.global_bindings.len()
        invariant
            i <= n,
            n == m.global_bindings@.len(),
            s == live_bindings(*m),
            forall|j: int| 0 <= j < i ==> !binds(*source)(#[trigger] s[j]),
        decreases n - i,
    {
        assert(s[i as int] == m.global_bindings@[i as int]);
        if m.global_bindings[i].source.same(source) {
            proof {
                first_is_at(s, binds(*source), i as int);
            }
            return Some(m.global_bindings[i].target);
        }
        i = i + 1;
    }
    let mut k: usize = 0;
    while k < active.bindings.len()
        invariant
            n == m.global_bindings@.len(),
            s == live_bindings(*m),
            *active == m.profiles@[m.active_position()],
            k <= active.bindings@.len(),
            forall|j: int| 0 <= j < n + k ==> !binds(*source)(#[trigger] s[j]),
        decreases active.bindings@.len() - k,
    {
        assert(s[n + k] == active.bindings@[k as int]);
        if active.bindings[k].source.same(source) {
            proof {
                first_is_at(s, binds(*source), n + k);
            }
            return Some(active.bindings[k].target);
        }
        k = k + 1;
    }
    proof {
        first_is_at(s, binds(*source), n + k);
    }
    None
}

/// What a control that was touched is for.
pub open spec fn dispatched(cfg: Config, learning: bool, source: MidiSource, r: Dispatch) -> bool {
    r == if learning {
        Dispatch::Learn
    } else {
        match target_of(cfg.midi, source) {
            Some(t) => use_of(t),
            None => Dispatch::Ignore,
        }
    }
}

/// What an incoming message is for. While a dialog waits to learn a control it
/// gets every message; pads that only show a color do nothing.
pub fn handle_midi_input(cfg: &Config, learning: bool, source: &MidiSource) -> (r: Dispatch)
    requires
        cfg.midi.profiles@.len() > 0,
    ensures
        dispatched(*cfg, learning, *source, r),
{
    if learning {
        return Dispatch::Learn;
    }
    match find_target(&cfg.midi, source) {
        None => Dispatch::Ignore,
        Some(target) => match target {
            MidiTarget::ChannelVolume { .. } => Dispatch::Fader(target),
            MidiTarget::MasterVolume { .. } => Dispatch::Fader(target),
            MidiTarget::ChannelMute { id, mix } => Dispatch::Button(
                ControlAction::SetChannelMute { id, mix, muted: None },
            ),
            MidiTarget::MasterMute { mix } => Dispatch::Button(
                ControlAction::SetMasterMute { mix, muted: None },
            ),
            MidiTarget::SelectProfile { profile } => Dispatch::Button(
                ControlAction::SelectMidiProfile { id: profile },
            ),
            MidiTarget::ChannelColor { .. } => Dispatch::Ignore,
        },
    }
}

/// The level a fader would set, where the control is a fader and its target
/// exists.
pub open spec fn fader_level(cfg: Config, source: MidiSource, target: MidiTarget) -> Option<Level> {
    if source.kind != MidiKind::Cc {
        None
    } else {
        match target {
            MidiTarget::ChannelVolume { id, mix } => if cfg.has_channel(id) {
                Some(level_in(the_channel(cfg, id), mix))
            } else {
                None
            },
            MidiTarget::MasterVolume { mix } => Some(master_level(cfg.master, mix)),
            _ => None,
        }
    }
}

/// The current level of a fader's target.
pub fn fader_value(cfg: &Config, source: &MidiSource, target: &MidiTarget) -> (r: Option<Level>)
    ensures
        r == fader_level(*cfg, *source, *target),
{
    if source.kind != MidiKind::Cc {
        return None;
    }
    match *target {
        MidiTarget::ChannelVolume { id, mix } => match cfg.channel(id) {
            Some(c) => Some(control::channel_level(c, mix)),
            None => None,
        },
        MidiTarget::MasterVolume { mix } => Some(control::mix_level(&cfg.master, mix)),
        _ => None,
    }
}

/// What moving a fader to a level does.
pub open spec fn moved_by(target: MidiTarget, value: Level) -> Option<ControlAction> {
    match target {
        MidiTarget::ChannelVolume { id, mix } => Some(ControlAction::SetChannelVolume { id, mix, value }),
        MidiTarget::MasterVolume { mix } => Some(ControlAction::SetMasterVolume { mix, value }),
        _ => None,
    }
}

/// What moving a fader to a level does: it moves the volume it drives.
pub fn fader_action(target: &MidiTarget, value: Level) -> (r: Option<ControlAction>)
    ensures
        r == moved_by(*target, value),
{
    match *target {
        MidiTarget::ChannelVolume { id, mix } => Some(ControlAction::SetChannelVolume { id, mix, value }),
        MidiTarget::MasterVolume { mix } => Some(ControlAction::SetMasterVolume { mix, value }),
        _ => None,
    }
}

/// The state of a control.
pub open spec fn state_is(source: MidiSource) -> spec_fn(PickupState) -> bool {
    |s: PickupState| same_control(s.source, source)
}

/// Whether a fader is engaged after an incoming value: it was and its target
/// stayed, or it meets the target now.
pub open spec fn engages(s: PickupState, t: FaderTests) -> bool {
    (s.engaged && !t.drifted) || t.near || (s.last_in is Some && t.crossed)
}

/// The state of every control that sent something.
#[derive(Clone, Debug, PartialEq, Eq)]
pub struct Pickups {
    pub states: Vec<PickupState>,
}

impl Pickups {
    /// The state of a control; a new one is not engaged and has sent nothing.
    pub open spec fn state(self, source: MidiSource) -> PickupState {
        let i = first(self.states@, state_is(source));
        if i < self.states@.len() {
            self.states@[i]
        } else {
            PickupState { source, engaged: false, last_in: None, last_written: None }
        }
    }

    /// A fader that is engaged has written a value.
    pub open spec fn wf(self) -> bool {
        forall|i: int|
            0 <= i < self.states@.len() && (#[trigger] self.states@[i]).engaged
                ==> self.states@[i].last_written is Some
    }

    /// Whether only the state of one control differs.
    pub open spec fn becomes(self, new: Pickups, source: MidiSource, s: PickupState) -> bool {
        new.states@ == put(self.states@, first(self.states@, state_is(source)), s)
    }

    /// No control has sent anything.
    pub fn new() -> (r: Pickups)
        ensures
            r.states@.len() == 0,
            r.wf(),
    {
        Pickups { states: Vec::new() }
    }

    fn find(&self, source: &MidiSource) -> (r: usize)
        ensures
            r == first(self.states@, state_is(*source)),
            r <= self.states@.len(),
    {
        let mut i: usize = 0;
        while i < self.states.len() && !self.states[i].source.same(source)
            invariant
                i <= self.states@.len(),
                forall|j: int| 0 <= j < i ==> !state_is(*source)(#[trigger] self.states@[j]),
            decreases self.states@.len() - i,
        {
            i = i + 1;
        }
        proof {
            first_is_at(self.states@, state_is(*source), i as int);
        }
        i
    }

    /// Whether this is what is remembered of a control.
    pub open spec fn recalled(self, source: MidiSource, r: (bool, Option<u8>, Option<u8>)) -> bool {
        ({
            let s = self.state(source);
            r == (s.engaged, s.last_in, s.last_written)
        })
    }

    /// What a fader did before: whether it is engaged, its last value, and the
    /// last value that was written.
    pub fn history(&self, source: &MidiSource) -> (r: (bool, Option<u8>, Option<u8>))
        ensures
            self.recalled(*source, r),
    {
        let i = self.find(source);
        if i < self.states.len() {
            let s = &self.states[i];
            (s.engaged, s.last_in, s.last_written)
        } else {
            (false, None, None)
        }
    }

    /// What an incoming fader value amounts to and leaves behind.
    pub open spec fn picked_up(
        self,
        enabled: bool,
        source: MidiSource,
        value: u8,
        t: FaderTests,
        r: bool,
        after: Pickups,
    ) -> bool {
        let s = self.state(source);
        let on = engages(s, t);
        &&& r == (!enabled || on)
        &&& !enabled ==> after == self
        &&& enabled ==> {
            let new = after.states@[first(self.states@, state_is(source))];
            &&& self.becomes(after, source, new)
            &&& same_control(new.source, source)
            &&& new.engaged == on
            &&& new.last_in == Some(value)
            &&& new.last_written == if on {
                Some(value)
            } else {
                s.last_written
            }
        }
    }

    /// Fader pickup: a hardware fader that is out of sync with its target
    /// (profile switch, GUI drag, link-follow) must cross the current value
    /// once before it takes over, so it never jumps the volume to wherever the
    /// fader happens to sit. Says whether the value takes effect.
    pub fn pickup_allows(&mut self, enabled: bool, source: &MidiSource, value: u8, t: FaderTests) -> (r: bool)
        ensures
            old(self).picked_up(enabled, *source, value, t, r, *final(self)),
            old(self).wf() ==> final(self).wf(),
    {
        if !enabled {
            return true;
        }
        let i = self.find(source);
        if i < self.states.len() {
            let s = &mut self.states[i];
            if s.engaged && t.drifted {
                s.engaged = false;
            }
            if !s.engaged && (t.near || (s.last_in.is_some() && t.crossed)) {
                s.engaged = true;
            }
            s.last_in = Some(value);
            if s.engaged {
                s.last_written = Some(value);
            }
            let on = s.engaged;
            proof {
                first_is_least(old(self).states@, state_is(*source));
            }
            on
        } else {
            let on = t.near;
            let written = if on {
                Some(value)
            } else {
                None
            };
            self.states.push(
                PickupState {
                    source: copy_source(source),
                    engaged: on,
                    last_in: Some(value),
                    last_written: written,
                },
            );
            on
        }
    }

    /// Whether a value presses a button, and what is remembered of it.
    pub open spec fn pressed_by(self, source: MidiSource, value: u8, r: bool, after: Pickups) -> bool {
        let s = self.state(source);
        &&& r == presses(source.kind, s.last_in, value)
        &&& source.kind == MidiKind::Note ==> after == self
        &&& source.kind != MidiKind::Note ==> {
            let new = after.states@[first(self.states@, state_is(source))];
            &&& self.becomes(after, source, new)
            &&& same_control(new.source, source)
            &&& new.last_in == Some(value)
            &&& new.engaged == s.engaged
            &&& new.last_written == s.last_written
            &&& after.state(source).last_in == Some(value)
        }
    }

    /// Whether this event counts as a button press. Notes always do (note-offs
    /// never reach this layer); CC buttons act once per rising edge through the
    /// midpoint, so momentary pads sending 127/0 toggle cleanly and a swept
    /// knob toggles only once.
    pub fn pressed(&mut self, source: &MidiSource, value: u8) -> (r: bool)
        ensures
            old(self).pressed_by(*source, value, r, *final(self)),
            old(self).wf() ==> final(self).wf(),
    {
        if source.kind == MidiKind::Note {
            return true;
        }
        let i = self.find(source);
        let ghost before = self.states@;
        let mut low = true;
        if i < self.states.len() {
            let s = &mut self.states[i];
            low = match s.last_in {
                Some(v) => v < 64,
                None => true,
            };
            s.last_in = Some(value);
        } else {
            self.states.push(
                PickupState {
                    source: copy_source(source),
                    engaged: false,
                    last_in: Some(value),
                    last_written: None,
                },
            );
        }
        proof {
            first_is_least(before, state_is(*source));
            assert forall|j: int| 0 <= j < i implies !state_is(*source)(#[trigger] self.states@[j]) by {
                assert(!state_is(*source)(before[j]));
            }
            first_is_at(self.states@, state_is(*source), i as int);
        }
        value >= 64 && low
    }
}

/// A copy of a control's identity.
pub fn copy_source(s: &MidiSource) -> (r: MidiSource)
    ensures
        r == *s,
{
    MidiSource { device: s.device.clone(), channel: s.channel, kind: s.kind, number: s.number }
}

/// Whether a value counts as a press: notes always do, a continuous control
/// when it rises through the midpoint.
pub open spec fn presses(kind: MidiKind, last_in: Option<u8>, value: u8) -> bool {
    kind == MidiKind::Note || (value >= 64 && (last_in is None || last_in->0 < 64))
}

/// A knob swept above the midpoint presses once, and a pad that sends its high
/// value after its low one presses every time.
pub proof fn presses_on_rising_edges(last_in: Option<u8>, first: u8, second: u8)
    ensures
        first >= 64 ==> !presses(MidiKind::Cc, Some(first), second),
        first < 64 && second >= 64 ==> presses(MidiKind::Cc, Some(first), second),
        second < 64 ==> !presses(MidiKind::Cc, last_in, second),
{
}

/// A fader that is not engaged takes effect only by meeting its target.
pub proof fn pickup_never_jumps(s: PickupState, t: FaderTests)
    requires
        !s.engaged || t.drifted,
        engages(s, t),
    ensures
        t.near || t.crossed,
{
}

// ---- Learning ---------------------------------------------------------------

/// Whether a control can be bound to a target: volumes need a continuous
/// control, and only note pads can be lit.
pub open spec fn suits(target: MidiTarget, kind: MidiKind) -> bool {
    match target {
        MidiTarget::ChannelVolume { .. } => kind != MidiKind::Note,
        MidiTarget::MasterVolume { .. } => kind != MidiKind::Note,
        MidiTarget::ChannelColor { .. } => kind == MidiKind::Note,
        _ => true,
    }
}

/// What touching a control makes of a dialog that waits for one.
pub open spec fn learnt(cfg: Config, req: LearnRequest, source: MidiSource, r: bool, new: Config) -> bool {
    &&& r == suits(req.target, source.kind)
    &&& !r ==> new == cfg
    &&& r ==> {
        let b = MidiBinding { source: source, target: req.target };
        &&& cfg.midi.binds_to(req.profile, b, new.midi)
        &&& new == (Config { midi: new.midi, ..cfg })
    }
}

/// Bind the control that a dialog was waiting for. Controls that do not suit
/// the target are ignored instead of mis-bound. Says whether it was bound; the
/// request is then done.
pub fn learn_capture(cfg: &mut Config, req: LearnRequest, source: &MidiSource) -> (r: bool)
    ensures
        learnt(*old(cfg), req, *source, r, *final(cfg)),
        old(cfg).midi.wf() ==> final(cfg).midi.wf(),
        old(cfg).midi.one_to_one() ==> final(cfg).midi.one_to_one(),
{
    let ok = match req.target {
        MidiTarget::ChannelVolume { .. } => source.kind != MidiKind::Note,
        MidiTarget::MasterVolume { .. } => source.kind != MidiKind::Note,
        MidiTarget::ChannelColor { .. } => source.kind == MidiKind::Note,
        _ => true,
    };
    if !ok {
        return false;
    }
    let b = MidiBinding { source: copy_source(source), target: req.target };
    cfg.midi.bind(req.profile, b);
    true
}

/// The bindings among which a target's stands: the global ones, or those of the
/// active profile.
pub open spec fn list_for(m: MidiConfig, target: MidiTarget) -> Seq<MidiBinding> {
    if target is SelectProfile {
        m.global_bindings@
    } else {
        m.profiles@[m.active_position()].bindings@
    }
}

/// Whether a target has a control.
pub open spec fn target_bound(m: MidiConfig, target: MidiTarget) -> bool {
    exists|i: int|
        0 <= i < list_for(m, target).len() && (#[trigger] list_for(m, target)[i]).target == target
}

/// Whether a target has a control that could be removed.
pub fn is_bound(m: &MidiConfig, target: &MidiTarget) -> (r: bool)
    requires
        m.profiles@.len() > 0,
    ensures
        r == target_bound(*m, *target),
{
    let list = if let MidiTarget::SelectProfile { .. } = *target {
        &m.global_bindings
    } else {
        &m.active().bindings
    };
    let mut i: usize = 0;
    while i < list.len()
        invariant
            i <= list@.len(),
            list@ == list_for(*m, *target),
            forall|j: int| 0 <= j < i ==> (#[trigger] list_for(*m, *target)[j]).target != *target,
        decreases list@.len() - i,
    {
        if list[i].target == *target {
            assert(list_for(*m, *target)[i as int].target == *target);
            return true;
        }
        i = i + 1;
    }
    false
}

// ---- Pads -------------------------------------------------------------------

/// A pad and the velocity it shows.
#[derive(Clone, Debug, PartialEq, Eq)]
pub struct Led {
    pub device: String,
    pub channel: u8,
    pub note: u8,
    pub velocity: u8,
}

/// A pad as plain values.
pub struct PadView {
    pub device: Seq<char>,
    pub channel: u8,
    pub note: u8,
}

impl Led {
    /// Which pad it is.
    pub open spec fn pad(self) -> PadView {
        PadView { device: self.device@, channel: self.channel, note: self.note }
    }

    fn same_pad(&self, other: &Led) -> (r: bool)
        ensures
            r == (self.pad() == other.pad()),
    {
        self.channel == other.channel && self.note == other.note && text::same(
            self.device.as_str(),
            other.device.as_str(),
        )
    }

    /// The pad at another velocity.
    fn at(&self, velocity: u8) -> (r: Led)
        ensures
            r.pad() == self.pad(),
            r.velocity == velocity,
    {
        Led { device: self.device.clone(), channel: self.channel, note: self.note, velocity }
    }
}

/// The entry of a pad.
pub open spec fn pad_is(pad: PadView) -> spec_fn(Led) -> bool {
    |l: Led| l.pad() == pad
}

/// What a pad shows.
pub open spec fn shown(s: Seq<Led>, pad: PadView) -> Option<u8> {
    let i = first(s, pad_is(pad));
    if i < s.len() {
        Some(s[i].velocity)
    } else {
        None
    }
}

/// Whether no pad has two entries.
pub open spec fn pads_distinct(s: Seq<Led>) -> bool {
    forall|i: int, j: int| 0 <= i < j < s.len() ==> (#[trigger] s[i]).pad() != (#[trigger] s[j]).pad()
}

/// The velocity of a color in the pad palette: the entry nearest to it.
pub open spec fn is_nearest(v: u8, c: (u8, u8, u8)) -> bool {
    &&& v < 128
    &&& forall|j: int|
        0 <= j < 128 ==> midi::color_distance(PAD_PALETTE[v as int], c.0, c.1, c.2) <= midi::color_distance(
            #[trigger] PAD_PALETTE[j],
            c.0,
            c.1,
            c.2,
        )
    &&& forall|j: int|
        0 <= j < v ==> midi::color_distance(PAD_PALETTE[v as int], c.0, c.1, c.2) < midi::color_distance(
            #[trigger] PAD_PALETTE[j],
            c.0,
            c.1,
            c.2,
        )
}

/// The palette entry nearest to a color.
pub open spec fn nearest(c: (u8, u8, u8)) -> u8 {
    choose|v: u8| is_nearest(v, c)
}

/// There is one nearest entry.
proof fn nearest_is_unique(v: u8, c: (u8, u8, u8))
    requires
        is_nearest(v, c),
    ensures
        v == nearest(c),
{
    let n = nearest(c);
    assert(is_nearest(n, c));
    if v < n {
        assert(midi::color_distance(PAD_PALETTE[n as int], c.0, c.1, c.2) < midi::color_distance(
            PAD_PALETTE[v as int],
            c.0,
            c.1,
            c.2,
        ));
    } else if n < v {
        assert(midi::color_distance(PAD_PALETTE[v as int], c.0, c.1, c.2) < midi::color_distance(
            PAD_PALETTE[n as int],
            c.0,
            c.1,
            c.2,
        ));
    }
}

/// The velocity for a state that is on or off.
pub open spec fn lit(m: MidiConfig, on: bool) -> u8 {
    if on {
        m.on_velocity
    } else {
        m.off_velocity
    }
}

/// What the pad of a binding is to show. Only note pads can be lit; VOD pads
/// are left out while the VOD mix is disabled, and so are pads of missing
/// channels.
pub open spec fn velocity_for(cfg: Config, b: MidiBinding) -> Option<u8> {
    if b.source.kind != MidiKind::Note {
        None
    } else {
        match b.target {
            MidiTarget::ChannelMute { id, mix } => if is_inert(cfg, mix) || !cfg.has_channel(id) {
                None
            } else {
                Some(lit(cfg.midi, muted_in(the_channel(cfg, id), mix)))
            },
            MidiTarget::MasterMute { mix } => if is_inert(cfg, mix) {
                None
            } else {
                Some(lit(cfg.midi, master_muted(cfg.master, mix)))
            },
            MidiTarget::SelectProfile { profile } => Some(lit(cfg.midi, profile == cfg.midi.active_profile)),
            MidiTarget::ChannelColor { id } => if !cfg.has_channel(id) {
                None
            } else {
                match the_channel(cfg, id).rgb() {
                    Some(c) => Some(nearest(c)),
                    None => Some(cfg.midi.off_velocity),
                }
            },
            _ => None,
        }
    }
}

/// What a pad is to show by the first `n` bindings; a later binding of the same
/// pad counts.
pub open spec fn wanted(cfg: Config, s: Seq<MidiBinding>, pad: PadView, n: int) -> Option<u8>
    decreases n,
{
    if n <= 0 {
        None
    } else {
        let b = s[n - 1];
        if velocity_for(cfg, b) is Some && (PadView {
            device: b.source.device@,
            channel: b.source.channel,
            note: b.source.number,
        }) == pad {
            velocity_for(cfg, b)
        } else {
            wanted(cfg, s, pad, n - 1)
        }
    }
}

/// What a pad is to show.
pub open spec fn desired(cfg: Config, pad: PadView) -> Option<u8> {
    let s = live_bindings(cfg.midi);
    if cfg.midi.led_feedback {
        wanted(cfg, s, pad, s.len() as int)
    } else {
        None
    }
}

/// What the pad of a binding is to show.
fn pad_velocity(cfg: &Config, b: &MidiBinding) -> (r: Option<u8>)
    ensures
        r == velocity_for(*cfg, *b),
{
    if b.source.kind != MidiKind::Note {
        return None;
    }
    let on: u8 = cfg.midi.on_velocity;
    let off: u8 = cfg.midi.off_velocity;
    match b.target {
        MidiTarget::ChannelMute { id, mix } => {
            if mix == Mix::Vod && !cfg.vod_mix_enabled {
                return None;
            }
            match cfg.channel(id) {
                Some(c) => if control::channel_muted(c, mix) {
                    Some(on)
                } else {
                    Some(off)
                },
                None => None,
            }
        },
        MidiTarget::MasterMute { mix } => {
            if mix == Mix::Vod && !cfg.vod_mix_enabled {
                return None;
            }
            if control::mix_muted(&cfg.master, mix) {
                Some(on)
            } else {
                Some(off)
            }
        },
        MidiTarget::SelectProfile { profile } => if profile == cfg.midi.active_profile {
            Some(on)
        } else {
            Some(off)
        },
        MidiTarget::ChannelColor { id } => match cfg.channel(id) {
            Some(c) => match c.color_rgb() {
                Some((r, g, b)) => {
                    let v: u8 = midi::color_velocity(r, g, b);
                    proof {
                        nearest_is_unique(v, (r, g, b));
                    }
                    Some(v)
                },
                None => Some(off),
            },
            None => None,
        },
        _ => None,
    }
}

/// Set what a pad shows.
fn show(s: &mut Vec<Led>, l: Led)
    requires
        pads_distinct(old(s)@),
    ensures
        pads_distinct(final(s)@),
        shown(final(s)@, l.pad()) == Some(l.velocity),
        forall|p: PadView| p != l.pad() ==> #[trigger] shown(final(s)@, p) == shown(old(s)@, p),
{
    let ghost before = s@;
    let ghost pad = l.pad();
    let mut i: usize = 0;
    while i < s.len() && !s[i].same_pad(&l)
        invariant
            i <= s@.len(),
            s@ == before,
            pad == l.pad(),
            forall|j: int| 0 <= j < i ==> !pad_is(pad)(#[trigger] s@[j]),
        decreases s@.len() - i,
    {
        i = i + 1;
    }
    if i < s.len() {
        s[i] = l;
    } else {
        s.push(l);
    }
    proof {
        let after = s@;
        assert forall|j: int| 0 <= j < i implies !pad_is(pad)(#[trigger] after[j]) by {
            assert(!pad_is(pad)(before[j]));
        }
        first_is_at(after, pad_is(pad), i as int);
        assert forall|a: int, b: int| 0 <= a < b < after.len() implies (#[trigger] after[a]).pad() != (
        #[trigger] after[b]).pad() by {
            if a < before.len() && b < before.len() {
                assert(before[a].pad() != before[b].pad());
            } else {
                assert(!pad_is(pad)(after[a]));
            }
        }
        assert forall|p: PadView| p != pad implies #[trigger] shown(after, p) == shown(before, p) by {
            first_is_least(before, pad_is(p));
            let f = first(before, pad_is(p));
            let g = if f == before.len() {
                after.len() as int
            } else {
                f
            };
            assert forall|j: int| 0 <= j < g implies !pad_is(p)(#[trigger] after[j]) by {
                if j < before.len() && j != i {
                    assert(!pad_is(p)(before[j]));
                }
            }
            if f < before.len() {
                assert(pad_is(p)(before[f]));
                if f == i {
                    assert(before[f].pad() == pad);
                }
            }
            first_is_at(after, pad_is(p), g);
        }
    }
}

/// What all pads are to show.
fn desired_leds(cfg: &Config) -> (r: Vec<Led>)
    requires
        cfg.midi.profiles@.len() > 0,
    ensures
        pads_distinct(r@),
        forall|p: PadView| #[trigger] shown(r@, p) == desired(*cfg, p),
{
    let mut out: Vec<Led> = Vec::new();
    assert forall|p: PadView| #[trigger] shown(out@, p) is None by {
        first_is_least(out@, pad_is(p));
    }
    if !cfg.midi.led_feedback {
        return out;
    }
    let ghost s = live_bindings(cfg.midi);
    let active = cfg.midi.active();
    let ghost n = cfg.midi.global_bindings@.len() as int;
    let mut i: usize = 0;
    while i < cfg.midi.global_bindings.len()
        invariant
            i <= n,
            n == cfg.midi.global_bindings@.len(),
            s == live_bindings(cfg.midi),
            pads_distinct(out@),
            forall|p: PadView| #[trigger] shown(out@, p) == wanted(*cfg, s, p, i as int),
        decreases n - i,
    {
        let b = &cfg.midi.global_bindings[i];
        assert(s[i as int] == *b);
        if let Some(velocity) = pad_velocity(cfg, b) {
            show(
                &mut out,
                Led {
                    device: b.source.device.clone(),
                    channel: b.source.channel,
                    note: b.source.number,
                    velocity,
                },
            );
        }
        i = i + 1;
    }
    let mut k: usize = 0;
    while k < active.bindings.len()
        invariant
            n == cfg.midi.global_bindings@.len(),
            s == live_bindings(cfg.midi),
            *active == cfg.midi.profiles@[cfg.midi.active_position()],
            k <= active.bindings@.len(),
            pads_distinct(out@),
            forall|p: PadView| #[trigger] shown(out@, p) == wanted(*cfg, s, p, n + k),
        decreases active.bindings@.len() - k,
    {
        let b = &active.bindings[k];
        assert(s[n + k] == *b);
        if let Some(velocity) = pad_velocity(cfg, b) {
            show(
                &mut out,
                Led {
                    device: b.source.device.clone(),
                    channel: b.source.channel,
                    note: b.source.number,
                    velocity,
                },
            );
        }
        k = k + 1;
    }
    out
}

/// What pads show, as far as it was sent to them.
#[derive(Clone, Debug, PartialEq, Eq)]
pub struct LedCache {
    pub leds: Vec<Led>,
}

/// The pads whose device is still connected.
pub open spec fn on_device(devices: Seq<String>) -> spec_fn(Led) -> bool {
    |l: Led| exists|i: int| 0 <= i < devices.len() && (#[trigger] devices[i])@ == l.device@
}

/// The position of a pad, or the number of pads.
fn find_pad(s: &Vec<Led>, l: &Led) -> (r: usize)
    ensures
        r == first(s@, pad_is(l.pad())),
        r <= s@.len(),
{
    let mut i: usize = 0;
    while i < s.len() && !s[i].same_pad(l)
        invariant
            i <= s@.len(),
            forall|j: int| 0 <= j < i ==> !pad_is(l.pad())(#[trigger] s@[j]),
        decreases s@.len() - i,
    {
        i = i + 1;
    }
    proof {
        first_is_at(s@, pad_is(l.pad()), i as int);
    }
    i
}

impl LedCache {
    /// No pad has been lit.
    pub fn new() -> (r: LedCache)
        ensures
            r.leds@.len() == 0,
    {
        LedCache { leds: Vec::new() }
    }

    /// What brings the pads to what they are to show.
    pub open spec fn pads_refreshed(self, cfg: Config, r: Seq<Led>, new: LedCache) -> bool {
        &&& pads_distinct(new.leds@)
        &&& forall|p: PadView| #[trigger] shown(new.leds@, p) == desired(cfg, p)
        &&& forall|i: int| 0 <= i < r.len() ==> is_change(cfg, self.leds@, #[trigger] r[i])
        &&& forall|p: PadView|
            desired(cfg, p) != shown(self.leds@, p) ==> exists|i: int|
                0 <= i < r.len() && #[trigger] r[i].pad() == p
        &&& pads_distinct(r)
        &&& forall|i: int, j: int|
            0 <= i < j < r.len() && desired(cfg, (#[trigger] r[i]).pad()) is Some ==> desired(
                cfg,
                (#[trigger] r[j]).pad(),
            ) is Some
    }

    /// Push mute / active-profile state to note-bound pads, transmitting only
    /// actual changes. Pads whose binding disappeared (or all of them, when LED
    /// feedback is off) are blanked, before any other is set. Gives what to
    /// send.
    pub fn refresh_leds(&mut self, cfg: &Config) -> (r: Vec<Led>)
        requires
            cfg.midi.profiles@.len() > 0,
            pads_distinct(old(self).leds@),
        ensures
            old(self).pads_refreshed(*cfg, r@, *final(self)),
    {
        let want = desired_leds(cfg);
        let mut out: Vec<Led> = Vec::new();
        let off: u8 = cfg.midi.off_velocity;
        let ghost before = self.leds@;
        let mut i: usize = 0;
        while i < self.leds.len()
            invariant
                i <= self.leds@.len(),
                self.leds@ == before,
                pads_distinct(before),
                off == cfg.midi.off_velocity,
                forall|p: PadView| #[trigger] shown(want@, p) == desired(*cfg, p),
                pads_distinct(out@),
                forall|k: int|
                    0 <= k < out@.len() ==> {
                        let l = #[trigger] out@[k];
                        &&& desired(*cfg, l.pad()) is None
                        &&& l.velocity == off
                        &&& exists|j: int| 0 <= j < i && (#[trigger] before[j]).pad() == l.pad()
                    },
                forall|j: int|
                    0 <= j < i && desired(*cfg, (#[trigger] before[j]).pad()) is None ==> exists|k: int|
                        0 <= k < out@.len() && #[trigger] out@[k].pad() == before[j].pad(),
            decreases self.leds@.len() - i,
        {
            let l = &self.leds[i];
            let ghost was = out@;
            assert(shown(want@, l.pad()) == desired(*cfg, l.pad()));
            if find_pad(&want, l) >= want.len() {
                out.push(l.at(off));
            }
            proof {
                assert forall|k: int| 0 <= k < out@.len() implies ({
                    let l = #[trigger] out@[k];
                    &&& desired(*cfg, l.pad()) is None
                    &&& l.velocity == off
                    &&& exists|j: int| 0 <= j < i + 1 && (#[trigger] before[j]).pad() == l.pad()
                }) by {
                    if k < was.len() {
                        assert(out@[k] == was[k]);
                        let j = choose|j: int| 0 <= j < i && (#[trigger] before[j]).pad() == was[k].pad();
                        assert(before[j].pad() == out@[k].pad());
                    } else {
                        assert(before[i as int].pad() == out@[k].pad());
                    }
                }
                assert forall|a: int, b: int| 0 <= a < b < out@.len() implies (#[trigger] out@[a]).pad() != (
                #[trigger] out@[b]).pad() by {
                    assert(out@[a] == was[a]);
                    if b < was.len() {
                        assert(out@[b] == was[b]);
                    } else {
                        let j = choose|j: int| 0 <= j < i && (#[trigger] before[j]).pad() == was[a].pad();
                        assert(before[j].pad() != before[i as int].pad());
                    }
                }
                assert forall|j: int| 0 <= j < i + 1 && desired(*cfg, (#[trigger] before[j]).pad()) is None implies exists|
                    k: int,
                | 0 <= k < out@.len() && #[trigger] out@[k].pad() == before[j].pad() by {
                    if j < i {
                        let k = choose|k: int| 0 <= k < was.len() && #[trigger] was[k].pad() == before[j].pad();
                        assert(out@[k].pad() == before[j].pad());
                    } else {
                        assert(out@[was.len() as int].pad() == before[j].pad());
                    }
                }
            }
            i = i + 1;
        }
        let ghost dark = out@;
        let mut k: usize = 0;
        while k < want.len()
            invariant
                k <= want@.len(),
                self.leds@ == before,
                pads_distinct(before),
                pads_distinct(want@),
                off == cfg.midi.off_velocity,
                forall|p: PadView| #[trigger] shown(want@, p) == desired(*cfg, p),
                dark.len() <= out@.len(),
                forall|a: int| 0 <= a < dark.len() ==> #[trigger] out@[a] == dark[a],
                pads_distinct(out@),
                forall|a: int|
                    0 <= a < dark.len() ==> {
                        let l = #[trigger] dark[a];
                        &&& desired(*cfg, l.pad()) is None
                        &&& l.velocity == off
                        &&& exists|j: int| 0 <= j < before.len() && (#[trigger] before[j]).pad() == l.pad()
                    },
                forall|a: int|
                    dark.len() <= a < out@.len() ==> {
                        let l = #[trigger] out@[a];
                        &&& desired(*cfg, l.pad()) == Some(l.velocity)
                        &&& shown(before, l.pad()) != Some(l.velocity)
                        &&& exists|j: int| 0 <= j < k && (#[trigger] want@[j]).pad() == l.pad()
                    },
                forall|j: int|
                    0 <= j < k && shown(before, (#[trigger] want@[j]).pad()) != Some(want@[j].velocity)
                        ==> exists|a: int| 0 <= a < out@.len() && #[trigger] out@[a].pad() == want@[j].pad(),
            decreases want@.len() - k,
        {
            let l = &want[k];
            let ghost was = out@;
            proof {
                first_is_at(want@, pad_is(l.pad()), k as int);
                assert(shown(want@, l.pad()) == Some(l.velocity));
            }
            let f = find_pad(&self.leds, l);
            if f >= self.leds.len() || self.leds[f].velocity != l.velocity {
                out.push(l.at(l.velocity));
            }
            proof {
                assert forall|a: int| dark.len() <= a < out@.len() implies ({
                    let l = #[trigger] out@[a];
                    &&& desired(*cfg, l.pad()) == Some(l.velocity)
                    &&& shown(before, l.pad()) != Some(l.velocity)
                    &&& exists|j: int| 0 <= j < k + 1 && (#[trigger] want@[j]).pad() == l.pad()
                }) by {
                    if a < was.len() {
                        assert(out@[a] == was[a]);
                        let j = choose|j: int| 0 <= j < k && (#[trigger] want@[j]).pad() == was[a].pad();
                        assert(want@[j].pad() == out@[a].pad());
                    } else {
                        assert(want@[k as int].pad() == out@[a].pad());
                    }
                }
                assert forall|a: int, b: int| 0 <= a < b < out@.len() implies (#[trigger] out@[a]).pad() != (
                #[trigger] out@[b]).pad() by {
                    assert(out@[a] == was[a]);
                    if b < was.len() {
                        assert(out@[b] == was[b]);
                    } else if a >= dark.len() {
                        let j = choose|j: int| 0 <= j < k && (#[trigger] want@[j]).pad() == was[a].pad();
                        assert(want@[j].pad() != want@[k as int].pad());
                    } else {
                        assert(desired(*cfg, dark[a].pad()) is None);
                    }
                }
                assert forall|j: int|
                    0 <= j < k + 1 && shown(before, (#[trigger] want@[j]).pad()) != Some(want@[j].velocity) implies exists|
                    a: int,
                | 0 <= a < out@.len() && #[trigger] out@[a].pad() == want@[j].pad() by {
                    if j < k {
                        let a = choose|a: int| 0 <= a < was.len() && #[trigger] was[a].pad() == want@[j].pad();
                        assert(out@[a].pad() == want@[j].pad());
                    } else {
                        assert(out@[was.len() as int].pad() == want@[j].pad());
                    }
                }
            }
            k = k + 1;
        }
        proof {
            assert forall|i: int| 0 <= i < out@.len() implies is_change(*cfg, before, #[trigger] out@[i]) by {
                if i < dark.len() {
                    let j = choose|j: int| 0 <= j < before.len() && (#[trigger] before[j]).pad() == dark[i].pad();
                    first_exists(before, pad_is(dark[i].pad()), j);
                    first_is_least(before, pad_is(dark[i].pad()));
                }
            }
            assert forall|p: PadView| desired(*cfg, p) != shown(before, p) implies exists|i: int|
                0 <= i < out@.len() && #[trigger] out@[i].pad() == p by {
                assert(shown(want@, p) == desired(*cfg, p));
                first_is_least(want@, pad_is(p));
                first_is_least(before, pad_is(p));
                let w = first(want@, pad_is(p));
                let b = first(before, pad_is(p));
                if w < want@.len() {
                    assert(want@[w].pad() == p);
                    let a = choose|a: int| 0 <= a < out@.len() && #[trigger] out@[a].pad() == want@[w].pad();
                    assert(out@[a].pad() == p);
                } else {
                    assert(before[b].pad() == p);
                    let a = choose|a: int| 0 <= a < dark.len() && #[trigger] dark[a].pad() == before[b].pad();
                    assert(out@[a].pad() == p);
                }
            }
        }
        self.leds = want;
        out
    }

    /// What is left of the pads when devices are gone.
    pub open spec fn forgotten(self, devices: Seq<String>, new: LedCache) -> bool {
        new.leds@ == self.leds@.filter(on_device(devices))
    }

    /// Controllers changed: forget what a replugged one was showing, so that
    /// its pads are fully sent again.
    pub fn forget_missing(&mut self, devices: &Vec<String>)
        ensures
            old(self).forgotten(devices@, *final(self)),
            pads_distinct(old(self).leds@) ==> pads_distinct(final(self).leds@),
    {
        let keep = |l: &Led| -> (k: bool)
            ensures
                k == on_device(devices@)(*l),
        { device_listed(devices, l.device.as_str()) };
        retain(&mut self.leds, keep, Ghost(on_device(devices@)));
        proof {
            let s = old(self).leds@;
            let f = crate::list::filter_positions(s, on_device(devices@));
            if pads_distinct(s) {
                assert forall|i: int, j: int| 0 <= i < j < self.leds@.len() implies (#[trigger] self.leds@[i]).pad()
                    != (#[trigger] self.leds@[j]).pad() by {
                    assert(f[i] < f[j]);
                    assert(s[f[i]] == self.leds@[i] && s[f[j]] == self.leds@[j]);
                }
            }
        }
    }

    /// What switches every pad off.
    pub open spec fn blanked(self, off: u8, r: Seq<Led>, new: LedCache) -> bool {
        &&& new.leds@.len() == 0
        &&& r.len() == self.leds@.len()
        &&& forall|i: int|
            0 <= i < r.len() ==> (#[trigger] r[i]).pad() == self.leds@[i].pad() && r[i].velocity
                == off
    }

    /// Leave controller pads dark instead of frozen at the last state. Gives
    /// what to send; nothing counts as lit afterwards.
    pub fn blank_all(&mut self, off: u8) -> (r: Vec<Led>)
        ensures
            old(self).blanked(off, r@, *final(self)),
    {
        let mut out: Vec<Led> = Vec::new();
        let mut i: usize = 0;
        while i < self.leds.len()
            invariant
                i <= self.leds@.len(),
                *self == *old(self),
                out@.len() == i,
                forall|j: int|
                    0 <= j < i ==> (#[trigger] out@[j]).pad() == self.leds@[j].pad() && out@[j].velocity == off,
            decreases self.leds@.len() - i,
        {
            out.push(self.leds[i].at(off));
            i = i + 1;
        }
        self.leds = Vec::new();
        out
    }
}

/// Whether sending a pad's state is warranted: it differs from what the pad
/// shows, or the pad is to go dark.
pub open spec fn is_change(cfg: Config, before: Seq<Led>, l: Led) -> bool {
    match desired(cfg, l.pad()) {
        Some(v) => l.velocity == v && shown(before, l.pad()) != Some(v),
        None => l.velocity == cfg.midi.off_velocity && shown(before, l.pad()) is Some,
    }
}

/// Once pads show what is desired, there is nothing to send.
pub proof fn settled_pads_are_quiet(cfg: Config, before: Seq<Led>, l: Led)
    requires
        forall|p: PadView| #[trigger] shown(before, p) == desired(cfg, p),
    ensures
        !is_change(cfg, before, l),
{
    assert(shown(before, l.pad()) == desired(cfg, l.pad()));
}

/// Whether a device is among some.
fn device_listed(devices: &Vec<String>, name: &str) -> (r: bool)
    ensures
        r == exists|i: int| 0 <= i < devices@.len() && (#[trigger] devices@[i])@ == name@,
{
    let mut i: usize = 0;
    while i < devices.len()
        invariant
            i <= devices@.len(),
            forall|j: int| 0 <= j < i ==> (#[trigger] devices@[j])@ != name@,
        decreases devices@.len() - i,
    {
        if text::same(devices[i].as_str(), name) {
            return true;
        }
        i = i + 1;
    }
    false
}

/// After a control is bound to a profile switch, it switches the profile.
pub proof fn bound_pad_selects(before: MidiConfig, profile: u64, b: MidiBinding, after: MidiConfig)
    requires
        b.target is SelectProfile,
        before.binds_to(profile, b, after),
    ensures
        target_of(after, b.source) == Some(b.target),
{
    let kept = before.global_bindings@.filter(beside(b));
    crate::list::filter_keeps(before.global_bindings@, beside(b));
    let s = live_bindings(after);
    let n = kept.len() as int;
    assert(s[n] == b);
    assert forall|j: int| 0 <= j < n implies !binds(b.source)(#[trigger] s[j]) by {
        assert(s[j] == kept[j]);
    }
    first_is_at(s, binds(b.source), n);
}

/// After a control is bound in the active profile, it drives its target, unless
/// it is also a pad that switches profiles.
pub proof fn bound_control_drives(before: MidiConfig, b: MidiBinding, after: MidiConfig)
    requires
        before.wf(),
        !(b.target is SelectProfile),
        before.binds_to(before.active_profile, b, after),
        forall|i: int|
            0 <= i < before.global_bindings@.len() ==> !same_control(
                (#[trigger] before.global_bindings@[i]).source,
                b.source,
            ),
    ensures
        target_of(after, b.source) == Some(b.target),
{
    let id = before.active_profile;
    let p = before.position(id);
    first_is_least(before.profiles@, profile_is(id));
    let k = choose|k: int| 0 <= k < before.profiles@.len() && (#[trigger] before.profiles@[k]).id == id;
    first_exists(before.profiles@, profile_is(id), k);
    assert forall|j: int| 0 <= j < p implies !profile_is(id)(#[trigger] after.profiles@[j]) by {
        assert(!profile_is(id)(before.profiles@[j]));
    }
    first_is_at(after.profiles@, profile_is(id), p);
    assert(after.active_position() == p);
    let g = before.global_bindings@;
    let kept = before.profiles@[p].bindings@.filter(beside(b));
    crate::list::filter_keeps(before.profiles@[p].bindings@, beside(b));
    let s = live_bindings(after);
    let n = (g.len() + kept.len()) as int;
    assert(s[n] == b);
    assert forall|j: int| 0 <= j < n implies !binds(b.source)(#[trigger] s[j]) by {
        if j < g.len() {
            assert(s[j] == g[j]);
        } else {
            assert(s[j] == kept[j - g.len()]);
        }
    }
    first_is_at(s, binds(b.source), n);
}

/// After the control of a target is removed, the target has none.
pub proof fn unbinding_frees_the_target(before: MidiConfig, target: MidiTarget, after: MidiConfig)
    requires
        before.wf(),
        before.frees(before.active_profile, target, after),
    ensures
        !target_bound(after, target),
{
    let id = before.active_profile;
    let p = before.position(id);
    first_is_least(before.profiles@, profile_is(id));
    let k = choose|k: int| 0 <= k < before.profiles@.len() && (#[trigger] before.profiles@[k]).id == id;
    first_exists(before.profiles@, profile_is(id), k);
    assert forall|j: int| 0 <= j < p implies !profile_is(id)(#[trigger] after.profiles@[j]) by {
        assert(!profile_is(id)(before.profiles@[j]));
    }
    first_is_at(after.profiles@, profile_is(id), p);
    crate::list::filter_keeps(list_for(before, target), drives_other(target));
    assert(list_for(after, target) == list_for(before, target).filter(drives_other(target)));
}

// ---- What controls do -------------------------------------------------------

/// A control does what its target says: faders move volumes, buttons toggle the
/// mute or select the profile they are bound to, and color pads do nothing.
pub proof fn controls_do_what_they_are_bound_to(id: u64, mix: Mix, profile: u64, v: Level)
    ensures
        use_of(MidiTarget::ChannelVolume { id, mix }) is Fader,
        use_of(MidiTarget::MasterVolume { mix }) is Fader,
        use_of(MidiTarget::ChannelVolume { id, mix })->Fader_0 == (MidiTarget::ChannelVolume { id, mix }),
        use_of(MidiTarget::MasterVolume { mix })->Fader_0 == (MidiTarget::MasterVolume { mix }),
        use_of(MidiTarget::ChannelMute { id, mix }) == Dispatch::Button(
            ControlAction::SetChannelMute { id, mix, muted: None },
        ),
        use_of(MidiTarget::MasterMute { mix }) == Dispatch::Button(
            ControlAction::SetMasterMute { mix, muted: None },
        ),
        use_of(MidiTarget::SelectProfile { profile }) == Dispatch::Button(
            ControlAction::SelectMidiProfile { id: profile },
        ),
        use_of(MidiTarget::ChannelColor { id }) is Ignore,
        moved_by(MidiTarget::ChannelVolume { id, mix }, v) == Some(
            ControlAction::SetChannelVolume { id, mix, value: v },
        ),
        moved_by(MidiTarget::MasterVolume { mix }, v) == Some(ControlAction::SetMasterVolume { mix, value: v }),
        moved_by(MidiTarget::ChannelMute { id, mix }, v) is None,
{
}

/// A control drives what the pads for every profile say first, and then what the
/// active profile says; one that is bound nowhere there drives nothing.
pub proof fn pads_come_before_the_profile(m: MidiConfig, source: MidiSource, i: int)
    ensures
        0 <= i < m.global_bindings@.len() && same_control(m.global_bindings@[i].source, source) && (forall|j: int|
            0 <= j < i ==> !same_control((#[trigger] m.global_bindings@[j]).source, source)) ==> target_of(m, source)
            == Some(m.global_bindings@[i].target),
        ({
            let b = m.profiles@[m.active_position()].bindings@;
            0 <= i < b.len() && same_control(b[i].source, source) && (forall|j: int|
                0 <= j < i ==> !same_control((#[trigger] b[j]).source, source)) && (forall|j: int|
                0 <= j < m.global_bindings@.len() ==> !same_control((#[trigger] m.global_bindings@[j]).source, source))
                ==> target_of(m, source) == Some(b[i].target)
        }),
        target_of(m, source) is Some ==> exists|k: int|
            0 <= k < live_bindings(m).len() && same_control((#[trigger] live_bindings(m)[k]).source, source)
                && target_of(m, source) == Some(live_bindings(m)[k].target),
{
    let g = m.global_bindings@;
    let b = m.profiles@[m.active_position()].bindings@;
    let s = live_bindings(m);
    let p = binds(source);
    first_is_least(s, p);
    if 0 <= i < g.len() && same_control(g[i].source, source) && (forall|j: int|
        0 <= j < i ==> !same_control((#[trigger] g[j]).source, source)) {
        assert(s[i] == g[i]);
        assert forall|j: int| 0 <= j < i implies !p(#[trigger] s[j]) by {
            assert(s[j] == g[j]);
        }
        first_is_at(s, p, i);
    }
    if 0 <= i < b.len() && same_control(b[i].source, source) && (forall|j: int|
        0 <= j < i ==> !same_control((#[trigger] b[j]).source, source)) && (forall|j: int|
        0 <= j < g.len() ==> !same_control((#[trigger] g[j]).source, source)) {
        let k = g.len() + i;
        assert(s[k] == b[i]);
        assert forall|j: int| 0 <= j < k implies !p(#[trigger] s[j]) by {
            if j < g.len() {
                assert(s[j] == g[j]);
            } else {
                assert(s[j] == b[j - g.len()]);
            }
        }
        first_is_at(s, p, k);
    }
}

/// A fader is compared with the level it would move: that of its own channel and
/// mix, or of its own master. A pad is no fader.
pub proof fn faders_meet_their_own_level(cfg: Config, source: MidiSource, id: u64)
    requires
        cfg.has_channel(id),
        source.kind == MidiKind::Cc,
    ensures
        ({
            let c = cfg.channels@[cfg.position(id)];
            &&& fader_level(cfg, source, MidiTarget::ChannelVolume { id, mix: Mix::Monitor }) == Some(
                c.monitor_volume,
            )
            &&& fader_level(cfg, source, MidiTarget::ChannelVolume { id, mix: Mix::Stream }) == Some(
                c.stream_volume,
            )
            &&& fader_level(cfg, source, MidiTarget::ChannelVolume { id, mix: Mix::Vod }) == Some(c.vod_volume)
            &&& fader_level(cfg, source, MidiTarget::MasterVolume { mix: Mix::Monitor }) == Some(
                cfg.master.monitor_volume,
            )
            &&& fader_level(cfg, source, MidiTarget::MasterVolume { mix: Mix::Stream }) == Some(
                cfg.master.stream_volume,
            )
            &&& fader_level(cfg, source, MidiTarget::MasterVolume { mix: Mix::Vod }) == Some(
                cfg.master.vod_volume,
            )
        }),
        fader_level(cfg, MidiSource { kind: MidiKind::Note, ..source }, MidiTarget::MasterVolume { mix: Mix::Vod })
            is None,
{
}

/// Pickup: a fader that meets its target takes over and keeps control until
/// something else moves the target; until it does, it is swallowed. Without
/// pickup every value takes effect.
pub proof fn faders_take_over_and_let_go(
    p: Pickups,
    enabled: bool,
    source: MidiSource,
    value: u8,
    t: FaderTests,
    r: bool,
    new: Pickups,
)
    requires
        p.picked_up(enabled, source, value, t, r, new),
    ensures
        !enabled ==> r,
        t.near ==> r,
        t.crossed && p.state(source).last_in is Some ==> r,
        enabled && p.state(source).engaged && !t.drifted ==> r,
        enabled && (!p.state(source).engaged || t.drifted) && !t.near && !t.crossed ==> !r,
        enabled && !p.state(source).engaged && p.state(source).last_in is None && !t.near ==> !r,
        enabled ==> new.state(source).engaged == r && new.state(source).last_in == Some(value),
        enabled && r ==> new.state(source).last_written == Some(value),
        enabled && !r ==> new.state(source).last_written == p.state(source).last_written,
        !enabled ==> new == p,
        forall|other: MidiSource|
            !same_control(other, source) ==> #[trigger] new.state(other).engaged == p.state(other).engaged,
{
    let i = first(p.states@, state_is(source));
    first_is_least(p.states@, state_is(source));
    if enabled {
        let s = new.states@[i];
        assert forall|j: int| 0 <= j < i implies !state_is(source)(#[trigger] new.states@[j]) by {
            assert(!state_is(source)(p.states@[j]));
        }
        first_is_at(new.states@, state_is(source), i);
        assert forall|other: MidiSource| !same_control(other, source) implies #[trigger] new.state(other).engaged
            == p.state(other).engaged by {
            let q = state_is(other);
            let k = first(p.states@, q);
            first_is_least(p.states@, q);
            assert(!q(s));
            assert forall|j: int| 0 <= j < k && j < new.states@.len() implies !q(#[trigger] new.states@[j]) by {
                if j != i {
                    assert(!q(p.states@[j]));
                }
            }
            if k < p.states@.len() {
                assert(k != i);
                first_is_at(new.states@, q, k);
            } else {
                first_is_at(new.states@, q, new.states@.len() as int);
            }
        }
    }
}

/// Notes are presses; a continuous control presses on the first high value.
pub proof fn pads_press(last_in: Option<u8>, value: u8)
    ensures
        presses(MidiKind::Note, last_in, value),
        value >= 64 ==> presses(MidiKind::Cc, None, value),
        presses(MidiKind::Cc, last_in, value) ==> value >= 64,
{
}

/// Volumes are bound to faders, colors to pads, and everything else to either.
pub proof fn controls_suit_their_targets(id: u64, mix: Mix, profile: u64, kind: MidiKind)
    ensures
        suits(MidiTarget::ChannelVolume { id, mix }, kind) <==> kind == MidiKind::Cc,
        suits(MidiTarget::MasterVolume { mix }, kind) <==> kind == MidiKind::Cc,
        suits(MidiTarget::ChannelColor { id }, kind) <==> kind == MidiKind::Note,
        suits(MidiTarget::ChannelMute { id, mix }, kind),
        suits(MidiTarget::MasterMute { mix }, kind),
        suits(MidiTarget::SelectProfile { profile }, kind),
{
}

/// A pad shows the state of what it is bound to: lit while its channel or mix is
/// muted there, or its profile is the active one. What does not exist, and the
/// VOD mix while it is disabled, shows nothing; neither does a control that is
/// no pad.
pub proof fn pads_show_what_they_are_bound_to(cfg: Config, source: MidiSource, id: u64, mix: Mix, profile: u64)
    requires
        source.kind == MidiKind::Note,
    ensures
        ({
            let v = |t: MidiTarget| velocity_for(cfg, MidiBinding { source, target: t });
            let c = cfg.channels@[cfg.position(id)];
            let (on, off) = (cfg.midi.on_velocity, cfg.midi.off_velocity);
            let pick = |b: bool|
                if b {
                    on
                } else {
                    off
                };
            &&& v(MidiTarget::MasterMute { mix: Mix::Monitor }) == Some(pick(cfg.master.monitor_muted))
            &&& v(MidiTarget::MasterMute { mix: Mix::Stream }) == Some(pick(cfg.master.stream_muted))
            &&& cfg.vod_mix_enabled ==> v(MidiTarget::MasterMute { mix: Mix::Vod }) == Some(
                pick(cfg.master.vod_muted),
            )
            &&& !cfg.vod_mix_enabled ==> v(MidiTarget::MasterMute { mix: Mix::Vod }) is None
            &&& !cfg.vod_mix_enabled ==> v(MidiTarget::ChannelMute { id, mix: Mix::Vod }) is None
            &&& cfg.has_channel(id) ==> v(MidiTarget::ChannelMute { id, mix: Mix::Monitor }) == Some(
                pick(c.monitor_muted),
            )
            &&& cfg.has_channel(id) ==> v(MidiTarget::ChannelMute { id, mix: Mix::Stream }) == Some(
                pick(c.stream_muted),
            )
            &&& cfg.has_channel(id) && cfg.vod_mix_enabled ==> v(MidiTarget::ChannelMute { id, mix: Mix::Vod })
                == Some(pick(c.vod_muted))
            &&& !cfg.has_channel(id) ==> v(MidiTarget::ChannelMute { id, mix }) is None
            &&& !cfg.has_channel(id) ==> v(MidiTarget::ChannelColor { id }) is None
            &&& v(MidiTarget::SelectProfile { profile }) == Some(pick(profile == cfg.midi.active_profile))
            &&& cfg.has_channel(id) && c.color is None ==> v(MidiTarget::ChannelColor { id }) == Some(off)
            &&& v(MidiTarget::ChannelVolume { id, mix }) is None
            &&& v(MidiTarget::MasterVolume { mix }) is None
            &&& velocity_for(
                cfg,
                MidiBinding {
                    source: MidiSource { kind: MidiKind::Cc, ..source },
                    target: MidiTarget::SelectProfile { profile },
                },
            ) is None
        }),
{
}

/// A pad that one live binding lights shows what that binding says; without LED
/// feedback no pad shows anything.
pub proof fn pads_follow_their_binding(cfg: Config, i: int)
    requires
        0 <= i < live_bindings(cfg.midi).len(),
        velocity_for(cfg, live_bindings(cfg.midi)[i]) is Some,
        forall|j: int|
            i < j < live_bindings(cfg.midi).len() ==> !same_control(
                (#[trigger] live_bindings(cfg.midi)[j]).source,
                live_bindings(cfg.midi)[i].source,
            ),
    ensures
        ({
            let b = live_bindings(cfg.midi)[i];
            let pad = PadView {
                device: b.source.device@,
                channel: b.source.channel,
                note: b.source.number,
            };
            &&& cfg.midi.led_feedback ==> desired(cfg, pad) == velocity_for(cfg, b)
            &&& !cfg.midi.led_feedback ==> desired(cfg, pad) is None
        }),
{
    let s = live_bindings(cfg.midi);
    let b = s[i];
    let pad = PadView { device: b.source.device@, channel: b.source.channel, note: b.source.number };
    later_bindings_do_not_matter(cfg, s, pad, i + 1, s.len() as int, b);
}

/// Bindings of other controls do not change what a pad shows.
proof fn later_bindings_do_not_matter(cfg: Config, s: Seq<MidiBinding>, pad: PadView, k: int, n: int, b: MidiBinding)
    requires
        0 <= k <= n <= s.len(),
        pad == (PadView { device: b.source.device@, channel: b.source.channel, note: b.source.number }),
        velocity_for(cfg, b) is Some,
        forall|j: int| k <= j < s.len() ==> !same_control((#[trigger] s[j]).source, b.source),
    ensures
        wanted(cfg, s, pad, n) == wanted(cfg, s, pad, k),
    decreases n - k,
{
    if k < n {
        later_bindings_do_not_matter(cfg, s, pad, k, n - 1, b);
        let x = s[n - 1];
        assert(!same_control(x.source, b.source));
    }
}

/// While a dialog waits for a control, what is touched is learnt and moves
/// nothing. Else a control does what it is bound to, and an unbound one nothing.
pub proof fn touched_controls_are_dispatched(cfg: Config, learning: bool, source: MidiSource, r: Dispatch)
    requires
        dispatched(cfg, learning, source, r),
    ensures
        learning <==> r is Learn,
        !learning && target_of(cfg.midi, source) is None ==> r is Ignore,
        !learning && target_of(cfg.midi, source) is Some ==> r == use_of(target_of(cfg.midi, source)->0),
{
}

/// A pad presses each time it is hit. Any other control presses when its value
/// comes up to the upper half, and is remembered for the next time; whether it is
/// engaged does not change, and no other control is touched.
pub proof fn buttons_press_on_the_way_up(p: Pickups, source: MidiSource, value: u8, r: bool, q: Pickups)
    requires
        p.pressed_by(source, value, r, q),
    ensures
        source.kind == MidiKind::Note ==> r && q == p,
        source.kind != MidiKind::Note ==> {
            let last = p.state(source).last_in;
            &&& r <==> value >= 64 && (last is None || last->0 < 64)
            &&& q.state(source).last_in == Some(value)
        },
{
}

/// A control is bound where it suits what was asked for, in the profile that was
/// asked for; else nothing changes and the dialog goes on waiting. Either way only
/// bindings change.
pub proof fn learning_binds_what_suits(cfg: Config, req: LearnRequest, source: MidiSource, r: bool, new: Config)
    requires
        learnt(cfg, req, source, r, new),
    ensures
        (req.target is ChannelVolume || req.target is MasterVolume) ==> r == (source.kind != MidiKind::Note),
        req.target is ChannelColor ==> r == (source.kind == MidiKind::Note),
        (req.target is ChannelMute || req.target is MasterMute || req.target is SelectProfile) ==> r,
        !r ==> new == cfg,
        new.channels == cfg.channels && new.master == cfg.master,
        r && req.target is SelectProfile ==> new.midi.global_bindings@.contains(
            MidiBinding { source, target: req.target },
        ) && new.midi.profiles == cfg.midi.profiles,
        r && !(req.target is SelectProfile) && cfg.midi.has_profile(req.profile) ==> new.midi.profiles@[cfg.midi.position(
            req.profile,
        )].bindings@.contains(MidiBinding { source, target: req.target }) && new.midi.global_bindings
            == cfg.midi.global_bindings,
{
    let b = MidiBinding { source, target: req.target };
    if r {
        if req.target is SelectProfile {
            assert(new.midi.global_bindings@.last() == b);
        } else if cfg.midi.has_profile(req.profile) {
            assert(new.midi.profiles@[cfg.midi.position(req.profile)].bindings@.last() == b);
        }
    }
}

/// After a refresh every pad shows what it is to show, and a second refresh sends
/// nothing.
pub proof fn refreshing_twice_sends_nothing(a: LedCache, cfg: Config, r: Seq<Led>, b: LedCache, s: Seq<Led>, c: LedCache)
    requires
        a.pads_refreshed(cfg, r, b),
        b.pads_refreshed(cfg, s, c),
    ensures
        s.len() == 0,
        forall|p: PadView| #[trigger] shown(b.leds@, p) == desired(cfg, p),
        forall|p: PadView| #[trigger]
            desired(cfg, p) != shown(a.leds@, p) ==> exists|i: int| 0 <= i < r.len() && #[trigger] r[i].pad() == p,
        forall|i: int|
            0 <= i < r.len() ==> desired(cfg, (#[trigger] r[i]).pad()) != shown(a.leds@, r[i].pad()),
        forall|i: int|
            0 <= i < r.len() && desired(cfg, (#[trigger] r[i]).pad()) is Some ==> Some(r[i].velocity) == desired(
                cfg,
                r[i].pad(),
            ),
{
    if s.len() > 0 {
        assert(is_change(cfg, b.leds@, s[0]));
        assert(shown(b.leds@, s[0].pad()) == desired(cfg, s[0].pad()));
    }
    assert forall|i: int| 0 <= i < r.len() implies desired(cfg, (#[trigger] r[i]).pad()) != shown(
        a.leds@,
        r[i].pad(),
    ) by {
        assert(is_change(cfg, a.leds@, r[i]));
    }
    assert forall|i: int| 0 <= i < r.len() && desired(cfg, (#[trigger] r[i]).pad()) is Some implies Some(
        r[i].velocity,
    ) == desired(cfg, r[i].pad()) by {
        assert(is_change(cfg, a.leds@, r[i]));
    }
}

/// Pads of devices that are gone are forgotten, those of the others are not.
pub proof fn missing_devices_are_forgotten(a: LedCache, devices: Seq<String>, b: LedCache, i: int, j: int)
    requires
        a.forgotten(devices, b),
        0 <= i < a.leds@.len(),
    ensures
        (exists|k: int| 0 <= k < devices.len() && (#[trigger] devices[k])@ == a.leds@[i].device@) ==> b.leds@.contains(
            a.leds@[i],
        ),
        0 <= j < b.leds@.len() ==> exists|k: int|
            0 <= k < devices.len() && (#[trigger] devices[k])@ == b.leds@[j].device@,
{
    let f = on_device(devices);
    crate::list::filter_keeps(a.leds@, f);
    if exists|k: int| 0 <= k < devices.len() && (#[trigger] devices[k])@ == a.leds@[i].device@ {
        assert(f(a.leds@[i]));
        crate::list::filter_loses_nothing(a.leds@, f, i);
    }
    if 0 <= j < b.leds@.len() {
        assert(f(b.leds@[j]));
    }
}

/// Switching off sends every lit pad the off velocity, and remembers none.
pub proof fn every_pad_is_switched_off(a: LedCache, off: u8, r: Seq<Led>, b: LedCache, i: int)
    requires
        a.blanked(off, r, b),
        0 <= i < a.leds@.len(),
    ensures
        r.len() == a.leds@.len(),
        r[i].device@ == a.leds@[i].device@,
        r[i].channel == a.leds@[i].channel,
        r[i].note == a.leds@[i].note,
        r[i].velocity == off,
        b.leds@.len() == 0,
{
    assert(r[i].pad() == a.leds@[i].pad());
}

/// Pads stay dark while feedback is off.
pub proof fn pads_are_dark_without_feedback(cfg: Config, pad: PadView)
    ensures
        !cfg.midi.led_feedback ==> desired(cfg, pad) is None,
        cfg.midi.led_feedback && live_bindings(cfg.midi).len() == 0 ==> desired(cfg, pad) is None,
{
}

/// Of several bindings of one pad the last decides.
pub proof fn the_last_binding_of_a_pad_decides(cfg: Config, s: Seq<MidiBinding>, n: int)
    requires
        0 < n <= s.len(),
    ensures
        ({
            let b = s[n - 1];
            let pad = PadView { device: b.source.device@, channel: b.source.channel, note: b.source.number };
            velocity_for(cfg, b) is Some ==> wanted(cfg, s, pad, n) == velocity_for(cfg, b)
        }),
        forall|pad: PadView|
            pad.device != s[n - 1].source.device@ || pad.channel != s[n - 1].source.channel || pad.note
                != s[n - 1].source.number ==> #[trigger] wanted(cfg, s, pad, n) == wanted(cfg, s, pad, n - 1),
{
}

/// A target counts as bound where a live list holds a binding for it: the global
/// one for pads that select a profile, the active profile's for all else.
pub proof fn bound_targets_are_listed(m: MidiConfig, target: MidiTarget, i: int)
    requires
        m.wf(),
    ensures
        target is SelectProfile && 0 <= i < m.global_bindings@.len() && m.global_bindings@[i].target == target
            ==> target_bound(m, target),
        !(target is SelectProfile) && 0 <= i < m.profiles@[m.active_position()].bindings@.len()
            && m.profiles@[m.active_position()].bindings@[i].target == target ==> target_bound(m, target),
        target is SelectProfile && target_bound(m, target) ==> exists|k: int|
            0 <= k < m.global_bindings@.len() && (#[trigger] m.global_bindings@[k]).target == target,
        m.profiles@[m.active_position()].id == m.active_profile,
{
    if 0 <= i < list_for(m, target).len() && list_for(m, target)[i].target == target {
        assert(target_bound(m, target));
    }
    if target is SelectProfile && target_bound(m, target) {
        let k = choose|k: int|
            0 <= k < list_for(m, target).len() && (#[trigger] list_for(m, target)[k]).target == target;
        assert(m.global_bindings@[k].target == target);
    }
    let a = choose|a: int| 0 <= a < m.profiles@.len() && (#[trigger] m.profiles@[a]).id == m.active_profile;
    crate::list::first_is_at(m.profiles@, crate::config::profile_is(m.active_profile), a);
}

/// The palette entry of a color is one that none is nearer than, and the first of
/// these.
pub proof fn nearest_entry_is_first(v: u8, r: u8, g: u8, b: u8, j: int)
    requires
        is_nearest(v, (r, g, b)),
        0 <= j < 128,
    ensures
        v < 128,
        midi::color_distance(PAD_PALETTE[v as int], r, g, b) <= midi::color_distance(PAD_PALETTE[j], r, g, b),
        j < v ==> midi::color_distance(PAD_PALETTE[v as int], r, g, b) < midi::color_distance(
            PAD_PALETTE[j],
            r,
            g,
            b,
        ),
{
}

/// Only a knob or fader that drives a volume of something that exists has a level to
/// meet.
pub proof fn other_controls_have_no_level(cfg: Config, source: MidiSource, target: MidiTarget)
    ensures
        source.kind == MidiKind::Note ==> fader_level(cfg, source, target) is None,
        target is ChannelMute || target is MasterMute || target is SelectProfile || target is ChannelColor
            ==> fader_level(cfg, source, target) is None,
        target is ChannelVolume && !cfg.has_channel(target->ChannelVolume_id) ==> fader_level(cfg, source, target)
            is None,
{
}

} // verus!
