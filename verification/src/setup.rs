//! The audio setup assistant: checks that the system routes audio through
//! Crossfade (default output/input devices, and, when an Elgato Wave XLR is
//! connected, the microphone channel and monitor output), with a fix for each.

use vstd::prelude::*;
use vstd::string::StringExecFns;

use crate::audio;
use crate::audio::{channel_sink, STREAM_MIC};
use crate::config::{Assignment, ChannelConfig, Config, MasterConfig};
use crate::control::{has_device, only_channel_differs, the_channel};
use crate::list::{first, first_is_at};
use crate::routing::{xlr_sink, xlr_source, PulseManager};
use crate::text;

verus! {

/// What brings a check in order.
#[derive(Clone, Debug, PartialEq, Eq)]
pub enum SetupFix {
    /// Make the system play to the "Crossfade: System" virtual device.
    DefaultSink { channel_id: u64, sink: String, needs_assign: bool },
    /// Make the system record from the "Crossfade Stream Mix" microphone.
    DefaultSource { source: String },
    /// Feed the Microphone channel from the Wave XLR capture device.
    MicAssignment { channel_id: u64, source: String },
    /// Play the monitor mix on the Wave XLR output.
    MonitorDevice { sink: String },
}

/// A fix as plain values.
pub enum FixView {
    DefaultSink { channel_id: u64, sink: Seq<char>, needs_assign: bool },
    DefaultSource { source: Seq<char> },
    MicAssignment { channel_id: u64, source: Seq<char> },
    MonitorDevice { sink: Seq<char> },
}

impl View for SetupFix {
    type V = FixView;

    open spec fn view(&self) -> FixView {
        match self {
            SetupFix::DefaultSink { channel_id, sink, needs_assign } => FixView::DefaultSink {
                channel_id: *channel_id,
                sink: sink@,
                needs_assign: *needs_assign,
            },
            SetupFix::DefaultSource { source } => FixView::DefaultSource { source: source@ },
            SetupFix::MicAssignment { channel_id, source } => FixView::MicAssignment {
                channel_id: *channel_id,
                source: source@,
            },
            SetupFix::MonitorDevice { sink } => FixView::MonitorDevice { sink: sink@ },
        }
    }
}

/// One check.
#[derive(Clone, Debug, PartialEq, Eq)]
pub struct SetupItem {
    pub title: &'static str,
    pub subtitle: String,
    pub ok: bool,
    pub fix: SetupFix,
}

/// A check as plain values.
pub struct SetupView {
    pub title: Seq<char>,
    pub subtitle: Seq<char>,
    pub ok: bool,
    pub fix: FixView,
}

impl View for SetupItem {
    type V = SetupView;

    open spec fn view(&self) -> SetupView {
        SetupView { title: self.title@, subtitle: self.subtitle@, ok: self.ok, fix: self.fix@ }
    }
}

/// Checks as plain values.
pub open spec fn setup_views(s: Seq<SetupItem>) -> Seq<SetupView> {
    Seq::new(s.len(), |i: int| s[i]@)
}

/// A built-in channel of a name.
pub open spec fn built_in_named(name: Seq<char>) -> spec_fn(ChannelConfig) -> bool {
    |c: ChannelConfig| c.permanent && c.name@ == name
}

/// A channel with a device of its own.
pub open spec fn with_device() -> spec_fn(ChannelConfig) -> bool {
    |c: ChannelConfig| has_device(c.assignment)
}

/// A built-in channel without a device of its own.
pub open spec fn built_in_without_device() -> spec_fn(ChannelConfig) -> bool {
    |c: ChannelConfig| c.permanent && !has_device(c.assignment)
}

/// The position of the first channel that satisfies one predicate, else of the
/// first that satisfies another; the number of channels where there is none.
pub open spec fn either(s: Seq<ChannelConfig>, p: spec_fn(ChannelConfig) -> bool, q: spec_fn(ChannelConfig) -> bool) -> int {
    if first(s, p) < s.len() {
        first(s, p)
    } else {
        first(s, q)
    }
}

/// The position of the channel standing in for the system's sound.
pub open spec fn system_at(cfg: Config) -> int {
    either(cfg.channels@, built_in_named("System"@), with_device())
}

/// The position of the channel standing in for the microphone.
pub open spec fn mic_at(cfg: Config) -> int {
    either(cfg.channels@, built_in_named("Microphone"@), built_in_without_device())
}

/// Whether an assignment gives the channel a device of its own.
pub fn provides_device(a: &Option<Assignment>) -> (r: bool)
    ensures
        r == has_device(*a),
{
    match a {
        Some(Assignment::App { .. }) => true,
        Some(Assignment::Virtual) => true,
        _ => false,
    }
}

/// The position of a built-in channel of a name, or the number of channels.
fn find_built_in(cfg: &Config, name: &str) -> (r: usize)
    ensures
        r == first(cfg.channels@, built_in_named(name@)),
        r <= cfg.channels@.len(),
{
    let mut i: usize = 0;
    while i < cfg.channels.len() && !(cfg.channels[i].permanent && text::same(
        cfg.channels[i].name.as_str(),
        name,
    ))
        invariant
            i <= cfg.channels@.len(),
            forall|j: int| 0 <= j < i ==> !built_in_named(name@)(#[trigger] cfg.channels@[j]),
        decreases cfg.channels@.len() - i,
    {
        i = i + 1;
    }
    proof {
        first_is_at(cfg.channels@, built_in_named(name@), i as int);
    }
    i
}

/// The channel standing in for the system's sound: the built-in one by that
/// name, else the first with a device of its own.
pub fn system_channel(cfg: &Config) -> (r: Option<&ChannelConfig>)
    ensures
        0 <= system_at(*cfg) <= cfg.channels@.len(),
        r is Some <==> system_at(*cfg) < cfg.channels@.len(),
        r is Some ==> *r->0 == cfg.channels@[system_at(*cfg)],
{
    let i = find_built_in(cfg, "System");
    if i < cfg.channels.len() {
        return Some(&cfg.channels[i]);
    }
    let mut k: usize = 0;
    while k < cfg.channels.len() && !provides_device(&cfg.channels[k].assignment)
        invariant
            k <= cfg.channels@.len(),
            forall|j: int| 0 <= j < k ==> !with_device()(#[trigger] cfg.channels@[j]),
        decreases cfg.channels@.len() - k,
    {
        k = k + 1;
    }
    proof {
        first_is_at(cfg.channels@, with_device(), k as int);
    }
    if k < cfg.channels.len() {
        Some(&cfg.channels[k])
    } else {
        None
    }
}

/// The channel standing in for "the microphone": the permanent one by that
/// name, else the first permanent channel that is not one of our own devices.
/// Shared with the tray indicator, which mutes exactly this channel.
pub fn mic_channel(cfg: &Config) -> (r: Option<&ChannelConfig>)
    ensures
        0 <= mic_at(*cfg) <= cfg.channels@.len(),
        r is Some <==> mic_at(*cfg) < cfg.channels@.len(),
        r is Some ==> *r->0 == cfg.channels@[mic_at(*cfg)],
{
    let i = find_built_in(cfg, "Microphone");
    if i < cfg.channels.len() {
        return Some(&cfg.channels[i]);
    }
    let mut k: usize = 0;
    while k < cfg.channels.len() && !(cfg.channels[k].permanent && !provides_device(
        &cfg.channels[k].assignment,
    ))
        invariant
            k <= cfg.channels@.len(),
            forall|j: int| 0 <= j < k ==> !built_in_without_device()(#[trigger] cfg.channels@[j]),
        decreases cfg.channels@.len() - k,
    {
        k = k + 1;
    }
    proof {
        first_is_at(cfg.channels@, built_in_without_device(), k as int);
    }
    if k < cfg.channels.len() {
        Some(&cfg.channels[k])
    } else {
        None
    }
}

/// Whether an optional text is a text.
pub open spec fn reads(a: Option<String>, b: Seq<char>) -> bool {
    a is Some && a->0@ == b
}

/// Whether an optional text is a text.
fn is_text(a: &Option<String>, b: &str) -> (r: bool)
    ensures
        r == reads(*a, b@),
{
    match a {
        Some(s) => text::same(s.as_str(), b),
        None => false,
    }
}

/// The check of the default output device.
pub open spec fn output_check(cfg: Config, m: PulseManager) -> Seq<SetupView> {
    let c = cfg.channels@[system_at(cfg)];
    if system_at(cfg) < cfg.channels@.len() {
        seq![
            SetupView {
                title: "Sound Output"@,
                subtitle: "Use “Crossfade: "@ + c.name@ + "” as the system’s output device"@,
                ok: has_device(c.assignment) && reads(m.default_sink, channel_sink(c.id)),
                fix: FixView::DefaultSink {
                    channel_id: c.id,
                    sink: channel_sink(c.id),
                    needs_assign: !has_device(c.assignment),
                },
            },
        ]
    } else {
        Seq::empty()
    }
}

/// The check of the default capture device.
pub open spec fn input_check(m: PulseManager) -> Seq<SetupView> {
    seq![
        SetupView {
            title: "Sound Input"@,
            subtitle: "Use “Crossfade Stream Mix” as the system’s input device"@,
            ok: reads(m.default_source, STREAM_MIC@),
            fix: FixView::DefaultSource { source: STREAM_MIC@ },
        },
    ]
}

/// The check of the microphone channel, where a Wave XLR is connected.
pub open spec fn mic_check(cfg: Config, m: PulseManager) -> Seq<SetupView> {
    let i = first(m.sources@, xlr_source());
    let s = m.sources@[i];
    let c = cfg.channels@[mic_at(cfg)];
    if i < m.sources@.len() && mic_at(cfg) < cfg.channels@.len() {
        seq![
            SetupView {
                title: "Microphone Input"@,
                subtitle: "Feed the “"@ + c.name@ + "” channel from “"@ + s.description@ + "”"@,
                ok: c.assignment is Some && c.assignment->0 is Source && c.assignment->0->Source_name@ == s.name@,
                fix: FixView::MicAssignment { channel_id: c.id, source: s.name@ },
            },
        ]
    } else {
        Seq::empty()
    }
}

/// The check of the monitor output, where a Wave XLR is connected.
pub open spec fn monitor_check(cfg: Config, m: PulseManager) -> Seq<SetupView> {
    let i = first(m.sinks@, xlr_sink());
    let s = m.sinks@[i].1;
    if i < m.sinks@.len() {
        seq![
            SetupView {
                title: "Monitor Output"@,
                subtitle: "Play the Monitor Mix on “"@ + s.description@ + "”"@,
                ok: reads(cfg.master.monitor_device, s.name@),
                fix: FixView::MonitorDevice { sink: s.name@ },
            },
        ]
    } else {
        Seq::empty()
    }
}

/// Every check.
pub open spec fn checks(cfg: Config, m: PulseManager) -> Seq<SetupView> {
    output_check(cfg, m) + input_check(m) + mic_check(cfg, m) + monitor_check(cfg, m)
}

/// Evaluate every setup check against the current server + config state.
pub fn evaluate(cfg: &Config, m: &PulseManager) -> (r: Vec<SetupItem>)
    ensures
        setup_views(r@) == checks(*cfg, *m),
{
    let mut items: Vec<SetupItem> = Vec::new();
    if let Some(sys) = system_channel(cfg) {
        let sink = audio::channel_sink_name(sys.id);
        let given = provides_device(&sys.assignment);
        let mut subtitle = text::join("Use “Crossfade: ", sys.name.as_str());
        subtitle.append("” as the system’s output device");
        let ok = given && is_text(&m.default_sink, sink.as_str());
        items.push(
            SetupItem {
                title: "Sound Output",
                subtitle,
                ok,
                fix: SetupFix::DefaultSink { channel_id: sys.id, sink, needs_assign: !given },
            },
        );
    }
    assert(setup_views(items@) =~= output_check(*cfg, *m));
    let ghost a = setup_views(items@);
    items.push(
        SetupItem {
            title: "Sound Input",
            subtitle: text::copy("Use “Crossfade Stream Mix” as the system’s input device"),
            ok: is_text(&m.default_source, STREAM_MIC),
            fix: SetupFix::DefaultSource { source: text::copy(STREAM_MIC) },
        },
    );
    assert(setup_views(items@) =~= a + input_check(*m));
    let ghost b = setup_views(items@);
    if let Some(src) = m.wave_xlr_source() {
        if let Some(mic) = mic_channel(cfg) {
            let mut subtitle = text::join("Feed the “", mic.name.as_str());
            subtitle.append("” channel from “");
            subtitle.append(src.description.as_str());
            subtitle.append("”");
            let ok = match &mic.assignment {
                Some(Assignment::Source { name }) => text::same(name.as_str(), src.name.as_str()),
                _ => false,
            };
            items.push(
                SetupItem {
                    title: "Microphone Input",
                    subtitle,
                    ok,
                    fix: SetupFix::MicAssignment { channel_id: mic.id, source: src.name },
                },
            );
        }
    }
    assert(setup_views(items@) =~= b + mic_check(*cfg, *m));
    let ghost c = setup_views(items@);
    if let Some(sink) = m.wave_xlr_sink() {
        let mut subtitle = text::join("Play the Monitor Mix on “", sink.description.as_str());
        subtitle.append("”");
        let ok = is_text(&cfg.master.monitor_device, sink.name.as_str());
        items.push(
            SetupItem {
                title: "Monitor Output",
                subtitle,
                ok,
                fix: SetupFix::MonitorDevice { sink: sink.name },
            },
        );
    }
    assert(setup_views(items@) =~= c + monitor_check(*cfg, *m));
    items
}

/// True when every check passes (used for the startup notice).
pub fn all_ok(cfg: &Config, m: &PulseManager) -> (r: bool)
    ensures
        r == forall|i: int| 0 <= i < checks(*cfg, *m).len() ==> (#[trigger] checks(*cfg, *m)[i]).ok,
{
    let items = evaluate(cfg, m);
    let ghost s = checks(*cfg, *m);
    let mut i: usize = 0;
    while i < items.len()
        invariant
            i <= items@.len(),
            s == checks(*cfg, *m),
            setup_views(items@) == s,
            forall|j: int| 0 <= j < i ==> (#[trigger] s[j]).ok,
        decreases items@.len() - i,
    {
        assert(s[i as int].ok == items@[i as int].ok);
        if !items[i].ok {
            return false;
        }
        i = i + 1;
    }
    true
}

/// What carrying out a fix asks for.
#[derive(Clone, Debug, PartialEq, Eq)]
pub struct FixStep {
    /// Rebuild this channel.
    pub rebuild: Option<u64>,
    /// Set up the monitor output.
    pub monitor: bool,
    /// The configuration changed.
    pub changed: bool,
    /// Make this sink the default once it exists.
    pub default_sink: Option<String>,
    /// Make this source the default once it exists.
    pub default_source: Option<String>,
}

/// Whether a fix asks for these things and changes the configuration so.
pub open spec fn fixes(old: Config, fix: FixView, new: Config, s: FixStep) -> bool {
    match fix {
        FixView::DefaultSink { channel_id, sink, needs_assign } => {
            &&& s.rebuild == if needs_assign {
                Some(channel_id)
            } else {
                None
            }
            &&& s.changed == needs_assign
            &&& !s.monitor
            &&& reads(s.default_sink, sink)
            &&& s.default_source is None
            &&& if needs_assign && old.has_channel(channel_id) {
                only_channel_differs(
                    old,
                    new,
                    channel_id,
                    ChannelConfig {
                        assignment: Some(Assignment::Virtual),
                        ..the_channel(old, channel_id)
                    },
                )
            } else {
                new == old
            }
        },
        FixView::DefaultSource { source } => {
            &&& new == old
            &&& s.rebuild is None
            &&& !s.changed
            &&& !s.monitor
            &&& s.default_sink is None
            &&& reads(s.default_source, source)
        },
        FixView::MicAssignment { channel_id, source } => {
            &&& s.rebuild == Some(channel_id)
            &&& s.changed
            &&& !s.monitor
            &&& s.default_sink is None
            &&& s.default_source is None
            &&& if old.has_channel(channel_id) {
                let a = new.channels@[old.position(channel_id)].assignment;
                &&& a is Some
                &&& a->0 is Source
                &&& a->0->Source_name@ == source
                &&& only_channel_differs(
                    old,
                    new,
                    channel_id,
                    ChannelConfig { assignment: a, ..the_channel(old, channel_id) },
                )
            } else {
                new == old
            }
        },
        FixView::MonitorDevice { sink } => {
            &&& s.rebuild is None
            &&& s.changed
            &&& s.monitor
            &&& s.default_sink is None
            &&& s.default_source is None
            &&& reads(new.master.monitor_device, sink)
            &&& new == (Config {
                master: MasterConfig { monitor_device: new.master.monitor_device, ..old.master },
                ..old
            })
        },
    }
}

/// Carry out the part of a fix that is in the configuration.
pub fn apply_fix(cfg: &mut Config, fix: &SetupFix) -> (r: FixStep)
    ensures
        fixes(*old(cfg), fix@, *final(cfg), r),
{
    let mut step = FixStep {
        rebuild: None,
        monitor: false,
        changed: false,
        default_sink: None,
        default_source: None,
    };
    match fix {
        SetupFix::DefaultSink { channel_id, sink, needs_assign } => {
            if *needs_assign {
                if let Some(ch) = cfg.channel_mut(*channel_id) {
                    ch.assignment = Some(Assignment::Virtual);
                }
                step.rebuild = Some(*channel_id);
                step.changed = true;
            }
            step.default_sink = Some(sink.clone());
        },
        SetupFix::DefaultSource { source } => {
            step.default_source = Some(source.clone());
        },
        SetupFix::MicAssignment { channel_id, source } => {
            if let Some(ch) = cfg.channel_mut(*channel_id) {
                ch.assignment = Some(Assignment::Source { name: source.clone() });
            }
            step.rebuild = Some(*channel_id);
            step.changed = true;
        },
        SetupFix::MonitorDevice { sink } => {
            cfg.master.monitor_device = Some(sink.clone());
            step.monitor = true;
            step.changed = true;
        },
    }
    step
}

/// What to do at a tick of the poll that makes a device the default.
#[derive(Clone, Copy, Debug, PartialEq, Eq, Structural)]
pub enum DefaultStep {
    /// The device exists: make it the default and stop.
    MakeDefault,
    /// Give up.
    Stop,
    /// Wait for the next tick.
    Wait,
}

/// How many ticks a device is waited for.
pub const MAX_DEFAULT_TRIES: u32 = 20;

/// Whether this is what to do at a tick.
pub open spec fn polled(exists_now: bool, tries: u32, r: DefaultStep) -> bool {
    r == if exists_now {
        DefaultStep::MakeDefault
    } else if tries + 1 >= MAX_DEFAULT_TRIES {
        DefaultStep::Stop
    } else {
        DefaultStep::Wait
    }
}

/// Make a device the default as soon as it exists on the server. A freshly
/// (re)created channel sink appears asynchronously, so it is polled for
/// briefly. `tries` counts the ticks before this one.
pub fn default_step(exists_now: bool, tries: u32) -> (r: DefaultStep)
    ensures
        polled(exists_now, tries, r),
{
    if exists_now {
        DefaultStep::MakeDefault
    } else if tries >= MAX_DEFAULT_TRIES - 1 {
        DefaultStep::Stop
    } else {
        DefaultStep::Wait
    }
}

/// The fix of the monitor output makes its check pass.
pub proof fn monitor_fix_passes(old: Config, new: Config, m: PulseManager, s: FixStep)
    requires
        monitor_check(old, m).len() > 0,
        fixes(old, monitor_check(old, m)[0].fix, new, s),
    ensures
        monitor_check(new, m).len() > 0,
        monitor_check(new, m)[0].ok,
{
}

/// The fix of the microphone channel makes its check pass.
pub proof fn mic_fix_passes(old: Config, new: Config, m: PulseManager, s: FixStep)
    requires
        old.wf(),
        mic_check(old, m).len() > 0,
        fixes(old, mic_check(old, m)[0].fix, new, s),
    ensures
        mic_check(new, m).len() > 0,
        mic_check(new, m)[0].ok,
{
    let i = mic_at(old);
    let id = old.channels@[i].id;
    let named = built_in_named("Microphone"@);
    let bare = built_in_without_device();
    crate::list::first_is_least(old.channels@, named);
    crate::list::first_is_least(old.channels@, bare);
    assert(old.channels@[i].id == id);
    assert(old.has_channel(id));
    crate::list::first_is_least(old.channels@, crate::config::channel_is(id));
    crate::list::first_exists(old.channels@, crate::config::channel_is(id), i);
    let p = old.position(id);
    assert(p == i) by {
        let ids = crate::config::channel_ids(old.channels@);
        if p < i {
            assert(ids[p] != ids[i]);
        }
    }
    let n = first(old.channels@, named);
    assert forall|j: int| 0 <= j < n implies !named(#[trigger] new.channels@[j]) by {
        assert(!named(old.channels@[j]));
    }
    if n < old.channels@.len() {
        assert(named(new.channels@[n]));
    }
    first_is_at(new.channels@, named, n);
    if n == old.channels@.len() {
        assert forall|j: int| 0 <= j < i implies !bare(#[trigger] new.channels@[j]) by {
            assert(!bare(old.channels@[j]));
        }
        assert(bare(new.channels@[i]));
        first_is_at(new.channels@, bare, i);
    }
}

// ---- What is checked --------------------------------------------------------

/// The stand-ins are the built-in channels of that name, while there are any;
/// else the first channel with a device of its own, and the first built-in
/// channel without one.
pub proof fn stand_ins_are_found(cfg: Config, i: int)
    requires
        0 <= i < cfg.channels@.len(),
    ensures
        cfg.channels@[i].permanent && cfg.channels@[i].name@ == "System"@ ==> {
            let c = cfg.channels@[system_at(cfg)];
            system_at(cfg) < cfg.channels@.len() && c.permanent && c.name@ == "System"@
        },
        cfg.channels@[i].permanent && cfg.channels@[i].name@ == "Microphone"@ ==> {
            let c = cfg.channels@[mic_at(cfg)];
            mic_at(cfg) < cfg.channels@.len() && c.permanent && c.name@ == "Microphone"@
        },
        system_at(cfg) < cfg.channels@.len() ==> {
            let c = cfg.channels@[system_at(cfg)];
            (c.permanent && c.name@ == "System"@) || (c.assignment is Some && !(c.assignment->0 is Source))
        },
        mic_at(cfg) < cfg.channels@.len() ==> {
            let c = cfg.channels@[mic_at(cfg)];
            c.permanent && (c.name@ == "Microphone"@ || c.assignment is None || c.assignment->0 is Source)
        },
{
    let s = cfg.channels@;
    let (a, b) = (built_in_named("System"@), with_device());
    let (c, d) = (built_in_named("Microphone"@), built_in_without_device());
    crate::list::first_is_least(s, a);
    crate::list::first_is_least(s, b);
    crate::list::first_is_least(s, c);
    crate::list::first_is_least(s, d);
    if a(s[i]) {
        crate::list::first_exists(s, a, i);
    }
    if c(s[i]) {
        crate::list::first_exists(s, c, i);
    }
}

/// What each check looks at. The output is right when the system plays into the
/// system channel's own sink, the input when it records from the stream mix;
/// with a Wave XLR, the microphone when the channel is fed from it, and the
/// monitor when the mix plays on it.
pub proof fn checks_look_at_the_right_devices(cfg: Config, m: PulseManager)
    ensures
        input_check(m).len() == 1,
        input_check(m)[0].ok <==> m.default_source is Some && m.default_source->0@ == "Crossfade_StreamMic"@,
        system_at(cfg) < cfg.channels@.len() ==> output_check(cfg, m).len() == 1,
        output_check(cfg, m).len() > 0 ==> {
            let c = cfg.channels@[system_at(cfg)];
            output_check(cfg, m)[0].ok <==> c.assignment is Some && !(c.assignment->0 is Source)
                && m.default_sink is Some && m.default_sink->0@ == "Crossfade_Ch"@ + crate::text::dec(c.id as nat)
        },
        mic_check(cfg, m).len() > 0 ==> {
            let c = cfg.channels@[mic_at(cfg)];
            let s = m.sources@[first(m.sources@, xlr_source())];
            &&& xlr_source()(s)
            &&& mic_check(cfg, m)[0].ok <==> c.assignment is Some && c.assignment->0 is Source && (
            c.assignment->0)->Source_name@ == s.name@
        },
        monitor_check(cfg, m).len() > 0 ==> {
            let s = m.sinks@[first(m.sinks@, xlr_sink())];
            &&& xlr_sink()(s)
            &&& monitor_check(cfg, m)[0].ok <==> cfg.master.monitor_device is Some
                && cfg.master.monitor_device->0@ == s.1.name@
        },
        checks(cfg, m).len() == output_check(cfg, m).len() + 1 + mic_check(cfg, m).len() + monitor_check(
            cfg,
            m,
        ).len(),
{
    crate::list::first_is_least(m.sources@, xlr_source());
    crate::list::first_is_least(m.sinks@, xlr_sink());
    if output_check(cfg, m).len() > 0 {
        crate::audio::channel_devices_are_distinct(cfg.channels@[system_at(cfg)].id);
    }
}

/// The fix of the default output gives the system channel a device of its own
/// where it lacks one, and makes that device the default; that of the default
/// input makes the stream mix the default. Neither touches another channel.
pub proof fn default_fixes_ask_for_the_right_device(old: Config, m: PulseManager, new: Config, s: FixStep)
    requires
        output_check(old, m).len() > 0,
        fixes(old, output_check(old, m)[0].fix, new, s),
    ensures
        ({
            let c = old.channels@[system_at(old)];
            let lacks = c.assignment is None || c.assignment->0 is Source;
            &&& s.default_sink is Some
            &&& s.default_sink->0@ == "Crossfade_Ch"@ + crate::text::dec(c.id as nat)
            &&& s.default_source is None
            &&& !s.monitor
            &&& s.changed == lacks
            &&& lacks ==> s.rebuild == Some(c.id)
            &&& !lacks ==> s.rebuild is None && new == old
            &&& lacks && old.position(c.id) == system_at(old) ==> new.channels@[system_at(old)].assignment == Some(
                Assignment::Virtual,
            )
            &&& new.channels@.len() == old.channels@.len()
            &&& new.master == old.master
        }),
{
    let i = system_at(old);
    crate::audio::channel_devices_are_distinct(old.channels@[i].id);
    let (a, b) = (built_in_named("System"@), with_device());
    crate::list::first_is_least(old.channels@, a);
    crate::list::first_is_least(old.channels@, b);
    let id = old.channels@[i].id;
    assert(old.channels@[i].id == id);
    assert(old.has_channel(id));
    crate::list::first_is_least(old.channels@, crate::config::channel_is(id));
    crate::list::first_exists(old.channels@, crate::config::channel_is(id), i);
}

/// The fix of the default input changes nothing in the configuration.
pub proof fn input_fix_asks_for_the_stream_mix(old: Config, m: PulseManager, new: Config, s: FixStep)
    requires
        fixes(old, input_check(m)[0].fix, new, s),
    ensures
        new == old,
        s.default_source is Some,
        s.default_source->0@ == "Crossfade_StreamMic"@,
        s.default_sink is None,
        s.rebuild is None,
        !s.changed,
        !s.monitor,
{
}

/// A device is made the default as soon as it exists; until then it is waited for,
/// and given up at the twentieth tick.
pub proof fn defaults_are_waited_for(exists_now: bool, tries: u32, r: DefaultStep)
    requires
        polled(exists_now, tries, r),
    ensures
        r is MakeDefault <==> exists_now,
        r is Wait <==> !exists_now && tries < 19,
        r is Stop <==> !exists_now && tries >= 19,
{
}

/// A fix for the microphone or the default output changes only the assignment of
/// the channel it is for; the one for the monitor only the monitor device. A change
/// is reported, and the channel that was changed is rebuilt.
pub proof fn fixes_change_what_they_are_for(old: Config, p: int, source: Seq<char>, sink: Seq<char>, new: Config, s: FixStep)
    requires
        old.wf(),
        0 <= p < old.channels@.len(),
    ensures
        ({
            let id = old.channels@[p].id;
            let a = new.channels@[p].assignment;
            let others = new.channels@ == old.channels@.update(p, ChannelConfig { assignment: a, ..old.channels@[p] });
            &&& fixes(old, FixView::MicAssignment { channel_id: id, source }, new, s) ==> others && new.master
                == old.master && a is Some && a->0 is Source && a->0->Source_name@ == source && s.rebuild == Some(id)
                && s.changed && !s.monitor && s.default_sink is None && s.default_source is None
            &&& fixes(old, FixView::DefaultSink { channel_id: id, sink, needs_assign: true }, new, s) ==> others
                && new.master == old.master && a == Some(Assignment::Virtual) && s.rebuild == Some(id) && s.changed
                && s.default_sink is Some && s.default_sink->0@ == sink && s.default_source is None
            &&& fixes(old, FixView::DefaultSink { channel_id: id, sink, needs_assign: false }, new, s) ==> new == old
                && s.rebuild is None && !s.changed && s.default_sink is Some && s.default_sink->0@ == sink
            &&& fixes(old, FixView::MonitorDevice { sink }, new, s) ==> new.channels == old.channels
                && new.master.monitor_device is Some && new.master.monitor_device->0@ == sink && s.monitor && s.changed
                && s.rebuild is None
            &&& fixes(old, FixView::DefaultSource { source }, new, s) ==> new == old && !s.changed && s.rebuild is None
                && s.default_source is Some && s.default_source->0@ == source && s.default_sink is None
        }),
{
    crate::config::channel_found(old, p);
}

/// Of several channels that could stand in, the first does.
pub proof fn the_first_stand_in_counts(cfg: Config, i: int)
    requires
        0 <= i < cfg.channels@.len(),
    ensures
        cfg.channels@[i].permanent && cfg.channels@[i].name@ == "System"@ ==> system_at(cfg) <= i,
        cfg.channels@[i].permanent && cfg.channels@[i].name@ == "Microphone"@ ==> mic_at(cfg) <= i,
        cfg.channels@[i].assignment is Some && !(cfg.channels@[i].assignment->0 is Source) ==> system_at(cfg)
            < cfg.channels@.len(),
        cfg.channels@[i].permanent && (cfg.channels@[i].assignment is None || cfg.channels@[i].assignment->0 is Source)
            ==> mic_at(cfg) < cfg.channels@.len(),
{
    let s = cfg.channels@;
    crate::list::first_is_least(s, built_in_named("System"@));
    crate::list::first_is_least(s, built_in_named("Microphone"@));
    crate::list::first_is_least(s, with_device());
    crate::list::first_is_least(s, built_in_without_device());
    assert(s[i].permanent && s[i].name@ == "System"@ ==> built_in_named("System"@)(s[i]));
    assert(s[i].permanent && s[i].name@ == "Microphone"@ ==> built_in_named("Microphone"@)(s[i]));
    assert(s[i].assignment is Some && !(s[i].assignment->0 is Source) ==> with_device()(s[i]));
    assert(s[i].permanent && (s[i].assignment is None || s[i].assignment->0 is Source)
        ==> built_in_without_device()(s[i]));
}

} // verus!
