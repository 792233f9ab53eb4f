//! What the interface lists: inputs and outputs to choose from, how they are
//! described, and what of the device state it acts on.

use vstd::prelude::*;
use vstd::string::StringExecFns;

use crate::audio::{SinkEntry, SourceEntry};
use crate::config::{effect_on, vst_on, Assignment, ChannelConfig, Config};
use crate::control::{assignments_match, same_assignment, same_text, texts_match};
use crate::level::Level;
use crate::list::{first, first_is_at};
use crate::text;
use crate::text::dec;

verus! {

/// An assignment as plain values.
pub enum AssignmentView {
    Source(Seq<char>),
    App(Seq<char>),
    Virtual,
}

/// An assignment as plain values.
pub open spec fn assignment_view(a: Option<Assignment>) -> Option<AssignmentView> {
    match a {
        None => None,
        Some(Assignment::Source { name }) => Some(AssignmentView::Source(name@)),
        Some(Assignment::App { name }) => Some(AssignmentView::App(name@)),
        Some(Assignment::Virtual) => Some(AssignmentView::Virtual),
    }
}

/// A copy of an assignment.
pub fn copy_assignment(a: &Option<Assignment>) -> (r: Option<Assignment>)
    ensures
        r == *a,
{
    match a {
        None => None,
        Some(Assignment::Source { name }) => Some(Assignment::Source { name: name.clone() }),
        Some(Assignment::App { name }) => Some(Assignment::App { name: name.clone() }),
        Some(Assignment::Virtual) => Some(Assignment::Virtual),
    }
}

/// An input to choose from.
#[derive(Clone, Debug, PartialEq, Eq)]
pub struct InputItem {
    pub label: String,
    pub assignment: Option<Assignment>,
}

/// An input as plain values.
pub struct ItemView {
    pub label: Seq<char>,
    pub assignment: Option<AssignmentView>,
}

impl View for InputItem {
    type V = ItemView;

    open spec fn view(&self) -> ItemView {
        ItemView { label: self.label@, assignment: assignment_view(self.assignment) }
    }
}

/// Inputs as plain values.
pub open spec fn item_views(s: Seq<InputItem>) -> Seq<ItemView> {
    Seq::new(s.len(), |i: int| s[i]@)
}

/// The inputs that the first `n` capture devices give: the real ones, or the
/// monitors.
pub open spec fn source_items(s: Seq<SourceEntry>, monitors: bool, n: int) -> Seq<ItemView>
    decreases n,
{
    if n <= 0 {
        Seq::empty()
    } else {
        let rest = source_items(s, monitors, n - 1);
        if s[n - 1].is_monitor == monitors {
            rest.push(
                ItemView {
                    label: s[n - 1].description@,
                    assignment: Some(AssignmentView::Source(s[n - 1].name@)),
                },
            )
        } else {
            rest
        }
    }
}

/// The inputs that applications give.
pub open spec fn app_items(apps: Seq<String>) -> Seq<ItemView> {
    Seq::new(
        apps.len(),
        |i: int|
            ItemView {
                label: apps[i]@ + " — Application"@,
                assignment: Some(AssignmentView::App(apps[i]@)),
            },
    )
}

/// The inputs to choose from: none, a virtual device, the capture devices, the
/// applications, and last the monitors of other devices.
pub open spec fn all_items(sources: Seq<SourceEntry>, apps: Seq<String>) -> Seq<ItemView> {
    seq![
        ItemView { label: "No Input"@, assignment: None },
        ItemView { label: "Virtual Device"@, assignment: Some(AssignmentView::Virtual) },
    ] + source_items(sources, false, sources.len() as int) + app_items(apps) + source_items(
        sources,
        true,
        sources.len() as int,
    )
}

/// Add an input.
fn push_item(v: &mut Vec<InputItem>, label: String, assignment: Option<Assignment>)
    ensures
        item_views(final(v)@) == item_views(old(v)@).push(
            ItemView { label: label@, assignment: assignment_view(assignment) },
        ),
{
    let ghost x = ItemView { label: label@, assignment: assignment_view(assignment) };
    v.push(InputItem { label, assignment });
    assert(item_views(v@) =~= item_views(old(v)@).push(x));
}

/// Add the inputs that capture devices give.
fn push_sources(v: &mut Vec<InputItem>, sources: &Vec<SourceEntry>, monitors: bool)
    ensures
        item_views(final(v)@) == item_views(old(v)@) + source_items(sources@, monitors, sources@.len() as int),
{
    let ghost start = item_views(v@);
    let mut i: usize = 0;
    assert(start + source_items(sources@, monitors, 0) =~= start);
    while i < sources.len()
        invariant
            i <= sources@.len(),
            item_views(v@) == start + source_items(sources@, monitors, i as int),
        decreases sources@.len() - i,
    {
        let s = &sources[i];
        if s.is_monitor == monitors {
            push_item(v, s.description.clone(), Some(Assignment::Source { name: s.name.clone() }));
            assert(item_views(v@) =~= start + source_items(sources@, monitors, i + 1));
        }
        i = i + 1;
    }
}

/// The inputs to choose from.
pub fn input_items(sources: &Vec<SourceEntry>, apps: &Vec<String>) -> (r: Vec<InputItem>)
    ensures
        item_views(r@) == all_items(sources@, apps@),
{
    let mut v: Vec<InputItem> = Vec::new();
    push_item(&mut v, text::copy("No Input"), None);
    push_item(&mut v, text::copy("Virtual Device"), Some(Assignment::Virtual));
    assert(item_views(v@) =~= seq![
        ItemView { label: "No Input"@, assignment: None },
        ItemView { label: "Virtual Device"@, assignment: Some(AssignmentView::Virtual) },
    ]);
    push_sources(&mut v, sources, false);
    let ghost start = item_views(v@);
    let mut i: usize = 0;
    assert(start + app_items(apps@).take(0) =~= start);
    while i < apps.len()
        invariant
            i <= apps@.len(),
            item_views(v@) == start + app_items(apps@).take(i as int),
        decreases apps@.len() - i,
    {
        push_item(
            &mut v,
            text::join(apps[i].as_str(), " — Application"),
            Some(Assignment::App { name: apps[i].clone() }),
        );
        assert(item_views(v@) =~= start + app_items(apps@).take(i + 1));
        i = i + 1;
    }
    assert(app_items(apps@).take(i as int) =~= app_items(apps@));
    push_sources(&mut v, sources, true);
    v
}

/// What an input selector shows.
#[derive(Clone, Debug, PartialEq, Eq)]
pub struct Entries {
    pub items: Vec<InputItem>,
    pub selected: usize,
}

/// The item of an assignment.
pub open spec fn assigned(a: Option<Assignment>) -> spec_fn(InputItem) -> bool {
    |i: InputItem| same_assignment(i.assignment, a)
}

/// What stands for an assignment that is not available.
pub open spec fn placeholder(a: Assignment) -> Seq<char> {
    match a {
        Assignment::Source { name } => name@ + " (unavailable)"@,
        Assignment::App { name } => name@ + " (not running)"@,
        Assignment::Virtual => "Virtual Device"@,
    }
}

/// What stands for an assignment that is not available.
fn placeholder_label(a: &Assignment) -> (r: String)
    ensures
        r@ == placeholder(*a),
{
    match a {
        Assignment::Source { name } => text::join(name.as_str(), " (unavailable)"),
        Assignment::App { name } => text::join(name.as_str(), " (not running)"),
        Assignment::Virtual => text::copy("Virtual Device"),
    }
}

/// What an input selector shows, and what it has selected.
pub open spec fn entries_of(items: Seq<InputItem>, current: Option<Assignment>, r: Entries) -> bool {
    let i = first(items, assigned(current));
    if i < items.len() {
        r.items@ == items && r.selected == i
    } else if current is Some {
        &&& item_views(r.items@) == item_views(items).push(
            ItemView {
                label: placeholder(current->0),
                assignment: assignment_view(current),
            },
        )
        &&& r.selected == items.len()
    } else {
        r.items@ == items && r.selected == 0
    }
}

/// Fill an input selector. `current` is kept selected; if it is not among the
/// items (device unplugged, app not running) a placeholder entry is appended
/// so the assignment is not silently lost.
pub fn input_entries(items: Vec<InputItem>, current: &Option<Assignment>) -> (r: Entries)
    ensures
        entries_of(items@, *current, r),
{
    let mut i: usize = 0;
    while i < items.len() && !assignments_match(&items[i].assignment, current)
        invariant
            i <= items@.len(),
            forall|j: int| 0 <= j < i ==> !assigned(*current)(#[trigger] items@[j]),
        decreases items@.len() - i,
    {
        i = i + 1;
    }
    proof {
        first_is_at(items@, assigned(*current), i as int);
    }
    if i < items.len() {
        return Entries { items, selected: i };
    }
    match current {
        Some(a) => {
            let mut items = items;
            let selected: usize = items.len();
            push_item(&mut items, placeholder_label(a), copy_assignment(current));
            Entries { items, selected }
        },
        None => Entries { items, selected: 0 },
    }
}

/// An output to choose from.
#[derive(Clone, Debug, PartialEq, Eq)]
pub struct SinkItem {
    pub label: String,
    /// None = the system default.
    pub name: Option<String>,
}

/// Whether a list has the outputs to choose from.
pub open spec fn lists_outputs(sinks: Seq<SinkEntry>, r: Seq<SinkItem>) -> bool {
    &&& r.len() == sinks.len() + 1
    &&& r[0].label@ == "System Default"@
    &&& r[0].name is None
    &&& forall|i: int|
        0 <= i < sinks.len() ==> {
            &&& (#[trigger] r[i + 1]).label@ == sinks[i].description@
            &&& r[i + 1].name is Some
            &&& r[i + 1].name->0@ == sinks[i].name@
        }
}

/// The outputs to choose from: the system default, then every device.
pub fn sink_items(sinks: &Vec<SinkEntry>) -> (r: Vec<SinkItem>)
    ensures
        lists_outputs(sinks@, r@),
{
    let mut v: Vec<SinkItem> = Vec::new();
    v.push(SinkItem { label: text::copy("System Default"), name: None });
    let mut i: usize = 0;
    while i < sinks.len()
        invariant
            i <= sinks@.len(),
            v@.len() == i + 1,
            v@[0].label@ == "System Default"@,
            v@[0].name is None,
            forall|j: int|
                0 <= j < i ==> {
                    &&& (#[trigger] v@[j + 1]).label@ == sinks@[j].description@
                    &&& v@[j + 1].name is Some
                    &&& v@[j + 1].name->0@ == sinks@[j].name@
                },
        decreases sinks@.len() - i,
    {
        let s = &sinks[i];
        v.push(SinkItem { label: s.description.clone(), name: Some(s.name.clone()) });
        i = i + 1;
    }
    v
}

/// The output of a name.
pub open spec fn output_is(name: Option<String>) -> spec_fn(SinkItem) -> bool {
    |s: SinkItem| same_text(s.name, name)
}

/// Whether an output is the one to select.
pub open spec fn selects_output(items: Seq<SinkItem>, current: Option<String>, r: usize) -> bool {
    let i = first(items, output_is(current));
    r == if i < items.len() {
        i
    } else {
        0
    }
}

/// Which output is selected: the configured one, else the first.
pub fn selected_sink(items: &Vec<SinkItem>, current: &Option<String>) -> (r: usize)
    ensures
        selects_output(items@, *current, r),
{
    let mut i: usize = 0;
    while i < items.len() && !texts_match(&items[i].name, current)
        invariant
            i <= items@.len(),
            forall|j: int| 0 <= j < i ==> !output_is(*current)(#[trigger] items@[j]),
        decreases items@.len() - i,
    {
        i = i + 1;
    }
    proof {
        first_is_at(items@, output_is(*current), i as int);
    }
    if i < items.len() {
        i
    } else {
        0
    }
}

/// The output device of a name.
pub open spec fn device_is(name: Seq<char>) -> spec_fn(SinkEntry) -> bool {
    |s: SinkEntry| s.name@ == name
}

/// How the device the monitor mix plays on is called.
pub open spec fn monitor_label_text(cfg: Config, sinks: Seq<SinkEntry>) -> Seq<char> {
    let i = first(sinks, device_is(cfg.master.monitor_device->0@));
    if cfg.master.monitor_device is Some && i < sinks.len() {
        sinks[i].description@
    } else {
        "system default output"@
    }
}

/// How the device the monitor mix plays on is called.
pub fn monitor_label(cfg: &Config, sinks: &Vec<SinkEntry>) -> (r: String)
    ensures
        r@ == monitor_label_text(*cfg, sinks@),
{
    if let Some(d) = &cfg.master.monitor_device {
        let mut i: usize = 0;
        while i < sinks.len() && !text::same(sinks[i].name.as_str(), d.as_str())
            invariant
                i <= sinks@.len(),
                forall|j: int| 0 <= j < i ==> !device_is(d@)(#[trigger] sinks@[j]),
            decreases sinks@.len() - i,
        {
            i = i + 1;
        }
        proof {
            first_is_at(sinks@, device_is(d@), i as int);
        }
        if i < sinks.len() {
            return sinks[i].description.clone();
        }
    }
    text::copy("system default output")
}

/// What feeds a channel, in words. `described` is how the server describes a
/// capture device, where it knows it.
pub open spec fn feed_text(c: ChannelConfig, described: Option<&str>) -> Seq<char> {
    match c.assignment {
        None => "No input"@,
        Some(Assignment::Virtual) => "Virtual device — “Crossfade: "@ + c.name@ + "”"@,
        Some(Assignment::Source { name }) => match described {
            Some(d) => d@,
            None => name@,
        },
        Some(Assignment::App { name }) => name@ + " — application"@,
    }
}

/// What feeds a channel, in words.
pub fn describe_feed(c: &ChannelConfig, described: Option<&str>) -> (r: String)
    ensures
        r@ == feed_text(*c, described),
{
    match &c.assignment {
        None => text::copy("No input"),
        Some(Assignment::Virtual) => {
            let mut s = text::join("Virtual device — “Crossfade: ", c.name.as_str());
            s.append("”");
            s
        },
        Some(Assignment::Source { name }) => match described {
            Some(d) => text::copy(d),
            None => name.clone(),
        },
        Some(Assignment::App { name }) => text::join(name.as_str(), " — application"),
    }
}

/// How a channel's effects button is labelled.
pub open spec fn fx_tip_text(vst: nat, lv2: nat) -> Seq<char> {
    if vst > 0 && lv2 > 0 {
        "Effects ("@ + dec(vst) + " VST"@ + " + "@ + dec(lv2) + " LV2"@ + " active)"@
    } else if vst > 0 {
        "Effects ("@ + dec(vst) + " VST"@ + " active)"@
    } else if lv2 > 0 {
        "Effects ("@ + dec(lv2) + " LV2"@ + " active)"@
    } else {
        "Effects"@
    }
}

/// Whether this is the hint on the effects button of a channel.
pub open spec fn fx_tip_says(c: ChannelConfig, r: Seq<char>) -> bool {
    r == fx_tip_text(
        c.vst_plugins@.filter(vst_on()).len(),
        c.effects@.filter(effect_on()).len(),
    )
}

/// How a channel's effects button is labelled: how many VST and LV2 plugins
/// are active.
pub fn fx_tip(c: &ChannelConfig) -> (r: String)
    ensures
        fx_tip_says(*c, r@),
{
    let vst: usize = c.enabled_vsts().len();
    let lv2: usize = c.enabled_effects().len();
    if vst == 0 && lv2 == 0 {
        return text::copy("Effects");
    }
    let mut s = text::copy("Effects (");
    if vst > 0 {
        text::push_decimal(&mut s, vst as u64);
        s.append(" VST");
        if lv2 > 0 {
            s.append(" + ");
        }
    }
    if lv2 > 0 {
        text::push_decimal(&mut s, lv2 as u64);
        s.append(" LV2");
    }
    s.append(" active)");
    s
}

// ---- Wave XLR ---------------------------------------------------------------

/// How long, in milliseconds, the stored Wave XLR startup volumes are enforced
/// after startup or a device (re)appearance. A single write is not enough: the
/// device's node suspends/resumes while the channels wire up, WirePlumber
/// re-applies its own stored route volumes on activation, and the firmware
/// itself occasionally resets to 100%. Whichever write lands last wins, so
/// during this window every refresh that shows a drifted volume re-applies
/// ours. Afterwards the device's physical controls are left alone.
pub const XLR_ENFORCE_WINDOW: u64 = 15000;

/// What enforcing a volume asks for.
#[derive(Clone, Copy, Debug, PartialEq, Eq, Structural)]
pub struct XlrStep {
    /// Until when the volume is enforced; none while the device is absent.
    pub hold: Option<u64>,
    /// The percentage to set.
    pub apply: Option<Level>,
}

/// What enforcing a stored volume asks for.
pub open spec fn xlr_step(
    present: bool,
    stored: Option<Level>,
    drifted: bool,
    hold: Option<u64>,
    now: u64,
) -> XlrStep {
    let deadline = match hold {
        Some(d) => d,
        None => (now + XLR_ENFORCE_WINDOW) as u64,
    };
    if !present {
        XlrStep { hold: None, apply: None }
    } else {
        XlrStep {
            hold: Some(deadline),
            apply: if now <= deadline && drifted {
                stored
            } else {
                None
            },
        }
    }
}

/// Enforce a stored volume. `drifted` says whether the device's volume is off
/// by more than one percent.
pub fn enforce_xlr_volume(present: bool, stored: Option<Level>, drifted: bool, hold: Option<u64>, now: u64) -> (r:
    XlrStep)
    requires
        now <= u64::MAX - XLR_ENFORCE_WINDOW,
    ensures
        r == xlr_step(present, stored, drifted, hold, now),
{
    if !present {
        return XlrStep { hold: None, apply: None };
    }
    let deadline: u64 = match hold {
        Some(d) => d,
        None => now + XLR_ENFORCE_WINDOW,
    };
    if now > deadline || !drifted {
        return XlrStep { hold: Some(deadline), apply: None };
    }
    XlrStep { hold: Some(deadline), apply: stored }
}

/// Whether a slider starts at a level.
pub open spec fn starts_at(stored: Option<Level>, current: Level, r: Level) -> bool {
    r == match stored {
        Some(v) => v,
        None => current,
    }.clamped(crate::level::HUNDRED)
}

/// The level a volume slider starts at: the stored one, else the device's own.
pub fn xlr_initial(stored: Option<Level>, current: Level) -> (r: Level)
    ensures
        starts_at(stored, current, r),
{
    match stored {
        Some(v) => v.clamp_percent(),
        None => current.clamp_percent(),
    }
}

// ---- Prompts and names ------------------------------------------------------

/// Whether to prompt for the audio setup.
#[derive(Clone, Copy, Debug, PartialEq, Eq, Structural)]
pub enum SetupPrompt {
    /// Not now; ask again later.
    NotYet,
    /// Present the setup assistant.
    Assistant,
    /// Show a notice with a shortcut to the assistant.
    Notice,
    /// All is well.
    Nothing,
}

/// How to prompt for the audio setup.
pub open spec fn prompt_of(prompted: bool, visible: bool, setup_done: bool, all_ok: bool) -> SetupPrompt {
    if prompted || !visible {
        SetupPrompt::NotYet
    } else if !setup_done {
        SetupPrompt::Assistant
    } else if !all_ok {
        SetupPrompt::Notice
    } else {
        SetupPrompt::Nothing
    }
}

/// First run: present the setup assistant. Later runs: if the system audio
/// drifted away from the recommended setup, show a notice with a shortcut to
/// the assistant. Runs at most once per session, and only while the mixer is
/// actually visible.
pub fn setup_prompt(prompted: bool, visible: bool, setup_done: bool, all_ok: bool) -> (r: SetupPrompt)
    ensures
        r == prompt_of(prompted, visible, setup_done, all_ok),
{
    if prompted || !visible {
        SetupPrompt::NotYet
    } else if !setup_done {
        SetupPrompt::Assistant
    } else if !all_ok {
        SetupPrompt::Notice
    } else {
        SetupPrompt::Nothing
    }
}

/// How often each channel was renamed, to rebuild its device once the user
/// stops typing.
#[derive(Clone, Debug, PartialEq, Eq)]
pub struct RenameEpochs {
    pub counts: Vec<(u64, u64)>,
}

/// The count of a channel.
pub open spec fn count_is(id: u64) -> spec_fn((u64, u64)) -> bool {
    |c: (u64, u64)| c.0 == id
}

impl RenameEpochs {
    /// How often a channel was renamed.
    pub open spec fn epoch(self, id: u64) -> Option<u64> {
        let i = first(self.counts@, count_is(id));
        if i < self.counts@.len() {
            Some(self.counts@[i].1)
        } else {
            None
        }
    }

    /// No channel was renamed.
    pub fn new() -> (r: RenameEpochs)
        ensures
            r.counts@.len() == 0,
    {
        RenameEpochs { counts: Vec::new() }
    }

    fn find(&self, id: u64) -> (r: usize)
        ensures
            r == first(self.counts@, count_is(id)),
            r <= self.counts@.len(),
    {
        let mut i: usize = 0;
        while i < self.counts.len() && self.counts[i].0 != id
            invariant
                i <= self.counts@.len(),
                forall|j: int| 0 <= j < i ==> !count_is(id)(#[trigger] self.counts@[j]),
            decreases self.counts@.len() - i,
        {
            i = i + 1;
        }
        proof {
            first_is_at(self.counts@, count_is(id), i as int);
        }
        i
    }

    /// What another rename counts.
    pub open spec fn counted(self, id: u64, r: u64, new: RenameEpochs) -> bool {
        &&& r == match self.epoch(id) {
            Some(n) => n + 1,
            None => 1,
        }
        &&& new.epoch(id) == Some(r)
        &&& forall|k: u64| k != id ==> #[trigger] new.epoch(k) == self.epoch(k)
    }

    /// A channel was renamed. Gives the edit's number.
    pub fn bump(&mut self, id: u64) -> (r: u64)
        requires
            old(self).epoch(id) is Some ==> old(self).epoch(id)->0 < u64::MAX,
        ensures
            old(self).counted(id, r, *final(self)),
    {
        let i = self.find(id);
        let ghost before = self.counts@;
        let r: u64 = if i < self.counts.len() {
            let n: u64 = self.counts[i].1 + 1;
            self.counts[i] = (id, n);
            n
        } else {
            self.counts.push((id, 1));
            1
        };
        proof {
            crate::list::first_is_least(before, count_is(id));
            assert forall|j: int| 0 <= j < i implies !count_is(id)(#[trigger] self.counts@[j]) by {
                assert(!count_is(id)(before[j]));
            }
            first_is_at(self.counts@, count_is(id), i as int);
            assert forall|k: u64| k != id implies #[trigger] self.epoch(k) == old(self).epoch(k) by {
                let f = first(before, count_is(k));
                crate::list::first_is_least(before, count_is(k));
                let g = if f == before.len() {
                    self.counts@.len() as int
                } else {
                    f
                };
                assert forall|j: int| 0 <= j < g implies !count_is(k)(#[trigger] self.counts@[j]) by {
                    if j < before.len() && j != i {
                        assert(!count_is(k)(before[j]));
                    }
                }
                if f < before.len() {
                    assert(count_is(k)(before[f]));
                }
                first_is_at(self.counts@, count_is(k), g);
            }
        }
        r
    }

    /// Whether an edit was the last one.
    pub fn is_last(&self, id: u64, epoch: u64) -> (r: bool)
        ensures
            r == (self.epoch(id) == Some(epoch)),
    {
        let i = self.find(id);
        i < self.counts.len() && self.counts[i].1 == epoch
    }
}

/// The application's id.
pub const APP_ID: &'static str = "gg.gleem.Crossfade";

/// Whether this is the entry that starts a program at login.
pub open spec fn autostart_says(exe: Seq<char>, r: Seq<char>) -> bool {
    r
        == "[Desktop Entry]\nType=Application\nName=Gleem Crossfade\nComment=Dual-mix virtual audio mixer for streaming\nExec="@
        + exe + " --hidden\nIcon="@ + APP_ID@ + "\nTerminal=false\nX-GNOME-Autostart-enabled=true\n"@
}

/// The autostart entry that runs an executable with the window hidden, so the
/// virtual devices come up in the background.
pub fn autostart_entry(exe: &str) -> (r: String)
    ensures
        autostart_says(exe@, r@),
{
    let mut s = text::join(
        "[Desktop Entry]\nType=Application\nName=Gleem Crossfade\nComment=Dual-mix virtual audio mixer for streaming\nExec=",
        exe,
    );
    s.append(" --hidden\nIcon=");
    s.append(APP_ID);
    s.append("\nTerminal=false\nX-GNOME-Autostart-enabled=true\n");
    s
}

// ---- What the interface offers ----------------------------------------------

/// Every capture device is offered under its description, among the real devices
/// or among the monitors; choosing it assigns that device.
pub proof fn every_source_is_offered(s: Seq<SourceEntry>, n: int, i: int)
    requires
        0 <= i < n,
    ensures
        source_items(s, s[i].is_monitor, n).contains(
            ItemView { label: s[i].description@, assignment: Some(AssignmentView::Source(s[i].name@)) },
        ),
    decreases n,
{
    let m = s[i].is_monitor;
    let x = ItemView { label: s[i].description@, assignment: Some(AssignmentView::Source(s[i].name@)) };
    let rest = source_items(s, m, n - 1);
    let all = source_items(s, m, n);
    if i == n - 1 {
        assert(all[rest.len() as int] == x);
    } else {
        every_source_is_offered(s, n - 1, i);
        let k = choose|k: int| 0 <= k < rest.len() && rest[k] == x;
        assert(all[k] == x);
    }
}

/// No device is offered among those of the other kind.
pub proof fn only_that_kind_is_offered(s: Seq<SourceEntry>, monitors: bool, n: int, k: int)
    requires
        0 <= n <= s.len(),
        0 <= k < source_items(s, monitors, n).len(),
    ensures
        exists|i: int|
            0 <= i < n && (#[trigger] s[i]).is_monitor == monitors && source_items(s, monitors, n)[k] == (ItemView {
                label: s[i].description@,
                assignment: Some(AssignmentView::Source(s[i].name@)),
            }),
    decreases n,
{
    if n > 0 {
        let rest = source_items(s, monitors, n - 1);
        if k < rest.len() {
            only_that_kind_is_offered(s, monitors, n - 1, k);
            let i = choose|i: int|
                0 <= i < n - 1 && (#[trigger] s[i]).is_monitor == monitors && rest[k] == (ItemView {
                    label: s[i].description@,
                    assignment: Some(AssignmentView::Source(s[i].name@)),
                });
            assert(s[i].is_monitor == monitors);
        } else {
            assert(s[n - 1].is_monitor == monitors);
        }
    }
}

/// The inputs come in groups: none, a virtual device, the capture devices, the
/// applications, and last the monitors of other devices.
pub proof fn inputs_come_in_groups(sources: Seq<SourceEntry>, apps: Seq<String>, i: int)
    ensures
        ({
            let all = all_items(sources, apps);
            let mics = source_items(sources, false, sources.len() as int);
            let monitors = source_items(sources, true, sources.len() as int);
            let (a, b) = (2 + mics.len(), 2 + mics.len() + apps.len());
            &&& all.len() == b + monitors.len()
            &&& all[0].assignment is None
            &&& all[0].label == "No Input"@
            &&& all[1].assignment == Some(AssignmentView::Virtual)
            &&& 0 <= i < mics.len() ==> all[2 + i] == mics[i]
            &&& 0 <= i < apps.len() ==> all[a + i].assignment == Some(AssignmentView::App(apps[i]@)) && all[a
                + i].label == apps[i]@ + " — Application"@
            &&& 0 <= i < monitors.len() ==> all[b + i] == monitors[i]
        }),
{
}

/// What stands for a missing input says which one is missing.
pub proof fn missing_inputs_are_named(name: String)
    ensures
        text::begins(placeholder(Assignment::Source { name }), name@),
        text::begins(placeholder(Assignment::App { name }), name@),
        placeholder(Assignment::Source { name }) != name@,
        placeholder(Assignment::Source { name }) != placeholder(Assignment::App { name }),
{
    reveal_strlit(" (unavailable)");
    reveal_strlit(" (not running)");
    let a = placeholder(Assignment::Source { name });
    let b = placeholder(Assignment::App { name });
    assert(a.subrange(0, name@.len() as int) =~= name@);
    assert(b.subrange(0, name@.len() as int) =~= name@);
    assert(a.len() == name@.len() + 14);
    let k = name@.len() as int + 2;
    assert(a[k] == 'u' && b[k] == 'n');
}

/// The monitor device goes by its description while it is there.
pub proof fn monitor_device_is_described(cfg: Config, sinks: Seq<SinkEntry>, i: int)
    requires
        cfg.master.monitor_device is Some,
        0 <= i < sinks.len(),
        sinks[i].name@ == cfg.master.monitor_device->0@,
        forall|j: int| 0 <= j < i ==> (#[trigger] sinks[j]).name@ != sinks[i].name@,
    ensures
        monitor_label_text(cfg, sinks) == sinks[i].description@,
{
    first_is_at(sinks, device_is(cfg.master.monitor_device->0@), i);
}

/// What feeds a channel is named: the device as the server describes it, the
/// application, or the channel's own device.
pub proof fn feeds_are_named(c: ChannelConfig, described: Option<&str>)
    ensures
        c.assignment is None ==> feed_text(c, described) == "No input"@,
        c.assignment is Some && c.assignment->0 is Source && described is Some ==> feed_text(c, described)
            == described->0@,
        c.assignment is Some && c.assignment->0 is Source && described is None ==> feed_text(c, described) == (
        c.assignment->0)->Source_name@,
        c.assignment is Some && c.assignment->0 is App ==> text::begins(
            feed_text(c, described),
            (c.assignment->0)->App_name@,
        ),
        c.assignment is Some && c.assignment->0 is Virtual ==> text::occurs(feed_text(c, described), c.name@),
{
    let t = feed_text(c, described);
    if c.assignment is Some && c.assignment->0 is App {
        let n = (c.assignment->0)->App_name@;
        assert(t.subrange(0, n.len() as int) =~= n);
    }
    if c.assignment is Some && c.assignment->0 is Virtual {
        let i = "Virtual device — “Crossfade: "@.len() as int;
        assert(t.subrange(i, i + c.name@.len()) =~= c.name@);
        assert(text::stands_at(t, c.name@, i));
    }
}

/// The effects button counts what is active, each kind by itself.
pub proof fn active_effects_are_counted(vst: nat, lv2: nat)
    ensures
        fx_tip_text(0, 0) == "Effects"@,
        vst > 0 ==> text::occurs(fx_tip_text(vst, lv2), "("@ + dec(vst) + " VST"@),
        lv2 > 0 ==> text::occurs(fx_tip_text(vst, lv2), dec(lv2) + " LV2 active)"@),
        vst > 0 && lv2 == 0 ==> fx_tip_text(vst, lv2) == "Effects ("@ + dec(vst) + " VST active)"@,
        vst == 0 && lv2 > 0 ==> fx_tip_text(vst, lv2) == "Effects ("@ + dec(lv2) + " LV2 active)"@,
{
    reveal_strlit("Effects (");
    reveal_strlit("(");
    reveal_strlit(" VST");
    reveal_strlit(" LV2");
    reveal_strlit(" active)");
    reveal_strlit(" VST active)");
    reveal_strlit(" LV2 active)");
    assert(" VST"@ + " active)"@ =~= " VST active)"@);
    assert(" LV2"@ + " active)"@ =~= " LV2 active)"@);
    let t = fx_tip_text(vst, lv2);
    if vst > 0 {
        let n = "("@ + dec(vst) + " VST"@;
        assert(t.subrange(8, (8 + n.len()) as int) =~= n);
        assert(text::stands_at(t, n, 8));
        if lv2 == 0 {
            assert(t =~= "Effects ("@ + dec(vst) + " VST active)"@);
        }
    }
    if lv2 > 0 {
        let n = dec(lv2) + " LV2 active)"@;
        assert(t.subrange(t.len() - n.len(), t.len() as int) =~= n);
        assert(text::stands_at(t, n, t.len() - n.len()));
        if vst == 0 {
            assert(t =~= "Effects ("@ + dec(lv2) + " LV2 active)"@);
        }
    }
}

/// A stored volume is enforced for fifteen seconds from the device's appearance
/// and not after, only where the device is there and differs; when the device
/// goes, the next appearance starts anew.
pub proof fn stored_volumes_hold_for_a_while(stored: Option<Level>, drifted: bool, hold: Option<u64>, now: u64, later: u64)
    requires
        now <= u64::MAX - 15000,
        now <= later <= u64::MAX - 15000,
    ensures
        xlr_step(false, stored, drifted, hold, now) == (XlrStep { hold: None, apply: None }),
        xlr_step(true, stored, true, None, now).apply == stored,
        xlr_step(true, stored, false, hold, now).apply is None,
        ({
            let first = xlr_step(true, stored, drifted, None, now);
            let second = xlr_step(true, stored, true, first.hold, later);
            &&& second.hold == first.hold
            &&& later - now <= 15000 ==> second.apply == stored
            &&& later - now > 15000 ==> second.apply is None
        }),
{
}

/// The setup is asked about once, while it can be seen: the assistant where it
/// never ran, a notice where something is wrong, and nothing else.
pub proof fn setup_is_asked_about_once(setup_done: bool, all_ok: bool)
    ensures
        prompt_of(true, true, setup_done, all_ok) is NotYet,
        prompt_of(false, false, setup_done, all_ok) is NotYet,
        prompt_of(false, true, false, all_ok) is Assistant,
        prompt_of(false, true, true, false) is Notice,
        prompt_of(false, true, true, true) is Nothing,
{
}

/// A selector shows what is assigned as selected. An assignment that is not among
/// the inputs is shown all the same, behind them; without one the first entry is
/// selected. No input that was offered is lost.
pub proof fn assignment_stays_selected(items: Seq<InputItem>, current: Option<Assignment>, r: Entries, i: int)
    requires
        entries_of(items, current, r),
        0 <= i < items.len(),
    ensures
        r.items@[i]@ == items[i]@,
        same_assignment(items[i].assignment, current) ==> r.items@.len() == items.len() && r.selected <= i
            && same_assignment(items[r.selected as int].assignment, current),
        current is Some && (forall|j: int| 0 <= j < items.len() ==> !same_assignment((#[trigger] items[j]).assignment, current))
            ==> {
            &&& r.items@.len() == items.len() + 1
            &&& r.selected == items.len()
            &&& r.items@[items.len() as int]@.assignment == assignment_view(current)
            &&& r.items@[items.len() as int]@.label == placeholder(current->0)
        },
        current is None && (forall|j: int| 0 <= j < items.len() ==> !same_assignment((#[trigger] items[j]).assignment, current))
            ==> r.items@ == items && r.selected == 0,
{
    let k = first(items, assigned(current));
    crate::list::first_is_least(items, assigned(current));
    if k < items.len() {
        assert(assigned(current)(items[k]));
    } else {
        assert(!assigned(current)(items[i]));
        if current is Some {
            let all = item_views(r.items@);
            let a = item_views(items);
            assert(all.len() == r.items@.len());
            assert(all[i] == r.items@[i]@);
            assert(a[i] == items[i]@);
            assert(all[items.len() as int] == r.items@[items.len() as int]@);
        }
    }
}

/// Every output can be chosen by its name and is shown as it is described; the
/// first choice is the system default.
pub proof fn every_output_is_offered(sinks: Seq<SinkEntry>, r: Seq<SinkItem>, i: int)
    requires
        lists_outputs(sinks, r),
        0 <= i < sinks.len(),
    ensures
        r.len() == sinks.len() + 1,
        r[0].name is None && r[0].label@ == "System Default"@,
        r[i + 1].name is Some && r[i + 1].name->0@ == sinks[i].name@,
        r[i + 1].label@ == sinks[i].description@,
{
}

/// The configured output is selected where it is there, else the system default.
pub proof fn configured_output_is_selected(items: Seq<SinkItem>, current: Option<String>, r: usize, i: int)
    requires
        selects_output(items, current, r),
        0 <= i < items.len(),
    ensures
        same_text(items[i].name, current) ==> r <= i && same_text(items[r as int].name, current),
        (forall|j: int| 0 <= j < items.len() ==> !same_text((#[trigger] items[j]).name, current)) ==> r == 0,
{
    let k = first(items, output_is(current));
    crate::list::first_is_least(items, output_is(current));
    if k < items.len() {
        assert(output_is(current)(items[k]));
    } else {
        assert(!output_is(current)(items[i]));
    }
}

/// A slider starts at what was stored, else at what the device has, and never
/// outside its range.
pub proof fn sliders_start_in_range(stored: Level, current: Level, r: Level)
    ensures
        starts_at(Some(stored), current, r) && stored.bits <= 0x4059_0000_0000_0000 ==> r == stored,
        starts_at(Some(stored), current, r) && 0x4059_0000_0000_0000 < stored.bits < 0x7ff0_0000_0000_0000 ==> r.bits
            == 0x4059_0000_0000_0000,
        starts_at(None, current, r) && current.bits <= 0x4059_0000_0000_0000 ==> r == current,
        starts_at(None, current, r) && 0x4059_0000_0000_0000 < current.bits < 0x7ff0_0000_0000_0000 ==> r.bits
            == 0x4059_0000_0000_0000,
{
}

/// Of several renames of a channel only the last counts, whatever happens to
/// others in between.
pub proof fn only_the_last_rename_counts(
    a: RenameEpochs,
    id: u64,
    other: u64,
    x: u64,
    b: RenameEpochs,
    y: u64,
    c: RenameEpochs,
)
    requires
        a.counted(id, x, b),
        b.counted(other, y, c),
    ensures
        b.epoch(id) == Some(x),
        other != id ==> c.epoch(id) == Some(x),
        other == id ==> c.epoch(id) != Some(x) && y == x + 1,
        a.epoch(id) != Some(x),
        a.epoch(id) is None ==> x == 1,
{
}

/// The entry starts the program that was given, without its window.
pub proof fn autostart_starts_hidden(exe: Seq<char>, r: Seq<char>)
    requires
        autostart_says(exe, r),
    ensures
        text::begins(r, "[Desktop Entry]\n"@),
        text::occurs(r, "\nExec="@ + exe + " --hidden\n"@),
        text::occurs(r, "\nIcon=gg.gleem.Crossfade\n"@),
{
    reveal_strlit("[Desktop Entry]\n");
    reveal_strlit("\nExec=");
    reveal_strlit(" --hidden\n");
    reveal_strlit(" --hidden\nIcon=");
    reveal_strlit("gg.gleem.Crossfade");
    reveal_strlit("\nIcon=gg.gleem.Crossfade\n");
    reveal_strlit("\nTerminal=false\nX-GNOME-Autostart-enabled=true\n");
    reveal_strlit(
        "[Desktop Entry]\nType=Application\nName=Gleem Crossfade\nComment=Dual-mix virtual audio mixer for streaming\nExec=",
    );
    let head =
        "[Desktop Entry]\nType=Application\nName=Gleem Crossfade\nComment=Dual-mix virtual audio mixer for streaming\nExec="@;
    let a = "[Desktop Entry]\n"@;
    assert(r.subrange(0, a.len() as int) =~= a);
    let b = "\nExec="@ + exe + " --hidden\n"@;
    let i = head.len() - "\nExec="@.len();
    assert(r.subrange(i, i + b.len()) =~= b);
    assert(text::stands_at(r, b, i));
    let c = "\nIcon=gg.gleem.Crossfade\n"@;
    let k = (head.len() + exe.len() + 9) as int;
    assert(r.subrange(k, k + c.len()) =~= c);
    assert(text::stands_at(r, c, k));
}

/// The hint counts what is switched on, and nothing that is not.
pub proof fn hint_counts_what_is_on(c: ChannelConfig, r: Seq<char>)
    requires
        fx_tip_says(c, r),
    ensures
        (forall|i: int| 0 <= i < c.effects@.len() ==> !(#[trigger] c.effects@[i]).enabled) && (forall|i: int|
            0 <= i < c.vst_plugins@.len() ==> !(#[trigger] c.vst_plugins@[i]).enabled) ==> r == "Effects"@,
        (forall|i: int| 0 <= i < c.effects@.len() ==> (#[trigger] c.effects@[i]).enabled) && c.effects@.len() > 0
            ==> text::occurs(r, dec(c.effects@.len()) + " LV2 active)"@),
        (forall|i: int| 0 <= i < c.vst_plugins@.len() ==> (#[trigger] c.vst_plugins@[i]).enabled)
            && c.vst_plugins@.len() > 0 ==> text::occurs(r, "("@ + dec(c.vst_plugins@.len()) + " VST"@),
{
    let e = c.effects@.filter(effect_on());
    let v = c.vst_plugins@.filter(vst_on());
    crate::list::filter_keeps(c.effects@, effect_on());
    crate::list::filter_keeps(c.vst_plugins@, vst_on());
    active_effects_are_counted(v.len(), e.len());
    if e.len() > 0 {
        assert(effect_on()(e[0]));
        assert(c.effects@.contains(e[0]));
    }
    if v.len() > 0 {
        assert(vst_on()(v[0]));
        assert(c.vst_plugins@.contains(v[0]));
    }
    if forall|i: int| 0 <= i < c.effects@.len() ==> (#[trigger] c.effects@[i]).enabled {
        crate::list::filter_all(c.effects@, effect_on());
    }
    if forall|i: int| 0 <= i < c.vst_plugins@.len() ==> (#[trigger] c.vst_plugins@[i]).enabled {
        crate::list::filter_all(c.vst_plugins@, vst_on());
    }
}

} // verus!
