//! The tray indicator: what it shows of the microphone channel, its menu, and
//! what a click does.

use vstd::prelude::*;

use crate::audio::Mix;
use crate::config::Config;
use crate::control::ControlAction;
use crate::devices::APP_ID;
use crate::list::{first, first_is_at};
use crate::setup;
use crate::setup::mic_at;
use crate::text;

verus! {

pub const ID_ROOT: i32 = 0;

pub const ID_MUTE: i32 = 1;

pub const ID_SEPARATOR: i32 = 2;

pub const ID_SHOW: i32 = 3;

pub const ID_QUIT: i32 = 4;

/// Where the menu is exported.
pub const MENU_PATH: &'static str = "/MenuBar";

/// Standard icon names, so every panel can recolor them to its own foreground.
pub const ICON_LIVE: &'static str = "audio-input-microphone-symbolic";

pub const ICON_MUTED: &'static str = "microphone-sensitivity-muted-symbolic";

/// What the indicator shows: the microphone channel's state on the mixes the
/// audience hears.
#[derive(Clone, Copy, Debug, PartialEq, Eq, Structural)]
pub struct MicState {
    /// `None` when the config has no usable microphone channel.
    pub channel: Option<u64>,
    pub muted: bool,
}

/// The state of the microphone channel.
pub open spec fn mic_state(cfg: Config) -> MicState {
    if mic_at(cfg) < cfg.channels@.len() {
        MicState {
            channel: Some(cfg.channels@[mic_at(cfg)].id),
            muted: cfg.channels@[mic_at(cfg)].stream_muted,
        }
    } else {
        MicState { channel: None, muted: false }
    }
}

/// A text in which underscores are doubled.
pub open spec fn escaped(s: Seq<char>) -> Seq<char>
    decreases s.len(),
{
    if s.len() == 0 {
        Seq::empty()
    } else if s.last() == '_' {
        escaped(s.drop_last()).push('_').push('_')
    } else {
        escaped(s.drop_last()).push(s.last())
    }
}

/// The label of the menu's mute item.
pub open spec fn mute_text(cfg: Config) -> Seq<char> {
    if mic_at(cfg) < cfg.channels@.len() {
        "Mute "@ + escaped(cfg.channels@[mic_at(cfg)].name@)
    } else {
        "Mute Microphone"@
    }
}

/// The state of the microphone channel.
pub fn state(cfg: &Config) -> (r: MicState)
    ensures
        r == mic_state(*cfg),
{
    match setup::mic_channel(cfg) {
        Some(c) => MicState { channel: Some(c.id), muted: c.stream_muted },
        None => MicState { channel: None, muted: false },
    }
}

/// A text in which underscores, which mark mnemonics in a menu, are doubled.
pub fn escape(s: &str) -> (r: String)
    ensures
        r@ == escaped(s@),
{
    let v = text::chars_of(s);
    let mut out = String::new();
    let mut i: usize = 0;
    assert(s@.take(0) =~= Seq::<char>::empty());
    while i < v.len()
        invariant
            v@ == s@,
            i <= v@.len(),
            out@ == escaped(s@.take(i as int)),
        decreases v@.len() - i,
    {
        assert(s@.take(i + 1).drop_last() =~= s@.take(i as int));
        if v[i] == '_' {
            out.push('_');
        }
        out.push(v[i]);
        i = i + 1;
    }
    assert(s@.take(i as int) =~= s@);
    out
}

/// The label of the menu's mute item.
pub fn mute_label(cfg: &Config) -> (r: String)
    ensures
        r@ == mute_text(*cfg),
{
    match setup::mic_channel(cfg) {
        Some(c) => {
            let name = escape(c.name.as_str());
            text::join("Mute ", name.as_str())
        },
        None => text::copy("Mute Microphone"),
    }
}

/// The icon of a configuration.
pub open spec fn icon_of(cfg: Config) -> Seq<char> {
    if mic_state(cfg).muted {
        ICON_MUTED@
    } else {
        ICON_LIVE@
    }
}

/// The tooltip of a configuration.
pub open spec fn tooltip_of(cfg: Config) -> Seq<char> {
    if mic_state(cfg).channel is None {
        "No microphone channel"@
    } else if mic_state(cfg).muted {
        "Microphone muted — the stream cannot hear you"@
    } else {
        "Microphone live on the stream mix"@
    }
}

/// The indicator's icon.
pub fn icon_name(cfg: &Config) -> (r: &'static str)
    ensures
        r@ == icon_of(*cfg),
{
    if state(cfg).muted {
        ICON_MUTED
    } else {
        ICON_LIVE
    }
}

/// The indicator's tooltip.
pub fn tooltip_text(cfg: &Config) -> (r: &'static str)
    ensures
        r@ == tooltip_of(*cfg),
{
    let s = state(cfg);
    if s.channel.is_none() {
        return "No microphone channel";
    }
    if s.muted {
        "Microphone muted — the stream cannot hear you"
    } else {
        "Microphone live on the stream mix"
    }
}

/// What was last announced to the host.
#[derive(Clone, Debug, PartialEq, Eq)]
pub struct Tray {
    pub revision: u32,
    /// State the last announced change was about, so repeated refreshes stay
    /// silent on the bus.
    pub shown: MicState,
    /// The label of the mute item, kept beside `shown` for the same reason.
    pub label: String,
    pub name_owned: bool,
    pub watcher_present: bool,
}

impl Tray {
    /// The indicator as it starts.
    pub fn new(cfg: &Config) -> (r: Tray)
        ensures
            r.revision == 1,
            r.shown == mic_state(*cfg),
            r.label@ == mute_text(*cfg),
            !r.name_owned,
            !r.watcher_present,
    {
        Tray {
            revision: 1,
            shown: state(cfg),
            label: mute_label(cfg),
            name_owned: false,
            watcher_present: false,
        }
    }

    /// Whether what was announced is still what there is to show.
    pub open spec fn is_current(self, cfg: Config) -> bool {
        self.shown == mic_state(cfg) && self.label@ == mute_text(cfg)
    }

    /// What a refresh announces and leaves behind.
    pub open spec fn announced(self, cfg: Config, r: Option<u32>, new: Tray) -> bool {
        &&& r is Some <==> !self.is_current(cfg)
        &&& r is None ==> new == self
        &&& r is Some ==> {
            &&& r->0 == if self.revision == u32::MAX {
                1
            } else {
                self.revision + 1
            }
            &&& new.is_current(cfg)
            &&& new == (Tray {
                revision: r->0,
                shown: mic_state(cfg),
                label: new.label,
                ..self
            })
        }
        &&& new.is_current(cfg)
    }

    /// Announce a changed mute state to the host. Cheap to call on every
    /// mixer change: nothing goes on the bus unless something visible moved.
    /// Gives the menu's new revision, which is never zero.
    pub fn refresh(&mut self, cfg: &Config) -> (r: Option<u32>)
        ensures
            old(self).announced(*cfg, r, *final(self)),
    {
        let now = state(cfg);
        let label = mute_label(cfg);
        if self.shown == now && text::same(self.label.as_str(), label.as_str()) {
            return None;
        }
        self.shown = now;
        self.label = label;
        self.revision = if self.revision == u32::MAX {
            1
        } else {
            self.revision + 1
        };
        Some(self.revision)
    }

    /// Whether the item can be handed to the watcher.
    pub fn can_register(&self) -> (r: bool)
        ensures
            r == (self.name_owned && self.watcher_present),
    {
        self.name_owned && self.watcher_present
    }

    /// The properties of a menu entry, as the host expects them.
    pub fn item_properties(&self, cfg: &Config, id: i32) -> (r: Vec<MenuProperty>)
        ensures
            property_views(r@) == menu_properties(self.label@, mic_state(*cfg), id),
    {
        let mut v: Vec<MenuProperty> = Vec::new();
        if id == ID_ROOT {
            v.push(MenuProperty::Text("children-display", text::copy("submenu")));
        } else if id == ID_MUTE {
            let s = state(cfg);
            v.push(MenuProperty::Text("label", self.label.clone()));
            v.push(MenuProperty::Text("toggle-type", text::copy("checkmark")));
            v.push(
                MenuProperty::Number(
                    "toggle-state",
                    if s.muted {
                        1
                    } else {
                        0
                    },
                ),
            );
            v.push(MenuProperty::Flag("enabled", s.channel.is_some()));
        } else if id == ID_SEPARATOR {
            v.push(MenuProperty::Text("type", text::copy("separator")));
        } else if id == ID_SHOW {
            v.push(MenuProperty::Text("label", text::copy("Show Crossfade")));
            v.push(MenuProperty::Text("icon-name", text::copy("audio-card-symbolic")));
        } else if id == ID_QUIT {
            v.push(MenuProperty::Text("label", text::copy("Quit")));
            v.push(MenuProperty::Text("icon-name", text::copy("application-exit-symbolic")));
        }
        assert(property_views(v@) =~= menu_properties(self.label@, mic_state(*cfg), id));
        v
    }
}

/// A property of a menu entry.
#[derive(Clone, Debug, PartialEq, Eq)]
pub enum MenuProperty {
    Text(&'static str, String),
    Number(&'static str, i32),
    Flag(&'static str, bool),
}

/// A property as plain values.
pub enum PropertyView {
    Text(Seq<char>, Seq<char>),
    Number(Seq<char>, int),
    Flag(Seq<char>, bool),
}

impl View for MenuProperty {
    type V = PropertyView;

    open spec fn view(&self) -> PropertyView {
        match self {
            MenuProperty::Text(k, v) => PropertyView::Text(k@, v@),
            MenuProperty::Number(k, v) => PropertyView::Number(k@, *v as int),
            MenuProperty::Flag(k, v) => PropertyView::Flag(k@, *v),
        }
    }
}

/// Properties as plain values.
pub open spec fn property_views(s: Seq<MenuProperty>) -> Seq<PropertyView> {
    Seq::new(s.len(), |i: int| s[i]@)
}

/// The properties of a menu entry.
pub open spec fn menu_properties(label: Seq<char>, s: MicState, id: i32) -> Seq<PropertyView> {
    if id == ID_ROOT {
        seq![PropertyView::Text("children-display"@, "submenu"@)]
    } else if id == ID_MUTE {
        seq![
            PropertyView::Text("label"@, label),
            PropertyView::Text("toggle-type"@, "checkmark"@),
            PropertyView::Number("toggle-state"@, if s.muted { 1 } else { 0 }),
            PropertyView::Flag("enabled"@, s.channel is Some),
        ]
    } else if id == ID_SEPARATOR {
        seq![PropertyView::Text("type"@, "separator"@)]
    } else if id == ID_SHOW {
        seq![
            PropertyView::Text("label"@, "Show Crossfade"@),
            PropertyView::Text("icon-name"@, "audio-card-symbolic"@),
        ]
    } else if id == ID_QUIT {
        seq![
            PropertyView::Text("label"@, "Quit"@),
            PropertyView::Text("icon-name"@, "application-exit-symbolic"@),
        ]
    } else {
        Seq::empty()
    }
}

/// The entries below a menu entry.
pub open spec fn child_ids(parent: i32) -> Seq<i32> {
    if parent == ID_ROOT {
        seq![ID_MUTE, ID_SEPARATOR, ID_SHOW, ID_QUIT]
    } else {
        Seq::empty()
    }
}

/// The entries below a menu entry: only the root has any.
pub fn children(parent: i32) -> (r: Vec<i32>)
    ensures
        r@ == child_ids(parent),
{
    let mut v: Vec<i32> = Vec::new();
    if parent == ID_ROOT {
        v.push(ID_MUTE);
        v.push(ID_SEPARATOR);
        v.push(ID_SHOW);
        v.push(ID_QUIT);
    }
    assert(v@ =~= child_ids(parent));
    v
}

/// Whether these are the entries that were asked for.
pub open spec fn group_of(asked: Option<Vec<i32>>, r: Seq<i32>) -> bool {
    r == if asked is Some && asked->0@.len() > 0 {
        asked->0@
    } else {
        child_ids(ID_ROOT)
    }
}

/// The entries whose properties a call is about: those asked for, or all.
pub fn group_ids(asked: Option<Vec<i32>>) -> (r: Vec<i32>)
    ensures
        group_of(asked, r@),
{
    match asked {
        Some(ids) => if ids.len() > 0 {
            ids
        } else {
            children(ID_ROOT)
        },
        None => children(ID_ROOT),
    }
}

/// What a click on a menu entry does.
#[derive(Clone, Copy, Debug, PartialEq, Eq, Structural)]
pub enum TrayAction {
    Perform(ControlAction),
    Present,
    Quit,
}

/// What a click on a menu entry does. The mute entry mutes towards everyone
/// who is listening; the monitor mix is deliberately left alone: it is the
/// user's own headphones.
pub open spec fn click_actions(cfg: Config, id: i32) -> Seq<TrayAction> {
    let s = mic_state(cfg);
    if id == ID_MUTE {
        match s.channel {
            None => Seq::empty(),
            Some(c) => {
                let stream = TrayAction::Perform(
                    ControlAction::SetChannelMute { id: c, mix: Mix::Stream, muted: Some(!s.muted) },
                );
                let vod = TrayAction::Perform(
                    ControlAction::SetChannelMute { id: c, mix: Mix::Vod, muted: Some(!s.muted) },
                );
                if cfg.vod_mix_enabled {
                    seq![stream, vod]
                } else {
                    seq![stream]
                }
            },
        }
    } else if id == ID_SHOW {
        seq![TrayAction::Present]
    } else if id == ID_QUIT {
        seq![TrayAction::Quit]
    } else {
        Seq::empty()
    }
}

/// What a click on a menu entry does.
pub fn activate_item(cfg: &Config, id: i32) -> (r: Vec<TrayAction>)
    ensures
        r@ == click_actions(*cfg, id),
{
    let mut v: Vec<TrayAction> = Vec::new();
    if id == ID_MUTE {
        let s = state(cfg);
        if let Some(c) = s.channel {
            v.push(
                TrayAction::Perform(
                    ControlAction::SetChannelMute { id: c, mix: Mix::Stream, muted: Some(!s.muted) },
                ),
            );
            if cfg.vod_mix_enabled {
                v.push(
                    TrayAction::Perform(
                        ControlAction::SetChannelMute { id: c, mix: Mix::Vod, muted: Some(!s.muted) },
                    ),
                );
            }
        }
    } else if id == ID_SHOW {
        v.push(TrayAction::Present);
    } else if id == ID_QUIT {
        v.push(TrayAction::Quit);
    }
    assert(v@ =~= click_actions(*cfg, id));
    v
}

/// A menu event: the entry, and what happened to it.
#[derive(Clone, Debug, PartialEq, Eq)]
pub struct MenuEvent {
    pub id: i32,
    pub kind: String,
}

/// The entries that were clicked.
pub open spec fn clicked_ids(s: Seq<MenuEvent>) -> Seq<i32>
    decreases s.len(),
{
    if s.len() == 0 {
        Seq::empty()
    } else if s.last().kind@ == "clicked"@ {
        clicked_ids(s.drop_last()).push(s.last().id)
    } else {
        clicked_ids(s.drop_last())
    }
}

/// The entries that were clicked; other events are ignored.
pub fn clicked(events: &Vec<MenuEvent>) -> (r: Vec<i32>)
    ensures
        r@ == clicked_ids(events@),
{
    let mut v: Vec<i32> = Vec::new();
    let mut i: usize = 0;
    assert(events@.take(0) =~= Seq::<MenuEvent>::empty());
    while i < events.len()
        invariant
            i <= events@.len(),
            v@ == clicked_ids(events@.take(i as int)),
        decreases events@.len() - i,
    {
        assert(events@.take(i + 1).drop_last() =~= events@.take(i as int));
        if text::same(events[i].kind.as_str(), "clicked") {
            v.push(events[i].id);
        }
        i = i + 1;
    }
    assert(events@.take(i as int) =~= events@);
    v
}

/// A call of the item itself.
#[derive(Clone, Copy, Debug, PartialEq, Eq, Structural)]
pub enum ItemCall {
    /// Bring the window back.
    Present,
    /// The host draws the menu itself; nothing to do.
    Nothing,
    UnknownMethod,
}

/// What a property of the indicator or its menu is answered.
#[derive(Clone, Copy, Debug, PartialEq, Eq)]
pub enum PropertyValue {
    Text(&'static str),
    Flag(bool),
    Number(u32),
    /// The path of an object.
    Path(&'static str),
    /// No texts.
    NoTexts,
    /// A tooltip: its icon and its text.
    ToolTip(&'static str, &'static str),
}

/// Whether a property is answered with a text.
pub open spec fn is_text(r: PropertyValue, s: Seq<char>) -> bool {
    r is Text && r->Text_0@ == s
}

/// Whether a value is that of a property of the indicator.
pub open spec fn item_answer(cfg: Config, property: Seq<char>, r: PropertyValue) -> bool {
    if property == "Category"@ {
        is_text(r, "ApplicationStatus"@)
    } else if property == "Id"@ {
        is_text(r, APP_ID@)
    } else if property == "Title"@ {
        is_text(r, "Gleem Crossfade"@)
    } else if property == "Status"@ {
        is_text(r, "Active"@)
    } else if property == "IconName"@ {
        is_text(r, icon_of(cfg))
    } else if property == "ToolTip"@ {
        r is ToolTip && r->ToolTip_0@ == icon_of(cfg) && r->ToolTip_1@ == tooltip_of(cfg)
    } else if property == "ItemIsMenu"@ {
        r == PropertyValue::Flag(false)
    } else if property == "Menu"@ {
        r is Path && r->Path_0@ == MENU_PATH@
    } else {
        is_text(r, ""@)
    }
}

/// The properties of the indicator. It is no menu: a left click presents the
/// window, and the menu is what a right click opens.
pub fn item_property(cfg: &Config, property: &str) -> (r: PropertyValue)
    ensures
        item_answer(*cfg, property@, r),
{
    if text::same(property, "Category") {
        PropertyValue::Text("ApplicationStatus")
    } else if text::same(property, "Id") {
        PropertyValue::Text(APP_ID)
    } else if text::same(property, "Title") {
        PropertyValue::Text("Gleem Crossfade")
    } else if text::same(property, "Status") {
        PropertyValue::Text("Active")
    } else if text::same(property, "IconName") {
        PropertyValue::Text(icon_name(cfg))
    } else if text::same(property, "ToolTip") {
        PropertyValue::ToolTip(icon_name(cfg), tooltip_text(cfg))
    } else if text::same(property, "ItemIsMenu") {
        PropertyValue::Flag(false)
    } else if text::same(property, "Menu") {
        PropertyValue::Path(MENU_PATH)
    } else {
        PropertyValue::Text("")
    }
}

/// Whether a value is that of a property of the menu.
pub open spec fn menu_answer(property: Seq<char>, r: PropertyValue) -> bool {
    if property == "Version"@ {
        r == PropertyValue::Number(3)
    } else if property == "Status"@ {
        is_text(r, "normal"@)
    } else if property == "TextDirection"@ {
        is_text(r, "ltr"@)
    } else if property == "IconThemePath"@ {
        r is NoTexts
    } else {
        is_text(r, ""@)
    }
}

/// The properties of the menu.
pub fn menu_property(property: &str) -> (r: PropertyValue)
    ensures
        menu_answer(property@, r),
{
    if text::same(property, "Version") {
        PropertyValue::Number(3)
    } else if text::same(property, "Status") {
        PropertyValue::Text("normal")
    } else if text::same(property, "TextDirection") {
        PropertyValue::Text("ltr")
    } else if text::same(property, "IconThemePath") {
        PropertyValue::NoTexts
    } else {
        PropertyValue::Text("")
    }
}

/// Whether a call is the one a method of the indicator stands for.
pub open spec fn item_asked(method: Seq<char>, r: ItemCall) -> bool {
    r == if method == "Activate"@ || method == "SecondaryActivate"@ {
        ItemCall::Present
    } else if method == "ContextMenu"@ || method == "Scroll"@ {
        ItemCall::Nothing
    } else {
        ItemCall::UnknownMethod
    }
}

/// What a call of the item asks for.
pub fn item_call(method: &str) -> (r: ItemCall)
    ensures
        item_asked(method@, r),
{
    if text::same(method, "Activate") || text::same(method, "SecondaryActivate") {
        ItemCall::Present
    } else if text::same(method, "ContextMenu") || text::same(method, "Scroll") {
        ItemCall::Nothing
    } else {
        ItemCall::UnknownMethod
    }
}

/// A call of the menu.
#[derive(Clone, Copy, Debug, PartialEq, Eq, Structural)]
pub enum MenuCall {
    GetLayout,
    GetGroupProperties,
    GetProperty,
    Event,
    EventGroup,
    /// The menu is rebuilt from the live configuration on every read, so a host
    /// never needs to be told to refresh first.
    AboutToShow,
    AboutToShowGroup,
    UnknownMethod,
}

/// The name of a call of the menu.
pub open spec fn menu_method(c: MenuCall) -> Seq<char> {
    match c {
        MenuCall::GetLayout => "GetLayout"@,
        MenuCall::GetGroupProperties => "GetGroupProperties"@,
        MenuCall::GetProperty => "GetProperty"@,
        MenuCall::Event => "Event"@,
        MenuCall::EventGroup => "EventGroup"@,
        MenuCall::AboutToShow => "AboutToShow"@,
        MenuCall::AboutToShowGroup => "AboutToShowGroup"@,
        MenuCall::UnknownMethod => ""@,
    }
}

/// Whether a call is the one a method of the menu stands for.
pub open spec fn menu_asked(method: Seq<char>, r: MenuCall) -> bool {
    &&& r != MenuCall::UnknownMethod ==> menu_method(r) == method
    &&& r == MenuCall::UnknownMethod ==> forall|c: MenuCall|
        c != MenuCall::UnknownMethod ==> #[trigger] menu_method(c) != method
}

/// Which call of the menu a method name stands for.
pub fn menu_call(method: &str) -> (r: MenuCall)
    ensures
        menu_asked(method@, r),
{
    if text::same(method, "GetLayout") {
        MenuCall::GetLayout
    } else if text::same(method, "GetGroupProperties") {
        MenuCall::GetGroupProperties
    } else if text::same(method, "GetProperty") {
        MenuCall::GetProperty
    } else if text::same(method, "Event") {
        MenuCall::Event
    } else if text::same(method, "EventGroup") {
        MenuCall::EventGroup
    } else if text::same(method, "AboutToShow") {
        MenuCall::AboutToShow
    } else if text::same(method, "AboutToShowGroup") {
        MenuCall::AboutToShowGroup
    } else {
        MenuCall::UnknownMethod
    }
}

impl PropertyView {
    /// The name of a property.
    pub open spec fn key(self) -> Seq<char> {
        match self {
            PropertyView::Text(k, _) => k,
            PropertyView::Number(k, _) => k,
            PropertyView::Flag(k, _) => k,
        }
    }
}

/// The property of a name.
pub open spec fn property_is(key: Seq<char>) -> spec_fn(PropertyView) -> bool {
    |p: PropertyView| p.key() == key
}

impl MenuProperty {
    /// The name of the property.
    pub fn name(&self) -> (r: &'static str)
        ensures
            r@ == self@.key(),
    {
        match self {
            MenuProperty::Text(k, _) => *k,
            MenuProperty::Number(k, _) => *k,
            MenuProperty::Flag(k, _) => *k,
        }
    }
}

impl Tray {
    /// Whether this is a property of a menu entry.
    pub open spec fn entry_answer(self, cfg: Config, id: i32, name: Seq<char>, r: Option<MenuProperty>) -> bool {
        ({
            let s = menu_properties(self.label@, mic_state(cfg), id);
            let i = first(s, property_is(name));
            &&& r is Some <==> i < s.len()
            &&& r is Some ==> r->0@ == s[i]
        })
    }

    /// One property of a menu entry.
    pub fn entry_property(&self, cfg: &Config, id: i32, name: &str) -> (r: Option<MenuProperty>)
        ensures
            self.entry_answer(*cfg, id, name@, r),
    {
        let props = self.item_properties(cfg, id);
        let ghost s = property_views(props@);
        let mut k: usize = 0;
        for p in it: props
            invariant
                property_views(it.seq()) == s,
                k == it.index(),
                k <= s.len(),
                s.len() <= 4,
                s == menu_properties(self.label@, mic_state(*cfg), id),
                forall|j: int| 0 <= j < k ==> !property_is(name@)(#[trigger] s[j]),
        {
            assert(s[k as int] == p@);
            if text::same(p.name(), name) {
                proof {
                    first_is_at(s, property_is(name@), k as int);
                }
                return Some(p);
            }
            k = k + 1;
        }
        proof {
            first_is_at(s, property_is(name@), s.len() as int);
        }
        None
    }
}

/// No click touches the monitor mix, which is the user's own headphones, and
/// none moves a fader.
pub proof fn clicks_leave_the_monitor_alone(cfg: Config, id: i32, i: int)
    requires
        0 <= i < click_actions(cfg, id).len(),
    ensures
        click_actions(cfg, id)[i] is Perform ==> {
            let a = click_actions(cfg, id)[i]->Perform_0;
            a is SetChannelMute && a->SetChannelMute_mix != Mix::Monitor
        },
{
}

// ---- What the indicator shows -----------------------------------------------

/// The indicator follows the microphone channel's mute towards the stream, and
/// nothing else: not its monitor mute, its levels or any other channel.
pub proof fn indicator_follows_the_microphone(cfg: Config)
    requires
        mic_at(cfg) < cfg.channels@.len(),
    ensures
        mic_state(cfg).channel == Some(cfg.channels@[mic_at(cfg)].id),
        mic_state(cfg).muted <==> cfg.channels@[mic_at(cfg)].stream_muted,
        icon_of(cfg) == ICON_MUTED@ <==> cfg.channels@[mic_at(cfg)].stream_muted,
        cfg.channels@[mic_at(cfg)].stream_muted ==> tooltip_of(cfg)
            == "Microphone muted — the stream cannot hear you"@,
        !cfg.channels@[mic_at(cfg)].stream_muted ==> tooltip_of(cfg) == "Microphone live on the stream mix"@,
{
    reveal_strlit("audio-input-microphone-symbolic");
    reveal_strlit("microphone-sensitivity-muted-symbolic");
    assert(ICON_LIVE@.len() != ICON_MUTED@.len());
}

/// Without a microphone channel the indicator says so, and there is nothing to
/// click.
pub proof fn indicator_without_microphone(cfg: Config)
    requires
        mic_at(cfg) >= cfg.channels@.len(),
    ensures
        mic_state(cfg).channel is None,
        tooltip_of(cfg) == "No microphone channel"@,
        click_actions(cfg, 1).len() == 0,
        icon_of(cfg) == ICON_LIVE@,
{
}

/// A click on the mute entry turns the microphone the other way towards the
/// stream, and towards the VOD track the same way while there is one. Clicking
/// again after that turns it back.
pub proof fn clicks_toggle_the_microphone(cfg: Config)
    requires
        mic_at(cfg) < cfg.channels@.len(),
    ensures
        ({
            let c = cfg.channels@[mic_at(cfg)];
            let a = click_actions(cfg, 1);
            &&& a[0] == TrayAction::Perform(
                ControlAction::SetChannelMute { id: c.id, mix: Mix::Stream, muted: Some(!c.stream_muted) },
            )
            &&& cfg.vod_mix_enabled ==> a.len() == 2 && a[1] == TrayAction::Perform(
                ControlAction::SetChannelMute { id: c.id, mix: Mix::Vod, muted: Some(!c.stream_muted) },
            )
            &&& !cfg.vod_mix_enabled ==> a.len() == 1
        }),
{
}

/// Every entry of the menu does its own thing: it shows the window, quits, or
/// does nothing.
pub proof fn entries_do_their_own_thing(cfg: Config, id: i32)
    ensures
        click_actions(cfg, 3) == seq![TrayAction::Present],
        click_actions(cfg, 4) == seq![TrayAction::Quit],
        id < 0 || id == 0 || id == 2 || id > 4 ==> click_actions(cfg, id).len() == 0,
        child_ids(0) == seq![1i32, 2i32, 3i32, 4i32],
        id != 0 ==> child_ids(id).len() == 0,
{
}

/// The mute entry is checked while the microphone is muted, and greyed out where
/// there is none.
pub proof fn mute_entry_shows_the_state(label: Seq<char>, s: MicState)
    ensures
        menu_properties(label, s, 1).contains(PropertyView::Text("label"@, label)),
        menu_properties(label, s, 1).contains(
            PropertyView::Number(
                "toggle-state"@,
                if s.muted {
                    1
                } else {
                    0
                },
            ),
        ),
        menu_properties(label, s, 1).contains(PropertyView::Flag("enabled"@, s.channel is Some)),
        menu_properties(label, s, 1).contains(PropertyView::Text("toggle-type"@, "checkmark"@)),
{
    let p = menu_properties(label, s, 1);
    assert(p[0] == PropertyView::Text("label"@, label));
    assert(p[1] == PropertyView::Text("toggle-type"@, "checkmark"@));
    assert(p[2] is Number);
    assert(p[3] == PropertyView::Flag("enabled"@, s.channel is Some));
}

/// Underscores are doubled, and everything else stays: a name without any is
/// shown as it is, and different names are shown differently.
pub proof fn names_are_shown_in_full(a: Seq<char>, b: Seq<char>)
    ensures
        escaped(a + b) == escaped(a) + escaped(b),
        !a.contains('_') ==> escaped(a) == a,
        escaped(seq!['_']) == seq!['_', '_'],
    decreases a.len() + b.len(),
{
    if b.len() > 0 {
        let c = b.drop_last();
        assert((a + b).drop_last() =~= a + c);
        names_are_shown_in_full(a, c);
        assert(escaped(a + b) =~= escaped(a) + escaped(b));
    } else {
        assert(a + b =~= a);
        assert(escaped(a) + escaped(b) =~= escaped(a));
        if a.len() > 0 {
            let t = a.drop_last();
            names_are_shown_in_full(t, b);
            if !a.contains('_') {
                assert(a.contains(a.last()));
                if t.contains('_') {
                    let k = choose|k: int| 0 <= k < t.len() && t[k] == '_';
                    assert(a[k] == '_');
                }
                assert(t.push(a.last()) =~= a);
            }
        }
    }
    let u = seq!['_'];
    assert(u.drop_last() =~= Seq::<char>::empty());
    assert(u.last() == '_');
    assert(escaped(u.drop_last()) =~= Seq::<char>::empty());
    assert(escaped(u) =~= seq!['_', '_']);
    if b.len() > 0 && !a.contains('_') {
        names_are_shown_in_full(a, b.drop_last());
    }
}

/// Every click is heard, and nothing but clicks, in order.
pub proof fn clicks_are_heard_in_order(a: Seq<MenuEvent>, b: Seq<MenuEvent>)
    ensures
        clicked_ids(a + b) == clicked_ids(a) + clicked_ids(b),
        a.len() == 1 && a[0].kind@ == "clicked"@ ==> clicked_ids(a) == seq![a[0].id],
        a.len() == 1 && a[0].kind@ != "clicked"@ ==> clicked_ids(a).len() == 0,
    decreases b.len(),
{
    if b.len() > 0 {
        let c = b.drop_last();
        assert((a + b).drop_last() =~= a + c);
        clicks_are_heard_in_order(a, c);
        assert(clicked_ids(a + b) =~= clicked_ids(a) + clicked_ids(b));
    } else {
        assert(a + b =~= a);
        assert(clicked_ids(a) + clicked_ids(b) =~= clicked_ids(a));
    }
    if a.len() == 1 {
        assert(a.drop_last() =~= Seq::<MenuEvent>::empty());
        assert(a.last() == a[0]);
        assert(clicked_ids(a.drop_last()) =~= Seq::<i32>::empty());
        if a[0].kind@ == "clicked"@ {
            assert(clicked_ids(a) =~= seq![a[0].id]);
        }
    }
}

/// Something is announced exactly when what the indicator shows has changed; what
/// it shows is then up to date, under a revision that is new and not zero. A second
/// refresh announces nothing.
pub proof fn changes_are_announced_once(t: Tray, cfg: Config, r: Option<u32>, new: Tray, again: Option<u32>, after: Tray)
    requires
        t.announced(cfg, r, new),
        new.announced(cfg, again, after),
    ensures
        r is None <==> t.shown == mic_state(cfg) && t.label@ == mute_text(cfg),
        r is None ==> new == t,
        new.shown == mic_state(cfg),
        new.label@ == mute_text(cfg),
        r is Some ==> r->0 == new.revision && r->0 > 0 && r->0 != t.revision,
        r is Some && t.revision < u32::MAX ==> r->0 == t.revision + 1,
        new.name_owned == t.name_owned && new.watcher_present == t.watcher_present,
        again is None && after == new,
{
}

/// The indicator's icon and tooltip are those of the microphone's state, whatever
/// the property is asked for; the rest is fixed, and what is not known is empty.
pub proof fn indicator_says_the_state(cfg: Config, property: Seq<char>, r: PropertyValue)
    requires
        item_answer(cfg, property, r),
    ensures
        property == "IconName"@ ==> r is Text && r->Text_0@ == icon_of(cfg),
        property == "ToolTip"@ ==> r is ToolTip && r->ToolTip_0@ == icon_of(cfg) && r->ToolTip_1@ == tooltip_of(cfg),
        property == "Id"@ ==> r is Text && r->Text_0@ == "gg.gleem.Crossfade"@,
        property == "Title"@ ==> r is Text && r->Text_0@ == "Gleem Crossfade"@,
        property == "Category"@ ==> r is Text && r->Text_0@ == "ApplicationStatus"@,
        property == "Status"@ ==> r is Text && r->Text_0@ == "Active"@,
        property == "ItemIsMenu"@ ==> r == PropertyValue::Flag(false),
        property == "Menu"@ ==> r is Path && r->Path_0@ == "/MenuBar"@,
{
    reveal_strlit("Category");
    reveal_strlit("Id");
    reveal_strlit("Title");
    reveal_strlit("Status");
    reveal_strlit("IconName");
    reveal_strlit("ToolTip");
    reveal_strlit("ItemIsMenu");
    reveal_strlit("Menu");
    assert("Category"@.len() == 8 && "Category"@[0] == 'C');
    assert("Id"@.len() == 2 && "Id"@[0] == 'I');
    assert("Title"@.len() == 5);
    assert("Status"@.len() == 6);
    assert("IconName"@.len() == 8 && "IconName"@[0] == 'I');
    assert("ToolTip"@.len() == 7);
    assert("ItemIsMenu"@.len() == 10);
    assert("Menu"@.len() == 4);
}

/// What the menu says of itself.
pub proof fn menu_says_what_it_is(property: Seq<char>, r: PropertyValue)
    requires
        menu_answer(property, r),
    ensures
        property == "Version"@ ==> r == PropertyValue::Number(3),
        property == "Status"@ ==> r is Text && r->Text_0@ == "normal"@,
        property == "TextDirection"@ ==> r is Text && r->Text_0@ == "ltr"@,
        property == "IconThemePath"@ ==> r is NoTexts,
{
    reveal_strlit("Version");
    reveal_strlit("Status");
    reveal_strlit("TextDirection");
    reveal_strlit("IconThemePath");
    assert("Version"@.len() == 7);
    assert("Status"@.len() == 6);
    assert("TextDirection"@.len() == 13 && "TextDirection"@[0] == 'T');
    assert("IconThemePath"@.len() == 13 && "IconThemePath"@[0] == 'I');
}

/// A click, or a second one, presents the window; a request for a menu and a turn
/// of the wheel are taken without effect. No other method is known.
pub proof fn clicks_present_the_window(method: Seq<char>, r: ItemCall)
    requires
        item_asked(method, r),
    ensures
        r is Present <==> method == "Activate"@ || method == "SecondaryActivate"@,
        r is Nothing <==> method == "ContextMenu"@ || method == "Scroll"@,
{
    reveal_strlit("Activate");
    reveal_strlit("SecondaryActivate");
    reveal_strlit("ContextMenu");
    reveal_strlit("Scroll");
    assert("Activate"@.len() == 8);
    assert("SecondaryActivate"@.len() == 17);
    assert("ContextMenu"@.len() == 11);
    assert("Scroll"@.len() == 6);
}

/// Each method of the menu is understood as itself.
pub proof fn menu_methods_are_understood(method: Seq<char>, r: MenuCall)
    requires
        menu_asked(method, r),
    ensures
        r is GetLayout <==> method == "GetLayout"@,
        r is GetGroupProperties <==> method == "GetGroupProperties"@,
        r is GetProperty <==> method == "GetProperty"@,
        r is Event <==> method == "Event"@,
        r is EventGroup <==> method == "EventGroup"@,
        r is AboutToShow <==> method == "AboutToShow"@,
        r is AboutToShowGroup <==> method == "AboutToShowGroup"@,
{
    reveal_strlit("GetLayout");
    reveal_strlit("GetGroupProperties");
    reveal_strlit("GetProperty");
    reveal_strlit("Event");
    reveal_strlit("EventGroup");
    reveal_strlit("AboutToShow");
    reveal_strlit("AboutToShowGroup");
    assert("GetLayout"@.len() == 9);
    assert("GetGroupProperties"@.len() == 18);
    assert("GetProperty"@.len() == 11 && "GetProperty"@[0] == 'G');
    assert("Event"@.len() == 5);
    assert("EventGroup"@.len() == 10);
    assert("AboutToShow"@.len() == 11 && "AboutToShow"@[0] == 'A');
    assert("AboutToShowGroup"@.len() == 16);
    assert(menu_method(MenuCall::GetLayout) == "GetLayout"@);
    assert(menu_method(MenuCall::GetGroupProperties) == "GetGroupProperties"@);
    assert(menu_method(MenuCall::GetProperty) == "GetProperty"@);
    assert(menu_method(MenuCall::Event) == "Event"@);
    assert(menu_method(MenuCall::EventGroup) == "EventGroup"@);
    assert(menu_method(MenuCall::AboutToShow) == "AboutToShow"@);
    assert(menu_method(MenuCall::AboutToShowGroup) == "AboutToShowGroup"@);
}

/// Entries that are asked for by number are answered as asked; without numbers all
/// of the menu's entries are meant.
pub proof fn groups_are_as_asked(asked: Option<Vec<i32>>, r: Seq<i32>)
    requires
        group_of(asked, r),
    ensures
        asked is Some && asked->0@.len() > 0 ==> r == asked->0@,
        asked is None || asked->0@.len() == 0 ==> r == seq![1i32, 2, 3, 4],
{
}

/// The menu holds the mute entry, a separator, and the entries that show the window
/// and quit, labelled as what they do; only the root has entries below it.
pub proof fn entries_are_labelled(label: Seq<char>, s: MicState, id: i32)
    ensures
        menu_properties(label, s, 0).contains(PropertyView::Text("children-display"@, "submenu"@)),
        menu_properties(label, s, 2).contains(PropertyView::Text("type"@, "separator"@)),
        menu_properties(label, s, 3).contains(PropertyView::Text("label"@, "Show Crossfade"@)),
        menu_properties(label, s, 4).contains(PropertyView::Text("label"@, "Quit"@)),
        !(0 <= id <= 4) ==> menu_properties(label, s, id).len() == 0,
        child_ids(0) == seq![1i32, 2, 3, 4],
        id != 0 ==> child_ids(id).len() == 0,
{
    assert(menu_properties(label, s, 0)[0] == PropertyView::Text("children-display"@, "submenu"@));
    assert(menu_properties(label, s, 2)[0] == PropertyView::Text("type"@, "separator"@));
    assert(menu_properties(label, s, 3)[0] == PropertyView::Text("label"@, "Show Crossfade"@));
    assert(menu_properties(label, s, 4)[0] == PropertyView::Text("label"@, "Quit"@));
}

/// A property of an entry is found by its name, and only where the entry has it.
pub proof fn properties_are_found_by_name(t: Tray, cfg: Config, id: i32, name: Seq<char>, r: Option<MenuProperty>, i: int)
    requires
        t.entry_answer(cfg, id, name, r),
    ensures
        ({
            let s = menu_properties(t.label@, mic_state(cfg), id);
            &&& r is Some ==> r->0@.key() == name && s.contains(r->0@)
            &&& 0 <= i < s.len() && s[i].key() == name ==> r is Some
        }),
{
    let s = menu_properties(t.label@, mic_state(cfg), id);
    crate::list::first_is_least(s, property_is(name));
    let k = first(s, property_is(name));
    if k < s.len() {
        assert(property_is(name)(s[k]));
    } else if 0 <= i < s.len() {
        assert(!property_is(name)(s[i]));
    }
}

} // verus!
