//! The session-bus control API: what each call is answered.
//!
//! External integrations (hotkey daemons, stream-deck software, desktop
//! widgets, plain scripts) drive the mixer through it; every method funnels
//! into the same actions that MIDI dispatch uses.

use vstd::prelude::*;

use crate::audio::Mix;
use crate::config::{Assignment, ChannelConfig, Config, MidiProfile};
use crate::control;
use crate::control::{master_muted, muted_in, the_channel, ControlAction};
use crate::json;
use crate::json::{double_tree, item_trees, member_trees, uint_tree, Json, JsonView};
use crate::level::Level;
use crate::text;

verus! {

/// The arguments of a call, by their types.
#[derive(Clone, Debug, PartialEq, Eq)]
pub enum Args {
    /// (t, s, d)
    IdMixValue { id: u64, mix: String, value: Level },
    /// (t, s, b)
    IdMixFlag { id: u64, mix: String, flag: bool },
    /// (t, s)
    IdMix { id: u64, mix: String },
    /// (s, d)
    MixValue { mix: String, value: Level },
    /// (s, b)
    MixFlag { mix: String, flag: bool },
    /// (s)
    Mix { mix: String },
    /// (t)
    Id { id: u64 },
    /// Anything else.
    Other,
}

/// A channel as it is listed: id, name, and the kind of its input.
#[derive(Clone, Debug, PartialEq, Eq)]
pub struct ChannelRow {
    pub id: u64,
    pub name: String,
    pub kind: &'static str,
}

/// A profile as it is listed.
#[derive(Clone, Debug, PartialEq, Eq)]
pub struct ProfileName {
    pub id: u64,
    pub name: String,
}

/// What a call is answered.
#[derive(Debug, PartialEq, Eq)]
pub enum Reply {
    Channels(Vec<ChannelRow>),
    /// The levels and mute states of the whole configuration.
    Volumes(Json),
    Profiles(Vec<ProfileName>),
    /// Perform the action and answer nothing.
    Perform(ControlAction),
    /// Perform the action and answer whether the channel is muted then.
    PerformChannelMute(ControlAction, u64, Mix),
    /// Perform the action and answer whether the mix is muted then.
    PerformMasterMute(ControlAction, Mix),
    /// The arguments are wrong.
    Invalid(&'static str),
    UnknownMethod,
}

/// The kind of a channel's input.
pub open spec fn kind_of(c: ChannelConfig) -> Seq<char> {
    match c.assignment {
        Some(Assignment::Source { .. }) => "source"@,
        Some(Assignment::App { .. }) => "app"@,
        Some(Assignment::Virtual) => "virtual"@,
        None => "none"@,
    }
}

/// Whether rows list channels.
pub open spec fn lists_channels(s: Seq<ChannelConfig>, rows: Seq<ChannelRow>) -> bool {
    &&& rows.len() == s.len()
    &&& forall|i: int|
        0 <= i < s.len() ==> {
            &&& (#[trigger] rows[i]).id == s[i].id
            &&& rows[i].name@ == s[i].name@
            &&& rows[i].kind@ == kind_of(s[i])
        }
}

/// Whether rows list profiles.
pub open spec fn lists_profiles(s: Seq<MidiProfile>, rows: Seq<ProfileName>) -> bool {
    &&& rows.len() == s.len()
    &&& forall|i: int|
        0 <= i < s.len() ==> (#[trigger] rows[i]).id == s[i].id && rows[i].name@ == s[i].name@
}

/// Whether a reply refuses the arguments with a message.
pub open spec fn refuses(r: Reply, msg: Seq<char>) -> bool {
    r is Invalid && r->Invalid_0@ == msg
}

/// The mix of a name.
pub open spec fn mix_of(key: Seq<char>) -> Option<Mix> {
    if key == Mix::Monitor.key() {
        Some(Mix::Monitor)
    } else if key == Mix::Stream.key() {
        Some(Mix::Stream)
    } else if key == Mix::Vod.key() {
        Some(Mix::Vod)
    } else {
        None
    }
}

/// The answer to a call about a channel: a bad mix or channel is refused.
pub open spec fn channel_answer(cfg: Config, id: u64, mix: Seq<char>, r: Reply, ok: spec_fn(Mix) -> bool) -> bool {
    match mix_of(mix) {
        None => refuses(r, "mix must be monitor, stream or vod"@),
        Some(m) => if cfg.has_channel(id) {
            ok(m)
        } else {
            refuses(r, "unknown channel id"@)
        },
    }
}

/// The answer to a call about a mix: a bad mix is refused.
pub open spec fn mix_answer(mix: Seq<char>, r: Reply, ok: spec_fn(Mix) -> bool) -> bool {
    match mix_of(mix) {
        None => refuses(r, "mix must be monitor, stream or vod"@),
        Some(m) => ok(m),
    }
}

/// What a call is answered.
pub open spec fn answers(cfg: Config, method: Seq<char>, args: Args, r: Reply) -> bool {
    if method == "ListChannels"@ {
        r is Channels && lists_channels(cfg.channels@, r->Channels_0@)
    } else if method == "GetVolumes"@ {
        r is Volumes && r->Volumes_0.tree() == volumes_tree(cfg)
    } else if method == "SetChannelVolume"@ {
        match args {
            Args::IdMixValue { id, mix, value } => channel_answer(
                cfg,
                id,
                mix@,
                r,
                |m: Mix| r == Reply::Perform(ControlAction::SetChannelVolume { id, mix: m, value }),
            ),
            _ => refuses(r, "expected (t id, s mix, d value)"@),
        }
    } else if method == "SetChannelMute"@ {
        match args {
            Args::IdMixFlag { id, mix, flag } => channel_answer(
                cfg,
                id,
                mix@,
                r,
                |m: Mix|
                    r == Reply::Perform(
                        ControlAction::SetChannelMute { id, mix: m, muted: Some(flag) },
                    ),
            ),
            _ => refuses(r, "expected (t id, s mix, b muted)"@),
        }
    } else if method == "ToggleChannelMute"@ {
        match args {
            Args::IdMix { id, mix } => channel_answer(
                cfg,
                id,
                mix@,
                r,
                |m: Mix|
                    r == Reply::PerformChannelMute(
                        ControlAction::SetChannelMute { id, mix: m, muted: None },
                        id,
                        m,
                    ),
            ),
            _ => refuses(r, "expected (t id, s mix)"@),
        }
    } else if method == "SetMasterVolume"@ {
        match args {
            Args::MixValue { mix, value } => mix_answer(
                mix@,
                r,
                |m: Mix| r == Reply::Perform(ControlAction::SetMasterVolume { mix: m, value }),
            ),
            _ => refuses(r, "expected (s mix, d value)"@),
        }
    } else if method == "SetMasterMute"@ {
        match args {
            Args::MixFlag { mix, flag } => mix_answer(
                mix@,
                r,
                |m: Mix|
                    r == Reply::Perform(ControlAction::SetMasterMute { mix: m, muted: Some(flag) }),
            ),
            _ => refuses(r, "expected (s mix, b muted)"@),
        }
    } else if method == "ToggleMasterMute"@ {
        match args {
            Args::Mix { mix } => mix_answer(
                mix@,
                r,
                |m: Mix|
                    r == Reply::PerformMasterMute(
                        ControlAction::SetMasterMute { mix: m, muted: None },
                        m,
                    ),
            ),
            _ => refuses(r, "expected (s mix)"@),
        }
    } else if method == "ListMidiProfiles"@ {
        r is Profiles && lists_profiles(cfg.midi.profiles@, r->Profiles_0@)
    } else if method == "SelectMidiProfile"@ {
        match args {
            Args::Id { id } => if cfg.midi.has_profile(id) {
                r == Reply::Perform(ControlAction::SelectMidiProfile { id })
            } else {
                refuses(r, "unknown profile id"@)
            },
            _ => refuses(r, "expected (t id)"@),
        }
    } else {
        r is UnknownMethod
    }
}

/// The mix of a name.
fn parse_mix(key: &str) -> (r: Option<Mix>)
    ensures
        r == mix_of(key@),
{
    let r = Mix::from_key(key);
    proof {
        match r {
            Some(m) => {
                crate::audio::mix_keys_are_distinct(m, Mix::Monitor);
                crate::audio::mix_keys_are_distinct(m, Mix::Stream);
                crate::audio::mix_keys_are_distinct(m, Mix::Vod);
            },
            None => {
                assert(key@ != Mix::Monitor.key());
                assert(key@ != Mix::Stream.key());
                assert(key@ != Mix::Vod.key());
            },
        }
    }
    r
}

/// The channels with the kinds of their inputs.
pub fn list_channels(cfg: &Config) -> (r: Vec<ChannelRow>)
    ensures
        lists_channels(cfg.channels@, r@),
{
    let mut rows: Vec<ChannelRow> = Vec::new();
    let mut i: usize = 0;
    while i < cfg.channels.len()
        invariant
            i <= cfg.channels@.len(),
            rows@.len() == i,
            forall|j: int|
                0 <= j < i ==> {
                    &&& (#[trigger] rows@[j]).id == cfg.channels@[j].id
                    &&& rows@[j].name@ == cfg.channels@[j].name@
                    &&& rows@[j].kind@ == kind_of(cfg.channels@[j])
                },
        decreases cfg.channels@.len() - i,
    {
        let c = &cfg.channels[i];
        let kind = match &c.assignment {
            Some(Assignment::Source { .. }) => "source",
            Some(Assignment::App { .. }) => "app",
            Some(Assignment::Virtual) => "virtual",
            None => "none",
        };
        rows.push(ChannelRow { id: c.id, name: c.name.clone(), kind });
        i = i + 1;
    }
    rows
}

/// The profiles.
pub fn list_profiles(cfg: &Config) -> (r: Vec<ProfileName>)
    ensures
        lists_profiles(cfg.midi.profiles@, r@),
{
    let mut rows: Vec<ProfileName> = Vec::new();
    let mut i: usize = 0;
    while i < cfg.midi.profiles.len()
        invariant
            i <= cfg.midi.profiles@.len(),
            rows@.len() == i,
            forall|j: int|
                0 <= j < i ==> (#[trigger] rows@[j]).id == cfg.midi.profiles@[j].id && rows@[j].name@
                    == cfg.midi.profiles@[j].name@,
        decreases cfg.midi.profiles@.len() - i,
    {
        let p = &cfg.midi.profiles[i];
        rows.push(ProfileName { id: p.id, name: p.name.clone() });
        i = i + 1;
    }
    rows
}

/// What is wrong with a mix or channel, or the mix.
fn check_channel(cfg: &Config, id: u64, mix: &str) -> (r: Result<Mix, &'static str>)
    ensures
        match r {
            Ok(m) => mix_of(mix@) == Some(m) && cfg.has_channel(id),
            Err(e) => {
                ||| mix_of(mix@) is None && e@ == "mix must be monitor, stream or vod"@
                ||| mix_of(mix@) is Some && !cfg.has_channel(id) && e@ == "unknown channel id"@
            },
        },
{
    match parse_mix(mix) {
        None => Err("mix must be monitor, stream or vod"),
        Some(m) => if cfg.channel(id).is_none() {
            Err("unknown channel id")
        } else {
            Ok(m)
        },
    }
}

/// Decide what a call is answered.
pub fn handle(cfg: &Config, method: &str, args: &Args) -> (r: Reply)
    ensures
        answers(*cfg, method@, *args, r),
{
    if text::same(method, "ListChannels") {
        Reply::Channels(list_channels(cfg))
    } else if text::same(method, "GetVolumes") {
        Reply::Volumes(volumes(cfg))
    } else if text::same(method, "SetChannelVolume") {
        match args {
            Args::IdMixValue { id, mix, value } => match check_channel(cfg, *id, mix.as_str()) {
                Ok(m) => Reply::Perform(
                    ControlAction::SetChannelVolume { id: *id, mix: m, value: *value },
                ),
                Err(e) => Reply::Invalid(e),
            },
            _ => Reply::Invalid("expected (t id, s mix, d value)"),
        }
    } else if text::same(method, "SetChannelMute") {
        match args {
            Args::IdMixFlag { id, mix, flag } => match check_channel(cfg, *id, mix.as_str()) {
                Ok(m) => Reply::Perform(
                    ControlAction::SetChannelMute { id: *id, mix: m, muted: Some(*flag) },
                ),
                Err(e) => Reply::Invalid(e),
            },
            _ => Reply::Invalid("expected (t id, s mix, b muted)"),
        }
    } else if text::same(method, "ToggleChannelMute") {
        match args {
            Args::IdMix { id, mix } => match check_channel(cfg, *id, mix.as_str()) {
                Ok(m) => Reply::PerformChannelMute(
                    ControlAction::SetChannelMute { id: *id, mix: m, muted: None },
                    *id,
                    m,
                ),
                Err(e) => Reply::Invalid(e),
            },
            _ => Reply::Invalid("expected (t id, s mix)"),
        }
    } else if text::same(method, "SetMasterVolume") {
        match args {
            Args::MixValue { mix, value } => match parse_mix(mix.as_str()) {
                Some(m) => Reply::Perform(ControlAction::SetMasterVolume { mix: m, value: *value }),
                None => Reply::Invalid("mix must be monitor, stream or vod"),
            },
            _ => Reply::Invalid("expected (s mix, d value)"),
        }
    } else if text::same(method, "SetMasterMute") {
        match args {
            Args::MixFlag { mix, flag } => match parse_mix(mix.as_str()) {
                Some(m) => Reply::Perform(ControlAction::SetMasterMute { mix: m, muted: Some(*flag) }),
                None => Reply::Invalid("mix must be monitor, stream or vod"),
            },
            _ => Reply::Invalid("expected (s mix, b muted)"),
        }
    } else if text::same(method, "ToggleMasterMute") {
        match args {
            Args::Mix { mix } => match parse_mix(mix.as_str()) {
                Some(m) => Reply::PerformMasterMute(
                    ControlAction::SetMasterMute { mix: m, muted: None },
                    m,
                ),
                None => Reply::Invalid("mix must be monitor, stream or vod"),
            },
            _ => Reply::Invalid("expected (s mix)"),
        }
    } else if text::same(method, "ListMidiProfiles") {
        Reply::Profiles(list_profiles(cfg))
    } else if text::same(method, "SelectMidiProfile") {
        match args {
            Args::Id { id } => if cfg.midi.profile(*id).is_none() {
                Reply::Invalid("unknown profile id")
            } else {
                Reply::Perform(ControlAction::SelectMidiProfile { id: *id })
            },
            _ => Reply::Invalid("expected (t id)"),
        }
    } else {
        Reply::UnknownMethod
    }
}

/// Whether a channel is muted in a mix; a missing one is not.
pub fn channel_muted(cfg: &Config, id: u64, mix: Mix) -> (r: bool)
    ensures
        r == (cfg.has_channel(id) && muted_in(the_channel(*cfg, id), mix)),
{
    match cfg.channel(id) {
        Some(c) => control::channel_muted(c, mix),
        None => false,
    }
}

/// Whether a mix is muted.
pub fn mix_muted(cfg: &Config, mix: Mix) -> (r: bool)
    ensures
        r == master_muted(cfg.master, mix),
{
    control::mix_muted(&cfg.master, mix)
}

/// The level and mute state of a mix.
pub open spec fn mix_tree(volume: Level, muted: bool) -> JsonView {
    JsonView::Object(seq![("volume"@, double_tree(volume)), ("muted"@, JsonView::Bool(muted))])
}

/// The levels and mute states of a channel.
pub open spec fn channel_tree(c: ChannelConfig) -> JsonView {
    JsonView::Object(
        seq![
            ("id"@, uint_tree(c.id)),
            ("name"@, JsonView::Str(c.name@)),
            (
                "color"@,
                match c.color {
                    Some(s) => JsonView::Str(s@),
                    None => JsonView::Null,
                },
            ),
            ("monitor"@, mix_tree(c.monitor_volume, c.monitor_muted)),
            ("stream"@, mix_tree(c.stream_volume, c.stream_muted)),
            ("vod"@, mix_tree(c.vod_volume, c.vod_muted)),
        ],
    )
}

/// The levels and mute states of the whole configuration.
pub open spec fn volumes_tree(cfg: Config) -> JsonView {
    let m = cfg.master;
    JsonView::Object(
        seq![
            (
                "channels"@,
                JsonView::Array(Seq::new(cfg.channels@.len(), |i: int| channel_tree(cfg.channels@[i]))),
            ),
            (
                "master"@,
                JsonView::Object(
                    seq![
                        ("monitor"@, mix_tree(m.monitor_volume, m.monitor_muted)),
                        ("stream"@, mix_tree(m.stream_volume, m.stream_muted)),
                        ("vod"@, mix_tree(m.vod_volume, m.vod_muted)),
                    ],
                ),
            ),
            ("vod_mix_enabled"@, JsonView::Bool(cfg.vod_mix_enabled)),
            ("active_midi_profile"@, uint_tree(cfg.midi.active_profile)),
        ],
    )
}

/// The level and mute state of a mix.
fn mix_json(volume: Level, muted: bool) -> (r: Json)
    ensures
        r.tree() == mix_tree(volume, muted),
{
    let mut m: Vec<(String, Json)> = Vec::new();
    json::put_member(&mut m, "volume", Json::double(volume));
    json::put_member(&mut m, "muted", Json::Bool(muted));
    assert(member_trees(m@) =~= mix_tree(volume, muted)->Object_0);
    Json::object(m)
}

/// The levels and mute states of a channel.
fn channel_json(c: &ChannelConfig) -> (r: Json)
    ensures
        r.tree() == channel_tree(*c),
{
    let mut m: Vec<(String, Json)> = Vec::new();
    json::put_member(&mut m, "id", Json::uint(c.id));
    json::put_member(&mut m, "name", Json::text(c.name.as_str()));
    let color = match &c.color {
        Some(s) => Json::text(s.as_str()),
        None => Json::Null,
    };
    json::put_member(&mut m, "color", color);
    json::put_member(&mut m, "monitor", mix_json(c.monitor_volume, c.monitor_muted));
    json::put_member(&mut m, "stream", mix_json(c.stream_volume, c.stream_muted));
    json::put_member(&mut m, "vod", mix_json(c.vod_volume, c.vod_muted));
    assert(member_trees(m@) =~= channel_tree(*c)->Object_0);
    Json::object(m)
}

/// The levels and mute states of the whole configuration.
pub fn volumes(cfg: &Config) -> (r: Json)
    ensures
        r.tree() == volumes_tree(*cfg),
{
    let ghost all = Seq::new(cfg.channels@.len(), |i: int| channel_tree(cfg.channels@[i]));
    let mut items: Vec<Json> = Vec::new();
    assert(item_trees(items@) =~= all.take(0));
    let mut i: usize = 0;
    while i < cfg.channels.len()
        invariant
            i <= cfg.channels@.len(),
            all == Seq::new(cfg.channels@.len(), |i: int| channel_tree(cfg.channels@[i])),
            item_trees(items@) == all.take(i as int),
        decreases cfg.channels@.len() - i,
    {
        json::put_item(&mut items, channel_json(&cfg.channels[i]));
        assert(item_trees(items@) =~= all.take(i + 1));
        i = i + 1;
    }
    assert(all.take(i as int) =~= all);
    let ghost whole = volumes_tree(*cfg)->Object_0;
    let mut master: Vec<(String, Json)> = Vec::new();
    json::put_member(&mut master, "monitor", mix_json(cfg.master.monitor_volume, cfg.master.monitor_muted));
    json::put_member(&mut master, "stream", mix_json(cfg.master.stream_volume, cfg.master.stream_muted));
    json::put_member(&mut master, "vod", mix_json(cfg.master.vod_volume, cfg.master.vod_muted));
    assert(member_trees(master@) =~= whole[1].1->Object_0);
    let mut m: Vec<(String, Json)> = Vec::new();
    json::put_member(&mut m, "channels", Json::array(items));
    json::put_member(&mut m, "master", Json::object(master));
    json::put_member(&mut m, "vod_mix_enabled", Json::Bool(cfg.vod_mix_enabled));
    json::put_member(&mut m, "active_midi_profile", Json::uint(cfg.midi.active_profile));
    assert(member_trees(m@) =~= whole);
    Json::object(m)
}

// ---- What callers get -------------------------------------------------------

/// A refused call changes nothing: no action comes of a wrong mix, an unknown
/// channel or profile, or arguments of another shape.
pub proof fn refused_calls_do_nothing(cfg: Config, method: Seq<char>, args: Args, r: Reply)
    requires
        answers(cfg, method, args, r),
    ensures
        r is Perform || r is PerformChannelMute || r is PerformMasterMute ==> match args {
            Args::IdMixValue { id, mix, .. } => cfg.has_channel(id) && mix_of(mix@) is Some,
            Args::IdMixFlag { id, mix, .. } => cfg.has_channel(id) && mix_of(mix@) is Some,
            Args::IdMix { id, mix } => cfg.has_channel(id) && mix_of(mix@) is Some,
            Args::MixValue { mix, .. } => mix_of(mix@) is Some,
            Args::MixFlag { mix, .. } => mix_of(mix@) is Some,
            Args::Mix { mix } => mix_of(mix@) is Some,
            Args::Id { id } => cfg.midi.has_profile(id),
            Args::Other => false,
        },
{
}

/// A mix goes by the name it has everywhere else.
pub proof fn mixes_are_found_by_name(mix: Mix, key: Seq<char>)
    ensures
        mix_of(mix.key()) == Some(mix),
        mix_of(key) is Some ==> key == mix_of(key)->0.key(),
        mix_of("monitor"@) == Some(Mix::Monitor),
        mix_of("stream"@) == Some(Mix::Stream),
        mix_of("vod"@) == Some(Mix::Vod),
{
    crate::audio::mix_names_agree(mix);
    crate::audio::mix_names_agree(Mix::Monitor);
    crate::audio::mix_names_agree(Mix::Stream);
    crate::audio::mix_names_agree(Mix::Vod);
    crate::audio::mix_keys_are_distinct(mix, Mix::Monitor);
    crate::audio::mix_keys_are_distinct(mix, Mix::Stream);
    crate::audio::mix_keys_are_distinct(mix, Mix::Vod);
    crate::audio::mix_keys_are_distinct(Mix::Stream, Mix::Monitor);
    crate::audio::mix_keys_are_distinct(Mix::Vod, Mix::Monitor);
    crate::audio::mix_keys_are_distinct(Mix::Vod, Mix::Stream);
}

/// Setting a level or a mute asks for exactly that level or mute, of that
/// channel or master, in that mix; toggling leaves the state open and answers
/// what it became.
pub proof fn calls_ask_for_what_they_say(cfg: Config, id: u64, key: String, mix: Mix, v: Level, on: bool, r: Reply)
    requires
        key@ == mix.key(),
        cfg.has_channel(id),
    ensures
        answers(cfg, "SetChannelVolume"@, Args::IdMixValue { id, mix: key, value: v }, r) ==> r == Reply::Perform(
            ControlAction::SetChannelVolume { id, mix, value: v },
        ),
        answers(cfg, "SetChannelMute"@, Args::IdMixFlag { id, mix: key, flag: on }, r) ==> r == Reply::Perform(
            ControlAction::SetChannelMute { id, mix, muted: Some(on) },
        ),
        answers(cfg, "ToggleChannelMute"@, Args::IdMix { id, mix: key }, r) ==> r == Reply::PerformChannelMute(
            ControlAction::SetChannelMute { id, mix, muted: None },
            id,
            mix,
        ),
        answers(cfg, "SetMasterVolume"@, Args::MixValue { mix: key, value: v }, r) ==> r == Reply::Perform(
            ControlAction::SetMasterVolume { mix, value: v },
        ),
        answers(cfg, "SetMasterMute"@, Args::MixFlag { mix: key, flag: on }, r) ==> r == Reply::Perform(
            ControlAction::SetMasterMute { mix, muted: Some(on) },
        ),
        answers(cfg, "ToggleMasterMute"@, Args::Mix { mix: key }, r) ==> r == Reply::PerformMasterMute(
            ControlAction::SetMasterMute { mix, muted: None },
            mix,
        ),
        answers(cfg, "SelectMidiProfile"@, Args::Id { id }, r) && cfg.midi.has_profile(id) ==> r == Reply::Perform(
            ControlAction::SelectMidiProfile { id },
        ),
{
    mixes_are_found_by_name(mix, key@);
    methods_differ();
}

/// The methods have different names.
proof fn methods_differ()
    ensures
        "SetChannelVolume"@ != "ListChannels"@,
        "SetChannelVolume"@ != "GetVolumes"@,
        "SetChannelMute"@ != "ListChannels"@,
        "SetChannelMute"@ != "GetVolumes"@,
        "SetChannelMute"@ != "SetChannelVolume"@,
        "ToggleChannelMute"@ != "ListChannels"@,
        "ToggleChannelMute"@ != "GetVolumes"@,
        "ToggleChannelMute"@ != "SetChannelVolume"@,
        "ToggleChannelMute"@ != "SetChannelMute"@,
        "SetMasterVolume"@ != "ListChannels"@,
        "SetMasterVolume"@ != "GetVolumes"@,
        "SetMasterVolume"@ != "SetChannelVolume"@,
        "SetMasterVolume"@ != "SetChannelMute"@,
        "SetMasterVolume"@ != "ToggleChannelMute"@,
        "SetMasterMute"@ != "ListChannels"@,
        "SetMasterMute"@ != "GetVolumes"@,
        "SetMasterMute"@ != "SetChannelVolume"@,
        "SetMasterMute"@ != "SetChannelMute"@,
        "SetMasterMute"@ != "ToggleChannelMute"@,
        "SetMasterMute"@ != "SetMasterVolume"@,
        "ToggleMasterMute"@ != "ListChannels"@,
        "ToggleMasterMute"@ != "GetVolumes"@,
        "ToggleMasterMute"@ != "SetChannelVolume"@,
        "ToggleMasterMute"@ != "SetChannelMute"@,
        "ToggleMasterMute"@ != "ToggleChannelMute"@,
        "ToggleMasterMute"@ != "SetMasterVolume"@,
        "ToggleMasterMute"@ != "SetMasterMute"@,
        "SelectMidiProfile"@ != "ListChannels"@,
        "SelectMidiProfile"@ != "GetVolumes"@,
        "SelectMidiProfile"@ != "SetChannelVolume"@,
        "SelectMidiProfile"@ != "SetChannelMute"@,
        "SelectMidiProfile"@ != "ToggleChannelMute"@,
        "SelectMidiProfile"@ != "SetMasterVolume"@,
        "SelectMidiProfile"@ != "SetMasterMute"@,
        "SelectMidiProfile"@ != "ToggleMasterMute"@,
        "SelectMidiProfile"@ != "ListMidiProfiles"@,
{
    reveal_strlit("ListChannels");
    reveal_strlit("GetVolumes");
    reveal_strlit("SetChannelVolume");
    reveal_strlit("SetChannelMute");
    reveal_strlit("ToggleChannelMute");
    reveal_strlit("SetMasterVolume");
    reveal_strlit("SetMasterMute");
    reveal_strlit("ToggleMasterMute");
    reveal_strlit("ListMidiProfiles");
    reveal_strlit("SelectMidiProfile");
    assert("ListChannels"@.len() == 12 && "GetVolumes"@.len() == 10 && "SetChannelVolume"@.len() == 16);
    assert("SetChannelMute"@.len() == 14 && "ToggleChannelMute"@.len() == 17 && "SetMasterVolume"@.len() == 15);
    assert("SetMasterMute"@.len() == 13 && "ToggleMasterMute"@.len() == 16 && "ListMidiProfiles"@.len() == 16);
    assert("SelectMidiProfile"@.len() == 17);
    assert("ToggleMasterMute"@[0] == 'T' && "SetChannelVolume"@[0] == 'S' && "ListMidiProfiles"@[0] == 'L');
    assert("ToggleChannelMute"@[0] == 'T' && "SelectMidiProfile"@[0] == 'S');
}

/// A channel's row names its kind of input.
pub proof fn rows_name_the_input(c: ChannelConfig)
    ensures
        c.assignment is None ==> kind_of(c) == "none"@,
        c.assignment is Some && c.assignment->0 is Source ==> kind_of(c) == "source"@,
        c.assignment is Some && c.assignment->0 is App ==> kind_of(c) == "app"@,
        c.assignment is Some && c.assignment->0 is Virtual ==> kind_of(c) == "virtual"@,
{
}

/// The value of a member, where it is the one at a position and no earlier one
/// has its name.
proof fn member_at(s: Seq<(Seq<char>, JsonView)>, key: Seq<char>, i: int)
    requires
        0 <= i < s.len(),
        s[i].0 == key,
        forall|j: int| 0 <= j < i ==> (#[trigger] s[j]).0 != key,
    ensures
        JsonView::Object(s).member(key) == s[i].1,
{
    crate::list::first_is_at(s, json::member_is(key), i);
}

/// The report of all levels says of every channel and master what is set: each
/// mix's level under "volume" and its mute under "muted".
pub proof fn levels_are_reported_as_set(cfg: Config, i: int)
    requires
        0 <= i < cfg.channels@.len(),
    ensures
        ({
            let t = volumes_tree(cfg);
            let c = cfg.channels@[i];
            let row = t.member("channels"@).items()[i];
            let master = t.member("master"@);
            &&& t.member("channels"@).items().len() == cfg.channels@.len()
            &&& row.member("id"@).unsigned() == Some(c.id)
            &&& row.member("name"@).string() == Some(c.name@)
            &&& row.member("monitor"@).member("volume"@).number() == Some(c.monitor_volume)
            &&& row.member("stream"@).member("volume"@).number() == Some(c.stream_volume)
            &&& row.member("vod"@).member("volume"@).number() == Some(c.vod_volume)
            &&& row.member("monitor"@).member("muted"@).boolean() == Some(c.monitor_muted)
            &&& row.member("stream"@).member("muted"@).boolean() == Some(c.stream_muted)
            &&& row.member("vod"@).member("muted"@).boolean() == Some(c.vod_muted)
            &&& master.member("monitor"@).member("volume"@).number() == Some(cfg.master.monitor_volume)
            &&& master.member("stream"@).member("volume"@).number() == Some(cfg.master.stream_volume)
            &&& master.member("vod"@).member("volume"@).number() == Some(cfg.master.vod_volume)
            &&& master.member("monitor"@).member("muted"@).boolean() == Some(cfg.master.monitor_muted)
            &&& master.member("stream"@).member("muted"@).boolean() == Some(cfg.master.stream_muted)
            &&& master.member("vod"@).member("muted"@).boolean() == Some(cfg.master.vod_muted)
            &&& t.member("vod_mix_enabled"@).boolean() == Some(cfg.vod_mix_enabled)
            &&& t.member("active_midi_profile"@).unsigned() == Some(cfg.midi.active_profile)
        }),
{
    reveal_strlit("channels");
    reveal_strlit("master");
    reveal_strlit("vod_mix_enabled");
    reveal_strlit("active_midi_profile");
    reveal_strlit("id");
    reveal_strlit("name");
    reveal_strlit("color");
    reveal_strlit("monitor");
    reveal_strlit("stream");
    reveal_strlit("vod");
    reveal_strlit("volume");
    reveal_strlit("muted");
    assert("channels"@.len() == 8 && "master"@.len() == 6 && "vod_mix_enabled"@.len() == 15);
    assert("active_midi_profile"@.len() == 19 && "id"@.len() == 2 && "name"@.len() == 4 && "color"@.len() == 5);
    assert("monitor"@.len() == 7 && "stream"@.len() == 6 && "vod"@.len() == 3);
    assert("volume"@.len() == 6 && "muted"@.len() == 5);
    let t = volumes_tree(cfg)->Object_0;
    member_at(t, "channels"@, 0);
    member_at(t, "master"@, 1);
    member_at(t, "vod_mix_enabled"@, 2);
    member_at(t, "active_midi_profile"@, 3);
    let m = t[1].1->Object_0;
    member_at(m, "monitor"@, 0);
    member_at(m, "stream"@, 1);
    member_at(m, "vod"@, 2);
    let c = cfg.channels@[i];
    let row = channel_tree(c)->Object_0;
    assert(volumes_tree(cfg).member("channels"@).items()[i] == channel_tree(c));
    member_at(row, "id"@, 0);
    member_at(row, "name"@, 1);
    member_at(row, "monitor"@, 3);
    member_at(row, "stream"@, 4);
    member_at(row, "vod"@, 5);
    assert forall|v: Level, on: bool|
        (#[trigger] mix_tree(v, on)).member("volume"@).number() == Some(v) && mix_tree(v, on).member(
            "muted"@,
        ).boolean() == Some(on) by {
        let x = mix_tree(v, on)->Object_0;
        member_at(x, "volume"@, 0);
        member_at(x, "muted"@, 1);
    }
}

/// Every channel and every profile is listed, in its place, under its own id and
/// name.
pub proof fn everything_is_listed(
    cfg: Config,
    rows: Seq<ChannelRow>,
    names: Seq<ProfileName>,
    i: int,
    k: int,
)
    requires
        lists_channels(cfg.channels@, rows),
        lists_profiles(cfg.midi.profiles@, names),
        0 <= i < cfg.channels@.len(),
        0 <= k < cfg.midi.profiles@.len(),
    ensures
        rows.len() == cfg.channels@.len(),
        rows[i].id == cfg.channels@[i].id,
        rows[i].name@ == cfg.channels@[i].name@,
        rows[i].kind@ == kind_of(cfg.channels@[i]),
        names.len() == cfg.midi.profiles@.len(),
        names[k].id == cfg.midi.profiles@[k].id,
        names[k].name@ == cfg.midi.profiles@[k].name@,
{
}

/// A call that names no mix, no channel or no profile that exists is refused with
/// the reason.
pub proof fn refusals_say_why(cfg: Config, id: u64, key: String, v: Level, r: Reply)
    ensures
        answers(cfg, "SetChannelVolume"@, Args::IdMixValue { id, mix: key, value: v }, r) && mix_of(key@) is None
            ==> r is Invalid && r->Invalid_0@ == "mix must be monitor, stream or vod"@,
        answers(cfg, "SetChannelVolume"@, Args::IdMixValue { id, mix: key, value: v }, r) && mix_of(key@) is Some
            && !cfg.has_channel(id) ==> r is Invalid && r->Invalid_0@ == "unknown channel id"@,
        answers(cfg, "SelectMidiProfile"@, Args::Id { id }, r) && !cfg.midi.has_profile(id) ==> r is Invalid
            && r->Invalid_0@ == "unknown profile id"@,
        answers(cfg, "SelectMidiProfile"@, Args::Id { id }, r) && cfg.midi.has_profile(id) ==> r == Reply::Perform(
            ControlAction::SelectMidiProfile { id },
        ),
{
    methods_differ();
}

/// The color of a channel is reported as it is set, and as missing where none is.
pub proof fn colors_are_reported_as_set(c: ChannelConfig)
    ensures
        c.color is Some ==> channel_tree(c).member("color"@).string() == Some(c.color->0@),
        c.color is None ==> channel_tree(c).member("color"@) is Null,
{
    reveal_strlit("id");
    reveal_strlit("name");
    reveal_strlit("color");
    assert("id"@.len() == 2 && "name"@.len() == 4 && "color"@.len() == 5);
    member_at(channel_tree(c)->Object_0, "color"@, 2);
}

} // verus!
