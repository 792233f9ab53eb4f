//! How MIDI bindings and profiles are described and listed.

use vstd::prelude::*;
use vstd::string::StringExecFns;

use crate::audio::Mix;
use crate::config::{kind_name, Config, MidiBinding, MidiConfig, MidiKind, MidiProfile, MidiSource, MidiTarget};
use crate::control::the_channel;
use crate::text;
use crate::text::{dec, trim};

verus! {

/// How a channel is called.
pub open spec fn channel_text(cfg: Config, id: u64) -> Seq<char> {
    if cfg.has_channel(id) {
        the_channel(cfg, id).name@
    } else {
        "removed channel"@
    }
}

/// How a binding target is described.
pub open spec fn target_text(cfg: Config, target: MidiTarget) -> Seq<char> {
    match target {
        MidiTarget::ChannelVolume { id, mix } => channel_text(cfg, id) + " — "@ + mix.shown() + " volume"@,
        MidiTarget::ChannelMute { id, mix } => channel_text(cfg, id) + " — "@ + mix.shown() + " mute"@,
        MidiTarget::ChannelColor { id } => channel_text(cfg, id) + " — color pad"@,
        MidiTarget::MasterVolume { mix } => mix.shown() + " Mix master volume"@,
        MidiTarget::MasterMute { mix } => mix.shown() + " Mix master mute"@,
        MidiTarget::SelectProfile { profile } => "switching to profile “"@ + (if cfg.midi.has_profile(
            profile,
        ) {
            cfg.midi.profiles@[cfg.midi.position(profile)].name@
        } else {
            "?"@
        }) + "”"@,
    }
}

/// How a channel is called.
fn channel_name(cfg: &Config, id: u64) -> (r: String)
    ensures
        r@ == channel_text(*cfg, id),
{
    match cfg.channel(id) {
        Some(c) => c.name.clone(),
        None => text::copy("removed channel"),
    }
}

/// Human-readable description of a binding target, e.g. "Game — Monitor
/// volume".
pub fn target_description(cfg: &Config, target: &MidiTarget) -> (r: String)
    ensures
        r@ == target_text(*cfg, *target),
{
    match target {
        MidiTarget::ChannelVolume { id, mix } => {
            let mut s = channel_name(cfg, *id);
            s.append(" — ");
            s.append(mix.label());
            s.append(" volume");
            s
        },
        MidiTarget::ChannelMute { id, mix } => {
            let mut s = channel_name(cfg, *id);
            s.append(" — ");
            s.append(mix.label());
            s.append(" mute");
            s
        },
        MidiTarget::ChannelColor { id } => {
            let mut s = channel_name(cfg, *id);
            s.append(" — color pad");
            s
        },
        MidiTarget::MasterVolume { mix } => text::join(mix.label(), " Mix master volume"),
        MidiTarget::MasterMute { mix } => text::join(mix.label(), " Mix master mute"),
        MidiTarget::SelectProfile { profile } => {
            let mut s = match cfg.midi.profile(*profile) {
                Some(p) => text::join("switching to profile “", p.name.as_str()),
                None => text::join("switching to profile “", "?"),
            };
            s.append("”");
            s
        },
    }
}

/// A binding as it is listed: the control, what it drives, and the target by
/// which it is removed.
#[derive(Clone, Debug, PartialEq, Eq)]
pub struct BindingRow {
    pub title: String,
    pub subtitle: String,
    pub target: MidiTarget,
}

/// A binding row as plain values.
pub struct BindingView {
    pub title: Seq<char>,
    pub subtitle: Seq<char>,
    pub target: MidiTarget,
}

impl View for BindingRow {
    type V = BindingView;

    open spec fn view(&self) -> BindingView {
        BindingView { title: self.title@, subtitle: self.subtitle@, target: self.target }
    }
}

/// Rows as plain values.
pub open spec fn binding_views(s: Seq<BindingRow>) -> Seq<BindingView> {
    Seq::new(s.len(), |i: int| s[i]@)
}

/// A profile as it is listed.
#[derive(Clone, Debug, PartialEq, Eq)]
pub struct ProfileRow {
    pub id: u64,
    pub title: String,
    pub subtitle: String,
    /// The profile is the live one.
    pub active: bool,
    /// The last profile cannot be removed.
    pub removable: bool,
    /// Its bindings, then the pads that switch to it. Where there are none, the
    /// row says so.
    pub rows: Vec<BindingRow>,
}

/// How a control is called.
pub open spec fn control_text(s: MidiSource) -> Seq<char> {
    kind_name(s.kind) + " "@ + dec(s.number as nat) + " · "@ + s.device@
}

/// The rows of a profile's own bindings.
pub open spec fn own_rows(cfg: Config, s: Seq<MidiBinding>) -> Seq<BindingView> {
    Seq::new(
        s.len(),
        |i: int|
            BindingView {
                title: control_text(s[i].source),
                subtitle: target_text(cfg, s[i].target),
                target: s[i].target,
            },
    )
}

/// The rows of the pads that switch to a profile, among the first `n` global
/// bindings.
pub open spec fn pad_rows(s: Seq<MidiBinding>, profile: u64, n: int) -> Seq<BindingView>
    decreases n,
{
    if n <= 0 {
        Seq::empty()
    } else {
        let rest = pad_rows(s, profile, n - 1);
        if s[n - 1].target == (MidiTarget::SelectProfile { profile }) {
            rest.push(
                BindingView {
                    title: control_text(s[n - 1].source),
                    subtitle: "Switches to this profile"@,
                    target: s[n - 1].target,
                },
            )
        } else {
            rest
        }
    }
}

/// How many bindings there are, in words.
pub open spec fn count_text(n: nat) -> Seq<char> {
    if n == 0 {
        "No bindings"@
    } else if n == 1 {
        "1 binding"@
    } else {
        dec(n) + " bindings"@
    }
}

/// Whether a row lists a profile.
pub open spec fn lists_profile(cfg: Config, p: MidiProfile, r: ProfileRow) -> bool {
    let g = cfg.midi.global_bindings@;
    let rows = own_rows(cfg, p.bindings@) + pad_rows(g, p.id, g.len() as int);
    &&& r.id == p.id
    &&& r.title@ == p.name@
    &&& r.subtitle@ == count_text(rows.len())
    &&& r.active == (p.id == cfg.midi.active_profile)
    &&& r.removable == (cfg.midi.profiles@.len() > 1)
    &&& binding_views(r.rows@) == rows
}

/// How many bindings there are, in words.
fn count_label(n: usize) -> (r: String)
    ensures
        r@ == count_text(n as nat),
{
    if n == 0 {
        text::copy("No bindings")
    } else if n == 1 {
        text::copy("1 binding")
    } else {
        let mut s = text::decimal(n as u64);
        s.append(" bindings");
        s
    }
}

/// Add a row.
fn push_row(v: &mut Vec<BindingRow>, row: BindingRow)
    ensures
        binding_views(final(v)@) == binding_views(old(v)@).push(row@),
{
    let ghost x = row@;
    v.push(row);
    assert(binding_views(v@) =~= binding_views(old(v)@).push(x));
}

/// The row of a profile.
fn profile_row(cfg: &Config, p: &MidiProfile) -> (r: ProfileRow)
    ensures
        lists_profile(*cfg, *p, r),
{
    let mut rows: Vec<BindingRow> = Vec::new();
    let ghost own = own_rows(*cfg, p.bindings@);
    assert(binding_views(rows@) =~= own.take(0));
    let mut i: usize = 0;
    while i < p.bindings.len()
        invariant
            i <= p.bindings@.len(),
            own == own_rows(*cfg, p.bindings@),
            binding_views(rows@) == own.take(i as int),
        decreases p.bindings@.len() - i,
    {
        let b = &p.bindings[i];
        push_row(
            &mut rows,
            BindingRow {
                title: b.source.label(),
                subtitle: target_description(cfg, &b.target),
                target: b.target,
            },
        );
        assert(binding_views(rows@) =~= own.take(i + 1));
        i = i + 1;
    }
    assert(own.take(i as int) =~= own);
    let pad = MidiTarget::SelectProfile { profile: p.id };
    let ghost g = cfg.midi.global_bindings@;
    let mut k: usize = 0;
    assert(own + pad_rows(g, p.id, 0) =~= own);
    while k < cfg.midi.global_bindings.len()
        invariant
            k <= g.len(),
            g == cfg.midi.global_bindings@,
            pad == (MidiTarget::SelectProfile { profile: p.id }),
            binding_views(rows@) == own + pad_rows(g, p.id, k as int),
        decreases g.len() - k,
    {
        let b = &cfg.midi.global_bindings[k];
        if b.target == pad {
            push_row(
                &mut rows,
                BindingRow {
                    title: b.source.label(),
                    subtitle: text::copy("Switches to this profile"),
                    target: b.target,
                },
            );
            assert(binding_views(rows@) =~= own + pad_rows(g, p.id, k + 1));
        }
        k = k + 1;
    }
    assert(binding_views(rows@).len() == rows@.len());
    ProfileRow {
        id: p.id,
        title: p.name.clone(),
        subtitle: count_label(rows.len()),
        active: p.id == cfg.midi.active_profile,
        removable: cfg.midi.profiles.len() > 1,
        rows,
    }
}

/// Whether there is a row for each profile.
pub open spec fn lists_all_profiles(cfg: Config, r: Seq<ProfileRow>) -> bool {
    &&& r.len() == cfg.midi.profiles@.len()
    &&& forall|i: int| 0 <= i < r.len() ==> lists_profile(cfg, cfg.midi.profiles@[i], #[trigger] r[i])
}

/// The profiles with their bindings and the pads that switch to them.
pub fn profile_rows(cfg: &Config) -> (r: Vec<ProfileRow>)
    ensures
        lists_all_profiles(*cfg, r@),
{
    let mut v: Vec<ProfileRow> = Vec::new();
    let mut i: usize = 0;
    while i < cfg.midi.profiles.len()
        invariant
            i <= cfg.midi.profiles@.len(),
            v@.len() == i,
            forall|j: int| 0 <= j < i ==> lists_profile(*cfg, cfg.midi.profiles@[j], #[trigger] v@[j]),
        decreases cfg.midi.profiles@.len() - i,
    {
        v.push(profile_row(cfg, &cfg.midi.profiles[i]));
        i = i + 1;
    }
    v
}

/// What renaming a profile answers and makes of the section.
pub open spec fn profile_renamed(midi: MidiConfig, id: u64, typed: Seq<char>, r: bool, new: MidiConfig) -> bool {
    &&& r == (trim(typed).len() > 0)
    &&& ({
        let i = midi.position(id);
        if r && midi.has_profile(id) {
            let p = new.profiles@[i];
            &&& p.name@ == trim(typed)
            &&& p == (MidiProfile { name: p.name, ..midi.profiles@[i] })
            &&& new.profiles@ == midi.profiles@.update(i, p)
            &&& new == (MidiConfig { profiles: new.profiles, ..midi })
        } else {
            new == midi
        }
    })
}

/// Rename a profile. Says whether a name was given; a blank one is ignored.
pub fn rename_profile(midi: &mut MidiConfig, id: u64, typed: &str) -> (r: bool)
    ensures
        profile_renamed(*old(midi), id, typed@, r, *final(midi)),
{
    let name = text::trimmed(typed);
    if name.as_str().is_empty() {
        return false;
    }
    let i = midi.find(id);
    if i < midi.profiles.len() {
        midi.profiles[i].name = name;
    }
    true
}

// ---- What is said of bindings -----------------------------------------------

/// A target is described by what it is: the channel by its name, the mix by its
/// label, and whether it is a volume, a mute or a color.
pub proof fn targets_are_described(cfg: Config, id: u64, mix: Mix, profile: u64)
    requires
        cfg.has_channel(id),
        cfg.midi.has_profile(profile),
    ensures
        ({
            let name = cfg.channels@[cfg.position(id)].name@;
            let label = match mix {
                Mix::Monitor => "Monitor"@,
                Mix::Stream => "Stream"@,
                Mix::Vod => "VOD"@,
            };
            &&& target_text(cfg, MidiTarget::ChannelVolume { id, mix }) == name + " — "@ + label + " volume"@
            &&& target_text(cfg, MidiTarget::ChannelMute { id, mix }) == name + " — "@ + label + " mute"@
            &&& target_text(cfg, MidiTarget::ChannelColor { id }) == name + " — color pad"@
            &&& target_text(cfg, MidiTarget::MasterVolume { mix }) == label + " Mix master volume"@
            &&& target_text(cfg, MidiTarget::MasterMute { mix }) == label + " Mix master mute"@
            &&& target_text(cfg, MidiTarget::SelectProfile { profile }) == "switching to profile “"@
                + cfg.midi.profiles@[cfg.midi.position(profile)].name@ + "”"@
        }),
{
}

/// A profile lists each of its bindings, with the control, and then the pads
/// that switch to it; each row removes the binding it shows.
pub proof fn profiles_list_their_bindings(cfg: Config, p: MidiProfile, r: ProfileRow, i: int, j: int)
    requires
        lists_profile(cfg, p, r),
        0 <= i < p.bindings@.len(),
        0 <= j < cfg.midi.global_bindings@.len(),
    ensures
        r.id == p.id,
        r.title@ == p.name@,
        r.active <==> p.id == cfg.midi.active_profile,
        r.removable <==> cfg.midi.profiles@.len() > 1,
        r.rows@[i].target == p.bindings@[i].target,
        r.rows@[i].title@ == control_text(p.bindings@[i].source),
        r.rows@[i].subtitle@ == target_text(cfg, p.bindings@[i].target),
        cfg.midi.global_bindings@[j].target == (MidiTarget::SelectProfile { profile: p.id }) ==> exists|k: int|
            p.bindings@.len() <= k < r.rows@.len() && (#[trigger] r.rows@[k]).title@ == control_text(
                cfg.midi.global_bindings@[j].source,
            ) && r.rows@[k].target == cfg.midi.global_bindings@[j].target,
{
    let g = cfg.midi.global_bindings@;
    let own = own_rows(cfg, p.bindings@);
    let pads = pad_rows(g, p.id, g.len() as int);
    assert(binding_views(r.rows@)[i] == own[i]);
    if g[j].target == (MidiTarget::SelectProfile { profile: p.id }) {
        pad_is_listed(g, p.id, g.len() as int, j);
        let x = BindingView {
            title: control_text(g[j].source),
            subtitle: "Switches to this profile"@,
            target: g[j].target,
        };
        let k = choose|k: int| 0 <= k < pads.len() && pads[k] == x;
        let n = own.len() + k;
        assert(binding_views(r.rows@)[n] == x);
        assert(r.rows@[n].title@ == control_text(g[j].source));
    }
}

/// A pad that switches to a profile is listed.
proof fn pad_is_listed(s: Seq<MidiBinding>, profile: u64, n: int, j: int)
    requires
        0 <= j < n,
        s[j].target == (MidiTarget::SelectProfile { profile }),
    ensures
        pad_rows(s, profile, n).contains(
            BindingView {
                title: control_text(s[j].source),
                subtitle: "Switches to this profile"@,
                target: s[j].target,
            },
        ),
    decreases n,
{
    let x = BindingView {
        title: control_text(s[j].source),
        subtitle: "Switches to this profile"@,
        target: s[j].target,
    };
    let rest = pad_rows(s, profile, n - 1);
    let all = pad_rows(s, profile, n);
    if j == n - 1 {
        assert(all[rest.len() as int] == x);
    } else {
        pad_is_listed(s, profile, n - 1, j);
        let k = choose|k: int| 0 <= k < rest.len() && rest[k] == x;
        assert(all[k] == x);
    }
}

/// A control is called by its kind, number and device.
pub proof fn controls_are_called_by_number(s: MidiSource)
    ensures
        s.kind == MidiKind::Cc ==> control_text(s) == "CC"@ + " "@ + dec(s.number as nat) + " · "@ + s.device@,
        s.kind == MidiKind::Note ==> control_text(s) == "Note"@ + " "@ + dec(s.number as nat) + " · "@ + s.device@,
{
}

/// A profile takes the name that was typed, trimmed; a blank name is refused. No
/// other profile, no binding and not the selection changes.
pub proof fn profiles_take_the_typed_name(m: MidiConfig, p: int, typed: Seq<char>, r: bool, new: MidiConfig)
    requires
        m.wf(),
        0 <= p < m.profiles@.len(),
        profile_renamed(m, m.profiles@[p].id, typed, r, new),
    ensures
        r <==> trim(typed).len() > 0,
        !r ==> new == m,
        r ==> new.profiles@[p].name@ == trim(typed),
        new.profiles@.len() == m.profiles@.len(),
        new.profiles@[p].id == m.profiles@[p].id && new.profiles@[p].bindings == m.profiles@[p].bindings,
        forall|j: int| 0 <= j < m.profiles@.len() && j != p ==> #[trigger] new.profiles@[j] == m.profiles@[j],
        new.active_profile == m.active_profile && new.global_bindings == m.global_bindings,
{
    crate::list::first_is_at(m.profiles@, crate::config::profile_is(m.profiles@[p].id), p);
}

/// The rows of pads are those of pads that switch to the profile.
proof fn only_pads_are_listed(s: Seq<MidiBinding>, profile: u64, n: int, k: int)
    requires
        0 <= n <= s.len(),
        0 <= k < pad_rows(s, profile, n).len(),
    ensures
        pad_rows(s, profile, n)[k].target == (MidiTarget::SelectProfile { profile }),
        pad_rows(s, profile, n)[k].subtitle == "Switches to this profile"@,
    decreases n,
{
    if n > 0 {
        let rest = pad_rows(s, profile, n - 1);
        if k < rest.len() {
            only_pads_are_listed(s, profile, n - 1, k);
        }
    }
}

/// Behind its own bindings a profile lists nothing but pads that switch to it, and
/// it says how many rows there are.
pub proof fn profiles_list_nothing_else(cfg: Config, rows: Seq<ProfileRow>, i: int, k: int)
    requires
        lists_all_profiles(cfg, rows),
        0 <= i < cfg.midi.profiles@.len(),
    ensures
        rows.len() == cfg.midi.profiles@.len(),
        ({
            let p = cfg.midi.profiles@[i];
            let r = rows[i];
            &&& r.id == p.id
            &&& p.bindings@.len() <= r.rows@.len()
            &&& p.bindings@.len() <= k < r.rows@.len() ==> r.rows@[k].target == (MidiTarget::SelectProfile {
                profile: p.id,
            }) && r.rows@[k].subtitle@ == "Switches to this profile"@
            &&& r.rows@.len() == 0 ==> r.subtitle@ == "No bindings"@
            &&& r.rows@.len() == 1 ==> r.subtitle@ == "1 binding"@
            &&& r.rows@.len() > 1 ==> r.subtitle@ == dec(r.rows@.len()) + " bindings"@
        }),
{
    let p = cfg.midi.profiles@[i];
    let r = rows[i];
    let g = cfg.midi.global_bindings@;
    let own = own_rows(cfg, p.bindings@);
    let pads = pad_rows(g, p.id, g.len() as int);
    assert(lists_profile(cfg, p, r));
    assert(binding_views(r.rows@).len() == r.rows@.len());
    if p.bindings@.len() <= k < r.rows@.len() {
        only_pads_are_listed(g, p.id, g.len() as int, k - own.len());
        assert(binding_views(r.rows@)[k] == pads[k - own.len()]);
        assert(r.rows@[k]@ == pads[k - own.len()]);
    }
}

/// A channel or profile that is gone is described as such.
pub proof fn missing_targets_are_described(cfg: Config, id: u64, mix: Mix, profile: u64)
    requires
        !cfg.has_channel(id),
        !cfg.midi.has_profile(profile),
    ensures
        target_text(cfg, MidiTarget::ChannelColor { id }) == "removed channel"@ + " — color pad"@,
        target_text(cfg, MidiTarget::ChannelVolume { id, mix }) == "removed channel"@ + " — "@ + mix.shown()
            + " volume"@,
        target_text(cfg, MidiTarget::ChannelMute { id, mix }) == "removed channel"@ + " — "@ + mix.shown() + " mute"@,
        target_text(cfg, MidiTarget::SelectProfile { profile }) == "switching to profile “"@ + "?"@ + "”"@,
{
}

} // verus!
