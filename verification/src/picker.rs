//! The channel strip's input selector: single-choice input kinds (nothing,
//! virtual device, catch-all, capture devices) beside a checklist of
//! applications, so one channel can capture a whole group of apps.

use vstd::prelude::*;
use vstd::string::StringExecFns;

use crate::list::{first, first_is_at};
use crate::text;
use crate::text::{dec, lower, trim, views};

verus! {

/// What the selector can pick.
#[derive(Clone, Debug, PartialEq, Eq)]
pub enum Picked {
    Source(String),
    /// Rules that name applications, or match several.
    App(Vec<String>),
    Virtual,
    /// Every app no other channel captures.
    CatchAll,
}

/// What the selector can pick, as plain values.
pub enum PickedView {
    Source(Seq<char>),
    App(Seq<Seq<char>>),
    Virtual,
    CatchAll,
}

impl View for Picked {
    type V = PickedView;

    open spec fn view(&self) -> PickedView {
        match self {
            Picked::Source(n) => PickedView::Source(n@),
            Picked::App(v) => PickedView::App(views(v@)),
            Picked::Virtual => PickedView::Virtual,
            Picked::CatchAll => PickedView::CatchAll,
        }
    }
}

/// A choice as plain values.
pub open spec fn picked_view(p: Option<Picked>) -> Option<PickedView> {
    match p {
        Some(p) => Some(p@),
        None => None,
    }
}

/// Everything the picker renders: what the audio server currently offers plus
/// the bits of config that decide whether a row is available.
#[derive(Clone, Debug, PartialEq, Eq)]
pub struct InputOptions {
    /// This channel's name, for the "Crossfade: <name>" subtitle.
    pub channel: String,
    /// Capture devices as (description, source name).
    pub sources: Vec<(String, String)>,
    /// Monitors of output devices, same shape.
    pub monitors: Vec<(String, String)>,
    /// `application.name` of every playback stream currently running.
    pub apps: Vec<String>,
    /// Running apps another channel already claims, as (app, channel name).
    pub claimed: Vec<(String, String)>,
    /// Name of the channel that already is the catch-all, if it is not this
    /// one; that role can only be filled once.
    pub catch_all_owner: Option<String>,
}

/// What is known of a rule: whether it is a pattern, and which of the running
/// applications it matches.
#[derive(Clone, Debug, PartialEq, Eq)]
pub struct RuleInfo {
    pub pattern: bool,
    pub hits: Vec<bool>,
}

/// A single-choice row; the selected one carries a check mark.
#[derive(Clone, Debug, PartialEq, Eq)]
pub struct ChoiceRow {
    pub title: String,
    pub subtitle: String,
    pub selected: bool,
    pub enabled: bool,
    pub target: Option<Picked>,
}

/// A single-choice row as plain values.
pub struct ChoiceView {
    pub title: Seq<char>,
    pub subtitle: Seq<char>,
    pub selected: bool,
    pub enabled: bool,
    pub target: Option<PickedView>,
}

impl View for ChoiceRow {
    type V = ChoiceView;

    open spec fn view(&self) -> ChoiceView {
        ChoiceView {
            title: self.title@,
            subtitle: self.subtitle@,
            selected: self.selected,
            enabled: self.enabled,
            target: picked_view(self.target),
        }
    }
}

/// Rows as plain values.
pub open spec fn choice_views(s: Seq<ChoiceRow>) -> Seq<ChoiceView> {
    Seq::new(s.len(), |i: int| s[i]@)
}

/// A checkable application row. `next` is the rule list the channel ends up
/// with when the check is flipped.
#[derive(Clone, Debug, PartialEq, Eq)]
pub struct AppRow {
    pub title: String,
    pub subtitle: String,
    pub active: bool,
    pub enabled: bool,
    pub next: Vec<String>,
}

/// An application row as plain values.
pub struct AppView {
    pub title: Seq<char>,
    pub subtitle: Seq<char>,
    pub active: bool,
    pub enabled: bool,
    pub next: Seq<Seq<char>>,
}

impl View for AppRow {
    type V = AppView;

    open spec fn view(&self) -> AppView {
        AppView {
            title: self.title@,
            subtitle: self.subtitle@,
            active: self.active,
            enabled: self.enabled,
            next: views(self.next@),
        }
    }
}

/// Rows as plain values.
pub open spec fn app_views(s: Seq<AppRow>) -> Seq<AppView> {
    Seq::new(s.len(), |i: int| s[i]@)
}

/// The selector as it is shown.
#[derive(Clone, Debug, PartialEq, Eq)]
pub struct Rendered {
    pub inputs: Vec<ChoiceRow>,
    /// The section is hidden while it is empty.
    pub devices: Vec<ChoiceRow>,
    pub apps: Vec<AppRow>,
    /// Say that no applications are playing.
    pub no_apps: bool,
    pub label: String,
    pub tooltip: String,
}

/// Copies of some texts.
fn copy_texts(v: &Vec<String>) -> (r: Vec<String>)
    ensures
        r@ == v@,
{
    let mut out: Vec<String> = Vec::new();
    let mut i: usize = 0;
    while i < v.len()
        invariant
            i <= v@.len(),
            out@ =~= v@.take(i as int),
        decreases v@.len() - i,
    {
        out.push(v[i].clone());
        i = i + 1;
    }
    out
}

/// The rules of a choice; none unless it is for applications.
pub open spec fn rules_of(current: Option<Picked>) -> Seq<String> {
    match current {
        Some(Picked::App(v)) => v@,
        _ => Seq::empty(),
    }
}

/// The rules currently shown.
pub fn selected_apps(current: &Option<Picked>) -> (r: Vec<String>)
    ensures
        r@ == rules_of(*current),
{
    match current {
        Some(Picked::App(v)) => copy_texts(v),
        _ => Vec::new(),
    }
}

/// An edited rule list as a choice.
pub open spec fn of_rules(apps: Vec<String>) -> Picked {
    if apps@.len() == 0 {
        Picked::Virtual
    } else {
        Picked::App(apps)
    }
}

/// An edited rule list as a choice; without rules the channel is exactly a
/// virtual device, so that is what it becomes.
pub fn from_rules(apps: Vec<String>) -> (r: Picked)
    ensures
        r == of_rules(apps),
{
    if apps.len() == 0 {
        Picked::Virtual
    } else {
        Picked::App(apps)
    }
}

/// Whether a rule is already there, whatever its case.
pub open spec fn has_rule(apps: Seq<String>, rule: Seq<char>) -> bool {
    exists|i: int| 0 <= i < apps.len() && lower((#[trigger] apps[i])@) == lower(rule)
}

/// What typing in a rule makes of a list.
pub open spec fn rule_added(apps: Seq<String>, typed: Seq<char>, r: Option<Vec<String>>) -> bool {
    let rule = trim(typed);
    if rule.len() == 0 || has_rule(apps, rule) {
        r is None
    } else {
        r is Some && views(r->0@) == views(apps).push(rule)
    }
}

/// Add a rule that was typed in. Nothing changes for a blank one, or one that
/// is already there.
pub fn add_rule(apps: Vec<String>, typed: &str) -> (r: Option<Vec<String>>)
    ensures
        rule_added(apps@, typed@, r),
{
    let rule = text::trimmed(typed);
    if rule.as_str().is_empty() {
        return None;
    }
    let small = text::lowered(rule.as_str());
    let mut i: usize = 0;
    while i < apps.len()
        invariant
            i <= apps@.len(),
            small@ == lower(rule@),
            rule@ == trim(typed@),
            rule@.len() > 0,
            forall|j: int| 0 <= j < i ==> lower((#[trigger] apps@[j])@) != lower(rule@),
        decreases apps@.len() - i,
    {
        let other = text::lowered(apps[i].as_str());
        if text::same(other.as_str(), small.as_str()) {
            assert(has_rule(apps@, rule@));
            return None;
        }
        i = i + 1;
    }
    let mut apps = apps;
    let ghost before = apps@;
    let ghost rv = rule@;
    apps.push(rule);
    assert(views(apps@) =~= views(before).push(rv));
    Some(apps)
}

// ---- Input kinds ------------------------------------------------------------

/// The rows of the input kinds.
pub open spec fn kind_rows(o: InputOptions, current: Option<Picked>) -> Seq<ChoiceView> {
    let catch_all = current is Some && current->0 is CatchAll;
    seq![
        ChoiceView {
            title: "No Input"@,
            subtitle: ""@,
            selected: current is None,
            enabled: true,
            target: None,
        },
        ChoiceView {
            title: "Virtual Device"@,
            subtitle: "Selectable as “Crossfade: "@ + o.channel@ + "”"@,
            selected: current is Some && (current->0 is Virtual || current->0 is App),
            enabled: true,
            target: Some(PickedView::Virtual),
        },
        ChoiceView {
            title: "Other Apps"@,
            subtitle: match o.catch_all_owner {
                Some(owner) => "Already used by the “"@ + owner@ + "” channel"@,
                None => "Every app no other channel captures"@,
            },
            selected: catch_all,
            enabled: catch_all || o.catch_all_owner is None,
            target: Some(PickedView::CatchAll),
        },
    ]
}

/// Add a row.
fn push_choice(v: &mut Vec<ChoiceRow>, row: ChoiceRow)
    ensures
        choice_views(final(v)@) == choice_views(old(v)@).push(row@),
{
    let ghost x = row@;
    v.push(row);
    assert(choice_views(v@) =~= choice_views(old(v)@).push(x));
}

/// The rows of the input kinds.
fn render_kinds(o: &InputOptions, current: &Option<Picked>) -> (r: Vec<ChoiceRow>)
    ensures
        choice_views(r@) == kind_rows(*o, *current),
{
    let mut v: Vec<ChoiceRow> = Vec::new();
    let none = match current {
        None => true,
        _ => false,
    };
    let virt = match current {
        Some(Picked::Virtual) => true,
        Some(Picked::App(_)) => true,
        _ => false,
    };
    let catch_all = match current {
        Some(Picked::CatchAll) => true,
        _ => false,
    };
    push_choice(
        &mut v,
        ChoiceRow {
            title: text::copy("No Input"),
            subtitle: text::copy(""),
            selected: none,
            enabled: true,
            target: None,
        },
    );
    let mut virtual_subtitle = text::join("Selectable as “Crossfade: ", o.channel.as_str());
    virtual_subtitle.append("”");
    push_choice(
        &mut v,
        ChoiceRow {
            title: text::copy("Virtual Device"),
            subtitle: virtual_subtitle,
            selected: virt,
            enabled: true,
            target: Some(Picked::Virtual),
        },
    );
    let subtitle = match &o.catch_all_owner {
        Some(owner) => {
            let mut s = text::join("Already used by the “", owner.as_str());
            s.append("” channel");
            s
        },
        None => text::copy("Every app no other channel captures"),
    };
    push_choice(
        &mut v,
        ChoiceRow {
            title: text::copy("Other Apps"),
            subtitle,
            selected: catch_all,
            enabled: catch_all || o.catch_all_owner.is_none(),
            target: Some(Picked::CatchAll),
        },
    );
    assert(choice_views(v@) =~= kind_rows(*o, *current));
    v
}

// ---- Capture devices --------------------------------------------------------

/// The capture devices to choose from: real ones, then monitors.
pub open spec fn all_devices(o: InputOptions) -> Seq<(String, String)> {
    o.sources@ + o.monitors@
}

/// Whether a choice is a source.
pub open spec fn picks(current: Option<Picked>, name: Seq<char>) -> bool {
    current is Some && current->0 is Source && current->0->Source_0@ == name
}

/// The rows of capture devices.
pub open spec fn listed_devices(s: Seq<(String, String)>, current: Option<Picked>) -> Seq<ChoiceView> {
    Seq::new(
        s.len(),
        |i: int|
            ChoiceView {
                title: s[i].0@,
                subtitle: ""@,
                selected: picks(current, s[i].1@),
                enabled: true,
                target: Some(PickedView::Source(s[i].1@)),
            },
    )
}

/// Whether a source is among some.
pub open spec fn lists_source(s: Seq<(String, String)>, name: Seq<char>) -> bool {
    exists|i: int| 0 <= i < s.len() && (#[trigger] s[i]).1@ == name
}

/// The rows of the capture devices. An unplugged one stays selectable, so its
/// assignment is not silently lost while the hardware is away.
pub open spec fn device_rows(o: InputOptions, current: Option<Picked>) -> Seq<ChoiceView> {
    let rows = listed_devices(all_devices(o), current);
    if current is Some && current->0 is Source && !lists_source(all_devices(o), current->0->Source_0@) {
        rows.push(
            ChoiceView {
                title: current->0->Source_0@,
                subtitle: "Not connected"@,
                selected: true,
                enabled: true,
                target: Some(PickedView::Source(current->0->Source_0@)),
            },
        )
    } else {
        rows
    }
}

/// Whether a choice is a source.
fn is_picked(current: &Option<Picked>, name: &str) -> (r: bool)
    ensures
        r == picks(*current, name@),
{
    match current {
        Some(Picked::Source(n)) => text::same(n.as_str(), name),
        _ => false,
    }
}

/// Add the rows of some devices. Says whether the current one is among them.
fn push_devices(v: &mut Vec<ChoiceRow>, s: &Vec<(String, String)>, current: &Option<Picked>) -> (found: bool)
    ensures
        choice_views(final(v)@) == choice_views(old(v)@) + listed_devices(s@, *current),
        found == exists|i: int| 0 <= i < s@.len() && picks(*current, (#[trigger] s@[i]).1@),
{
    let ghost start = choice_views(v@);
    let ghost rows = listed_devices(s@, *current);
    let mut found = false;
    let mut i: usize = 0;
    assert(start + rows.take(0) =~= start);
    while i < s.len()
        invariant
            i <= s@.len(),
            rows == listed_devices(s@, *current),
            choice_views(v@) == start + rows.take(i as int),
            found == exists|j: int| 0 <= j < i && picks(*current, (#[trigger] s@[j]).1@),
        decreases s@.len() - i,
    {
        let selected = is_picked(current, s[i].1.as_str());
        if selected {
            found = true;
        }
        push_choice(
            v,
            ChoiceRow {
                title: s[i].0.clone(),
                subtitle: text::copy(""),
                selected,
                enabled: true,
                target: Some(Picked::Source(s[i].1.clone())),
            },
        );
        assert(choice_views(v@) =~= start + rows.take(i + 1));
        i = i + 1;
    }
    assert(rows.take(i as int) =~= rows);
    found
}

/// The rows of the capture devices.
fn render_devices(o: &InputOptions, current: &Option<Picked>) -> (r: Vec<ChoiceRow>)
    ensures
        choice_views(r@) == device_rows(*o, *current),
{
    let mut v: Vec<ChoiceRow> = Vec::new();
    let ghost all = all_devices(*o);
    let a = push_devices(&mut v, &o.sources, current);
    let b = push_devices(&mut v, &o.monitors, current);
    assert(choice_views(v@) =~= listed_devices(all, *current));
    proof {
        let n = o.sources@.len() as int;
        if a {
            let k = choose|k: int| 0 <= k < n && picks(*current, (#[trigger] o.sources@[k]).1@);
            assert(all[k] == o.sources@[k]);
        }
        if b {
            let k = choose|k: int|
                0 <= k < o.monitors@.len() && picks(*current, (#[trigger] o.monitors@[k]).1@);
            assert(all[n + k] == o.monitors@[k]);
        }
        if current is Some && current->0 is Source && lists_source(all, current->0->Source_0@) {
            let k = choose|k: int| 0 <= k < all.len() && (#[trigger] all[k]).1@ == current->0->Source_0@;
            if k < n {
                assert(picks(*current, o.sources@[k].1@));
            } else {
                assert(picks(*current, o.monitors@[k - n].1@));
            }
        }
    }
    if let Some(Picked::Source(name)) = current {
        if !a && !b {
            push_choice(
                &mut v,
                ChoiceRow {
                    title: name.clone(),
                    subtitle: text::copy("Not connected"),
                    selected: true,
                    enabled: true,
                    target: Some(Picked::Source(name.clone())),
                },
            );
        }
    }
    v
}

// ---- Applications -----------------------------------------------------------

/// The running applications that a rule matches, by name.
pub open spec fn matched(apps: Seq<String>, hits: Seq<bool>, n: int) -> Seq<Seq<char>>
    decreases n,
{
    if n <= 0 {
        Seq::empty()
    } else if hits[n - 1] {
        matched(apps, hits, n - 1).push(apps[n - 1]@)
    } else {
        matched(apps, hits, n - 1)
    }
}

/// Texts with a separator between them.
pub open spec fn joined(s: Seq<Seq<char>>, sep: Seq<char>, n: int) -> Seq<char>
    decreases n,
{
    if n <= 0 {
        Seq::empty()
    } else if n == 1 {
        s[0]
    } else {
        joined(s, sep, n - 1) + sep + s[n - 1]
    }
}

/// What is said of a rule.
pub open spec fn rule_subtitle(apps: Seq<String>, r: RuleInfo) -> Seq<char> {
    let m = matched(apps, r.hits@, apps.len() as int);
    if r.pattern {
        if m.len() == 0 {
            "Pattern — nothing running matches"@
        } else {
            "Pattern — "@ + joined(m, ", "@, m.len() as int)
        }
    } else if m.len() > 0 {
        ""@
    } else {
        "Not running"@
    }
}

/// The rows of the rules.
pub open spec fn rule_rows(apps: Seq<String>, rules: Seq<String>, info: Seq<RuleInfo>) -> Seq<AppView> {
    Seq::new(
        rules.len(),
        |i: int|
            AppView {
                title: rules[i]@,
                subtitle: rule_subtitle(apps, info[i]),
                active: true,
                enabled: true,
                next: views(rules.remove(i)),
            },
    )
}

/// A rule that names an application.
pub open spec fn names_app(app: int) -> spec_fn(RuleInfo) -> bool {
    |r: RuleInfo| !r.pattern && r.hits@[app]
}

/// A pattern that matches an application.
pub open spec fn matches_app(app: int) -> spec_fn(RuleInfo) -> bool {
    |r: RuleInfo| r.pattern && r.hits@[app]
}

/// The claim on an application.
pub open spec fn claims(app: Seq<char>) -> spec_fn((String, String)) -> bool {
    |c: (String, String)| c.0@ == app
}

/// The row of a running application that no rule names: matched by a pattern,
/// captured by another channel, or free.
pub open spec fn app_row(o: InputOptions, rules: Seq<String>, info: Seq<RuleInfo>, app: int) -> AppView {
    let p = first(info, matches_app(app));
    let c = first(o.claimed@, claims(o.apps@[app]@));
    if p < info.len() {
        AppView {
            title: o.apps@[app]@,
            subtitle: "Matched by “"@ + rules[p]@ + "”"@,
            active: true,
            enabled: false,
            next: Seq::empty(),
        }
    } else if c < o.claimed@.len() {
        AppView {
            title: o.apps@[app]@,
            subtitle: "Captured by the “"@ + o.claimed@[c].1@ + "” channel"@,
            active: false,
            enabled: false,
            next: Seq::empty(),
        }
    } else {
        AppView {
            title: o.apps@[app]@,
            subtitle: ""@,
            active: false,
            enabled: true,
            next: views(rules).push(o.apps@[app]@),
        }
    }
}

/// The rows of the first `n` running applications that no rule names.
pub open spec fn free_rows(o: InputOptions, rules: Seq<String>, info: Seq<RuleInfo>, n: int) -> Seq<AppView>
    decreases n,
{
    if n <= 0 {
        Seq::empty()
    } else {
        let rest = free_rows(o, rules, info, n - 1);
        if first(info, names_app(n - 1)) < info.len() {
            rest
        } else {
            rest.push(app_row(o, rules, info, n - 1))
        }
    }
}

/// The rows of the applications.
pub open spec fn app_rows(o: InputOptions, rules: Seq<String>, info: Seq<RuleInfo>) -> Seq<AppView> {
    rule_rows(o.apps@, rules, info) + free_rows(o, rules, info, o.apps@.len() as int)
}

/// Texts with a separator between them.
pub fn join_texts(v: &Vec<String>, sep: &str) -> (r: String)
    ensures
        r@ == joined(views(v@), sep@, v@.len() as int),
{
    let ghost s = views(v@);
    let mut out = String::new();
    let mut i: usize = 0;
    while i < v.len()
        invariant
            i <= v@.len(),
            s == views(v@),
            out@ == joined(s, sep@, i as int),
        decreases v@.len() - i,
    {
        let ghost before = out@;
        if i > 0 {
            out.append(sep);
        }
        out.append(v[i].as_str());
        assert(Seq::<char>::empty() + s[0] =~= s[0]);
        i = i + 1;
    }
    out
}

/// The running applications that a rule matches.
fn matched_apps(apps: &Vec<String>, hits: &Vec<bool>) -> (r: Vec<String>)
    requires
        hits@.len() == apps@.len(),
    ensures
        views(r@) == matched(apps@, hits@, apps@.len() as int),
{
    let mut out: Vec<String> = Vec::new();
    assert(views(out@) =~= Seq::<Seq<char>>::empty());
    let mut i: usize = 0;
    while i < apps.len()
        invariant
            i <= apps@.len(),
            hits@.len() == apps@.len(),
            views(out@) == matched(apps@, hits@, i as int),
        decreases apps@.len() - i,
    {
        if hits[i] {
            let ghost before = views(out@);
            out.push(apps[i].clone());
            assert(views(out@) =~= before.push(apps@[i as int]@));
        }
        i = i + 1;
    }
    out
}

/// What is said of a rule.
fn describe_rule(apps: &Vec<String>, r: &RuleInfo) -> (s: String)
    requires
        r.hits@.len() == apps@.len(),
    ensures
        s@ == rule_subtitle(apps@, *r),
{
    let m = matched_apps(apps, &r.hits);
    assert(views(m@).len() == m@.len());
    if r.pattern {
        if m.len() == 0 {
            text::copy("Pattern — nothing running matches")
        } else {
            let list = join_texts(&m, ", ");
            text::join("Pattern — ", list.as_str())
        }
    } else if m.len() > 0 {
        text::copy("")
    } else {
        text::copy("Not running")
    }
}

/// The rules without one.
fn without_rule(rules: &Vec<String>, i: usize) -> (r: Vec<String>)
    requires
        i < rules@.len(),
    ensures
        r@ == rules@.remove(i as int),
{
    let mut v = copy_texts(rules);
    v.remove(i);
    v
}

/// The row of a running application that no rule names.
fn render_app(o: &InputOptions, rules: &Vec<String>, info: &Vec<RuleInfo>, app: usize) -> (r: AppRow)
    requires
        info@.len() == rules@.len(),
        forall|i: int| 0 <= i < info@.len() ==> (#[trigger] info@[i]).hits@.len() == o.apps@.len(),
        app < o.apps@.len(),
    ensures
        r@ == app_row(*o, rules@, info@, app as int),
{
    let ghost a = app as int;
    let mut p: usize = 0;
    while p < info.len() && !(info[p].pattern && info[p].hits[app])
        invariant
            p <= info@.len(),
            a == app,
            app < o.apps@.len(),
            forall|i: int| 0 <= i < info@.len() ==> (#[trigger] info@[i]).hits@.len() == o.apps@.len(),
            forall|j: int| 0 <= j < p ==> !matches_app(a)(#[trigger] info@[j]),
        decreases info@.len() - p,
    {
        p = p + 1;
    }
    proof {
        first_is_at(info@, matches_app(a), p as int);
    }
    let name = o.apps[app].as_str();
    let mut c: usize = 0;
    while c < o.claimed.len() && !text::same(o.claimed[c].0.as_str(), name)
        invariant
            c <= o.claimed@.len(),
            forall|j: int| 0 <= j < c ==> !claims(name@)(#[trigger] o.claimed@[j]),
        decreases o.claimed@.len() - c,
    {
        c = c + 1;
    }
    proof {
        first_is_at(o.claimed@, claims(name@), c as int);
    }
    if p < info.len() {
        let mut subtitle = text::join("Matched by “", rules[p].as_str());
        subtitle.append("”");
        let next: Vec<String> = Vec::new();
        assert(views(next@) =~= Seq::<Seq<char>>::empty());
        AppRow { title: text::copy(name), subtitle, active: true, enabled: false, next }
    } else if c < o.claimed.len() {
        let mut subtitle = text::join("Captured by the “", o.claimed[c].1.as_str());
        subtitle.append("” channel");
        let next: Vec<String> = Vec::new();
        assert(views(next@) =~= Seq::<Seq<char>>::empty());
        AppRow { title: text::copy(name), subtitle, active: false, enabled: false, next }
    } else {
        let mut next = copy_texts(rules);
        next.push(text::copy(name));
        assert(views(next@) =~= views(rules@).push(name@));
        AppRow { title: text::copy(name), subtitle: text::copy(""), active: false, enabled: true, next }
    }
}

/// The rows of the applications.
fn render_apps(o: &InputOptions, rules: &Vec<String>, info: &Vec<RuleInfo>) -> (r: Vec<AppRow>)
    requires
        info@.len() == rules@.len(),
        forall|i: int| 0 <= i < info@.len() ==> (#[trigger] info@[i]).hits@.len() == o.apps@.len(),
    ensures
        app_views(r@) == app_rows(*o, rules@, info@),
{
    let mut v: Vec<AppRow> = Vec::new();
    let ghost head = rule_rows(o.apps@, rules@, info@);
    let mut i: usize = 0;
    assert(app_views(v@) =~= head.take(0));
    while i < rules.len()
        invariant
            i <= rules@.len(),
            info@.len() == rules@.len(),
            forall|i: int| 0 <= i < info@.len() ==> (#[trigger] info@[i]).hits@.len() == o.apps@.len(),
            head == rule_rows(o.apps@, rules@, info@),
            app_views(v@) == head.take(i as int),
        decreases rules@.len() - i,
    {
        assert(info@[i as int].hits@.len() == o.apps@.len());
        let ghost before = app_views(v@);
        let row = AppRow {
            title: rules[i].clone(),
            subtitle: describe_rule(&o.apps, &info[i]),
            active: true,
            enabled: true,
            next: without_rule(rules, i),
        };
        let ghost x = row@;
        v.push(row);
        assert(app_views(v@) =~= before.push(x));
        assert(app_views(v@) =~= head.take(i + 1));
        i = i + 1;
    }
    assert(head.take(i as int) =~= head);
    let mut k: usize = 0;
    assert(head + free_rows(*o, rules@, info@, 0) =~= head);
    while k < o.apps.len()
        invariant
            k <= o.apps@.len(),
            info@.len() == rules@.len(),
            forall|i: int| 0 <= i < info@.len() ==> (#[trigger] info@[i]).hits@.len() == o.apps@.len(),
            app_views(v@) == head + free_rows(*o, rules@, info@, k as int),
        decreases o.apps@.len() - k,
    {
        let ghost a = k as int;
        let mut n: usize = 0;
        while n < info.len() && !(!info[n].pattern && info[n].hits[k])
            invariant
                n <= info@.len(),
                k < o.apps@.len(),
                a == k,
                forall|i: int| 0 <= i < info@.len() ==> (#[trigger] info@[i]).hits@.len() == o.apps@.len(),
                forall|j: int| 0 <= j < n ==> !names_app(a)(#[trigger] info@[j]),
            decreases info@.len() - n,
        {
            n = n + 1;
        }
        proof {
            first_is_at(info@, names_app(a), n as int);
        }
        if n >= info.len() {
            let ghost before = app_views(v@);
            let row = render_app(o, rules, info, k);
            let ghost x = row@;
            v.push(row);
            assert(app_views(v@) =~= before.push(x));
            assert(app_views(v@) =~= head + free_rows(*o, rules@, info@, k + 1));
        }
        k = k + 1;
    }
    v
}

// ---- The button -------------------------------------------------------------

/// The device of a name.
pub open spec fn device_named(name: Seq<char>) -> spec_fn((String, String)) -> bool {
    |d: (String, String)| d.1@ == name
}

/// How a source is called.
pub open spec fn source_text(o: InputOptions, name: Seq<char>) -> Seq<char> {
    let s = all_devices(o);
    let i = first(s, device_named(name));
    if i < s.len() {
        s[i].0@
    } else {
        name + " (unavailable)"@
    }
}

/// The button's label.
pub open spec fn summary_text(o: InputOptions, current: Option<Picked>) -> Seq<char> {
    match current {
        None => "No Input"@,
        Some(Picked::Virtual) => "Virtual Device"@,
        Some(Picked::CatchAll) => "Other Apps"@,
        Some(Picked::Source(n)) => source_text(o, n@),
        Some(Picked::App(v)) => if v@.len() == 0 {
            "Virtual Device"@
        } else if v@.len() == 1 {
            v@[0]@
        } else {
            v@[0]@ + " +"@ + dec((v@.len() - 1) as nat)
        },
    }
}

/// The button's tooltip.
pub open spec fn details_text(o: InputOptions, current: Option<Picked>) -> Seq<char> {
    match current {
        None => "No input"@,
        Some(Picked::Virtual) => "Virtual device — “Crossfade: "@ + o.channel@ + "”"@,
        Some(Picked::CatchAll) => "Every app no other channel captures"@,
        Some(Picked::Source(n)) => source_text(o, n@),
        Some(Picked::App(v)) => joined(views(v@), ", "@, v@.len() as int),
    }
}

/// How a source is called.
pub fn source_label(o: &InputOptions, name: &str) -> (r: String)
    ensures
        r@ == source_text(*o, name@),
{
    let ghost s = all_devices(*o);
    let ghost n = o.sources@.len() as int;
    let mut i: usize = 0;
    while i < o.sources.len()
        invariant
            i <= n,
            n == o.sources@.len(),
            s == all_devices(*o),
            forall|j: int| 0 <= j < i ==> !device_named(name@)(#[trigger] s[j]),
        decreases n - i,
    {
        assert(s[i as int] == o.sources@[i as int]);
        if text::same(o.sources[i].1.as_str(), name) {
            proof {
                first_is_at(s, device_named(name@), i as int);
            }
            return o.sources[i].0.clone();
        }
        i = i + 1;
    }
    let mut k: usize = 0;
    while k < o.monitors.len()
        invariant
            k <= o.monitors@.len(),
            n == o.sources@.len(),
            s == all_devices(*o),
            forall|j: int| 0 <= j < n + k ==> !device_named(name@)(#[trigger] s[j]),
        decreases o.monitors@.len() - k,
    {
        assert(s[n + k] == o.monitors@[k as int]);
        if text::same(o.monitors[k].1.as_str(), name) {
            proof {
                first_is_at(s, device_named(name@), n + k);
            }
            return o.monitors[k].0.clone();
        }
        k = k + 1;
    }
    proof {
        first_is_at(s, device_named(name@), n + k);
    }
    text::join(name, " (unavailable)")
}

/// Short label for the button: the strip is only so wide.
pub fn summary(o: &InputOptions, current: &Option<Picked>) -> (r: String)
    ensures
        r@ == summary_text(*o, *current),
{
    match current {
        None => text::copy("No Input"),
        Some(Picked::Virtual) => text::copy("Virtual Device"),
        Some(Picked::CatchAll) => text::copy("Other Apps"),
        Some(Picked::Source(n)) => source_label(o, n.as_str()),
        Some(Picked::App(v)) => {
            if v.len() == 0 {
                text::copy("Virtual Device")
            } else if v.len() == 1 {
                v[0].clone()
            } else {
                let mut s = text::join(v[0].as_str(), " +");
                text::push_decimal(&mut s, (v.len() - 1) as u64);
                s
            }
        },
    }
}

/// The button's tooltip: the whole truth, however long.
pub fn details(o: &InputOptions, current: &Option<Picked>) -> (r: String)
    ensures
        r@ == details_text(*o, *current),
{
    match current {
        None => text::copy("No input"),
        Some(Picked::Virtual) => {
            let mut s = text::join("Virtual device — “Crossfade: ", o.channel.as_str());
            s.append("”");
            s
        },
        Some(Picked::CatchAll) => text::copy("Every app no other channel captures"),
        Some(Picked::Source(n)) => source_label(o, n.as_str()),
        Some(Picked::App(v)) => join_texts(v, ", "),
    }
}

/// Whether this is the selector of a choice.
pub open spec fn laid_out(o: InputOptions, current: Option<Picked>, info: Seq<RuleInfo>, r: Rendered) -> bool {
    &&& choice_views(r.inputs@) == kind_rows(o, current)
    &&& choice_views(r.devices@) == device_rows(o, current)
    &&& app_views(r.apps@) == app_rows(o, rules_of(current), info)
    &&& r.no_apps == (rules_of(current).len() == 0 && o.apps@.len() == 0)
    &&& r.label@ == summary_text(o, current)
    &&& r.tooltip@ == details_text(o, current)
}

/// Lay out the selector. `info` says of each rule of the current choice whether
/// it is a pattern and which of the running applications it matches.
pub fn render(o: &InputOptions, current: &Option<Picked>, info: &Vec<RuleInfo>) -> (r: Rendered)
    requires
        info@.len() == rules_of(*current).len(),
        forall|i: int| 0 <= i < info@.len() ==> (#[trigger] info@[i]).hits@.len() == o.apps@.len(),
    ensures
        laid_out(*o, *current, info@, r),
{
    let rules = selected_apps(current);
    let inputs = render_kinds(o, current);
    let devices = render_devices(o, current);
    let apps = render_apps(o, &rules, info);
    Rendered {
        inputs,
        devices,
        apps,
        no_apps: rules.len() == 0 && o.apps.len() == 0,
        label: summary(o, current),
        tooltip: details(o, current),
    }
}

// ---- What the selector offers -----------------------------------------------

/// One input kind at most is shown as selected, and it is the one the channel
/// has; a channel fed by applications shows as a virtual device, which it is.
/// Choosing the selected kind keeps it.
pub proof fn the_selected_kind_is_the_current_one(o: InputOptions, current: Option<Picked>)
    ensures
        kind_rows(o, current).len() == 3,
        kind_rows(o, current)[0].selected <==> current is None,
        kind_rows(o, current)[1].selected <==> current is Some && (current->0 is Virtual || current->0 is App),
        kind_rows(o, current)[2].selected <==> current is Some && current->0 is CatchAll,
        kind_rows(o, current)[0].target is None,
        kind_rows(o, current)[1].target == Some(PickedView::Virtual),
        kind_rows(o, current)[2].target == Some(PickedView::CatchAll),
        kind_rows(o, current)[0].enabled && kind_rows(o, current)[1].enabled,
        kind_rows(o, current)[2].enabled <==> o.catch_all_owner is None || (current is Some
            && current->0 is CatchAll),
        text::occurs(kind_rows(o, current)[1].subtitle, o.channel@),
{
    let t = kind_rows(o, current)[1].subtitle;
    let i = "Selectable as “Crossfade: "@.len() as int;
    assert(t.subrange(i, i + o.channel@.len()) =~= o.channel@);
    assert(text::stands_at(t, o.channel@, i));
}

/// Every capture device is offered under its description and picks itself, and
/// the one that is picked is shown as selected, plugged in or not.
pub proof fn every_device_can_be_picked(o: InputOptions, current: Option<Picked>, i: int)
    ensures
        0 <= i < o.sources@.len() ==> {
            let r = device_rows(o, current)[i];
            &&& r.title == o.sources@[i].0@
            &&& r.target == Some(PickedView::Source(o.sources@[i].1@))
            &&& r.enabled
            &&& r.selected <==> current is Some && current->0 is Source && (current->0)->Source_0@
                == o.sources@[i].1@
        },
        0 <= i < o.monitors@.len() ==> {
            let r = device_rows(o, current)[o.sources@.len() + i];
            &&& r.title == o.monitors@[i].0@
            &&& r.target == Some(PickedView::Source(o.monitors@[i].1@))
            &&& r.enabled
            &&& r.selected <==> current is Some && current->0 is Source && (current->0)->Source_0@
                == o.monitors@[i].1@
        },
        current is Some && current->0 is Source ==> exists|k: int|
            0 <= k < device_rows(o, current).len() && (#[trigger] device_rows(o, current)[k]).selected
                && device_rows(o, current)[k].target == Some(PickedView::Source((current->0)->Source_0@)),
        current is None || !(current->0 is Source) ==> device_rows(o, current).len() == o.sources@.len()
            + o.monitors@.len(),
{
    if current is Some && current->0 is Source {
        let n = (current->0)->Source_0@;
        let s = all_devices(o);
        let rows = device_rows(o, current);
        if lists_source(s, n) {
            let k = choose|k: int| 0 <= k < s.len() && (#[trigger] s[k]).1@ == n;
            assert(rows[k].selected);
        } else {
            assert(rows[s.len() as int].selected);
        }
    }
}

/// Every rule is shown as active, and unchecking it leaves the other rules.
pub proof fn rules_can_be_dropped(apps: Seq<String>, rules: Seq<String>, info: Seq<RuleInfo>, i: int, j: int)
    requires
        0 <= i < rules.len(),
        0 <= j < rules.len(),
        i != j,
    ensures
        ({
            let r = rule_rows(apps, rules, info)[i];
            &&& rule_rows(apps, rules, info).len() == rules.len()
            &&& r.title == rules[i]@
            &&& r.active
            &&& r.enabled
            &&& r.next.len() == rules.len() - 1
            &&& r.next.contains(rules[j]@)
        }),
{
    let r = rule_rows(apps, rules, info)[i];
    let rest = rules.remove(i);
    let k = if j < i {
        j
    } else {
        j - 1
    };
    assert(rest[k] == rules[j]);
    assert(r.next[k] == rules[j]@);
}

/// What is said of a rule is whether anything running matches it; a pattern
/// names what it matches.
pub proof fn rules_say_what_they_match(apps: Seq<String>, r: RuleInfo, i: int)
    requires
        0 <= i < apps.len(),
        r.hits@.len() == apps.len(),
        r.hits@[i],
    ensures
        !r.pattern ==> rule_subtitle(apps, r) == ""@,
        matched(apps, r.hits@, apps.len() as int).contains(apps[i]@),
        r.pattern ==> text::begins(rule_subtitle(apps, r), "Pattern — "@),
        r.pattern ==> text::occurs(rule_subtitle(apps, r), apps[i]@),
{
    hits_are_matched(apps, r.hits@, i, apps.len() as int);
    let m = matched(apps, r.hits@, apps.len() as int);
    if r.pattern {
        let t = rule_subtitle(apps, r);
        let n = "Pattern — "@;
        assert(t.subrange(0, n.len() as int) =~= n);
        let k = choose|k: int| 0 <= k < m.len() && m[k] == apps[i]@;
        tooltip_names_every_rule(m, ", "@, m.len() as int, k);
        let all = joined(m, ", "@, m.len() as int);
        let at = choose|at: int| text::stands_at(all, apps[i]@, at);
        assert(t =~= n + all);
        assert(t.subrange(n.len() + at, n.len() + at + apps[i]@.len()) =~= all.subrange(at, at + apps[i]@.len()));
        assert(text::stands_at(t, apps[i]@, n.len() + at));
    }
}

/// What a rule hits is among what it matches.
proof fn hits_are_matched(apps: Seq<String>, hits: Seq<bool>, i: int, n: int)
    requires
        0 <= i < n,
        hits[i],
    ensures
        matched(apps, hits, n).contains(apps[i]@),
        matched(apps, hits, n).len() > 0,
    decreases n,
{
    let rest = matched(apps, hits, n - 1);
    let all = matched(apps, hits, n);
    if i == n - 1 {
        assert(all[rest.len() as int] == apps[i]@);
    } else {
        hits_are_matched(apps, hits, i, n - 1);
        let k = choose|k: int| 0 <= k < rest.len() && rest[k] == apps[i]@;
        assert(all[k] == apps[i]@);
    }
}

/// Every running application that no rule names has a row: a free one can be
/// checked, which adds it to the rules; one that a pattern matches shows as
/// active, and one that another channel captures cannot be checked.
pub proof fn running_applications_have_rows(o: InputOptions, rules: Seq<String>, info: Seq<RuleInfo>, app: int)
    requires
        0 <= app < o.apps@.len(),
    ensures
        ({
            let r = app_row(o, rules, info, app);
            let by_pattern = exists|i: int|
                0 <= i < info.len() && (#[trigger] info[i]).pattern && info[i].hits@[app];
            let taken = exists|i: int| 0 <= i < o.claimed@.len() && (#[trigger] o.claimed@[i]).0@ == o.apps@[app]@;
            &&& r.title == o.apps@[app]@
            &&& r.active <==> by_pattern
            &&& r.enabled <==> !by_pattern && !taken
            &&& r.enabled ==> r.next == views(rules).push(o.apps@[app]@)
        }),
        (forall|i: int| 0 <= i < info.len() ==> (#[trigger] info[i]).pattern || !info[i].hits@[app]) ==> free_rows(
            o,
            rules,
            info,
            o.apps@.len() as int,
        ).contains(app_row(o, rules, info, app)),
{
    let p = matches_app(app);
    let c = claims(o.apps@[app]@);
    crate::list::first_is_least(info, p);
    crate::list::first_is_least(o.claimed@, c);
    if exists|i: int| 0 <= i < info.len() && (#[trigger] info[i]).pattern && info[i].hits@[app] {
        let i = choose|i: int| 0 <= i < info.len() && (#[trigger] info[i]).pattern && info[i].hits@[app];
        crate::list::first_exists(info, p, i);
    }
    if exists|i: int| 0 <= i < o.claimed@.len() && (#[trigger] o.claimed@[i]).0@ == o.apps@[app]@ {
        let i = choose|i: int| 0 <= i < o.claimed@.len() && (#[trigger] o.claimed@[i]).0@ == o.apps@[app]@;
        crate::list::first_exists(o.claimed@, c, i);
    }
    if forall|i: int| 0 <= i < info.len() ==> (#[trigger] info[i]).pattern || !info[i].hits@[app] {
        crate::list::first_is_least(info, names_app(app));
        free_row_is_kept(o, rules, info, app, o.apps@.len() as int);
    }
}

/// A row stays as more applications are listed.
proof fn free_row_is_kept(o: InputOptions, rules: Seq<String>, info: Seq<RuleInfo>, app: int, n: int)
    requires
        0 <= app < n,
        first(info, names_app(app)) >= info.len(),
    ensures
        free_rows(o, rules, info, n).contains(app_row(o, rules, info, app)),
    decreases n,
{
    let x = app_row(o, rules, info, app);
    let rest = free_rows(o, rules, info, n - 1);
    let all = free_rows(o, rules, info, n);
    if app == n - 1 {
        assert(all[rest.len() as int] == x);
    } else {
        free_row_is_kept(o, rules, info, app, n - 1);
        let k = choose|k: int| 0 <= k < rest.len() && rest[k] == x;
        assert(all[k] == x);
    }
}

/// Without rules a choice of applications is a virtual device, and with rules it
/// keeps them.
pub proof fn rules_make_the_choice(apps: Vec<String>)
    ensures
        apps@.len() == 0 ==> of_rules(apps) is Virtual,
        apps@.len() > 0 ==> rules_of(Some(of_rules(apps))) == apps@,
        rules_of(None).len() == 0,
        rules_of(Some(Picked::Virtual)).len() == 0,
{
}

/// A rule is there whatever its case, and a list finds its own rules.
pub proof fn rules_ignore_case(apps: Seq<String>, rule: Seq<char>, i: int)
    ensures
        has_rule(apps, lower(rule)) == has_rule(apps, rule),
        0 <= i < apps.len() ==> has_rule(apps, apps[i]@),
        apps.len() == 0 ==> !has_rule(apps, rule),
{
    assert(lower(lower(rule)) =~= lower(rule));
}

/// The button says what feeds the channel: the device by its description, the
/// first application and how many more.
pub proof fn button_names_the_input(o: InputOptions, n: String, v: Vec<String>, i: int)
    ensures
        summary_text(o, None) == "No Input"@,
        summary_text(o, Some(Picked::Virtual)) == "Virtual Device"@,
        summary_text(o, Some(Picked::CatchAll)) == "Other Apps"@,
        v@.len() == 1 ==> summary_text(o, Some(Picked::App(v))) == v@[0]@,
        v@.len() > 1 ==> summary_text(o, Some(Picked::App(v))) == v@[0]@ + " +"@ + dec((v@.len() - 1) as nat),
        0 <= i < o.sources@.len() && o.sources@[i].1@ == n@ && (forall|j: int|
            0 <= j < i ==> (#[trigger] o.sources@[j]).1@ != n@) ==> summary_text(o, Some(Picked::Source(n)))
            == o.sources@[i].0@ && details_text(o, Some(Picked::Source(n))) == o.sources@[i].0@,
        v@.len() == 1 ==> details_text(o, Some(Picked::App(v))) == v@[0]@,
{
    if 0 <= i < o.sources@.len() && o.sources@[i].1@ == n@ && (forall|j: int|
        0 <= j < i ==> (#[trigger] o.sources@[j]).1@ != n@) {
        let s = all_devices(o);
        assert(s[i] == o.sources@[i]);
        assert forall|j: int| 0 <= j < i implies !device_named(n@)(#[trigger] s[j]) by {
            assert(s[j] == o.sources@[j]);
        }
        crate::list::first_is_at(s, device_named(n@), i);
    }
    if v@.len() == 1 {
        assert(views(v@)[0] == v@[0]@);
    }
}

/// A typed rule comes last, trimmed; a blank one, or one that is there already in
/// whatever case, is not added. The other rules stay.
pub proof fn typed_rules_come_last(apps: Seq<String>, typed: Seq<char>, r: Option<Vec<String>>, i: int)
    requires
        rule_added(apps, typed, r),
        0 <= i < apps.len(),
    ensures
        r is Some ==> trim(typed).len() > 0 && lower(apps[i]@) != lower(trim(typed)),
        r is None ==> trim(typed).len() == 0 || exists|k: int|
            0 <= k < apps.len() && lower((#[trigger] apps[k])@) == lower(trim(typed)),
        r is Some ==> {
            &&& r->0@.len() == apps.len() + 1
            &&& r->0@[apps.len() as int]@ == trim(typed)
            &&& r->0@[i]@ == apps[i]@
        },
{
    if r is Some {
        let v = views(r->0@);
        assert(v.len() == r->0@.len());
        assert(v[i] == r->0@[i]@);
        assert(views(apps)[i] == apps[i]@);
        assert(v[apps.len() as int] == r->0@[apps.len() as int]@);
    }
}

/// The layout shows each part of the selector, and says that there are no
/// applications only when neither a rule nor a running one is there to show.
pub proof fn empty_lists_are_said_to_be(o: InputOptions, current: Option<Picked>, info: Seq<RuleInfo>, r: Rendered)
    requires
        laid_out(o, current, info, r),
    ensures
        r.no_apps <==> o.apps@.len() == 0 && (current is None || !(current->0 is App) || (current->0)->App_0@.len() == 0),
        r.inputs@.len() == 3,
        choice_views(r.inputs@) == kind_rows(o, current),
        choice_views(r.devices@) == device_rows(o, current),
        app_views(r.apps@) == app_rows(o, rules_of(current), info),
        r.label@ == summary_text(o, current),
        r.tooltip@ == details_text(o, current),
{
    assert(choice_views(r.inputs@).len() == r.inputs@.len());
}

/// All of the rules stand in the tooltip, and a device that is not there is said
/// to be missing.
pub proof fn tooltip_names_every_rule(s: Seq<Seq<char>>, sep: Seq<char>, n: int, i: int)
    requires
        0 <= i < n <= s.len(),
    ensures
        text::occurs(joined(s, sep, n), s[i]),
        n == 1 ==> joined(s, sep, n) == s[0],
        n == 2 ==> joined(s, sep, n) == s[0] + sep + s[1],
    decreases n,
{
    let t = joined(s, sep, n);
    if n == 1 {
        assert(t.subrange(0, t.len() as int) =~= s[0]);
        assert(text::stands_at(t, s[0], 0));
    } else if i == n - 1 {
        let k = t.len() - s[i].len();
        assert(t.subrange(k, t.len() as int) =~= s[i]);
        assert(text::stands_at(t, s[i], k));
    } else {
        tooltip_names_every_rule(s, sep, n - 1, i);
        let u = joined(s, sep, n - 1);
        let k = choose|k: int| text::stands_at(u, s[i], k);
        assert(t.subrange(k, k + s[i].len()) =~= u.subrange(k, k + s[i].len()));
        assert(text::stands_at(t, s[i], k));
    }
    if n == 2 {
        assert(joined(s, sep, 1) == s[0]);
    }
}

/// A device that is not there is named all the same, as unavailable.
pub proof fn missing_devices_are_named(o: InputOptions, name: Seq<char>)
    requires
        forall|i: int| 0 <= i < all_devices(o).len() ==> (#[trigger] all_devices(o)[i]).1@ != name,
    ensures
        source_text(o, name) == name + " (unavailable)"@,
{
    crate::list::first_is_at(all_devices(o), device_named(name), all_devices(o).len() as int);
}

/// What matches nothing that runs.
proof fn nothing_is_matched(apps: Seq<String>, hits: Seq<bool>, n: int)
    requires
        0 <= n <= apps.len(),
        hits.len() == apps.len(),
        forall|i: int| 0 <= i < hits.len() ==> !#[trigger] hits[i],
    ensures
        matched(apps, hits, n).len() == 0,
    decreases n,
{
    if n > 0 {
        nothing_is_matched(apps, hits, n - 1);
        assert(!hits[n - 1]);
    }
}

/// A rule that nothing running matches says so.
pub proof fn idle_rules_say_so(apps: Seq<String>, r: RuleInfo)
    requires
        r.hits@.len() == apps.len(),
        forall|i: int| 0 <= i < apps.len() ==> !#[trigger] r.hits@[i],
    ensures
        !r.pattern ==> rule_subtitle(apps, r) == "Not running"@,
        r.pattern ==> rule_subtitle(apps, r) == "Pattern — nothing running matches"@,
{
    nothing_is_matched(apps, r.hits@, apps.len() as int);
}

} // verus!
