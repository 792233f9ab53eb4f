//! VST2/VST3 plugin discovery.
//!
//! Plugins are collected from the conventional Linux folders (plus `~/vst`,
//! `$VST_PATH` and `$VST3_PATH`) and identified with Carla's
//! `carla-discovery-native` tool, which safely loads each binary in a
//! throwaway process and reports the plugins inside. Results are cached by
//! path and modification time, so only new or changed binaries are probed on
//! later scans. Walking folders, running the tool and reading the cache file
//! is left to the caller; what to look for, how to read the tool's report,
//! what of the cache still holds and how the result is ordered is decided
//! here.

use vstd::prelude::*;
use vstd::string::StringExecFns;

use crate::fx::put;
use crate::list::{filter_all, filter_keeps, filter_keeps_first, first, first_is_at, first_is_least, retain};
use crate::text;
use crate::text::{begins, ends, occurs, precedes, split};

verus! {

/// The plugin standard a binary was built for.
#[derive(Clone, Copy, Debug, PartialEq, Eq, Structural)]
pub enum VstFormat {
    Vst2,
    Vst3,
}

impl VstFormat {
    /// The format's name in files and messages.
    pub open spec fn key(self) -> Seq<char> {
        match self {
            VstFormat::Vst2 => "vst2"@,
            VstFormat::Vst3 => "vst3"@,
        }
    }

    /// The format's name in files and messages.
    pub fn as_str(self) -> (r: &'static str)
        ensures
            r@ == self.key(),
    {
        match self {
            VstFormat::Vst2 => "vst2",
            VstFormat::Vst3 => "vst3",
        }
    }
}

/// One loadable plugin. A VST3 bundle yields one entry per contained plugin,
/// told apart by `label`.
#[derive(Clone, Debug, PartialEq, Eq)]
pub struct VstEntry {
    pub path: String,
    pub format: VstFormat,
    /// Sub-plugin label inside the binary; empty for plain VST2 files.
    pub label: String,
    /// Carla selects sub-plugins in multi-plugin binaries (VST3 bundles,
    /// VST2 shells) by this id, not by label.
    pub unique_id: i64,
    pub name: String,
    pub audio_ins: u32,
    pub audio_outs: u32,
}

impl VstEntry {
    /// Whether this is the line for the plugin.
    pub open spec fn listed_as(self, r: Seq<char>) -> bool {
        r == self.name@ + " ["@ + self.format.key() + "] "@ + self.path@ + (if self.label@.len() == 0 {
            Seq::empty()
        } else {
            " ("@ + self.label@ + ")"@
        })
    }

    /// How the entry is listed: name, format and path, with the label where
    /// there is one.
    pub fn listing(&self) -> (r: String)
        ensures
            self.listed_as(r@),
    {
        let mut s = text::join(self.name.as_str(), " [");
        s.append(self.format.as_str());
        s.append("] ");
        s.append(self.path.as_str());
        let ghost head = s@;
        if !self.label.as_str().is_empty() {
            s.append(" (");
            s.append(self.label.as_str());
            s.append(")");
            assert(s@ =~= head + (" ("@ + self.label@ + ")"@));
        } else {
            assert(head + Seq::<char>::empty() =~= head);
        }
        s
    }

    /// A copy of the entry.
    pub fn copied(&self) -> (r: VstEntry)
        ensures
            r == *self,
    {
        VstEntry {
            path: self.path.clone(),
            format: self.format,
            label: self.label.clone(),
            unique_id: self.unique_id,
            name: self.name.clone(),
            audio_ins: self.audio_ins,
            audio_outs: self.audio_outs,
        }
    }
}

/// Copies of some entries.
pub fn copy_entries(v: &Vec<VstEntry>) -> (r: Vec<VstEntry>)
    ensures
        r@ == v@,
{
    let mut out: Vec<VstEntry> = Vec::new();
    let mut i: usize = 0;
    while i < v.len()
        invariant
            i <= v@.len(),
            out@ =~= v@.take(i as int),
        decreases v@.len() - i,
    {
        out.push(v[i].copied());
        i = i + 1;
    }
    out
}

/// Where the discovery tool may be.
pub const DISCOVERY_TOOLS: [&'static str; 4] = [
    "/usr/lib64/carla/carla-discovery-native",
    "/usr/lib/carla/carla-discovery-native",
    "/usr/lib/x86_64-linux-gnu/carla/carla-discovery-native",
    "/usr/local/lib/carla/carla-discovery-native",
];

/// Where Carla's backend may be.
pub const CARLA_BACKENDS: [&'static str; 2] = [
    "/usr/share/carla/carla_backend.py",
    "/usr/local/share/carla/carla_backend.py",
];

/// A flag that is set.
pub open spec fn is_set() -> spec_fn(bool) -> bool {
    |b: bool| b
}

/// Whether this is the discovery tool to use.
pub open spec fn tool_found(present: Seq<bool>, r: Option<&str>) -> bool {
    let i = first(present, is_set());
    if i < 4 {
        r is Some && r->0@ == DISCOVERY_TOOLS[i]@
    } else {
        r is None
    }
}

/// The discovery tool: the first of the places at which something is.
pub fn discovery_tool(present: &Vec<bool>) -> (r: Option<&'static str>)
    requires
        present@.len() == 4,
    ensures
        tool_found(present@, r),
{
    let mut i: usize = 0;
    while i < 4 && !present[i]
        invariant
            i <= 4,
            present@.len() == 4,
            forall|j: int| 0 <= j < i ==> !is_set()(#[trigger] present@[j]),
        decreases 4 - i,
    {
        i = i + 1;
    }
    proof {
        first_is_at(present@, is_set(), i as int);
    }
    if i < 4 {
        Some(DISCOVERY_TOOLS[i])
    } else {
        None
    }
}

/// Whether Carla's backend is at one of its places.
pub fn carla_backend_present(present: &Vec<bool>) -> (r: bool)
    requires
        present@.len() == 2,
    ensures
        r == present@.contains(true),
{
    assert(present@.contains(present@[0]) && present@.contains(present@[1]));
    present[0] || present[1]
}

/// Whether it is right that VST hosting works.
pub open spec fn hosting_works(tools: Seq<bool>, backends: Seq<bool>, python: bool, r: bool) -> bool {
    r == (first(tools, is_set()) < 4 && backends.contains(true) && python)
}

/// Whether VST hosting can work at all (used to hint at the missing
/// dependency): the discovery tool, Carla's backend and python3 are needed.
pub fn available(tools: &Vec<bool>, backends: &Vec<bool>, python: bool) -> (r: bool)
    requires
        tools@.len() == 4,
        backends@.len() == 2,
    ensures
        hosting_works(tools@, backends@, python, r),
{
    discovery_tool(tools).is_some() && carla_backend_present(backends) && python
}

// ---- Paths ------------------------------------------------------------------

/// The pieces of a path that count: not the empty ones, and not a dot, except
/// at the start of a relative path.
pub open spec fn path_parts(s: Seq<Seq<char>>, n: int) -> Seq<Seq<char>>
    decreases n,
{
    if n <= 0 {
        Seq::empty()
    } else {
        let rest = path_parts(s, n - 1);
        let p = s[n - 1];
        if p.len() == 0 || (p == "."@ && n > 1) {
            rest
        } else {
            rest.push(p)
        }
    }
}

/// The components of a path below its root.
pub open spec fn components(path: Seq<char>) -> Seq<Seq<char>> {
    let s = split(path, '/');
    path_parts(s, s.len() as int)
}

/// Whether a path starts at the root.
pub open spec fn is_absolute(path: Seq<char>) -> bool {
    path.len() > 0 && path[0] == '/'
}

/// Whether two paths are the same, whatever separators are doubled or trail.
pub open spec fn same_place(a: Seq<char>, b: Seq<char>) -> bool {
    is_absolute(a) == is_absolute(b) && components(a) == components(b)
}

/// A path below another.
pub open spec fn below(dir: Seq<char>, name: Seq<char>) -> Seq<char> {
    if dir.len() == 0 {
        name
    } else if dir.last() == '/' {
        dir + name
    } else {
        dir + "/"@ + name
    }
}

/// The components of a path below its root.
pub fn components_of(path: &str) -> (r: Vec<String>)
    ensures
        text::views(r@) == components(path@),
{
    let pieces = text::split_at(path, '/');
    let ghost s = split(path@, '/');
    let mut out: Vec<String> = Vec::new();
    assert(text::views(out@) =~= path_parts(s, 0));
    let mut i: usize = 0;
    while i < pieces.len()
        invariant
            i <= pieces@.len(),
            text::views(pieces@) == s,
            text::views(out@) == path_parts(s, i as int),
        decreases pieces@.len() - i,
    {
        let p = pieces[i].as_str();
        assert(s[i as int] == p@);
        if !p.is_empty() && !(text::same(p, ".") && i > 0) {
            let ghost before = text::views(out@);
            out.push(pieces[i].clone());
            assert(text::views(out@) =~= before.push(p@));
        }
        i = i + 1;
    }
    out
}

/// Whether a path starts at the root.
fn starts_at_root(path: &str) -> (r: bool)
    ensures
        r == is_absolute(path@),
{
    let v = text::chars_of(path);
    v.len() > 0 && v[0] == '/'
}

/// Whether two paths are the same.
pub fn same_path(a: &str, b: &str) -> (r: bool)
    ensures
        r == same_place(a@, b@),
{
    if starts_at_root(a) != starts_at_root(b) {
        return false;
    }
    let x = components_of(a);
    let y = components_of(b);
    let ghost cx = components(a@);
    let ghost cy = components(b@);
    if x.len() != y.len() {
        assert(cx.len() != cy.len());
        return false;
    }
    let mut i: usize = 0;
    while i < x.len()
        invariant
            i <= x@.len(),
            x@.len() == y@.len(),
            cx == components(a@),
            cy == components(b@),
            cx == text::views(x@),
            cy == text::views(y@),
            forall|j: int| 0 <= j < i ==> #[trigger] cx[j] == cy[j],
        decreases x@.len() - i,
    {
        if !text::same(x[i].as_str(), y[i].as_str()) {
            assert(cx[i as int] != cy[i as int]);
            return false;
        }
        assert(cx[i as int] == cy[i as int]);
        i = i + 1;
    }
    assert(cx =~= cy);
    true
}

/// A path below another.
pub fn join_path(dir: &str, name: &str) -> (r: String)
    ensures
        r@ == below(dir@, name@),
{
    let v = text::chars_of(dir);
    let n: usize = v.len();
    if n == 0 {
        text::copy(name)
    } else if v[n - 1] == '/' {
        text::join(dir, name)
    } else {
        let mut s = text::join(dir, "/");
        s.append(name);
        s
    }
}

/// The position of the last dot after the first character; zero where there
/// is none.
pub open spec fn last_dot(s: Seq<char>, n: int) -> int
    decreases n,
{
    if n <= 1 {
        0
    } else if s[n - 1] == '.' {
        n - 1
    } else {
        last_dot(s, n - 1)
    }
}

/// A file name without its extension.
pub open spec fn stem(name: Seq<char>) -> Seq<char> {
    let i = last_dot(name, name.len() as int);
    if i == 0 {
        name
    } else {
        name.take(i)
    }
}

/// What a plugin without a name is called: its file's name without extension,
/// else its path.
pub open spec fn fallback_name(path: Seq<char>) -> Seq<char> {
    let c = components(path);
    if c.len() == 0 || c.last() == ".."@ || c.last() == "."@ {
        path
    } else {
        stem(c.last())
    }
}

/// What a plugin without a name is called.
pub fn name_from_path(path: &str) -> (r: String)
    ensures
        r@ == fallback_name(path@),
{
    let c = components_of(path);
    let ghost cs = components(path@);
    let n: usize = c.len();
    if n == 0 {
        return text::copy(path);
    }
    let last = c[n - 1].as_str();
    assert(cs.last() == last@);
    if text::same(last, "..") || text::same(last, ".") {
        return text::copy(path);
    }
    let v = text::chars_of(last);
    let mut i: usize = v.len();
    while i > 1 && v[i - 1] != '.'
        invariant
            v@ == last@,
            i <= v@.len(),
            last_dot(v@, v@.len() as int) == last_dot(v@, i as int),
        decreases i,
    {
        i = i - 1;
    }
    if i <= 1 {
        text::copy(last)
    } else {
        let t = text::text_of(&v, 0, i - 1);
        assert(t@ =~= last@.take(i - 1));
        t
    }
}

// ---- Folders and binaries ---------------------------------------------------

/// A folder that is searched for plugins of a format.
#[derive(Clone, Debug, PartialEq, Eq)]
pub struct PluginDir {
    pub path: String,
    pub format: VstFormat,
}

/// A folder as plain values.
pub struct DirView {
    pub path: Seq<char>,
    pub format: VstFormat,
}

impl View for PluginDir {
    type V = DirView;

    open spec fn view(&self) -> DirView {
        DirView { path: self.path@, format: self.format }
    }
}

/// Folders as plain values.
pub open spec fn dir_views(s: Seq<PluginDir>) -> Seq<DirView> {
    Seq::new(s.len(), |i: int| s[i]@)
}

/// The folders named by a search path.
pub open spec fn search_dirs(s: Seq<Seq<char>>, format: VstFormat, n: int) -> Seq<DirView>
    decreases n,
{
    if n <= 0 {
        Seq::empty()
    } else if s[n - 1].len() == 0 {
        search_dirs(s, format, n - 1)
    } else {
        search_dirs(s, format, n - 1).push(DirView { path: s[n - 1], format })
    }
}

/// The folders named by a search path, where it is set.
pub open spec fn env_dirs(v: Option<&str>, format: VstFormat) -> Seq<DirView> {
    match v {
        Some(v) => {
            let s = split(v@, ':');
            search_dirs(s, format, s.len() as int)
        },
        None => Seq::empty(),
    }
}

/// The folders below a user's home.
pub open spec fn home_dirs(home: Seq<char>) -> Seq<DirView> {
    seq![
        DirView { path: below(home, "vst"@), format: VstFormat::Vst2 },
        DirView { path: below(home, ".vst"@), format: VstFormat::Vst2 },
        DirView { path: below(home, ".lxvst"@), format: VstFormat::Vst2 },
        DirView { path: below(home, ".vst3"@), format: VstFormat::Vst3 },
    ]
}

/// The folders below a library folder.
pub open spec fn lib_dirs(lib: Seq<char>) -> Seq<DirView> {
    seq![
        DirView { path: below(lib, "vst"@), format: VstFormat::Vst2 },
        DirView { path: below(lib, "lxvst"@), format: VstFormat::Vst2 },
        DirView { path: below(lib, "vst3"@), format: VstFormat::Vst3 },
    ]
}

/// The folders that may be searched, in order.
pub open spec fn possible_dirs(vst: Option<&str>, vst3: Option<&str>, home: Seq<char>) -> Seq<DirView> {
    env_dirs(vst, VstFormat::Vst2) + env_dirs(vst3, VstFormat::Vst3) + home_dirs(home) + lib_dirs(
        "/usr/lib64"@,
    ) + lib_dirs("/usr/lib"@) + lib_dirs("/usr/local/lib"@) + lib_dirs("/usr/local/lib64"@)
}

/// Add a folder.
fn push_dir(v: &mut Vec<PluginDir>, path: String, format: VstFormat)
    ensures
        dir_views(final(v)@) == dir_views(old(v)@).push(DirView { path: path@, format }),
{
    let ghost p = path@;
    v.push(PluginDir { path, format });
    assert(dir_views(v@) =~= dir_views(old(v)@).push(DirView { path: p, format }));
}

/// Add the folders named by a search path.
fn push_env(v: &mut Vec<PluginDir>, value: Option<&str>, format: VstFormat)
    ensures
        dir_views(final(v)@) == dir_views(old(v)@) + env_dirs(value, format),
{
    let ghost start = dir_views(v@);
    if let Some(value) = value {
        let parts = text::split_at(value, ':');
        let ghost s = split(value@, ':');
        let mut i: usize = 0;
        assert(start + search_dirs(s, format, 0) =~= start);
        while i < parts.len()
            invariant
                i <= parts@.len(),
                text::views(parts@) == s,
                dir_views(v@) == start + search_dirs(s, format, i as int),
            decreases parts@.len() - i,
        {
            assert(s[i as int] == parts@[i as int]@);
            if !parts[i].as_str().is_empty() {
                push_dir(v, parts[i].clone(), format);
                assert(dir_views(v@) =~= start + search_dirs(s, format, i + 1));
            }
            i = i + 1;
        }
    } else {
        assert(start + env_dirs(value, format) =~= start);
    }
}

/// Add the folders below a library folder.
fn push_lib(v: &mut Vec<PluginDir>, lib: &str)
    ensures
        dir_views(final(v)@) == dir_views(old(v)@) + lib_dirs(lib@),
{
    push_dir(v, join_path(lib, "vst"), VstFormat::Vst2);
    push_dir(v, join_path(lib, "lxvst"), VstFormat::Vst2);
    push_dir(v, join_path(lib, "vst3"), VstFormat::Vst3);
    assert(dir_views(v@) =~= dir_views(old(v)@) + lib_dirs(lib@));
}

/// The folders that may be searched, in order: those of `$VST_PATH` and
/// `$VST3_PATH`, those in the user's home, and those of the system.
pub fn plugin_dirs(vst: Option<&str>, vst3: Option<&str>, home: &str) -> (r: Vec<PluginDir>)
    ensures
        dir_views(r@) == possible_dirs(vst, vst3, home@),
{
    let mut v: Vec<PluginDir> = Vec::new();
    assert(dir_views(v@) + env_dirs(vst, VstFormat::Vst2) =~= env_dirs(vst, VstFormat::Vst2));
    push_env(&mut v, vst, VstFormat::Vst2);
    push_env(&mut v, vst3, VstFormat::Vst3);
    let ghost start = dir_views(v@);
    push_dir(&mut v, join_path(home, "vst"), VstFormat::Vst2);
    push_dir(&mut v, join_path(home, ".vst"), VstFormat::Vst2);
    push_dir(&mut v, join_path(home, ".lxvst"), VstFormat::Vst2);
    push_dir(&mut v, join_path(home, ".vst3"), VstFormat::Vst3);
    assert(dir_views(v@) =~= start + home_dirs(home@));
    push_lib(&mut v, "/usr/lib64");
    push_lib(&mut v, "/usr/lib");
    push_lib(&mut v, "/usr/local/lib");
    push_lib(&mut v, "/usr/local/lib64");
    v
}

/// Whether a folder is already among some.
pub open spec fn has_dir(s: Seq<PluginDir>, d: PluginDir) -> bool {
    exists|i: int|
        0 <= i < s.len() && same_place((#[trigger] s[i]).path@, d.path@) && s[i].format == d.format
}

/// The first `n` folders that exist, without repetitions.
pub open spec fn searched(s: Seq<PluginDir>, exists_: Seq<bool>, n: int) -> Seq<PluginDir>
    decreases n,
{
    if n <= 0 {
        Seq::empty()
    } else {
        let rest = searched(s, exists_, n - 1);
        if exists_[n - 1] && !has_dir(rest, s[n - 1]) {
            rest.push(s[n - 1])
        } else {
            rest
        }
    }
}

/// Keep the folders that exist, each once.
pub fn existing_dirs(dirs: Vec<PluginDir>, present: &Vec<bool>) -> (r: Vec<PluginDir>)
    requires
        present@.len() == dirs@.len(),
    ensures
        r@ == searched(dirs@, present@, dirs@.len() as int),
{
    let ghost all = dirs@;
    let mut out: Vec<PluginDir> = Vec::new();
    let n: usize = present.len();
    let mut i: usize = 0;
    for d in it: dirs
        invariant
            n == present@.len(),
            it.seq() == all,
            i == it.index(),
            present@.len() == all.len(),
            out@ == searched(all, present@, i as int),
    {
        let mut known = false;
        let mut k: usize = 0;
        while k < out.len()
            invariant
                k <= out@.len(),
                known == exists|j: int|
                    0 <= j < k && same_place((#[trigger] out@[j]).path@, d.path@) && out@[j].format == d.format,
            decreases out@.len() - k,
        {
            if out[k].format == d.format && same_path(out[k].path.as_str(), d.path.as_str()) {
                known = true;
            }
            k = k + 1;
        }
        if present[i] && !known {
            out.push(d);
        }
        i = i + 1;
    }
    out
}

/// Whether a file name is that of a plugin binary of a format.
pub open spec fn is_binary(name: Seq<char>, format: VstFormat) -> bool {
    match format {
        VstFormat::Vst2 => ends(name, ".so"@),
        VstFormat::Vst3 => ends(name, ".vst3"@),
    }
}

/// Whether a file name is that of a plugin binary of a format: `.so` files for
/// VST2, `.vst3` bundles (or files) for VST3.
pub fn is_candidate(name: &str, format: VstFormat) -> (r: bool)
    ensures
        r == is_binary(name@, format),
{
    match format {
        VstFormat::Vst2 => text::ends_with(name, ".so"),
        VstFormat::Vst3 => text::ends_with(name, ".vst3"),
    }
}

/// A file in a searched folder.
#[derive(Clone, Debug, PartialEq, Eq)]
pub struct FileEntry {
    pub path: String,
    pub name: String,
}

/// An entry of a searched folder, with its own files where it is a folder.
#[derive(Clone, Debug, PartialEq, Eq)]
pub struct DirEntry {
    pub path: String,
    pub name: String,
    pub format: VstFormat,
    pub files: Vec<FileEntry>,
}

/// Whether a binary is among those of an entry: the entry itself, or else,
/// one level deep, one of its files.
pub open spec fn yields(e: DirEntry, path: Seq<char>, format: VstFormat) -> bool {
    &&& e.format == format
    &&& if is_binary(e.name@, e.format) {
        e.path@ == path
    } else {
        exists|i: int|
            0 <= i < e.files@.len() && is_binary((#[trigger] e.files@[i]).name@, e.format) && e.files@[i].path@
                == path
    }
}

/// Whether one binary comes before another: by path, then by format.
pub open spec fn dir_precedes(a: DirView, b: DirView) -> bool {
    precedes(a.path, b.path) || (a.path == b.path && a.format == VstFormat::Vst2 && b.format
        == VstFormat::Vst3)
}

/// Whether binaries are in order, each once.
pub open spec fn dirs_increase(s: Seq<PluginDir>) -> bool {
    forall|i: int, j: int| 0 <= i < j < s.len() ==> dir_precedes((#[trigger] s[i])@, (#[trigger] s[j])@)
}

/// Whether a binary is listed.
pub open spec fn binary_listed(s: Seq<PluginDir>, v: DirView) -> bool {
    exists|i: int| 0 <= i < s.len() && (#[trigger] s[i])@ == v
}

/// The order of binaries is strict and total.
proof fn dir_order_is_total(a: DirView, b: DirView)
    ensures
        !(dir_precedes(a, b) && dir_precedes(b, a)),
        a != b ==> dir_precedes(a, b) || dir_precedes(b, a),
{
    text::order_is_total(a.path, b.path);
}

/// The order of binaries is transitive.
proof fn dir_order_is_transitive(a: DirView, b: DirView, c: DirView)
    requires
        dir_precedes(a, b),
        dir_precedes(b, c),
    ensures
        dir_precedes(a, c),
{
    if precedes(a.path, b.path) && precedes(b.path, c.path) {
        text::order_is_transitive(a.path, b.path, c.path);
    }
}

/// Put a binary into an ordered list, unless it is there.
fn insert_binary(v: &mut Vec<PluginDir>, x: PluginDir)
    requires
        dirs_increase(old(v)@),
    ensures
        dirs_increase(final(v)@),
        forall|y: DirView| #[trigger] binary_listed(final(v)@, y) <==> binary_listed(old(v)@, y) || y == x@,
{
    let ghost before = v@;
    let ghost xv = x@;
    let mut i: usize = 0;
    while i < v.len() && (text::less(v[i].path.as_str(), x.path.as_str()) || (text::same(
        v[i].path.as_str(),
        x.path.as_str(),
    ) && v[i].format == VstFormat::Vst2 && x.format == VstFormat::Vst3))
        invariant
            v@ == before,
            xv == x@,
            i <= v@.len(),
            forall|j: int| 0 <= j < i ==> dir_precedes((#[trigger] v@[j])@, xv),
        decreases v@.len() - i,
    {
        i = i + 1;
    }
    if i < v.len() && text::same(v[i].path.as_str(), x.path.as_str()) && v[i].format == x.format {
        assert(before[i as int]@ == xv);
        return;
    }
    proof {
        if i < v@.len() {
            dir_order_is_total(v@[i as int]@, xv);
        }
        assert forall|j: int| i <= j < before.len() implies dir_precedes(xv, (#[trigger] before[j])@) by {
            if j > i {
                dir_order_is_transitive(xv, before[i as int]@, before[j]@);
            }
        }
    }
    let ghost t = x;
    v.insert(i, x);
    proof {
        let after = v@;
        assert(after =~= before.insert(i as int, t));
        assert forall|a: int, b: int| 0 <= a < b < after.len() implies dir_precedes(
            (#[trigger] after[a])@,
            (#[trigger] after[b])@,
        ) by {
            let p = if a < i {
                a
            } else {
                a - 1
            };
            let q = if b < i {
                b
            } else {
                b - 1
            };
            if a == i {
                assert(after[b] == before[q]);
            } else if b == i {
                assert(after[a] == before[p]);
            } else {
                assert(after[a] == before[p] && after[b] == before[q]);
            }
        }
        assert forall|y: DirView| #[trigger] binary_listed(after, y) <==> binary_listed(before, y) || y == xv by {
            if binary_listed(before, y) {
                let k = choose|k: int| 0 <= k < before.len() && (#[trigger] before[k])@ == y;
                assert(after[if k < i {
                    k
                } else {
                    k + 1
                }]@ == y);
            }
            if y == xv {
                assert(after[i as int]@ == y);
            }
            if binary_listed(after, y) {
                let k = choose|k: int| 0 <= k < after.len() && (#[trigger] after[k])@ == y;
                if k < i {
                    assert(before[k]@ == y);
                } else if k > i {
                    assert(before[k - 1]@ == y);
                }
            }
        }
    }
}

/// The binaries in what the searched folders hold, in order and each once.
pub fn candidates(entries: &Vec<DirEntry>) -> (r: Vec<PluginDir>)
    ensures
        dirs_increase(r@),
        forall|y: DirView| #[trigger]
            binary_listed(r@, y) <==> exists|i: int|
                0 <= i < entries@.len() && yields(#[trigger] entries@[i], y.path, y.format),
{
    let mut out: Vec<PluginDir> = Vec::new();
    let mut i: usize = 0;
    while i < entries.len()
        invariant
            i <= entries@.len(),
            dirs_increase(out@),
            forall|y: DirView| #[trigger]
                binary_listed(out@, y) <==> exists|j: int|
                    0 <= j < i && yields(#[trigger] entries@[j], y.path, y.format),
        decreases entries@.len() - i,
    {
        let e = &entries[i];
        let ghost was = out@;
        if is_candidate(e.name.as_str(), e.format) {
            insert_binary(&mut out, PluginDir { path: e.path.clone(), format: e.format });
            assert forall|y: DirView| #[trigger] binary_listed(out@, y) <==> binary_listed(was, y) || yields(
                *e,
                y.path,
                y.format,
            ) by {
                assert(yields(*e, y.path, y.format) <==> y == (DirView { path: e.path@, format: e.format }));
            }
        } else {
            let mut k: usize = 0;
            while k < e.files.len()
                invariant
                    k <= e.files@.len(),
                    dirs_increase(out@),
                    forall|y: DirView| #[trigger]
                        binary_listed(out@, y) <==> binary_listed(was, y) || (e.format == y.format
                            && exists|j: int|
                            0 <= j < k && is_binary((#[trigger] e.files@[j]).name@, e.format) && e.files@[j].path@
                                == y.path),
                decreases e.files@.len() - k,
            {
                let ghost mid = out@;
                let f = &e.files[k];
                let hit = is_candidate(f.name.as_str(), e.format);
                if hit {
                    insert_binary(&mut out, PluginDir { path: f.path.clone(), format: e.format });
                }
                proof {
                    assert forall|y: DirView| #[trigger]
                        binary_listed(out@, y) <==> binary_listed(was, y) || (e.format == y.format
                            && exists|j: int|
                            0 <= j < k + 1 && is_binary((#[trigger] e.files@[j]).name@, e.format)
                                && e.files@[j].path@ == y.path) by {
                        let here = hit && y == (DirView { path: f.path@, format: e.format });
                        assert(binary_listed(out@, y) <==> binary_listed(mid, y) || here);
                        if here {
                            assert(is_binary(e.files@[k as int].name@, e.format));
                        }
                        if e.format == y.format && exists|j: int|
                            0 <= j < k && is_binary((#[trigger] e.files@[j]).name@, e.format) && e.files@[j].path@
                                == y.path {
                            let j = choose|j: int|
                                0 <= j < k && is_binary((#[trigger] e.files@[j]).name@, e.format)
                                    && e.files@[j].path@ == y.path;
                            assert(is_binary(e.files@[j].name@, e.format));
                        }
                    }
                }
                k = k + 1;
            }
        }
        proof {
            assert forall|y: DirView| #[trigger]
                binary_listed(out@, y) <==> exists|j: int|
                    0 <= j < i + 1 && yields(#[trigger] entries@[j], y.path, y.format) by {
                assert(binary_listed(out@, y) <==> binary_listed(was, y) || yields(*e, y.path, y.format));
                if binary_listed(was, y) {
                    let j = choose|j: int| 0 <= j < i && yields(#[trigger] entries@[j], y.path, y.format);
                    assert(yields(entries@[j], y.path, y.format));
                }
                if yields(*e, y.path, y.format) {
                    assert(yields(entries@[i as int], y.path, y.format));
                }
            }
        }
        i = i + 1;
    }
    out
}

// ---- The tool's report ------------------------------------------------------

/// A discovery entry as plain values.
pub struct EntryView {
    pub path: Seq<char>,
    pub format: VstFormat,
    pub label: Seq<char>,
    pub unique_id: int,
    pub name: Seq<char>,
    pub audio_ins: nat,
    pub audio_outs: nat,
}

impl View for VstEntry {
    type V = EntryView;

    open spec fn view(&self) -> EntryView {
        EntryView {
            path: self.path@,
            format: self.format,
            label: self.label@,
            unique_id: self.unique_id as int,
            name: self.name@,
            audio_ins: self.audio_ins as nat,
            audio_outs: self.audio_outs as nat,
        }
    }
}

/// Entries as plain values.
pub open spec fn entry_views(s: Seq<VstEntry>) -> Seq<EntryView> {
    Seq::new(s.len(), |i: int| s[i]@)
}

/// What a report has said so far.
pub struct ReportView {
    /// Inside the description of a plugin.
    pub in_block: bool,
    pub name: Option<Seq<char>>,
    pub label: Option<Seq<char>>,
    pub unique_id: Option<Seq<char>>,
    pub ins: Option<Seq<char>>,
    pub outs: Option<Seq<char>>,
    pub plugins: Seq<EntryView>,
}

/// What a line says: a key and a value, where it is one of the tool's.
pub open spec fn report_item(line: Seq<char>) -> Option<(Seq<char>, Seq<char>)> {
    let t = text::trim(line);
    let prefix = "carla-discovery::"@;
    let rest = t.skip(prefix.len() as int);
    if begins(t, prefix) && occurs(rest, "::"@) {
        let i = text::index_of(rest, "::"@);
        Some((rest.take(i), rest.skip(i + "::"@.len())))
    } else {
        None
    }
}

/// Nothing said of a plugin yet.
pub open spec fn forgotten(r: ReportView, in_block: bool) -> ReportView {
    ReportView { in_block, name: None, label: None, unique_id: None, ins: None, outs: None, ..r }
}

/// A text that may be missing.
pub open spec fn or_empty(v: Option<Seq<char>>) -> Seq<char> {
    match v {
        Some(s) => s,
        None => ""@,
    }
}

/// The number a text writes, zero where it writes none.
pub open spec fn count_of(v: Option<Seq<char>>) -> nat {
    match v {
        Some(s) => match text::parsed_unsigned(s, 0xffff_ffff) {
            Some(n) => n,
            None => 0,
        },
        None => 0,
    }
}

/// The signed number a text writes, zero where it writes none.
pub open spec fn id_of(v: Option<Seq<char>>) -> int {
    match v {
        Some(s) => match text::parsed_signed(s) {
            Some(n) => n,
            None => 0,
        },
        None => 0,
    }
}

/// The plugin that has been described.
pub open spec fn described(r: ReportView, path: Seq<char>, format: VstFormat) -> EntryView {
    let name = or_empty(r.name);
    EntryView {
        path,
        format,
        label: or_empty(r.label),
        unique_id: id_of(r.unique_id),
        name: if name.len() == 0 {
            fallback_name(path)
        } else {
            name
        },
        audio_ins: count_of(r.ins),
        audio_outs: count_of(r.outs),
    }
}

/// What a report has said after one more item.
pub open spec fn after_item(
    r: ReportView,
    key: Seq<char>,
    value: Seq<char>,
    path: Seq<char>,
    format: VstFormat,
) -> ReportView {
    if key == "init"@ {
        forgotten(r, true)
    } else if key == "end"@ {
        ReportView {
            in_block: false,
            plugins: if r.in_block {
                r.plugins.push(described(r, path, format))
            } else {
                r.plugins
            },
            ..r
        }
    } else if key == "name"@ {
        ReportView { name: Some(value), ..r }
    } else if key == "label"@ {
        ReportView { label: Some(value), ..r }
    } else if key == "uniqueId"@ {
        ReportView { unique_id: Some(value), ..r }
    } else if key == "audio.ins"@ {
        ReportView { ins: Some(value), ..r }
    } else if key == "audio.outs"@ {
        ReportView { outs: Some(value), ..r }
    } else {
        r
    }
}

/// What a report has said after its first `n` lines.
pub open spec fn after_lines(lines: Seq<Seq<char>>, n: int, path: Seq<char>, format: VstFormat) -> ReportView
    decreases n,
{
    if n <= 0 {
        ReportView {
            in_block: false,
            name: None,
            label: None,
            unique_id: None,
            ins: None,
            outs: None,
            plugins: Seq::empty(),
        }
    } else {
        let r = after_lines(lines, n - 1, path, format);
        match report_item(lines[n - 1]) {
            Some((key, value)) => after_item(r, key, value, path, format),
            None => r,
        }
    }
}

/// The plugins a report describes.
pub open spec fn reported_plugins(report: Seq<char>, path: Seq<char>, format: VstFormat) -> Seq<EntryView> {
    let lines = split(report, '\n');
    after_lines(lines, lines.len() as int, path, format).plugins
}

/// What a report has said so far.
struct Report {
    in_block: bool,
    name: Option<String>,
    label: Option<String>,
    unique_id: Option<String>,
    ins: Option<String>,
    outs: Option<String>,
    plugins: Vec<VstEntry>,
}

/// A text that may be missing, as a plain value.
pub open spec fn opt_view(v: Option<String>) -> Option<Seq<char>> {
    match v {
        Some(s) => Some(s@),
        None => None,
    }
}

impl Report {
    spec fn said(self) -> ReportView {
        ReportView {
            in_block: self.in_block,
            name: opt_view(self.name),
            label: opt_view(self.label),
            unique_id: opt_view(self.unique_id),
            ins: opt_view(self.ins),
            outs: opt_view(self.outs),
            plugins: entry_views(self.plugins@),
        }
    }

    /// The plugin that has been described.
    fn describe(&self, path: &str, format: VstFormat) -> (e: VstEntry)
        ensures
            e@ == described(self.said(), path@, format),
    {
        let name = match &self.name {
            Some(n) => n.clone(),
            None => text::copy(""),
        };
        let label = match &self.label {
            Some(l) => l.clone(),
            None => text::copy(""),
        };
        let unique_id: i64 = match &self.unique_id {
            Some(s) => match text::parse_i64(s.as_str()) {
                Some(n) => n,
                None => 0,
            },
            None => 0,
        };
        let audio_ins: u32 = match &self.ins {
            Some(s) => match text::parse_u32(s.as_str()) {
                Some(n) => n,
                None => 0,
            },
            None => 0,
        };
        let audio_outs: u32 = match &self.outs {
            Some(s) => match text::parse_u32(s.as_str()) {
                Some(n) => n,
                None => 0,
            },
            None => 0,
        };
        let name = if name.as_str().is_empty() {
            name_from_path(path)
        } else {
            name
        };
        VstEntry { path: text::copy(path), format, label, unique_id, name, audio_ins, audio_outs }
    }

    /// Take in one more item.
    fn take(&mut self, key: &str, value: String, path: &str, format: VstFormat)
        ensures
            final(self).said() == after_item(old(self).said(), key@, value@, path@, format),
    {
        if text::same(key, "init") {
            self.in_block = true;
            self.name = None;
            self.label = None;
            self.unique_id = None;
            self.ins = None;
            self.outs = None;
        } else if text::same(key, "end") {
            if self.in_block {
                let e = self.describe(path, format);
                let ghost before = entry_views(self.plugins@);
                let ghost v = e@;
                self.plugins.push(e);
                assert(entry_views(self.plugins@) =~= before.push(v));
            }
            self.in_block = false;
        } else if text::same(key, "name") {
            self.name = Some(value);
        } else if text::same(key, "label") {
            self.label = Some(value);
        } else if text::same(key, "uniqueId") {
            self.unique_id = Some(value);
        } else if text::same(key, "audio.ins") {
            self.ins = Some(value);
        } else if text::same(key, "audio.outs") {
            self.outs = Some(value);
        }
    }
}

/// What a line says.
fn read_item(line: &str) -> (r: Option<(String, String)>)
    ensures
        r is Some <==> report_item(line@) is Some,
        r is Some ==> report_item(line@) == Some(((r->0).0@, (r->0).1@)),
{
    let t = text::trimmed(line);
    match text::after_prefix(t.as_str(), "carla-discovery::") {
        Some(rest) => text::split_once(rest.as_str(), "::"),
        None => None,
    }
}

/// Read what the discovery tool printed about one binary.
pub fn discover(report: &str, path: &str, format: VstFormat) -> (r: Vec<VstEntry>)
    ensures
        entry_views(r@) == reported_plugins(report@, path@, format),
{
    let lines = text::split_at(report, '\n');
    let ghost s = split(report@, '\n');
    let mut state = Report {
        in_block: false,
        name: None,
        label: None,
        unique_id: None,
        ins: None,
        outs: None,
        plugins: Vec::new(),
    };
    assert(entry_views(state.plugins@) =~= Seq::<EntryView>::empty());
    let mut i: usize = 0;
    while i < lines.len()
        invariant
            i <= lines@.len(),
            text::views(lines@) == s,
            state.said() == after_lines(s, i as int, path@, format),
        decreases lines@.len() - i,
    {
        assert(s[i as int] == lines@[i as int]@);
        if let Some((key, value)) = read_item(lines[i].as_str()) {
            state.take(key.as_str(), value, path, format);
        }
        i = i + 1;
    }
    state.plugins
}

// ---- The cache --------------------------------------------------------------

/// What was found in one binary, as of a modification time.
#[derive(Clone, Debug, PartialEq, Eq)]
pub struct CacheRow {
    pub path: String,
    pub mtime: i64,
    pub plugins: Vec<VstEntry>,
}

/// What was found in earlier scans.
#[derive(Clone, Debug, PartialEq, Eq)]
pub struct ScanCache {
    pub rows: Vec<CacheRow>,
}

/// The row of a binary.
pub open spec fn row_is(path: Seq<char>) -> spec_fn(CacheRow) -> bool {
    |r: CacheRow| r.path@ == path
}

/// The rows of binaries that still exist.
pub open spec fn still_there(live: Seq<PluginDir>) -> spec_fn(CacheRow) -> bool {
    |r: CacheRow| exists|i: int| 0 <= i < live.len() && (#[trigger] live[i]).path@ == r.path@
}

impl ScanCache {
    /// The position of a binary's row.
    pub open spec fn position(self, path: Seq<char>) -> int {
        first(self.rows@, row_is(path))
    }

    /// What is known of a binary, where it has not changed since.
    pub open spec fn fresh(self, path: Seq<char>, mtime: i64) -> Option<Seq<VstEntry>> {
        let i = self.position(path);
        if i < self.rows@.len() && self.rows@[i].mtime == mtime {
            Some(self.rows@[i].plugins@)
        } else {
            None
        }
    }

    /// Whether a new cache is this one with a binary's row replaced or added.
    pub open spec fn stored(self, path: Seq<char>, mtime: i64, plugins: Seq<VstEntry>, new: ScanCache) -> bool {
        let p = self.position(path);
        let row = new.rows@[p];
        &&& new.rows@ == put(self.rows@, p, row)
        &&& row.path@ == path
        &&& row.mtime == mtime
        &&& row.plugins@ == plugins
    }

    fn find(&self, path: &str) -> (r: usize)
        ensures
            r == self.position(path@),
            r <= self.rows@.len(),
    {
        let mut i: usize = 0;
        while i < self.rows.len() && !text::same(self.rows[i].path.as_str(), path)
            invariant
                i <= self.rows@.len(),
                forall|j: int| 0 <= j < i ==> !row_is(path@)(#[trigger] self.rows@[j]),
            decreases self.rows@.len() - i,
        {
            i = i + 1;
        }
        proof {
            first_is_at(self.rows@, row_is(path@), i as int);
        }
        i
    }

    /// What is known of a binary, where it has not changed since.
    pub fn lookup(&self, path: &str, mtime: i64) -> (r: Option<Vec<VstEntry>>)
        ensures
            r is Some <==> self.fresh(path@, mtime) is Some,
            r is Some ==> r->0@ == self.fresh(path@, mtime)->0,
    {
        let i = self.find(path);
        if i < self.rows.len() && self.rows[i].mtime == mtime {
            Some(copy_entries(&self.rows[i].plugins))
        } else {
            None
        }
    }

    /// Remember what was found in a binary.
    pub fn store(&mut self, path: &str, mtime: i64, plugins: Vec<VstEntry>)
        ensures
            old(self).stored(path@, mtime, plugins@, *final(self)),
            final(self).fresh(path@, mtime) == Some(plugins@),
    {
        let i = self.find(path);
        let ghost before = self.rows@;
        let row = CacheRow { path: text::copy(path), mtime, plugins };
        if i < self.rows.len() {
            self.rows[i] = row;
        } else {
            self.rows.push(row);
        }
        proof {
            first_is_least(before, row_is(path@));
            assert forall|j: int| 0 <= j < i implies !row_is(path@)(#[trigger] self.rows@[j]) by {
                assert(!row_is(path@)(before[j]));
            }
            first_is_at(self.rows@, row_is(path@), i as int);
        }
    }

    /// What dropping the rows of missing binaries answers and leaves.
    pub open spec fn pruned(self, live: Seq<PluginDir>, r: bool, new: ScanCache) -> bool {
        &&& new.rows@ == self.rows@.filter(still_there(live))
        &&& r == (new.rows@.len() != self.rows@.len())
    }

    /// Drop the rows of binaries that no longer exist. Says whether there were
    /// any.
    pub fn prune(&mut self, live: &Vec<PluginDir>) -> (r: bool)
        ensures
            old(self).pruned(live@, r, *final(self)),
    {
        let before: usize = self.rows.len();
        let keep = |row: &CacheRow| -> (k: bool)
            ensures
                k == still_there(live@)(*row),
        { path_listed(live, row.path.as_str()) };
        retain(&mut self.rows, keep, Ghost(still_there(live@)));
        self.rows.len() != before
    }
}

/// Dropping the rows of binaries that no longer exist forgets nothing of those
/// that do, and everything of the others.
pub proof fn pruning_keeps_what_exists(
    before: ScanCache,
    live: Seq<PluginDir>,
    after: ScanCache,
    path: Seq<char>,
    mtime: i64,
)
    requires
        after.rows@ == before.rows@.filter(still_there(live)),
    ensures
        after.fresh(path, mtime) == if exists|i: int| 0 <= i < live.len() && (#[trigger] live[i]).path@ == path {
            before.fresh(path, mtime)
        } else {
            None
        },
{
    let s = before.rows@;
    let p = still_there(live);
    if exists|i: int| 0 <= i < live.len() && (#[trigger] live[i]).path@ == path {
        filter_keeps_first(s, p, row_is(path));
    } else {
        first_is_least(after.rows@, row_is(path));
        filter_keeps(s, p);
    }
}

/// Whether a path is among some binaries.
fn path_listed(live: &Vec<PluginDir>, path: &str) -> (r: bool)
    ensures
        r == exists|i: int| 0 <= i < live@.len() && (#[trigger] live@[i]).path@ == path@,
{
    let mut i: usize = 0;
    while i < live.len()
        invariant
            i <= live@.len(),
            forall|j: int| 0 <= j < i ==> (#[trigger] live@[j]).path@ != path@,
        decreases live@.len() - i,
    {
        if text::same(live[i].path.as_str(), path) {
            return true;
        }
        i = i + 1;
    }
    false
}

// ---- The result -------------------------------------------------------------

/// The plugins with an audio path through them.
pub open spec fn is_effect() -> spec_fn(VstEntry) -> bool {
    |e: VstEntry| 1 <= e.audio_ins <= 2 && 1 <= e.audio_outs <= 2
}

/// The lower-case form of a text, by Unicode.
pub uninterp spec fn lowercase(s: Seq<char>) -> Seq<char>;

/// `str::to_lowercase`: the lower-case form of a text, by Unicode.
#[verifier::external_body]
fn to_lowercase(s: &str) -> (r: String)
    ensures
        r@ == lowercase(s@),
{
    s.to_lowercase()
}

/// What an entry is ordered by.
pub open spec fn sort_key(e: VstEntry) -> Seq<char> {
    lowercase(e.name@)
}

/// The entries whose key comes after another.
pub open spec fn comes_after(key: Seq<char>) -> spec_fn(VstEntry) -> bool {
    |e: VstEntry| precedes(key, sort_key(e))
}

/// Put an entry into ordered ones, behind those with the same key.
pub open spec fn inserted(s: Seq<VstEntry>, e: VstEntry) -> Seq<VstEntry> {
    s.insert(first(s, comes_after(sort_key(e))), e)
}

/// Entries ordered by name in lower case; what has the same name keeps its
/// order.
pub open spec fn ordered(s: Seq<VstEntry>) -> Seq<VstEntry>
    decreases s.len(),
{
    if s.len() == 0 {
        s
    } else {
        inserted(ordered(s.drop_last()), s.last())
    }
}

/// Whether no entry comes after a later one.
pub open spec fn is_ordered(s: Seq<VstEntry>) -> bool {
    forall|i: int, j: int|
        0 <= i < j < s.len() ==> !precedes(sort_key(#[trigger] s[j]), sort_key(#[trigger] s[i]))
}

/// Ordering orders, and neither adds nor loses an entry.
pub proof fn ordering_orders(s: Seq<VstEntry>)
    ensures
        is_ordered(ordered(s)),
        ordered(s).to_multiset() == s.to_multiset(),
        ordered(s).len() == s.len(),
    decreases s.len(),
{
    broadcast use vstd::seq_lib::group_to_multiset_ensures;

    if s.len() > 0 {
        let t = ordered(s.drop_last());
        let e = s.last();
        ordering_orders(s.drop_last());
        let p = comes_after(sort_key(e));
        let i = first(t, p);
        first_is_least(t, p);
        let r = ordered(s);
        assert(r =~= t.insert(i, e));
        assert forall|a: int, b: int| 0 <= a < b < r.len() implies !precedes(
            sort_key(#[trigger] r[b]),
            sort_key(#[trigger] r[a]),
        ) by {
            let x = if a < i {
                a
            } else {
                a - 1
            };
            let y = if b < i {
                b
            } else {
                b - 1
            };
            if a == i {
                assert(r[b] == t[y]);
                assert(precedes(sort_key(e), sort_key(t[i])));
                if precedes(sort_key(t[y]), sort_key(e)) {
                    text::order_is_transitive(sort_key(t[y]), sort_key(e), sort_key(t[i]));
                    if y == i {
                        text::order_is_total(sort_key(t[i]), sort_key(t[i]));
                    } else {
                        assert(!precedes(sort_key(t[y]), sort_key(t[i])));
                    }
                }
            } else if b == i {
                assert(r[a] == t[x]);
                assert(!p(t[x]));
            } else {
                assert(r[a] == t[x] && r[b] == t[y]);
            }
        }
        assert(s =~= s.drop_last().push(e));
        assert(s.drop_last().push(e).to_multiset() =~= s.drop_last().to_multiset().insert(e));
    } else {
        assert(ordered(s) =~= s);
    }
}

/// What a scan offers of what was found: the effects, ordered by name.
pub fn scan_result(found: Vec<VstEntry>) -> (r: Vec<VstEntry>)
    ensures
        r@ == ordered(found@.filter(is_effect())),
        is_ordered(r@),
{
    let mut all = found;
    let effect = |e: &VstEntry| -> (k: bool)
        ensures
            k == is_effect()(*e),
    { e.audio_ins >= 1 && e.audio_ins <= 2 && e.audio_outs >= 1 && e.audio_outs <= 2 };
    retain(&mut all, effect, Ghost(is_effect()));
    let ghost s = all@;
    let mut out: Vec<VstEntry> = Vec::new();
    let mut keys: Vec<String> = Vec::new();
    assert(s.take(0) =~= Seq::<VstEntry>::empty());
    for e in it: all
        invariant
            it.seq() == s,
            out@ == ordered(s.take(it.index() as int)),
            keys@.len() == out@.len(),
            forall|j: int| 0 <= j < keys@.len() ==> (#[trigger] keys@[j])@ == sort_key(out@[j]),
    {
        proof {
            let n = it.index() as int;
            assert(s.take(n + 1).drop_last() =~= s.take(n));
            assert(s.take(n + 1).last() == e);
        }
        let key = to_lowercase(e.name.as_str());
        let ghost p = comes_after(key@);
        let mut i: usize = 0;
        while i < keys.len() && !text::less(key.as_str(), keys[i].as_str())
            invariant
                i <= keys@.len(),
                keys@.len() == out@.len(),
                forall|j: int| 0 <= j < keys@.len() ==> (#[trigger] keys@[j])@ == sort_key(out@[j]),
                p == comes_after(key@),
                forall|j: int| 0 <= j < i ==> !p(#[trigger] out@[j]),
            decreases keys@.len() - i,
        {
            i = i + 1;
        }
        proof {
            if i < keys@.len() {
                assert(keys@[i as int]@ == sort_key(out@[i as int]));
            }
            first_is_at(out@, p, i as int);
        }
        let ghost before = out@;
        let ghost kb = keys@;
        out.insert(i, e);
        keys.insert(i, key);
        proof {
            assert forall|j: int| 0 <= j < keys@.len() implies (#[trigger] keys@[j])@ == sort_key(out@[j]) by {
                if j < i {
                    assert(kb[j]@ == sort_key(before[j]));
                } else if j > i {
                    assert(kb[j - 1]@ == sort_key(before[j - 1]));
                }
            }
        }
    }
    proof {
        assert(s.take(s.len() as int) =~= s);
        ordering_orders(s);
    }
    out
}

// ---- A scan -----------------------------------------------------------------

/// A scan under way.
#[derive(Clone, Debug, PartialEq, Eq)]
pub struct Scan {
    pub cache: ScanCache,
    /// What was found in the binaries so far.
    pub found: Vec<VstEntry>,
    /// Something was probed, so the cache must be written.
    pub dirty: bool,
}

/// What a scan comes to.
#[derive(Clone, Debug, PartialEq, Eq)]
pub struct Scanned {
    /// The effects, ordered by name.
    pub entries: Vec<VstEntry>,
    pub cache: ScanCache,
    /// The cache differs from the one the scan began with.
    pub write: bool,
}

/// What a probe gave, if there was one, as plain values.
pub open spec fn probe_view(probed: Option<Vec<VstEntry>>) -> Option<Seq<VstEntry>> {
    match probed {
        Some(v) => Some(v@),
        None => None,
    }
}

impl Scan {
    /// What a binary adds to a scan: what is known of it where it has not
    /// changed, else what was probed, which is remembered.
    pub open spec fn took(self, path: Seq<char>, mtime: i64, probed: Option<Seq<VstEntry>>, new: Scan) -> bool {
        match self.cache.fresh(path, mtime) {
            Some(known) => {
                &&& new.found@ == self.found@ + known
                &&& new == (Scan { found: new.found, ..self })
            },
            None => {
                &&& probed is Some
                &&& new.found@ == self.found@ + probed->0
                &&& self.cache.stored(path, mtime, probed->0, new.cache)
                &&& new.dirty
            },
        }
    }

    /// Begin a scan with what earlier ones found.
    pub fn new(cache: ScanCache) -> (r: Scan)
        ensures
            r.cache == cache,
            r.found@.len() == 0,
            !r.dirty,
    {
        Scan { cache, found: Vec::new(), dirty: false }
    }

    /// Whether a binary must be probed: it is new or has changed.
    pub fn must_probe(&self, path: &str, mtime: i64) -> (r: bool)
        ensures
            r == (self.cache.fresh(path@, mtime) is None),
    {
        let i = self.cache.find(path);
        !(i < self.cache.rows.len() && self.cache.rows[i].mtime == mtime)
    }

    /// Take in a binary, with what probing it gave where it had to be probed.
    pub fn take_binary(&mut self, path: &str, mtime: i64, probed: Option<Vec<VstEntry>>)
        requires
            old(self).cache.fresh(path@, mtime) is None ==> probed is Some,
        ensures
            old(self).took(path@, mtime, probe_view(probed), *final(self)),
    {
        if let Some(mut known) = self.cache.lookup(path, mtime) {
            self.found.append(&mut known);
        } else if let Some(plugins) = probed {
            let mut new = copy_entries(&plugins);
            self.cache.store(path, mtime, plugins);
            self.found.append(&mut new);
            self.dirty = true;
        }
    }

    /// What a scan of some binaries ends with.
    pub open spec fn finished(self, binaries: Seq<PluginDir>, r: Scanned) -> bool {
        &&& r.entries@ == ordered(self.found@.filter(is_effect()))
        &&& is_ordered(r.entries@)
        &&& r.cache.rows@ == self.cache.rows@.filter(still_there(binaries))
        &&& r.write == (self.dirty || r.cache.rows@.len() != self.cache.rows@.len())
    }

    /// End a scan of some binaries.
    pub fn finish(self, binaries: &Vec<PluginDir>) -> (r: Scanned)
        ensures
            self.finished(binaries@, r),
    {
        let Scan { cache, found, dirty } = self;
        let mut cache = cache;
        let pruned = cache.prune(binaries);
        Scanned { entries: scan_result(found), cache, write: dirty || pruned }
    }
}

/// A binary as a scan meets it.
pub struct Met {
    pub path: Seq<char>,
    pub mtime: i64,
    /// What probing it gave, or would have given.
    pub probed: Option<Seq<VstEntry>>,
}

/// Whether a scan passes through some states as it meets some binaries.
pub open spec fn scan_passes(states: Seq<Scan>, met: Seq<Met>) -> bool {
    &&& states.len() == met.len() + 1
    &&& forall|k: int|
        0 <= k < met.len() ==> (#[trigger] states[k]).took(
            met[k].path,
            met[k].mtime,
            met[k].probed,
            states[k + 1],
        )
}

/// Remembering a binary forgets nothing of another.
proof fn storing_keeps_others(before: ScanCache, path: Seq<char>, mtime: i64, plugins: Seq<VstEntry>, after: ScanCache)
    requires
        before.stored(path, mtime, plugins, after),
    ensures
        after.fresh(path, mtime) == Some(plugins),
        forall|p: Seq<char>, t: i64| p != path ==> #[trigger] after.fresh(p, t) == before.fresh(p, t),
{
    let s = before.rows@;
    let r = after.rows@;
    let at = before.position(path);
    first_is_least(s, row_is(path));
    assert forall|j: int| 0 <= j < at implies !row_is(path)(#[trigger] r[j]) by {
        assert(!row_is(path)(s[j]));
    }
    first_is_at(r, row_is(path), at);
    assert forall|p: Seq<char>, t: i64| p != path implies #[trigger] after.fresh(p, t) == before.fresh(p, t) by {
        let i = before.position(p);
        first_is_least(s, row_is(p));
        assert forall|j: int| 0 <= j < i && j < r.len() implies !row_is(p)(#[trigger] r[j]) by {
            if j < s.len() && j != at {
                assert(!row_is(p)(s[j]));
            }
        }
        if i < s.len() {
            first_is_at(r, row_is(p), i);
        } else {
            first_is_at(r, row_is(p), r.len() as int);
        }
    }
}

/// After a scan, everything it met is known: the next one probes nothing but
/// what is new or has changed since.
pub proof fn scanned_binaries_are_known(states: Seq<Scan>, met: Seq<Met>, i: int, k: int)
    requires
        scan_passes(states, met),
        forall|a: int, b: int| 0 <= a < b < met.len() ==> (#[trigger] met[a]).path != (#[trigger] met[b]).path,
        0 <= i < k <= met.len(),
    ensures
        states[k].cache.fresh(met[i].path, met[i].mtime) is Some,
        states[i + 1].found@ == states[i].found@ + states[k].cache.fresh(met[i].path, met[i].mtime)->0,
    decreases k,
{
    let b = met[k - 1];
    let was = states[k - 1];
    assert(was.took(b.path, b.mtime, b.probed, states[k - 1 + 1]));
    if was.cache.fresh(b.path, b.mtime) is None {
        storing_keeps_others(was.cache, b.path, b.mtime, b.probed->0, states[k].cache);
    }
    if i < k - 1 {
        scanned_binaries_are_known(states, met, i, k - 1);
        assert(met[i].path != met[k - 1].path);
    }
}

/// While every binary is known, a scan changes nothing in the cache and gives
/// no reason to write it.
pub proof fn warm_scan_changes_nothing(states: Seq<Scan>, met: Seq<Met>, k: int)
    requires
        scan_passes(states, met),
        forall|i: int|
            0 <= i < met.len() ==> states[0].cache.fresh((#[trigger] met[i]).path, met[i].mtime) is Some,
        0 <= k <= met.len(),
    ensures
        states[k].cache == states[0].cache,
        states[k].dirty == states[0].dirty,
    decreases k,
{
    if k > 0 {
        warm_scan_changes_nothing(states, met, k - 1);
        let b = met[k - 1];
        assert(states[k - 1].took(b.path, b.mtime, b.probed, states[k - 1 + 1]));
    }
}

/// A second scan of the same binaries, none of them changed, probes nothing and
/// has no row to drop.
pub proof fn second_scan_is_quiet(states: Seq<Scan>, met: Seq<Met>, live: Seq<PluginDir>, kept: ScanCache)
    requires
        scan_passes(states, met),
        forall|a: int, b: int| 0 <= a < b < met.len() ==> (#[trigger] met[a]).path != (#[trigger] met[b]).path,
        forall|i: int|
            0 <= i < met.len() ==> exists|j: int|
                0 <= j < live.len() && (#[trigger] live[j]).path@ == (#[trigger] met[i]).path,
        kept.rows@ == states.last().cache.rows@.filter(still_there(live)),
    ensures
        forall|i: int| 0 <= i < met.len() ==> kept.fresh((#[trigger] met[i]).path, met[i].mtime) is Some,
        kept.rows@.filter(still_there(live)) == kept.rows@,
{
    let n = met.len() as int;
    let last = states.last().cache;
    assert forall|i: int| 0 <= i < met.len() implies kept.fresh((#[trigger] met[i]).path, met[i].mtime) is Some by {
        scanned_binaries_are_known(states, met, i, n);
        pruning_keeps_what_exists(last, live, kept, met[i].path, met[i].mtime);
    }
    filter_keeps(last.rows@, still_there(live));
    filter_all(kept.rows@, still_there(live));
}

// ---- What a report comes to -------------------------------------------------

/// Each line of a report sets what it names and nothing else; the start of a
/// description forgets the one before, and its end adds one plugin.
pub proof fn lines_set_what_they_name(r: ReportView, v: Seq<char>, path: Seq<char>, format: VstFormat)
    ensures
        after_item(r, "name"@, v, path, format).name == Some(v),
        after_item(r, "label"@, v, path, format).label == Some(v),
        after_item(r, "uniqueId"@, v, path, format).unique_id == Some(v),
        after_item(r, "audio.ins"@, v, path, format).ins == Some(v),
        after_item(r, "audio.outs"@, v, path, format).outs == Some(v),
        after_item(r, "audio.ins"@, v, path, format).outs == r.outs,
        after_item(r, "audio.outs"@, v, path, format).ins == r.ins,
        after_item(r, "name"@, v, path, format).label == r.label,
        after_item(r, "label"@, v, path, format).name == r.name,
        after_item(r, "name"@, v, path, format).plugins == r.plugins,
        after_item(r, "init"@, v, path, format).in_block,
        after_item(r, "init"@, v, path, format).name is None,
        after_item(r, "init"@, v, path, format).label is None,
        after_item(r, "init"@, v, path, format).unique_id is None,
        after_item(r, "init"@, v, path, format).ins is None,
        after_item(r, "init"@, v, path, format).outs is None,
        after_item(r, "init"@, v, path, format).plugins == r.plugins,
        !after_item(r, "end"@, v, path, format).in_block,
        r.in_block ==> after_item(r, "end"@, v, path, format).plugins.len() == r.plugins.len() + 1,
        !r.in_block ==> after_item(r, "end"@, v, path, format).plugins == r.plugins,
{
    reveal_strlit("init");
    reveal_strlit("end");
    reveal_strlit("name");
    reveal_strlit("label");
    reveal_strlit("uniqueId");
    reveal_strlit("audio.ins");
    reveal_strlit("audio.outs");
    assert("init"@.len() == 4 && "end"@.len() == 3 && "name"@.len() == 4 && "label"@.len() == 5);
    assert("uniqueId"@.len() == 8 && "audio.ins"@.len() == 9 && "audio.outs"@.len() == 10);
    assert("init"@[0] == 'i' && "name"@[0] == 'n');
}

/// A described plugin is what the lines said: its name, label and number of
/// inputs and outputs as written, the file's name where it has none, and the
/// binary it was found in.
pub proof fn plugins_are_as_described(
    r: ReportView,
    name: Seq<char>,
    label: Seq<char>,
    ins: nat,
    outs: nat,
    path: Seq<char>,
    format: VstFormat,
)
    requires
        r.name == Some(name),
        r.label == Some(label),
        r.ins == Some(text::dec(ins)),
        r.outs == Some(text::dec(outs)),
        ins <= 0xffff_ffff,
        outs <= 0xffff_ffff,
    ensures
        described(r, path, format).audio_ins == ins,
        described(r, path, format).audio_outs == outs,
        described(r, path, format).label == label,
        name.len() > 0 ==> described(r, path, format).name == name,
        name.len() == 0 ==> described(r, path, format).name == fallback_name(path),
        described(r, path, format).path == path,
        described(r, path, format).format == format,
        described(ReportView { ins: None, ..r }, path, format).audio_ins == 0,
        described(ReportView { outs: None, ..r }, path, format).audio_outs == 0,
        described(ReportView { unique_id: None, ..r }, path, format).unique_id == 0,
{
    text::numbers_are_read_back(ins, 0xffff_ffff);
    text::numbers_are_read_back(outs, 0xffff_ffff);
}

/// A line of the tool says a key and a value; a line of anything else says
/// nothing.
#[verifier::rlimit(40)]
pub proof fn lines_say_key_and_value(line: Seq<char>, key: Seq<char>, value: Seq<char>)
    requires
        text::trim(line) == "carla-discovery::"@ + key + "::"@ + value,
        !key.contains(':'),
    ensures
        report_item(line) == Some((key, value)),
{
    reveal_strlit("carla-discovery::");
    reveal_strlit("::");
    let t = text::trim(line);
    let prefix = "carla-discovery::"@;
    assert(t.subrange(0, prefix.len() as int) =~= prefix);
    let rest = t.skip(prefix.len() as int);
    assert(rest =~= key + "::"@ + value);
    let n = key.len() as int;
    assert(rest.subrange(n, n + 2) =~= "::"@);
    assert(text::stands_at(rest, "::"@, n));
    assert forall|j: int| 0 <= j < n implies !text::stands_at(rest, "::"@, j) by {
        if text::stands_at(rest, "::"@, j) {
            assert(rest.subrange(j, j + 2)[0] == "::"@[0]);
            assert(rest[j] == ':');
            assert(key[j] == ':');
            assert(key.contains(':'));
        }
    }
    let i = text::index_of(rest, "::"@);
    assert(text::stands_at(rest, "::"@, i) && forall|j: int| 0 <= j < i ==> !text::stands_at(rest, "::"@, j)) by {
        assert(text::stands_at(rest, "::"@, n) && forall|j: int|
            0 <= j < n ==> !text::stands_at(rest, "::"@, j));
    }
    assert(i == n) by {
        if i < n {
            assert(!text::stands_at(rest, "::"@, i));
        } else if n < i {
            assert(!text::stands_at(rest, "::"@, n));
        }
    }
    assert(rest.take(n) =~= key);
    assert(rest.skip(n + 2) =~= value);
}

/// What does not begin as the tool's lines do says nothing.
pub proof fn other_lines_say_nothing(line: Seq<char>)
    requires
        !begins(text::trim(line), "carla-discovery::"@),
    ensures
        report_item(line) is None,
{
}

/// An effect takes one or two channels in and gives one or two out; anything
/// else is none.
pub proof fn effects_have_an_audio_path(e: VstEntry)
    ensures
        e.audio_ins == 0 || e.audio_outs == 0 ==> !is_effect()(e),
        e.audio_ins > 2 || e.audio_outs > 2 ==> !is_effect()(e),
        (e.audio_ins == 1 || e.audio_ins == 2) && (e.audio_outs == 1 || e.audio_outs == 2) ==> is_effect()(e),
{
}

/// A scan offers every effect that was found, and nothing but effects.
pub proof fn every_effect_is_offered(found: Seq<VstEntry>, i: int)
    requires
        0 <= i < found.len(),
        is_effect()(found[i]),
    ensures
        ordered(found.filter(is_effect())).contains(found[i]),
        forall|k: int|
            0 <= k < ordered(found.filter(is_effect())).len() ==> found.contains(
                #[trigger] ordered(found.filter(is_effect()))[k],
            ) && is_effect()(ordered(found.filter(is_effect()))[k]),
{
    let s = found.filter(is_effect());
    let o = ordered(s);
    ordering_orders(s);
    crate::list::filter_loses_nothing(found, is_effect(), i);
    filter_keeps(found, is_effect());
    s.to_multiset_ensures();
    o.to_multiset_ensures();
    assert(s.to_multiset().count(found[i]) > 0);
    assert(o.to_multiset().count(found[i]) > 0);
    assert forall|k: int| 0 <= k < o.len() implies found.contains(#[trigger] o[k]) && is_effect()(o[k]) by {
        assert(o.contains(o[k]));
        assert(o.to_multiset().count(o[k]) > 0);
        assert(s.to_multiset().count(o[k]) > 0);
        assert(s.contains(o[k]));
        let j = choose|j: int| 0 <= j < s.len() && s[j] == o[k];
        assert(is_effect()(s[j]));
    }
}

/// Binaries are told by their ending, each format by its own.
pub proof fn binaries_are_told_by_their_ending(stem: Seq<char>)
    ensures
        is_binary(stem + ".so"@, VstFormat::Vst2),
        is_binary(stem + ".vst3"@, VstFormat::Vst3),
        !is_binary(stem + ".so"@, VstFormat::Vst3),
        !is_binary(stem + ".vst3"@, VstFormat::Vst2),
{
    reveal_strlit(".so");
    reveal_strlit(".vst3");
    let a = stem + ".so"@;
    let b = stem + ".vst3"@;
    assert(a.subrange(a.len() - 3, a.len() as int) =~= ".so"@);
    assert(b.subrange(b.len() - 5, b.len() as int) =~= ".vst3"@);
    if text::ends(a, ".vst3"@) {
        assert(a.subrange(a.len() - 5, a.len() as int)[4] == ".vst3"@[4]);
        assert(a[a.len() - 1] == 'o');
    }
    if text::ends(b, ".so"@) {
        assert(b.subrange(b.len() - 3, b.len() as int)[2] == ".so"@[2]);
        assert(b[b.len() - 1] == '3');
    }
}

/// An entry of a searched folder gives itself where it is a binary, and else
/// every binary directly in it.
pub proof fn folders_are_searched_one_level_deep(e: DirEntry, i: int)
    ensures
        is_binary(e.name@, e.format) ==> yields(e, e.path@, e.format),
        is_binary(e.name@, e.format) && 0 <= i < e.files@.len() && e.files@[i].path@ != e.path@ ==> !yields(
            e,
            e.files@[i].path@,
            e.format,
        ),
        !is_binary(e.name@, e.format) && 0 <= i < e.files@.len() && is_binary(e.files@[i].name@, e.format) ==> yields(
            e,
            e.files@[i].path@,
            e.format,
        ),
{
}

/// Every folder of a search path is searched for the format of that path, and
/// the search paths come before the folders that are searched anyway.
pub proof fn search_paths_come_first(s: Seq<Seq<char>>, format: VstFormat, n: int, i: int)
    requires
        0 <= i < n,
        s[i].len() > 0,
    ensures
        search_dirs(s, format, n).contains(DirView { path: s[i], format }),
        forall|k: int|
            0 <= k < search_dirs(s, format, n).len() ==> (#[trigger] search_dirs(s, format, n)[k]).format == format
                && search_dirs(s, format, n)[k].path.len() > 0,
    decreases n,
{
    let x = DirView { path: s[i], format };
    let rest = search_dirs(s, format, n - 1);
    let all = search_dirs(s, format, n);
    if i < n - 1 {
        search_paths_come_first(s, format, n - 1, i);
        let k = choose|k: int| 0 <= k < rest.len() && rest[k] == x;
        assert(all[k] == x);
    } else {
        assert(all[rest.len() as int] == x);
        search_dirs_agree(s, format, n - 1);
    }
}

/// All folders of a search path have its format.
proof fn search_dirs_agree(s: Seq<Seq<char>>, format: VstFormat, n: int)
    ensures
        forall|k: int|
            0 <= k < search_dirs(s, format, n).len() ==> (#[trigger] search_dirs(s, format, n)[k]).format == format
                && search_dirs(s, format, n)[k].path.len() > 0,
    decreases n,
{
    if n > 0 {
        search_dirs_agree(s, format, n - 1);
    }
}

/// The usual folders are searched: those in the user's home, and those of the
/// system, each for its own format.
pub proof fn usual_folders_are_searched(vst: Option<&str>, vst3: Option<&str>, home: Seq<char>)
    requires
        home.len() > 0,
        home.last() != '/',
    ensures
        ({
            let all = possible_dirs(vst, vst3, home);
            let n = (env_dirs(vst, VstFormat::Vst2).len() + env_dirs(vst3, VstFormat::Vst3).len()) as int;
            &&& all.len() == n + 16
            &&& all[n] == (DirView { path: home + "/"@ + "vst"@, format: VstFormat::Vst2 })
            &&& all[n + 1] == (DirView { path: home + "/"@ + ".vst"@, format: VstFormat::Vst2 })
            &&& all[n + 2] == (DirView { path: home + "/"@ + ".lxvst"@, format: VstFormat::Vst2 })
            &&& all[n + 3] == (DirView { path: home + "/"@ + ".vst3"@, format: VstFormat::Vst3 })
            &&& all[n + 4] == (DirView { path: "/usr/lib64"@ + "/"@ + "vst"@, format: VstFormat::Vst2 })
            &&& all[n + 6] == (DirView { path: "/usr/lib64"@ + "/"@ + "vst3"@, format: VstFormat::Vst3 })
            &&& all[n + 7] == (DirView { path: "/usr/lib"@ + "/"@ + "vst"@, format: VstFormat::Vst2 })
            &&& all[n + 9] == (DirView { path: "/usr/lib"@ + "/"@ + "vst3"@, format: VstFormat::Vst3 })
            &&& all[n + 12] == (DirView { path: "/usr/local/lib"@ + "/"@ + "vst3"@, format: VstFormat::Vst3 })
            &&& all[n + 15] == (DirView { path: "/usr/local/lib64"@ + "/"@ + "vst3"@, format: VstFormat::Vst3 })
        }),
{
    reveal_strlit("/usr/lib64");
    reveal_strlit("/usr/lib");
    reveal_strlit("/usr/local/lib");
    reveal_strlit("/usr/local/lib64");
    assert("/usr/lib64"@.last() == '4' && "/usr/lib"@.last() == 'b');
    assert("/usr/local/lib"@.last() == 'b' && "/usr/local/lib64"@.last() == '4');
}

/// Every folder that exists is searched, as itself or as another way to write
/// it, and none is searched twice.
pub proof fn existing_folders_are_searched_once(s: Seq<PluginDir>, there: Seq<bool>, n: int, i: int)
    requires
        0 <= i < n,
    ensures
        there[i] ==> has_dir(searched(s, there, n), s[i]),
        forall|a: int, b: int|
            0 <= a < b < searched(s, there, n).len() ==> !(same_place(
                (#[trigger] searched(s, there, n)[a]).path@,
                (#[trigger] searched(s, there, n)[b]).path@,
            ) && searched(s, there, n)[a].format == searched(s, there, n)[b].format),
    decreases n,
{
    let rest = searched(s, there, n - 1);
    let all = searched(s, there, n);
    if n > 1 {
        existing_folders_are_searched_once(
            s,
            there,
            n - 1,
            if i < n - 1 {
                i
            } else {
                0
            },
        );
    }
    if there[i] {
        if i < n - 1 {
            let k = choose|k: int|
                0 <= k < rest.len() && same_place((#[trigger] rest[k]).path@, s[i].path@) && rest[k].format
                    == s[i].format;
            assert(all[k] == rest[k]);
            assert(same_place(all[k].path@, s[i].path@));
        } else if has_dir(rest, s[i]) {
        } else {
            assert(all[rest.len() as int] == s[i]);
            assert(same_place(all[rest.len() as int].path@, s[i].path@));
        }
    }
    assert forall|a: int, b: int| 0 <= a < b < all.len() implies !(same_place(
        (#[trigger] all[a]).path@,
        (#[trigger] all[b]).path@,
    ) && all[a].format == all[b].format) by {
        if b < rest.len() {
            assert(all[a] == rest[a] && all[b] == rest[b]);
        } else {
            assert(all[a] == rest[a]);
            assert(all[b] == s[n - 1]);
        }
    }
}

/// A plugin without a name goes by its file's name up to the last dot.
pub proof fn files_lose_their_ending(name: Seq<char>, ending: Seq<char>)
    requires
        name.len() > 0,
        !ending.contains('.'),
    ensures
        stem(name + seq!['.'] + ending) == name,
{
    let s = name + seq!['.'] + ending;
    dot_is_found(s, name.len() as int, s.len() as int);
    assert(s.take(name.len() as int) =~= name);
}

/// The last dot is found.
proof fn dot_is_found(s: Seq<char>, i: int, n: int)
    requires
        1 <= i < n <= s.len(),
        s[i] == '.',
        exists|a: Seq<char>, b: Seq<char>|
            !b.contains('.') && #[trigger] (a + seq!['.'] + b) == s && a.len() == i,
    ensures
        last_dot(s, n) == i,
    decreases n,
{
    if n - 1 > i {
        let (a, b) = choose|a: Seq<char>, b: Seq<char>|
            !b.contains('.') && #[trigger] (a + seq!['.'] + b) == s && a.len() == i;
        assert(s[n - 1] == b[n - 1 - i - 1]);
        assert(b.contains(b[n - 1 - i - 1]));
        dot_is_found(s, i, n - 1);
    }
}

/// Two ways to write a format's name are one only for the same format.
pub proof fn format_names_agree(f: VstFormat)
    ensures
        f == VstFormat::Vst2 ==> f.key() == "vst2"@,
        f == VstFormat::Vst3 ==> f.key() == "vst3"@,
{
}

/// What is known of a binary is what was stored under its path, and only while
/// its time is the same.
pub proof fn changed_binaries_are_not_known(c: ScanCache, i: int, t: i64)
    requires
        0 <= i < c.rows@.len(),
        forall|j: int| 0 <= j < i ==> (#[trigger] c.rows@[j]).path@ != c.rows@[i].path@,
    ensures
        c.fresh(c.rows@[i].path@, c.rows@[i].mtime) == Some(c.rows@[i].plugins@),
        t != c.rows@[i].mtime ==> c.fresh(c.rows@[i].path@, t) is None,
{
    first_is_at(c.rows@, row_is(c.rows@[i].path@), i);
}

/// The tool that is used is one that is there, and no earlier place has one.
pub proof fn present_tools_are_used(present: Seq<bool>, r: Option<&str>, i: int)
    requires
        present.len() == 4,
        tool_found(present, r),
        0 <= i < 4,
    ensures
        present[i] ==> r is Some,
        r is Some ==> exists|k: int|
            0 <= k < 4 && #[trigger] present[k] && r->0@ == DISCOVERY_TOOLS[k]@ && forall|j: int|
                0 <= j < k ==> !#[trigger] present[j],
{
    let k = first(present, is_set());
    first_is_least(present, is_set());
    if k < 4 {
        assert(is_set()(present[k]));
        assert forall|j: int| 0 <= j < k implies !#[trigger] present[j] by {
            assert(!is_set()(present[j]));
        }
    } else if present[i] {
        assert(!is_set()(present[i]));
    }
}

/// What is known of a binary that is still there is kept, and nothing of others;
/// whether any were dropped is said, and with what was probed it decides whether
/// the cache is written.
pub proof fn only_missing_binaries_are_dropped(a: ScanCache, live: Seq<PluginDir>, r: bool, b: ScanCache, i: int)
    requires
        a.pruned(live, r, b),
        0 <= i < a.rows@.len(),
    ensures
        (exists|k: int| 0 <= k < live.len() && (#[trigger] live[k]).path@ == a.rows@[i].path@) <==> b.rows@.contains(
            a.rows@[i],
        ),
        r == (b.rows@.len() != a.rows@.len()),
{
    let f = still_there(live);
    let x = a.rows@[i];
    filter_keeps(a.rows@, f);
    if exists|k: int| 0 <= k < live.len() && (#[trigger] live[k]).path@ == x.path@ {
        assert(f(x));
        crate::list::filter_loses_nothing(a.rows@, f, i);
    }
    if b.rows@.contains(x) {
        let k = choose|k: int| 0 <= k < b.rows@.len() && b.rows@[k] == x;
        assert(f(b.rows@[k]));
    }
}

/// A scan ends with the effects it found and writes its cache exactly when that
/// differs from the one it began with.
pub proof fn changed_caches_are_written(s: Scan, binaries: Seq<PluginDir>, r: Scanned)
    requires
        s.finished(binaries, r),
    ensures
        s.dirty ==> r.write,
        r.cache.rows@.len() != s.cache.rows@.len() ==> r.write,
        r.write ==> s.dirty || r.cache.rows@.len() != s.cache.rows@.len(),
        r.entries@ == ordered(s.found@.filter(is_effect())),
        s.cache.pruned(binaries, r.cache.rows@.len() != s.cache.rows@.len(), r.cache),
{
}

/// What has the same name keeps its order.
pub proof fn equal_names_keep_their_order(s: Seq<VstEntry>, key: Seq<char>)
    ensures
        ordered(s).filter(|e: VstEntry| sort_key(e) == key) == s.filter(|e: VstEntry| sort_key(e) == key),
    decreases s.len(),
{
    let p = |e: VstEntry| sort_key(e) == key;
    if s.len() > 0 {
        let t = ordered(s.drop_last());
        let e = s.last();
        let i = first(t, comes_after(sort_key(e)));
        first_is_least(t, comes_after(sort_key(e)));
        ordering_orders(s.drop_last());
        equal_names_keep_their_order(s.drop_last(), key);
        let a = t.take(i);
        let b = t.skip(i);
        assert(t =~= a + b);
        assert(ordered(s) =~= a + seq![e] + b);
        Seq::filter_distributes_over_add(a, b, p);
        Seq::filter_distributes_over_add(a + seq![e], b, p);
        Seq::filter_distributes_over_add(a, seq![e], p);
        assert(s =~= s.drop_last() + seq![e]);
        Seq::filter_distributes_over_add(s.drop_last(), seq![e], p);
        if p(e) {
            assert forall|k: int| 0 <= k < b.len() implies !p(#[trigger] b[k]) by {
                assert(b[k] == t[i + k]);
                assert(precedes(sort_key(e), sort_key(t[i])));
                text::order_is_total(sort_key(t[i + k]), sort_key(t[i]));
                text::order_is_total(sort_key(e), sort_key(e));
                if k > 0 {
                    assert(!precedes(sort_key(t[i + k]), sort_key(t[i])));
                }
            }
            filter_none(b, p);
            assert(b.filter(p) =~= Seq::empty());
            assert(a.filter(p) + seq![e].filter(p) + b.filter(p) =~= a.filter(p) + b.filter(p) + seq![e].filter(p));
        } else {
            assert forall|k: int| 0 <= k < seq![e].len() implies !p(#[trigger] seq![e][k]) by {}
            filter_none(seq![e], p);
            assert(a.filter(p) + seq![e].filter(p) + b.filter(p) =~= a.filter(p) + b.filter(p) + seq![e].filter(p));
        }
    } else {
        assert(ordered(s) =~= s);
    }
}

/// Filtering by what nothing satisfies leaves nothing.
proof fn filter_none(s: Seq<VstEntry>, p: spec_fn(VstEntry) -> bool)
    requires
        forall|k: int| 0 <= k < s.len() ==> !p(#[trigger] s[k]),
    ensures
        s.filter(p) == Seq::<VstEntry>::empty(),
{
    filter_keeps(s, p);
    if s.filter(p).len() > 0 {
        let x = s.filter(p)[0];
        assert(p(x));
        assert(s.contains(x));
        let k = choose|k: int| 0 <= k < s.len() && s[k] == x;
        assert(!p(s[k]));
    }
    assert(s.filter(p) =~= Seq::<VstEntry>::empty());
}

/// A path below a folder is the folder's, then the name, with one separator.
pub proof fn names_go_below_their_folder(dir: Seq<char>, name: Seq<char>)
    ensures
        text::begins(below(dir, name), dir),
        text::ends(below(dir, name), name),
        dir.len() > 0 && dir.last() != '/' ==> below(dir, name) == dir + "/"@ + name,
        dir.len() > 0 && dir.last() == '/' ==> below(dir, name) == dir + name,
        dir.len() == 0 ==> below(dir, name) == name,
{
    reveal_strlit("/");
    let t = below(dir, name);
    assert(t.subrange(0, dir.len() as int) =~= dir);
    assert(t.subrange(t.len() - name.len(), t.len() as int) =~= name);
}

/// One more item adds a plugin at most.
proof fn items_keep_plugins(r: ReportView, key: Seq<char>, value: Seq<char>, path: Seq<char>, format: VstFormat)
    ensures
        ({
            let x = after_item(r, key, value, path, format).plugins;
            x == r.plugins || x == r.plugins.push(described(r, path, format))
        }),
{
}

/// A plugin that was described stays, whatever follows in the report.
pub proof fn described_plugins_stay(lines: Seq<Seq<char>>, a: int, b: int, path: Seq<char>, format: VstFormat)
    requires
        0 <= a <= b <= lines.len(),
    ensures
        ({
            let x = after_lines(lines, a, path, format).plugins;
            let y = after_lines(lines, b, path, format).plugins;
            x.len() <= y.len() && y.len() <= x.len() + (b - a) && y.take(x.len() as int) == x
        }),
        after_lines(lines, 0, path, format).plugins.len() == 0,
        !after_lines(lines, 0, path, format).in_block,
    decreases b - a,
{
    let x = after_lines(lines, a, path, format).plugins;
    if a < b {
        described_plugins_stay(lines, a, b - 1, path, format);
        let r = after_lines(lines, b - 1, path, format);
        let z = r.plugins;
        let y = after_lines(lines, b, path, format).plugins;
        if let Some((key, value)) = report_item(lines[b - 1]) {
            items_keep_plugins(r, key, value, path, format);
        }
        assert(y.take(x.len() as int) =~= z.take(x.len() as int));
    } else {
        assert(x.take(x.len() as int) =~= x);
    }
}

/// A report is read line by line: each line says what it says after all that came
/// before.
pub proof fn reports_are_read_in_order(lines: Seq<Seq<char>>, n: int, path: Seq<char>, format: VstFormat)
    requires
        0 < n <= lines.len(),
    ensures
        report_item(lines[n - 1]) is None ==> after_lines(lines, n, path, format) == after_lines(
            lines,
            n - 1,
            path,
            format,
        ),
        report_item(lines[n - 1]) is Some ==> after_lines(lines, n, path, format) == after_item(
            after_lines(lines, n - 1, path, format),
            (report_item(lines[n - 1])->0).0,
            (report_item(lines[n - 1])->0).1,
            path,
            format,
        ),
{
}

/// An empty piece behind the first does not count.
proof fn empty_pieces_do_not_count(s: Seq<Seq<char>>, t: Seq<Seq<char>>, k: int)
    requires
        s.len() > 0,
        0 <= k <= t.len(),
    ensures
        path_parts(s + seq![Seq::<char>::empty()] + t, s.len() + 1 + k) == path_parts(s + t, s.len() + k),
    decreases k,
{
    let a = s + seq![Seq::<char>::empty()] + t;
    let b = s + t;
    if k > 0 {
        empty_pieces_do_not_count(s, t, k - 1);
        assert(a[s.len() + k] == t[k - 1]);
        assert(b[s.len() + k - 1] == t[k - 1]);
    } else {
        assert(a[s.len() as int].len() == 0);
        same_pieces_same_parts(a, b, s.len() as int);
    }
}

/// Only the pieces up to a position count up to there.
proof fn same_pieces_same_parts(a: Seq<Seq<char>>, b: Seq<Seq<char>>, n: int)
    requires
        n <= a.len(),
        n <= b.len(),
        forall|i: int| 0 <= i < n ==> a[i] == b[i],
    ensures
        path_parts(a, n) == path_parts(b, n),
    decreases n,
{
    if n > 0 {
        same_pieces_same_parts(a, b, n - 1);
    }
}

/// Doubled and trailing separators do not make another place of a path; starting at
/// the root does.
pub proof fn separators_do_not_count_twice(a: Seq<char>, b: Seq<char>)
    ensures
        same_place(a + "//"@ + b, a + "/"@ + b),
        a.len() > 0 ==> same_place(a + "/"@, a),
        a.len() > 0 && a[0] != '/' ==> !same_place("/"@ + a, a),
        same_place(a, b) ==> (a.len() > 0 && a[0] == '/') == (b.len() > 0 && b[0] == '/'),
{
    reveal_strlit("/");
    reveal_strlit("//");
    let c = seq!['/'];
    let e = Seq::<char>::empty();
    assert("/"@ =~= c);
    assert(a + "//"@ + b =~= a + c + (e + c + b));
    text::splitting_joins_up(a, e + c + b, '/');
    text::splitting_joins_up(e, b, '/');
    text::splitting_joins_up(a, b, '/');
    text::splitting_joins_up(a, e, '/');
    text::splitting_cuts_everywhere(e, e, '/');
    let s = split(a, '/');
    let t = split(b, '/');
    text::splits_into_something(a, '/');
    assert(s + (seq![e] + t) =~= s + seq![e] + t);
    empty_pieces_do_not_count(s, t, t.len() as int);
    assert(a + c + e =~= a + "/"@);
    assert(s + seq![e] + Seq::<Seq<char>>::empty() =~= s + seq![e]);
    assert(s + Seq::<Seq<char>>::empty() =~= s);
    empty_pieces_do_not_count(s, Seq::empty(), 0);
    let x = a + "//"@ + b;
    let y = a + "/"@ + b;
    if a.len() > 0 {
        assert(x[0] == a[0] && y[0] == a[0]);
        assert((a + "/"@)[0] == a[0]);
    } else {
        assert(x[0] == '/' && y[0] == '/');
    }
    assert(("/"@ + a)[0] == '/');
}

/// Binaries are listed by path; of one path, VST2 comes before VST3.
pub proof fn binaries_are_ordered(a: DirView, b: DirView)
    ensures
        precedes(a.path, b.path) ==> dir_precedes(a, b),
        a.path == b.path ==> (dir_precedes(a, b) <==> a.format == VstFormat::Vst2 && b.format == VstFormat::Vst3),
        precedes(b.path, a.path) ==> !dir_precedes(a, b),
{
    text::order_is_total(a.path, b.path);
    text::order_is_total(a.path, a.path);
}

/// Hosting takes the discovery tool, Carla's backend and python3, wherever the
/// first two are.
pub proof fn hosting_takes_all_three(tools: Seq<bool>, backends: Seq<bool>, python: bool, r: bool, i: int, k: int)
    requires
        tools.len() == 4,
        backends.len() == 2,
        hosting_works(tools, backends, python, r),
        0 <= i < 4,
        0 <= k < 2,
    ensures
        tools[i] && backends[k] && python ==> r,
        r ==> python,
        r ==> exists|j: int| 0 <= j < 4 && #[trigger] tools[j],
        r ==> exists|j: int| 0 <= j < 2 && #[trigger] backends[j],
{
    first_is_least(tools, is_set());
    let j = first(tools, is_set());
    if j < 4 {
        assert(is_set()(tools[j]));
        assert(tools[j]);
    } else {
        assert(!is_set()(tools[i]));
    }
    if backends[k] {
        assert(backends.contains(backends[k]));
    }
    if r {
        let b = choose|b: int| 0 <= b < backends.len() && backends[b] == true;
        assert(backends[b]);
    }
}

/// A plugin's line names it, with its format and where it is.
pub proof fn plugins_are_listed_in_full(e: VstEntry, r: Seq<char>)
    requires
        e.listed_as(r),
    ensures
        text::begins(r, e.name@ + " ["@ + e.format.key() + "] "@ + e.path@),
        e.label@.len() > 0 ==> text::ends(r, " ("@ + e.label@ + ")"@),
        e.label@.len() == 0 ==> r == e.name@ + " ["@ + e.format.key() + "] "@ + e.path@,
{
    let a = e.name@ + " ["@ + e.format.key() + "] "@ + e.path@;
    let b = " ("@ + e.label@ + ")"@;
    if e.label@.len() > 0 {
        assert(r =~= a + b);
        assert(r.subrange(0, a.len() as int) =~= a);
        assert(r.subrange(r.len() - b.len(), r.len() as int) =~= b);
    } else {
        assert(r =~= a);
        assert(r.subrange(0, a.len() as int) =~= a);
    }
}

/// A plugin's unique id is the signed number that the report writes; what is no
/// number counts as zero.
pub proof fn unique_ids_are_read(r: ReportView, n: int, path: Seq<char>, format: VstFormat)
    requires
        -0x8000_0000_0000_0000 <= n <= 0x7fff_ffff_ffff_ffff,
    ensures
        r.unique_id == Some(text::dec_signed(n)) ==> described(r, path, format).unique_id == n,
        r.unique_id is Some && text::parsed_signed(r.unique_id->0) is None ==> described(r, path, format).unique_id
            == 0,
{
    text::signed_numbers_are_read_back(n);
}

} // verus!
