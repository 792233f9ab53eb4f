use std::path::Path;

use gleem_crossfade::text;
use gleem_crossfade::vst::{
    available, candidates, carla_backend_present, discover, discovery_tool, existing_dirs, is_candidate,
    name_from_path, plugin_dirs, same_path, scan_result, CacheRow, DirEntry, FileEntry, PluginDir, Scan,
    ScanCache, VstEntry, VstFormat, CARLA_BACKENDS, DISCOVERY_TOOLS,
};

fn dir(path: &str, format: VstFormat) -> PluginDir {
    PluginDir { path: path.to_string(), format }
}

fn entry(name: &str, ins: u32, outs: u32) -> VstEntry {
    VstEntry {
        path: format!("/{name}"),
        format: VstFormat::Vst2,
        label: String::new(),
        unique_id: 0,
        name: name.to_string(),
        audio_ins: ins,
        audio_outs: outs,
    }
}

#[test]
fn formats_are_named() {
    assert_eq!((VstFormat::Vst2.as_str(), VstFormat::Vst3.as_str()), ("vst2", "vst3"));
}

#[test]
fn the_first_discovery_tool_counts() {
    assert_eq!(discovery_tool(&vec![false, true, false, true]), Some(DISCOVERY_TOOLS[1]));
    assert_eq!(discovery_tool(&vec![false; 4]), None);
    assert_eq!(CARLA_BACKENDS.len(), 2);
    assert!(carla_backend_present(&vec![false, true]) && !carla_backend_present(&vec![false, false]));
    assert!(available(&vec![true; 4], &vec![true, false], true));
    assert!(!available(&vec![true; 4], &vec![true, false], false));
    assert!(!available(&vec![false; 4], &vec![true, false], true));
}

#[test]
fn folders_are_searched_in_order() {
    let dirs = plugin_dirs(Some("/a::/b/"), None, "/home/u");
    let paths: Vec<&str> = dirs.iter().map(|d| d.path.as_str()).collect();
    assert_eq!(&paths[..6], ["/a", "/b/", "/home/u/vst", "/home/u/.vst", "/home/u/.lxvst", "/home/u/.vst3"]);
    assert_eq!(paths[6], "/usr/lib64/vst");
    assert_eq!(dirs.len(), 18);
    assert_eq!(plugin_dirs(None, Some("/x"), "/")[0], dir("/x", VstFormat::Vst3));
    assert_eq!(plugin_dirs(None, None, "/")[0].path, "/vst");
}

#[test]
fn folders_are_searched_once() {
    let dirs = vec![
        dir("/a", VstFormat::Vst2),
        dir("/a/", VstFormat::Vst2),
        dir("/a", VstFormat::Vst3),
        dir("/gone", VstFormat::Vst2),
    ];
    let kept = existing_dirs(dirs, &vec![true, true, true, false]);
    assert_eq!(kept, [dir("/a", VstFormat::Vst2), dir("/a", VstFormat::Vst3)]);
}

#[test]
fn paths_compare_as_std_compares_them() {
    let all = ["/a", "/a/", "//a", "/a/.", "/./a", "a", "./a", "a/./b", "a/b", "..", "../a", "/", "", ".", "a/..", "/a/b"];
    for x in all {
        for y in all {
            assert_eq!(same_path(x, y), Path::new(x) == Path::new(y), "{x} {y}");
        }
    }
}

#[test]
fn names_come_from_paths_as_std_gives_them() {
    for p in ["/x/Foo.so", "/x/a.b.vst3", ".hidden", "/x/.hidden.so", "noext", "/x/..", "/", "", "a/.", "x."] {
        let std_name = Path::new(p).file_stem().map(|s| s.to_string_lossy().to_string()).unwrap_or(p.to_string());
        assert_eq!(name_from_path(p), std_name, "{p}");
    }
}

#[test]
fn binaries_are_collected() {
    assert!(is_candidate("x.so", VstFormat::Vst2) && !is_candidate("x.vst3", VstFormat::Vst2));
    let file = |p: &str, n: &str| FileEntry { path: p.to_string(), name: n.to_string() };
    let e = |p: &str, n: &str, format: VstFormat, files: Vec<FileEntry>| DirEntry {
        path: p.to_string(),
        name: n.to_string(),
        format,
        files,
    };
    let found = candidates(&vec![
        e("/v/z.so", "z.so", VstFormat::Vst2, vec![]),
        e("/v/vendor", "vendor", VstFormat::Vst2, vec![file("/v/vendor/a.so", "a.so"), file("/v/vendor/r.txt", "r.txt")]),
        e("/v/b.vst3", "b.vst3", VstFormat::Vst3, vec![file("/v/b.vst3/c.vst3", "c.vst3")]),
        e("/v/z.so", "z.so", VstFormat::Vst2, vec![]),
    ]);
    assert_eq!(
        found,
        [dir("/v/b.vst3", VstFormat::Vst3), dir("/v/vendor/a.so", VstFormat::Vst2), dir("/v/z.so", VstFormat::Vst2)]
    );
}

const REPORT: &str = "noise
carla-discovery::init::-----------
  carla-discovery::name::My::Plugin
carla-discovery::label::lbl\r
carla-discovery::uniqueId::-42
carla-discovery::audio.ins::+2
carla-discovery::audio.outs::x
carla-discovery::other::1
carla-discovery::end::------------
carla-discovery::end::------------
carla-discovery::init::
carla-discovery::uniqueId::9223372036854775808
carla-discovery::audio.ins::4294967296
carla-discovery::end::";

#[test]
fn reports_are_read() {
    let v = discover(REPORT, "/p/Foo.so", VstFormat::Vst2);
    assert_eq!(v.len(), 2);
    assert_eq!((v[0].name.as_str(), v[0].label.as_str(), v[0].unique_id), ("My::Plugin", "lbl", -42));
    assert_eq!((v[0].audio_ins, v[0].audio_outs), (2, 0));
    assert_eq!((v[1].name.as_str(), v[1].unique_id, v[1].audio_ins), ("Foo", 0, 0));
    assert!(discover("carla-discovery::end::", "/p", VstFormat::Vst2).is_empty());
}

#[test]
fn the_cache_knows_what_changed() {
    let mut c = ScanCache { rows: vec![] };
    assert_eq!(c.lookup("/a", 5), None);
    c.store("/a", 5, vec![entry("a", 2, 2)]);
    c.store("/b", 6, vec![]);
    assert_eq!(c.lookup("/a", 5), Some(vec![entry("a", 2, 2)]));
    assert_eq!(c.lookup("/a", 6), None);
    c.store("/a", 6, vec![]);
    assert_eq!(c.lookup("/a", 6), Some(vec![]));
    assert!(!c.prune(&vec![dir("/a", VstFormat::Vst2), dir("/b", VstFormat::Vst2)]));
    assert!(c.prune(&vec![dir("/b", VstFormat::Vst2)]));
    assert_eq!(c.rows.len(), 1);
    assert_eq!(c.lookup("/a", 6), None);
    assert_eq!(c.lookup("/b", 6), Some(vec![]));
}

#[test]
fn only_new_or_changed_binaries_are_probed() {
    let binaries = vec![dir("/a.so", VstFormat::Vst2), dir("/b.so", VstFormat::Vst2)];
    let cache = ScanCache {
        rows: vec![
            CacheRow { path: "/a.so".to_string(), mtime: 1, plugins: vec![entry("zeta", 2, 2)] },
            CacheRow { path: "/gone.so".to_string(), mtime: 1, plugins: vec![] },
        ],
    };
    let mut scan = Scan::new(cache);
    assert!(!scan.must_probe("/a.so", 1));
    assert!(scan.must_probe("/a.so", 2));
    assert!(scan.must_probe("/b.so", 7));
    scan.take_binary("/a.so", 1, None);
    assert!(!scan.dirty);
    scan.take_binary("/b.so", 7, Some(vec![entry("Alpha", 1, 1), entry("synth", 0, 2)]));
    assert!(scan.dirty);
    let done = scan.finish(&binaries);
    assert_eq!(done.entries, [entry("Alpha", 1, 1), entry("zeta", 2, 2)]);
    assert!(done.write);
    assert_eq!(done.cache.rows.len(), 2);
    assert_eq!(done.cache.lookup("/b.so", 7).unwrap().len(), 2);

    let mut again = Scan::new(done.cache.clone());
    for (path, mtime) in [("/a.so", 1), ("/b.so", 7)] {
        assert!(!again.must_probe(path, mtime));
        again.take_binary(path, mtime, None);
    }
    let second = again.finish(&binaries);
    assert_eq!(second.entries, done.entries);
    assert_eq!(second.cache, done.cache);
    assert!(!second.write);

    let mut cold = Scan::new(done.cache);
    cold.take_binary("/a.so", 1, Some(vec![]));
    assert_eq!(cold.found, [entry("zeta", 2, 2)]);
    assert!(cold.finish(&vec![dir("/a.so", VstFormat::Vst2)]).write);
}

#[test]
fn results_are_effects_ordered_by_name() {
    let v = scan_result(vec![
        entry("beta", 2, 2),
        entry("Äx", 1, 1),
        entry("ALPHA", 1, 2),
        entry("synth", 0, 2),
        entry("big", 3, 2),
        entry("Beta", 2, 2),
        entry("äa", 2, 2),
    ]);
    let names: Vec<&str> = v.iter().map(|e| e.name.as_str()).collect();
    assert_eq!(names, ["ALPHA", "beta", "Beta", "äa", "Äx"]);
}

#[test]
fn texts_are_handled_as_std_handles_them() {
    let all = ["", " ", "a", "\u{a0}x\u{2003}", "\u{200b}y", "héllo wörld", "a::b::c", "::", "\u{85}z\u{3000}"];
    for x in all {
        assert_eq!(text::trimmed(x), x.trim(), "{x:?}");
        assert_eq!(text::is_blank(x), x.trim().is_empty());
        assert_eq!(text::lowered(x), x.to_ascii_lowercase());
        for y in all {
            assert_eq!(text::contains(x, y), x.contains(y));
            assert_eq!(text::starts_with(x, y), x.starts_with(y));
            assert_eq!(text::ends_with(x, y), x.ends_with(y));
            assert_eq!(text::less(x, y), x < y);
            assert_eq!(text::same(x, y), x == y);
        }
        assert_eq!(text::split_once(x, "::"), x.split_once("::").map(|(a, b)| (a.to_string(), b.to_string())));
        assert_eq!(text::split_at(x, ':'), x.split(':').collect::<Vec<_>>());
    }
    for c in (0..0x11000u32).filter_map(char::from_u32) {
        assert_eq!(text::white(c), c.is_whitespace(), "{c:?}");
    }
}

#[test]
fn numbers_are_read_and_written_as_std_does() {
    for n in [0, 7, 10, 99, 100, 12345678901234567890, u64::MAX] {
        assert_eq!(text::decimal(n), n.to_string());
    }
    for n in [i64::MIN, -1, 0, 42, i64::MAX] {
        let mut s = String::new();
        text::push_signed(&mut s, n);
        assert_eq!(s, n.to_string());
    }
    let all = [
        "", "+", "-", "0", "-0", "+5", "++5", "-7", "007", "4294967295", "4294967296", "1_0", " 1", "٣",
        "9223372036854775807", "9223372036854775808", "-9223372036854775808", "-9223372036854775809",
        "99999999999999999999999999",
    ];
    for s in all {
        assert_eq!(text::parse_u32(s), s.parse::<u32>().ok(), "{s}");
        assert_eq!(text::parse_i64(s), s.parse::<i64>().ok(), "{s}");
    }
}
