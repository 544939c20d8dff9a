use grate_rs::context::GrateContext;
use grate_rs::paths::{
    clip_at_nul, copy_range, normalize_path, starts_with_bytes, to_host, to_virtual,
    trim_trailing_slashes,
};

fn bytes(s: &str) -> Vec<u8> {
    s.as_bytes().to_vec()
}

#[test]
fn normalize_absolute_passthrough() {
    assert_eq!(normalize_path(&bytes("/a/b/c"), &bytes("/ignored")), bytes("/a/b/c"));
}

#[test]
fn normalize_drops_empty_and_dot_segments() {
    assert_eq!(normalize_path(&bytes("/a/./b//c/"), &bytes("/")), bytes("/a/b/c"));
    assert_eq!(normalize_path(&bytes("//"), &bytes("/")), bytes("/"));
    assert_eq!(normalize_path(&bytes("/."), &bytes("/")), bytes("/"));
}

#[test]
fn normalize_resolves_dotdot() {
    assert_eq!(normalize_path(&bytes("/a/b/../c"), &bytes("/")), bytes("/a/c"));
    assert_eq!(normalize_path(&bytes("/a/b/c/../.."), &bytes("/")), bytes("/a"));
}

#[test]
fn normalize_relative_uses_cwd() {
    assert_eq!(normalize_path(&bytes("x/y"), &bytes("/home/u")), bytes("/home/u/x/y"));
    assert_eq!(normalize_path(&bytes("../y"), &bytes("/home/u")), bytes("/home/y"));
    assert_eq!(normalize_path(&bytes(""), &bytes("/home/u")), bytes("/home/u"));
    assert_eq!(normalize_path(&bytes("."), &bytes("/home/u/")), bytes("/home/u"));
}

#[test]
fn normalize_result_always_absolute_and_clean() {
    let cases: &[(&str, &str)] = &[
        ("", ""),
        ("..", "/"),
        ("a/../../b", "/c"),
        ("/x/./../.", "/y/z"),
        ("...", "/"),
        ("..a/b", "/"),
    ];
    for (p, c) in cases {
        let r = normalize_path(&bytes(p), &bytes(c));
        assert!(!r.is_empty());
        assert_eq!(r[0], b'/');
        let s = String::from_utf8(r.clone()).unwrap();
        if s != "/" {
            for seg in s[1..].split('/') {
                assert!(!seg.is_empty());
                assert_ne!(seg, ".");
                assert_ne!(seg, "..");
            }
        }
    }
}

#[test]
fn normalize_is_idempotent() {
    let cases: &[(&str, &str)] = &[
        ("a/../b/./c//", "/w/v"),
        ("../../etc/passwd", "/a/b"),
        ("/..//x/.", "/q"),
    ];
    for (p, c) in cases {
        let once = normalize_path(&bytes(p), &bytes(c));
        let twice = normalize_path(&once, &bytes(c));
        assert_eq!(once, twice);
    }
}

#[test]
fn popping_past_root_is_absorbed() {
    assert_eq!(normalize_path(&bytes("../../.."), &bytes("/")), bytes("/"));
    assert_eq!(normalize_path(&bytes("/.."), &bytes("/")), bytes("/"));
    assert_eq!(normalize_path(&bytes("../../etc"), &bytes("/")), bytes("/etc"));
    // A deep escape attempt still begins with `/` and keeps only real segments.
    assert_eq!(normalize_path(&bytes("../../../../../x"), &bytes("/a")), bytes("/x"));
}

#[test]
fn host_virtual_roundtrip() {
    let root = bytes("/root");
    let p = bytes("/tmp/x");
    let h = to_host(&root, &p);
    assert_eq!(h, bytes("/root/tmp/x"));
    assert_eq!(to_virtual(&root, &h), p);
}

#[test]
fn to_virtual_empty_remainder_becomes_root() {
    let root = bytes("/root");
    assert_eq!(to_virtual(&root, &bytes("/root")), bytes("/"));
}

#[test]
fn to_virtual_outside_jail_passes_through() {
    let root = bytes("/root");
    assert_eq!(to_virtual(&root, &bytes("/elsewhere/f")), bytes("/elsewhere/f"));
}

#[test]
fn trim_trailing_slashes_only_at_end() {
    assert_eq!(trim_trailing_slashes(&bytes("/root///")), bytes("/root"));
    assert_eq!(trim_trailing_slashes(&bytes("/root")), bytes("/root"));
    assert_eq!(trim_trailing_slashes(&bytes("/")), bytes(""));
    assert_eq!(trim_trailing_slashes(&bytes("/a/b/")), bytes("/a/b"));
}

#[test]
fn clip_stops_at_first_terminator() {
    assert_eq!(clip_at_nul(&vec![b'a', b'b', 0, b'c']), bytes("ab"));
    assert_eq!(clip_at_nul(&bytes("abc")), bytes("abc"));
    assert_eq!(clip_at_nul(&vec![0, b'x']), bytes(""));
    assert_eq!(clip_at_nul(&Vec::new()), bytes(""));
}

#[test]
fn prefix_and_copy_helpers() {
    assert!(starts_with_bytes(&bytes("/root/x"), &bytes("/root")));
    assert!(!starts_with_bytes(&bytes("/roo"), &bytes("/root")));
    assert!(starts_with_bytes(&bytes("anything"), &bytes("")));
    assert_eq!(copy_range(&bytes("abcdef"), 1, 4), bytes("bcd"));
}

#[test]
fn escape_attempt_is_absorbed_into_jail() {
    // Root `/sandbox`, tracked cwd `/a/b`, request `../../etc/passwd`.
    let mut ctx = GrateContext::new(&bytes("/sandbox"));
    ctx.cwds.set(7, bytes("/a/b"));
    let norm = normalize_path(&bytes("../../etc/passwd"), &bytes("/a/b"));
    assert_eq!(norm, bytes("/etc/passwd"));
    let host = ctx.chroot_path(&bytes("../../etc/passwd"), 7);
    assert_eq!(host, bytes("/sandbox/etc/passwd"));
}

#[test]
fn context_trims_configured_root() {
    let ctx = GrateContext::new(&bytes("/jail/"));
    assert_eq!(ctx.root, bytes("/jail"));
    // A cage with no entry resolves under the default cwd `/`.
    assert_eq!(ctx.chroot_path(&bytes("f"), 1), bytes("/jail/f"));
}
