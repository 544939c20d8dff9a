use grate_rs::context::GrateContext;
use grate_rs::sockaddr::{translate_sockaddr_in, untranslate_sockaddr};

fn bytes(s: &str) -> Vec<u8> {
    s.as_bytes().to_vec()
}

fn unix_addr(path: &str) -> Vec<u8> {
    let mut b = vec![1u8, 0u8];
    b.extend_from_slice(path.as_bytes());
    b.push(0);
    b
}

#[test]
fn inbound_jails_unix_path() {
    // Path `/tmp/x` under root `/root` yields host path `/root/tmp/x`.
    let ctx = GrateContext::new(&bytes("/root"));
    let r = translate_sockaddr_in(&ctx, 1, &unix_addr("/tmp/x"));
    assert_eq!(r, unix_addr("/root/tmp/x"));
    assert_eq!(r.len(), 2 + "/root/tmp/x".len() + 1);
}

#[test]
fn inbound_relative_path_uses_tracked_cwd() {
    let mut ctx = GrateContext::new(&bytes("/root"));
    ctx.cwds.set(3, bytes("/d"));
    let r = translate_sockaddr_in(&ctx, 3, &unix_addr("sock"));
    assert_eq!(r, unix_addr("/root/d/sock"));
}

#[test]
fn inbound_other_family_unchanged() {
    let ctx = GrateContext::new(&bytes("/root"));
    let addr = vec![2u8, 0u8, 10, 20, 30, 40];
    assert_eq!(translate_sockaddr_in(&ctx, 1, &addr), addr);
}

#[test]
fn inbound_bare_tag_unchanged() {
    let ctx = GrateContext::new(&bytes("/root"));
    let addr = vec![1u8, 0u8];
    assert_eq!(translate_sockaddr_in(&ctx, 1, &addr), addr);
}

#[test]
fn outbound_strips_jail_prefix() {
    // Reversing an address whose path is `/root/tmp/x` under root `/root`
    // yields `/tmp/x`.
    let root = bytes("/root");
    let mut buf = unix_addr("/root/tmp/x");
    untranslate_sockaddr(&root, &mut buf);
    assert_eq!(&buf[0..2], &[1u8, 0u8]);
    let path: Vec<u8> = buf[2..].iter().cloned().take_while(|&b| b != 0).collect();
    assert_eq!(path, bytes("/tmp/x"));
    // In-place rewrite keeps the buffer length.
    assert_eq!(buf.len(), 2 + "/root/tmp/x".len() + 1);
}

#[test]
fn outbound_other_family_byte_for_byte_unchanged() {
    let root = bytes("/root");
    let original = vec![2u8, 0u8, 9, 9, 9];
    let mut buf = original.clone();
    untranslate_sockaddr(&root, &mut buf);
    assert_eq!(buf, original);
}

#[test]
fn outbound_path_outside_jail_kept() {
    let root = bytes("/root");
    let mut buf = unix_addr("/other/sock");
    let original = buf.clone();
    untranslate_sockaddr(&root, &mut buf);
    assert_eq!(buf, original);
}

#[test]
fn outbound_truncates_to_capacity_and_terminates() {
    // Capacity of the path field is one byte: nothing of the virtual path
    // fits, but the terminator is still written within bounds.
    let root = bytes("/r");
    let mut buf = vec![1u8, 0u8, b'x'];
    untranslate_sockaddr(&root, &mut buf);
    assert_eq!(buf, vec![1u8, 0u8, 0u8]);
}
