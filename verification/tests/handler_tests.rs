use grate_rs::context::GrateContext;
use grate_rs::errors::{EFAULT, ENOSYS, EPERM, ERANGE};
use grate_rs::handlers::{
    handle_at_path_call, handle_chdir_call, handle_chroot_call, handle_fchdir_call,
    handle_fork_call, handle_getcwd_call, handle_path_call, handle_readlink_call,
    handle_sendto_call, handle_sockaddr_in_call, handle_sockaddr_out_call,
};
use grate_rs::runtime::{ArgSlot, CageRuntime, CallFrame, AT_FDCWD};

fn bytes(s: &str) -> Vec<u8> {
    s.as_bytes().to_vec()
}

fn cstr(s: &str) -> Vec<u8> {
    let mut b = s.as_bytes().to_vec();
    b.push(0);
    b
}

struct MockRuntime {
    id: u64,
    mem: Vec<(u64, u64, Vec<u8>)>,
    relay_result: i32,
    output_ret: i32,
    output: Vec<u8>,
    frames: Vec<CallFrame>,
    writes: Vec<(u64, u64, Vec<u8>)>,
    fail_writes: bool,
}

impl MockRuntime {
    fn new() -> Self {
        MockRuntime {
            id: 100,
            mem: Vec::new(),
            relay_result: 0,
            output_ret: 0,
            output: Vec::new(),
            frames: Vec::new(),
            writes: Vec::new(),
            fail_writes: false,
        }
    }

    fn host_path_of(&self, frame_idx: usize, slot: usize) -> Vec<u8> {
        match &self.frames[frame_idx].args[slot] {
            ArgSlot::HostPath { bytes } => bytes.clone(),
            _ => panic!("slot {} is not a host path", slot),
        }
    }
}

impl CageRuntime for MockRuntime {
    fn current_id(&self) -> u64 {
        self.id
    }

    fn read_bytes(&mut self, cage: u64, addr: u64, len: usize) -> Option<Vec<u8>> {
        for (c, base, content) in &self.mem {
            if *c == cage && *base == addr {
                let mut v = content.clone();
                v.resize(len, 0);
                return Some(v);
            }
        }
        None
    }

    fn write_bytes(&mut self, cage: u64, addr: u64, data: &Vec<u8>) -> bool {
        if self.fail_writes {
            return false;
        }
        self.writes.push((cage, addr, data.clone()));
        true
    }

    fn relay(&mut self, frame: &CallFrame) -> i32 {
        self.frames.push(frame.clone());
        self.relay_result
    }

    fn relay_with_output(&mut self, frame: &CallFrame) -> (i32, Vec<u8>) {
        self.frames.push(frame.clone());
        (self.output_ret, self.output.clone())
    }
}

fn six(a: u64, b: u64, c: u64, d: u64, e: u64, f: u64) -> Vec<u64> {
    vec![a, b, c, d, e, f]
}

fn roles(p: [bool; 6]) -> Vec<bool> {
    p.to_vec()
}

#[test]
fn open_escape_attempt_is_jailed() {
    // Root `/sandbox`, tracked cwd `/a/b`, open of `../../etc/passwd`.
    let mut rt = MockRuntime::new();
    rt.mem.push((5, 1000, cstr("../../etc/passwd")));
    rt.relay_result = 3;
    let mut ctx = GrateContext::new(&bytes("/sandbox"));
    ctx.cwds.set(5, bytes("/a/b"));
    let vals = six(1000, 0, 0, 0, 0, 0);
    let owners = six(5, 5, 5, 0, 0, 0);
    let is_path = roles([true, false, false, false, false, false]);
    let r = handle_path_call(&mut rt, &ctx, 5, 2, &vals, &owners, &is_path);
    assert_eq!(r, 3);
    assert_eq!(rt.frames.len(), 1);
    assert_eq!(rt.frames[0].call_nr, 2);
    assert_eq!(rt.frames[0].caller, 5);
    assert_eq!(rt.host_path_of(0, 0), bytes("/sandbox/etc/passwd"));
    match rt.frames[0].args[1] {
        ArgSlot::Val { v, owner } => {
            assert_eq!(v, 0);
            assert_eq!(owner, 5);
        },
        _ => panic!("slot 1 should pass through"),
    }
}

#[test]
fn two_path_call_jails_both() {
    let mut rt = MockRuntime::new();
    rt.mem.push((5, 1000, cstr("old")));
    rt.mem.push((5, 2000, cstr("new")));
    let ctx = GrateContext::new(&bytes("/jail"));
    let vals = six(1000, 2000, 0, 0, 0, 0);
    let owners = six(5, 5, 0, 0, 0, 0);
    let is_path = roles([true, true, false, false, false, false]);
    let r = handle_path_call(&mut rt, &ctx, 5, 82, &vals, &owners, &is_path);
    assert_eq!(r, 0);
    assert_eq!(rt.host_path_of(0, 0), bytes("/jail/old"));
    assert_eq!(rt.host_path_of(0, 1), bytes("/jail/new"));
}

#[test]
fn unreadable_path_is_a_fault() {
    let mut rt = MockRuntime::new();
    let ctx = GrateContext::new(&bytes("/jail"));
    let vals = six(1000, 0, 0, 0, 0, 0);
    let owners = six(5, 5, 0, 0, 0, 0);
    let is_path = roles([true, false, false, false, false, false]);
    let r = handle_path_call(&mut rt, &ctx, 5, 2, &vals, &owners, &is_path);
    assert_eq!(r, EFAULT);
    assert!(rt.frames.is_empty());
}

#[test]
fn at_call_with_absolute_path_forces_sentinel() {
    let mut rt = MockRuntime::new();
    rt.mem.push((5, 1000, cstr("/f")));
    let ctx = GrateContext::new(&bytes("/jail"));
    let vals = six(33, 1000, 0, 0, 0, 0);
    let owners = six(5, 5, 5, 0, 0, 0);
    let r = handle_at_path_call(&mut rt, &ctx, 5, 263, &vals, &owners);
    assert_eq!(r, 0);
    match rt.frames[0].args[0] {
        ArgSlot::Val { v, .. } => assert_eq!(v, AT_FDCWD as u64),
        _ => panic!("descriptor slot"),
    }
    assert_eq!(rt.host_path_of(0, 1), bytes("/jail/f"));
}

#[test]
fn at_call_relative_to_open_descriptor_passes_through() {
    let mut rt = MockRuntime::new();
    rt.mem.push((5, 1000, cstr("rel/f")));
    let ctx = GrateContext::new(&bytes("/jail"));
    let vals = six(33, 1000, 0, 0, 0, 0);
    let owners = six(5, 5, 5, 0, 0, 0);
    let r = handle_at_path_call(&mut rt, &ctx, 5, 263, &vals, &owners);
    assert_eq!(r, 0);
    match rt.frames[0].args[0] {
        ArgSlot::Val { v, .. } => assert_eq!(v, 33),
        _ => panic!("descriptor slot"),
    }
    assert_eq!(rt.host_path_of(0, 1), bytes("rel/f"));
}

#[test]
fn at_call_sentinel_descriptor_jails_relative_path() {
    let mut rt = MockRuntime::new();
    rt.mem.push((5, 1000, cstr("rel/f")));
    let ctx = GrateContext::new(&bytes("/jail"));
    let vals = six(AT_FDCWD as u64, 1000, 0, 0, 0, 0);
    let owners = six(5, 5, 5, 0, 0, 0);
    let r = handle_at_path_call(&mut rt, &ctx, 5, 263, &vals, &owners);
    assert_eq!(r, 0);
    assert_eq!(rt.host_path_of(0, 1), bytes("/jail/rel/f"));
}

#[test]
fn getcwd_small_buffer_is_range_error_and_writes_nothing() {
    // Destination of 3 bytes, tracked cwd `/home` (6 bytes with terminator).
    let mut rt = MockRuntime::new();
    let mut ctx = GrateContext::new(&bytes("/jail"));
    ctx.cwds.set(5, bytes("/home"));
    let vals = six(9000, 3, 0, 0, 0, 0);
    let owners = six(5, 5, 0, 0, 0, 0);
    let r = handle_getcwd_call(&mut rt, &ctx, 5, &vals, &owners);
    assert_eq!(r, ERANGE);
    assert!(rt.writes.is_empty());
}

#[test]
fn getcwd_returns_tracked_virtual_directory() {
    let mut rt = MockRuntime::new();
    let mut ctx = GrateContext::new(&bytes("/jail"));
    ctx.cwds.set(5, bytes("/home"));
    let vals = six(9000, 6, 0, 0, 0, 0);
    let owners = six(5, 5, 0, 0, 0, 0);
    let r = handle_getcwd_call(&mut rt, &ctx, 5, &vals, &owners);
    assert_eq!(r, 9000);
    assert_eq!(rt.writes.len(), 1);
    assert_eq!(rt.writes[0].0, 5);
    assert_eq!(rt.writes[0].1, 9000);
    assert_eq!(rt.writes[0].2, cstr("/home"));
}

#[test]
fn getcwd_failed_write_back_is_a_fault() {
    let mut rt = MockRuntime::new();
    rt.fail_writes = true;
    let ctx = GrateContext::new(&bytes("/jail"));
    let vals = six(9000, 64, 0, 0, 0, 0);
    let owners = six(5, 5, 0, 0, 0, 0);
    let r = handle_getcwd_call(&mut rt, &ctx, 5, &vals, &owners);
    assert_eq!(r, EFAULT);
}

#[test]
fn chdir_tracks_normalized_target_without_real_call() {
    let mut rt = MockRuntime::new();
    rt.mem.push((5, 1000, cstr("docs/../work")));
    let mut ctx = GrateContext::new(&bytes("/jail"));
    ctx.cwds.set(5, bytes("/home"));
    let vals = six(1000, 0, 0, 0, 0, 0);
    let owners = six(5, 5, 0, 0, 0, 0);
    let r = handle_chdir_call(&mut rt, &mut ctx, 5, &vals, &owners);
    assert_eq!(r, 0);
    // No real call was relayed.
    assert!(rt.frames.is_empty());
    assert_eq!(ctx.cwds.get(5), bytes("/home/work"));
    // Reading it back yields the normalized target, never the host's cwd.
    let vals2 = six(9000, 64, 0, 0, 0, 0);
    let r2 = handle_getcwd_call(&mut rt, &ctx, 5, &vals2, &owners);
    assert_eq!(r2, 9000);
    assert_eq!(rt.writes[0].2, cstr("/home/work"));
}

#[test]
fn chdir_unreadable_path_leaves_table_untouched() {
    let mut rt = MockRuntime::new();
    let mut ctx = GrateContext::new(&bytes("/jail"));
    let vals = six(1000, 0, 0, 0, 0, 0);
    let owners = six(5, 5, 0, 0, 0, 0);
    let r = handle_chdir_call(&mut rt, &mut ctx, 5, &vals, &owners);
    assert_eq!(r, EFAULT);
    assert_eq!(ctx.cwds.get(5), bytes("/"));
}

#[test]
fn fork_inherits_cwd_to_child() {
    let mut rt = MockRuntime::new();
    rt.relay_result = 9;
    let mut ctx = GrateContext::new(&bytes("/jail"));
    ctx.cwds.set(5, bytes("/deep/dir"));
    let vals = six(0, 0, 0, 0, 0, 0);
    let owners = six(5, 0, 0, 0, 0, 0);
    let r = handle_fork_call(&mut rt, &mut ctx, 5, 57, &vals, &owners);
    assert_eq!(r, 9);
    assert_eq!(ctx.cwds.get(9), bytes("/deep/dir"));
    // The parent changing directory later does not move the child.
    ctx.cwds.set(5, bytes("/elsewhere"));
    assert_eq!(ctx.cwds.get(9), bytes("/deep/dir"));
}

#[test]
fn failed_fork_leaves_table_untouched() {
    let mut rt = MockRuntime::new();
    rt.relay_result = -11;
    let mut ctx = GrateContext::new(&bytes("/jail"));
    let vals = six(0, 0, 0, 0, 0, 0);
    let owners = six(5, 0, 0, 0, 0, 0);
    let r = handle_fork_call(&mut rt, &mut ctx, 5, 57, &vals, &owners);
    assert_eq!(r, -11);
    assert_eq!(ctx.cwds.get(5), bytes("/"));
}

#[test]
fn rejail_request_always_denied() {
    assert_eq!(handle_chroot_call(), EPERM);
    assert_eq!(handle_chroot_call(), -1);
}

#[test]
fn fd_relative_directory_change_unsupported() {
    assert_eq!(handle_fchdir_call(), ENOSYS);
    assert_eq!(handle_fchdir_call(), -38);
}

#[test]
fn bind_rewrites_unix_address_and_length() {
    let mut rt = MockRuntime::new();
    let mut addr = vec![1u8, 0u8];
    addr.extend_from_slice(b"/tmp/x");
    addr.push(0);
    let addrlen = addr.len() as u64;
    rt.mem.push((5, 4000, addr));
    let ctx = GrateContext::new(&bytes("/root"));
    let vals = six(3, 4000, addrlen, 0, 0, 0);
    let owners = six(5, 5, 5, 0, 0, 0);
    let r = handle_sockaddr_in_call(&mut rt, &ctx, 5, 49, &vals, &owners);
    assert_eq!(r, 0);
    let expected: Vec<u8> = {
        let mut v = vec![1u8, 0u8];
        v.extend_from_slice(b"/root/tmp/x");
        v.push(0);
        v
    };
    match &rt.frames[0].args[1] {
        ArgSlot::Buf { bytes } => assert_eq!(bytes, &expected),
        _ => panic!("address slot"),
    }
    match rt.frames[0].args[2] {
        ArgSlot::Val { v, .. } => assert_eq!(v, expected.len() as u64),
        _ => panic!("length slot"),
    }
}

#[test]
fn bind_short_address_is_a_fault() {
    let mut rt = MockRuntime::new();
    let ctx = GrateContext::new(&bytes("/root"));
    let vals = six(3, 4000, 1, 0, 0, 0);
    let owners = six(5, 5, 5, 0, 0, 0);
    assert_eq!(handle_sockaddr_in_call(&mut rt, &ctx, 5, 49, &vals, &owners), EFAULT);
}

#[test]
fn sendto_without_address_passes_through() {
    let mut rt = MockRuntime::new();
    let ctx = GrateContext::new(&bytes("/root"));
    let vals = six(3, 7000, 12, 0, 0, 0);
    let owners = six(5, 5, 5, 5, 5, 5);
    let r = handle_sendto_call(&mut rt, &ctx, 5, 44, &vals, &owners);
    assert_eq!(r, 0);
    match rt.frames[0].args[4] {
        ArgSlot::Val { v, .. } => assert_eq!(v, 0),
        _ => panic!("dest slot should pass through"),
    }
}

#[test]
fn accept_unjails_returned_peer_address() {
    let mut rt = MockRuntime::new();
    // The real call "wrote" a 14-byte Unix address at 4000 and its length at
    // 4100, in the cage's space.
    let mut addr = vec![1u8, 0u8];
    addr.extend_from_slice(b"/root/tmp/x");
    addr.push(0);
    let written_len = addr.len() as u32;
    rt.mem.push((5, 4000, addr));
    rt.mem.push((5, 4100, written_len.to_le_bytes().to_vec()));
    rt.relay_result = 7;
    let ctx = GrateContext::new(&bytes("/root"));
    let vals = six(3, 4000, 4100, 0, 0, 0);
    let owners = six(5, 5, 5, 0, 0, 0);
    let r = handle_sockaddr_out_call(&mut rt, &ctx, 5, 43, &vals, &owners, 1, 2);
    assert_eq!(r, 7);
    assert_eq!(rt.writes.len(), 1);
    let written = &rt.writes[0].2;
    assert_eq!(&written[0..2], &[1u8, 0u8]);
    let path: Vec<u8> = written[2..].iter().cloned().take_while(|&b| b != 0).collect();
    assert_eq!(path, bytes("/tmp/x"));
}

#[test]
fn accept_with_no_buffer_skips_translation() {
    let mut rt = MockRuntime::new();
    rt.relay_result = 7;
    let ctx = GrateContext::new(&bytes("/root"));
    let vals = six(3, 0, 0, 0, 0, 0);
    let owners = six(5, 5, 5, 0, 0, 0);
    let r = handle_sockaddr_out_call(&mut rt, &ctx, 5, 43, &vals, &owners, 1, 2);
    assert_eq!(r, 7);
    assert!(rt.writes.is_empty());
}

#[test]
fn failed_accept_leaves_buffers_alone() {
    let mut rt = MockRuntime::new();
    rt.relay_result = -9;
    rt.mem.push((5, 4100, 14u32.to_le_bytes().to_vec()));
    let ctx = GrateContext::new(&bytes("/root"));
    let vals = six(3, 4000, 4100, 0, 0, 0);
    let owners = six(5, 5, 5, 0, 0, 0);
    let r = handle_sockaddr_out_call(&mut rt, &ctx, 5, 43, &vals, &owners, 1, 2);
    assert_eq!(r, -9);
    assert!(rt.writes.is_empty());
}

#[test]
fn readlink_unjails_target_and_returns_length() {
    let mut rt = MockRuntime::new();
    rt.mem.push((5, 1000, cstr("/link")));
    let target = b"/jail/pointed".to_vec();
    rt.output_ret = target.len() as i32;
    rt.output = target;
    let ctx = GrateContext::new(&bytes("/jail"));
    let vals = six(1000, 6000, 64, 0, 0, 0);
    let owners = six(5, 5, 5, 0, 0, 0);
    let r = handle_readlink_call(&mut rt, &ctx, 5, 89, &vals, &owners);
    assert_eq!(r, "/pointed".len() as i32);
    assert_eq!(rt.writes.len(), 1);
    assert_eq!(rt.writes[0].2, bytes("/pointed"));
    assert_eq!(rt.host_path_of(0, 0), bytes("/jail/link"));
}

#[test]
fn readlink_truncates_to_caller_capacity() {
    let mut rt = MockRuntime::new();
    rt.mem.push((5, 1000, cstr("/link")));
    let target = b"/jail/pointed".to_vec();
    rt.output_ret = target.len() as i32;
    rt.output = target;
    let ctx = GrateContext::new(&bytes("/jail"));
    let vals = six(1000, 6000, 3, 0, 0, 0);
    let owners = six(5, 5, 5, 0, 0, 0);
    let r = handle_readlink_call(&mut rt, &ctx, 5, 89, &vals, &owners);
    assert_eq!(r, 3);
    assert_eq!(rt.writes[0].2, bytes("/po"));
}

#[test]
fn readlink_negative_relay_result_propagates() {
    let mut rt = MockRuntime::new();
    rt.mem.push((5, 1000, cstr("/link")));
    rt.output_ret = -2;
    let ctx = GrateContext::new(&bytes("/jail"));
    let vals = six(1000, 6000, 64, 0, 0, 0);
    let owners = six(5, 5, 5, 0, 0, 0);
    let r = handle_readlink_call(&mut rt, &ctx, 5, 89, &vals, &owners);
    assert_eq!(r, -2);
    assert!(rt.writes.is_empty());
}
