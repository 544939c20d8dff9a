//! The handler shapes: reusable combinators for the intercepted calls.
//!
//! Every handler is a decision over plain values. Cross-space copies and the
//! real operation go through the [`CageRuntime`] capability; the pure frame
//! builders and payload computations next to each handler carry the exact
//! contracts, and the handler states what holds whatever the runtime
//! returned. Handler-local failures are return values, never aborts.

use vstd::prelude::*;

use crate::context::{chroot_spec, GrateContext};
use crate::cwd::cwd_of;
use crate::errors::{EFAULT, ENOSYS, EPERM, ERANGE};
use crate::paths;
use crate::runtime::{read_exact, ArgSlot, CageRuntime, CallFrame, AT_FDCWD, PATH_READ_LEN};
use crate::sockaddr;

verus! {

/// Some slot that needed a path failed its cross-space read.
pub open spec fn missing_read(is_path: Seq<bool>, reads: Seq<Option<Vec<u8>>>) -> bool {
    exists|i: int| 0 <= i < 6 && is_path[i] && reads[i] is None
}

/// Slot `i` of `slots` is correct for a path-input call: jailed where the
/// role says path, the raw value and owner passed through everywhere else.
pub open spec fn path_slot_ok(
    ctx: &GrateContext,
    cage: u64,
    vals: Seq<u64>,
    owners: Seq<u64>,
    is_path: Seq<bool>,
    reads: Seq<Option<Vec<u8>>>,
    slots: Seq<ArgSlot>,
    i: int,
) -> bool {
    if is_path[i] {
        reads[i] matches Some(b) && (slots[i] matches ArgSlot::HostPath { bytes } && bytes@
            == chroot_spec(ctx.root@, ctx.cwds@, paths::clip_spec(b@), cage))
    } else {
        slots[i] == (ArgSlot::Val { v: vals[i], owner: owners[i] })
    }
}

/// The frame of a path-input call is fully determined by its inputs.
pub open spec fn path_frame_ok(
    ctx: &GrateContext,
    cage: u64,
    call_nr: u64,
    vals: Seq<u64>,
    owners: Seq<u64>,
    is_path: Seq<bool>,
    reads: Seq<Option<Vec<u8>>>,
    f: &CallFrame,
) -> bool {
    &&& crate::runtime::frame_wf(f)
    &&& f.call_nr == call_nr
    &&& f.caller == cage
    &&& f.target == owners[0]
    &&& f.translate_errno == 0
    &&& forall|i: int|
        0 <= i < 6 ==> path_slot_ok(ctx, cage, vals, owners, is_path, reads, f.args@, i)
}

/// Build the relay frame of a path-input call: each path slot's bytes are
/// read from the caller's space, clipped at the terminator, and jailed; every
/// other slot passes through. A failed read of any needed path is a fault.
pub fn build_path_frame(
    ctx: &GrateContext,
    cage: u64,
    call_nr: u64,
    vals: &Vec<u64>,
    owners: &Vec<u64>,
    is_path: &Vec<bool>,
    reads: &Vec<Option<Vec<u8>>>,
) -> (r: Result<CallFrame, i32>)
    requires
        ctx.wf(),
        vals@.len() == 6,
        owners@.len() == 6,
        is_path@.len() == 6,
        reads@.len() == 6,
    ensures
        r is Err <==> missing_read(is_path@, reads@),
        r matches Err(code) ==> code == EFAULT,
        r matches Ok(f) ==> path_frame_ok(ctx, cage, call_nr, vals@, owners@, is_path@, reads@, &f),
{
    let mut args: Vec<ArgSlot> = Vec::new();
    let mut i: usize = 0;
    while i < 6
        invariant
            i <= 6,
            args@.len() == i,
            ctx.wf(),
            vals@.len() == 6,
            owners@.len() == 6,
            is_path@.len() == 6,
            reads@.len() == 6,
            forall|j: int|
                0 <= j < i ==> path_slot_ok(ctx, cage, vals@, owners@, is_path@, reads@, args@, j),
            forall|j: int| 0 <= j < i && is_path@[j] ==> !(reads@[j] is None),
        decreases 6 - i,
    {
        let ghost pre = args@;
        if is_path[i] {
            match &reads[i] {
                Some(b) => {
                    let p = paths::clip_at_nul(b);
                    let host = ctx.chroot_path(&p, cage);
                    args.push(ArgSlot::HostPath { bytes: host });
                },
                None => {
                    return Err(EFAULT);
                },
            }
        } else {
            args.push(ArgSlot::Val { v: vals[i], owner: owners[i] });
        }
        proof {
            assert forall|j: int| 0 <= j < i implies path_slot_ok(
                ctx,
                cage,
                vals@,
                owners@,
                is_path@,
                reads@,
                args@,
                j,
            ) by {
                assert(args@[j] == pre[j]);
                assert(path_slot_ok(ctx, cage, vals@, owners@, is_path@, reads@, pre, j));
            }
        }
        i += 1;
    }
    Ok(CallFrame { call_nr, caller: cage, target: owners[0], args, translate_errno: 0 })
}

/// A path-input handler (`open`, `stat`, `unlink`, `rename`, ...): read each
/// path argument from the caller's space (a failed copy is the fault error),
/// jail it, relay the real call with the host paths substituted in the
/// grate's own space, and hand the relay's result back.
pub fn handle_path_call<R: CageRuntime>(
    rt: &mut R,
    ctx: &GrateContext,
    cage: u64,
    call_nr: u64,
    vals: &Vec<u64>,
    owners: &Vec<u64>,
    is_path: &Vec<bool>,
) -> (r: i32)
    requires
        ctx.wf(),
        vals@.len() == 6,
        owners@.len() == 6,
        is_path@.len() == 6,
{
    let mut reads: Vec<Option<Vec<u8>>> = Vec::new();
    let mut i: usize = 0;
    while i < 6
        invariant
            i <= 6,
            reads@.len() == i,
            vals@.len() == 6,
            owners@.len() == 6,
            is_path@.len() == 6,
        decreases 6 - i,
    {
        if is_path[i] {
            let got = read_exact(rt, owners[i], vals[i], PATH_READ_LEN);
            reads.push(got);
        } else {
            reads.push(None);
        }
        i += 1;
    }
    match build_path_frame(ctx, cage, call_nr, vals, owners, is_path, &reads) {
        Ok(frame) => rt.relay(&frame),
        Err(code) => code,
    }
}

/// The directory-relative branch: an absolute path, or the sentinel
/// descriptor meaning "relative to the current directory", is jailed; a path
/// relative to any other descriptor passes through, because that descriptor
/// already refers to a previously jailed location.
pub open spec fn at_uses_jail(dirfd: u64, path: Seq<u8>) -> bool {
    paths::is_abs(path) || dirfd == AT_FDCWD as u64
}

/// The first two slots of a directory-relative call are correct: descriptor
/// forced to the sentinel and path jailed on the jailing branch, both passed
/// through otherwise.
pub open spec fn at_head_ok(
    ctx: &GrateContext,
    cage: u64,
    vals: Seq<u64>,
    owners: Seq<u64>,
    p: Seq<u8>,
    slots: Seq<ArgSlot>,
) -> bool {
    &&& slots[0] == (ArgSlot::Val {
        v: if at_uses_jail(vals[0], p) {
            AT_FDCWD as u64
        } else {
            vals[0]
        },
        owner: owners[0],
    })
    &&& (slots[1] matches ArgSlot::HostPath { bytes } && bytes@ == if at_uses_jail(vals[0], p) {
        chroot_spec(ctx.root@, ctx.cwds@, p, cage)
    } else {
        p
    })
}

/// The frame of a directory-relative path call is fully determined by its
/// inputs.
pub open spec fn at_frame_ok(
    ctx: &GrateContext,
    cage: u64,
    call_nr: u64,
    vals: Seq<u64>,
    owners: Seq<u64>,
    p: Seq<u8>,
    f: &CallFrame,
) -> bool {
    &&& crate::runtime::frame_wf(f)
    &&& f.call_nr == call_nr
    &&& f.caller == cage
    &&& f.target == owners[1]
    &&& f.translate_errno == 0
    &&& at_head_ok(ctx, cage, vals, owners, p, f.args@)
    &&& forall|i: int|
        2 <= i < 6 ==> f.args@[i] == (ArgSlot::Val { v: vals[i], owner: owners[i] })
}

/// Build the relay frame of a directory-relative call (`unlinkat`,
/// `readlinkat`): slot 0 is the descriptor, slot 1 the path pointer already
/// read into `read`.
pub fn build_at_frame(
    ctx: &GrateContext,
    cage: u64,
    call_nr: u64,
    vals: &Vec<u64>,
    owners: &Vec<u64>,
    read: &Option<Vec<u8>>,
) -> (r: Result<CallFrame, i32>)
    requires
        ctx.wf(),
        vals@.len() == 6,
        owners@.len() == 6,
    ensures
        r is Err <==> read is None,
        r matches Err(code) ==> code == EFAULT,
        r matches Ok(f) ==> (*read matches Some(b) && at_frame_ok(
            ctx,
            cage,
            call_nr,
            vals@,
            owners@,
            paths::clip_spec(b@),
            &f,
        )),
{
    let b = match read {
        Some(b) => b,
        None => {
            return Err(EFAULT);
        },
    };
    let p = paths::clip_at_nul(b);
    let jail = (p.len() > 0 && p[0] == paths::SLASH) || vals[0] == AT_FDCWD as u64;
    proof {
        assert(jail == at_uses_jail(vals@[0], p@));
    }
    let mut args: Vec<ArgSlot> = Vec::new();
    if jail {
        args.push(ArgSlot::Val { v: AT_FDCWD as u64, owner: owners[0] });
        args.push(ArgSlot::HostPath { bytes: ctx.chroot_path(&p, cage) });
    } else {
        args.push(ArgSlot::Val { v: vals[0], owner: owners[0] });
        args.push(ArgSlot::HostPath { bytes: p });
    }
    let ghost head = args@;
    let mut i: usize = 2;
    while i < 6
        invariant
            2 <= i <= 6,
            args@.len() == i,
            vals@.len() == 6,
            owners@.len() == 6,
            head.len() == 2,
            args@[0] == head[0],
            args@[1] == head[1],
            forall|j: int|
                2 <= j < i ==> args@[j] == (ArgSlot::Val { v: vals@[j], owner: owners@[j] }),
        decreases 6 - i,
    {
        args.push(ArgSlot::Val { v: vals[i], owner: owners[i] });
        i += 1;
    }
    Ok(CallFrame { call_nr, caller: cage, target: owners[1], args, translate_errno: 0 })
}

/// A directory-relative path-input handler (`unlinkat`): branch on the
/// descriptor, jail or pass through, relay, and hand the relay's result back.
pub fn handle_at_path_call<R: CageRuntime>(
    rt: &mut R,
    ctx: &GrateContext,
    cage: u64,
    call_nr: u64,
    vals: &Vec<u64>,
    owners: &Vec<u64>,
) -> (r: i32)
    requires
        ctx.wf(),
        vals@.len() == 6,
        owners@.len() == 6,
{
    let read = read_exact(rt, owners[1], vals[1], PATH_READ_LEN);
    match build_at_frame(ctx, cage, call_nr, vals, owners, &read) {
        Ok(frame) => rt.relay(&frame),
        Err(code) => code,
    }
}

/// Build a frame that passes every argument through untouched.
pub fn build_passthrough_frame(
    cage: u64,
    call_nr: u64,
    vals: &Vec<u64>,
    owners: &Vec<u64>,
) -> (f: CallFrame)
    requires
        vals@.len() == 6,
        owners@.len() == 6,
    ensures
        crate::runtime::frame_wf(&f),
        f.call_nr == call_nr,
        f.caller == cage,
        f.target == owners@[0],
        f.translate_errno == 0,
        forall|i: int| 0 <= i < 6 ==> f.args@[i] == (ArgSlot::Val { v: vals@[i], owner: owners@[i] }),
{
    let mut args: Vec<ArgSlot> = Vec::new();
    let mut i: usize = 0;
    while i < 6
        invariant
            i <= 6,
            args@.len() == i,
            vals@.len() == 6,
            owners@.len() == 6,
            forall|j: int| 0 <= j < i ==> args@[j] == (ArgSlot::Val { v: vals@[j], owner: owners@[j] }),
        decreases 6 - i,
    {
        args.push(ArgSlot::Val { v: vals[i], owner: owners[i] });
        i += 1;
    }
    CallFrame { call_nr, caller: cage, target: owners[0], args, translate_errno: 0 }
}

/// What a path-output handler writes back: the bytes the real call produced
/// (at most its reported length), un-jailed, truncated to the destination's
/// capacity.
pub open spec fn readlink_payload_spec(root: Seq<u8>, out: Seq<u8>, ret_len: int, cap: int) -> Seq<
    u8,
> {
    let taken = out.take(
        if ret_len <= out.len() {
            ret_len
        } else {
            out.len() as int
        },
    );
    let v = paths::to_virtual_spec(root, taken);
    v.take(
        if v.len() <= cap {
            v.len() as int
        } else {
            cap
        },
    )
}

/// Un-jail what the real call left in the output buffer and truncate it to
/// the caller's capacity.
pub fn readlink_payload(root: &Vec<u8>, out: &Vec<u8>, ret_len: usize, cap: u64) -> (r: Vec<u8>)
    ensures
        r@ == readlink_payload_spec(root@, out@, ret_len as int, cap as int),
{
    let take_len: usize = if ret_len <= out.len() {
        ret_len
    } else {
        out.len()
    };
    let taken = paths::copy_range(out, 0, take_len);
    proof {
        assert(taken@ == out@.take(take_len as int));
    }
    let v = paths::to_virtual(root, &taken);
    let write_len: usize = if (v.len() as u64) <= cap {
        v.len()
    } else {
        cap as usize
    };
    let r = paths::copy_range(&v, 0, write_len);
    proof {
        assert(r@ == v@.take(write_len as int));
    }
    r
}

/// The frame of a path-output call is fully determined by its inputs: the
/// jailed path, a grate-local output buffer of the caller's size, and that
/// size as the length argument.
pub open spec fn readlink_frame_ok(
    ctx: &GrateContext,
    cage: u64,
    call_nr: u64,
    bufsiz: u64,
    target: u64,
    thiscage: u64,
    p: Seq<u8>,
    f: &CallFrame,
) -> bool {
    &&& crate::runtime::frame_wf(f)
    &&& f.call_nr == call_nr
    &&& f.caller == cage
    &&& f.target == target
    &&& f.translate_errno == 0
    &&& (f.args@[0] matches ArgSlot::HostPath { bytes } && bytes@ == chroot_spec(
        ctx.root@,
        ctx.cwds@,
        p,
        cage,
    ))
    &&& f.args@[1] == (ArgSlot::OutBuf { len: bufsiz })
    &&& f.args@[2] == (ArgSlot::Val { v: bufsiz, owner: thiscage })
    &&& forall|i: int| 3 <= i < 6 ==> f.args@[i] == (ArgSlot::Val { v: 0, owner: 0 })
}

/// Build the relay frame of a path-output call from the raw path bytes read
/// out of the caller's space.
pub fn build_readlink_frame(
    ctx: &GrateContext,
    cage: u64,
    call_nr: u64,
    raw_path: &Vec<u8>,
    bufsiz: u64,
    target: u64,
    thiscage: u64,
) -> (f: CallFrame)
    requires
        ctx.wf(),
    ensures
        readlink_frame_ok(
            ctx,
            cage,
            call_nr,
            bufsiz,
            target,
            thiscage,
            paths::clip_spec(raw_path@),
            &f,
        ),
{
    let p = paths::clip_at_nul(raw_path);
    let host = ctx.chroot_path(&p, cage);
    let mut args: Vec<ArgSlot> = Vec::new();
    args.push(ArgSlot::HostPath { bytes: host });
    args.push(ArgSlot::OutBuf { len: bufsiz });
    args.push(ArgSlot::Val { v: bufsiz, owner: thiscage });
    args.push(ArgSlot::Val { v: 0, owner: 0 });
    args.push(ArgSlot::Val { v: 0, owner: 0 });
    args.push(ArgSlot::Val { v: 0, owner: 0 });
    CallFrame { call_nr, caller: cage, target, args, translate_errno: 0 }
}

/// A path-output handler (`readlink`): jail the input path, relay into a
/// grate-local buffer, un-jail the result, copy the possibly truncated
/// virtual path back into the caller's buffer, and return the number of
/// bytes written, or the fault error when a required copy fails. A
/// non-negative result never exceeds the caller's capacity.
pub fn handle_readlink_call<R: CageRuntime>(
    rt: &mut R,
    ctx: &GrateContext,
    cage: u64,
    call_nr: u64,
    vals: &Vec<u64>,
    owners: &Vec<u64>,
) -> (r: i32)
    requires
        ctx.wf(),
        vals@.len() == 6,
        owners@.len() == 6,
    ensures
        vals@[2] < 0x8000_0000 && r >= 0 ==> r <= vals@[2],
{
    let thiscage = rt.current_id();
    let b = match read_exact(rt, owners[0], vals[0], PATH_READ_LEN) {
        Some(b) => b,
        None => {
            return EFAULT;
        },
    };
    let bufsiz = vals[2];
    let frame = build_readlink_frame(ctx, cage, call_nr, &b, bufsiz, owners[0], thiscage);
    let (ret, out) = rt.relay_with_output(&frame);
    if ret < 0 {
        return ret;
    }
    let payload = readlink_payload(&ctx.root, &out, ret as usize, bufsiz);
    let written = payload.len();
    if rt.write_bytes(owners[1], vals[1], &payload) {
        #[verifier::truncate]
        (written as i32)
    } else {
        EFAULT
    }
}

/// The frame of a directory-relative path-output call: the descriptor
/// branch of the directory-relative calls, followed by the output buffer and
/// its size.
pub open spec fn readlinkat_frame_ok(
    ctx: &GrateContext,
    cage: u64,
    call_nr: u64,
    vals: Seq<u64>,
    owners: Seq<u64>,
    thiscage: u64,
    p: Seq<u8>,
    f: &CallFrame,
) -> bool {
    &&& crate::runtime::frame_wf(f)
    &&& f.call_nr == call_nr
    &&& f.caller == cage
    &&& f.target == owners[1]
    &&& f.translate_errno == 0
    &&& at_head_ok(ctx, cage, vals, owners, p, f.args@)
    &&& f.args@[2] == (ArgSlot::OutBuf { len: vals[3] })
    &&& f.args@[3] == (ArgSlot::Val { v: vals[3], owner: thiscage })
    &&& f.args@[4] == (ArgSlot::Val { v: 0, owner: 0 })
    &&& f.args@[5] == (ArgSlot::Val { v: 0, owner: 0 })
}

/// Build the relay frame of a directory-relative path-output call from the
/// raw path bytes read out of the caller's space.
pub fn build_readlinkat_frame(
    ctx: &GrateContext,
    cage: u64,
    call_nr: u64,
    vals: &Vec<u64>,
    owners: &Vec<u64>,
    raw_path: &Vec<u8>,
    thiscage: u64,
) -> (f: CallFrame)
    requires
        ctx.wf(),
        vals@.len() == 6,
        owners@.len() == 6,
    ensures
        readlinkat_frame_ok(
            ctx,
            cage,
            call_nr,
            vals@,
            owners@,
            thiscage,
            paths::clip_spec(raw_path@),
            &f,
        ),
{
    let p = paths::clip_at_nul(raw_path);
    let jail = (p.len() > 0 && p[0] == paths::SLASH) || vals[0] == AT_FDCWD as u64;
    proof {
        assert(jail == at_uses_jail(vals@[0], p@));
    }
    let mut args: Vec<ArgSlot> = Vec::new();
    if jail {
        args.push(ArgSlot::Val { v: AT_FDCWD as u64, owner: owners[0] });
        args.push(ArgSlot::HostPath { bytes: ctx.chroot_path(&p, cage) });
    } else {
        args.push(ArgSlot::Val { v: vals[0], owner: owners[0] });
        args.push(ArgSlot::HostPath { bytes: p });
    }
    args.push(ArgSlot::OutBuf { len: vals[3] });
    args.push(ArgSlot::Val { v: vals[3], owner: thiscage });
    args.push(ArgSlot::Val { v: 0, owner: 0 });
    args.push(ArgSlot::Val { v: 0, owner: 0 });
    CallFrame { call_nr, caller: cage, target: owners[1], args, translate_errno: 0 }
}

/// The directory-relative path-output handler (`readlinkat`): the
/// descriptor branch of `unlinkat` combined with the write-back of
/// `readlink`. The jail prefix is always stripped from the returned target,
/// and a non-negative result never exceeds the caller's capacity.
pub fn handle_readlinkat_call<R: CageRuntime>(
    rt: &mut R,
    ctx: &GrateContext,
    cage: u64,
    call_nr: u64,
    vals: &Vec<u64>,
    owners: &Vec<u64>,
) -> (r: i32)
    requires
        ctx.wf(),
        vals@.len() == 6,
        owners@.len() == 6,
    ensures
        vals@[3] < 0x8000_0000 && r >= 0 ==> r <= vals@[3],
{
    let thiscage = rt.current_id();
    let b = match read_exact(rt, owners[1], vals[1], PATH_READ_LEN) {
        Some(b) => b,
        None => {
            return EFAULT;
        },
    };
    let bufsiz = vals[3];
    let frame = build_readlinkat_frame(ctx, cage, call_nr, vals, owners, &b, thiscage);
    let (ret, out) = rt.relay_with_output(&frame);
    if ret < 0 {
        return ret;
    }
    let payload = readlink_payload(&ctx.root, &out, ret as usize, bufsiz);
    let written = payload.len();
    if rt.write_bytes(owners[2], vals[2], &payload) {
        #[verifier::truncate]
        (written as i32)
    } else {
        EFAULT
    }
}

/// The 32-bit length field the real call wrote, as the target lays it out.
pub open spec fn len32_spec(b: Seq<u8>) -> int {
    b[0] + 256 * (b[1] + 256 * (b[2] + 256 * b[3]))
}

/// Decode the written-back address length field.
pub fn decode_len(b: &Vec<u8>) -> (r: u64)
    requires
        b@.len() == 4,
    ensures
        r == len32_spec(b@),
{
    b[0] as u64 + 256 * (b[1] as u64 + 256 * (b[2] as u64 + 256 * (b[3] as u64)))
}

/// The frame of an address-input call is fully determined by its inputs:
/// the address slot carries the rebuilt, jailed buffer, the length slot the
/// rebuilt buffer's length — never the original's — and every other slot
/// passes through.
pub open spec fn sockaddr_in_frame_ok(
    ctx: &GrateContext,
    cage: u64,
    call_nr: u64,
    vals: Seq<u64>,
    owners: Seq<u64>,
    addr: Seq<u8>,
    addr_slot: int,
    len_slot: int,
    f: &CallFrame,
) -> bool {
    &&& crate::runtime::frame_wf(f)
    &&& f.call_nr == call_nr
    &&& f.caller == cage
    &&& f.target == owners[0]
    &&& f.translate_errno == 0
    &&& (f.args@[addr_slot] matches ArgSlot::Buf { bytes } && bytes@
        == sockaddr::translate_in_spec(ctx.root@, ctx.cwds@, addr, cage) && f.args@[len_slot] == (
    ArgSlot::Val { v: bytes@.len() as u64, owner: owners[len_slot] }))
    &&& forall|i: int|
        0 <= i < 6 && i != addr_slot && i != len_slot ==> f.args@[i] == (ArgSlot::Val {
            v: vals[i],
            owner: owners[i],
        })
}

/// Build the relay frame of an address-input call from the copied address
/// bytes: jail an embedded Unix-domain path and put the rebuilt buffer and
/// its new length into the named slots.
pub fn build_sockaddr_in_frame(
    ctx: &GrateContext,
    cage: u64,
    call_nr: u64,
    vals: &Vec<u64>,
    owners: &Vec<u64>,
    addr_bytes: &Vec<u8>,
    addr_slot: usize,
    len_slot: usize,
) -> (f: CallFrame)
    requires
        ctx.wf(),
        vals@.len() == 6,
        owners@.len() == 6,
        addr_bytes@.len() >= 2,
        addr_slot < 6,
        len_slot < 6,
        addr_slot != len_slot,
    ensures
        sockaddr_in_frame_ok(
            ctx,
            cage,
            call_nr,
            vals@,
            owners@,
            addr_bytes@,
            addr_slot as int,
            len_slot as int,
            &f,
        ),
{
    let new_addr = sockaddr::translate_sockaddr_in(ctx, cage, addr_bytes);
    let new_len = new_addr.len() as u64;
    let mut args: Vec<ArgSlot> = Vec::new();
    let mut i: usize = 0;
    while i < 6
        invariant
            i <= 6,
            args@.len() == i,
            vals@.len() == 6,
            owners@.len() == 6,
            forall|j: int| 0 <= j < i ==> args@[j] == (ArgSlot::Val { v: vals@[j], owner: owners@[j] }),
        decreases 6 - i,
    {
        args.push(ArgSlot::Val { v: vals[i], owner: owners[i] });
        i += 1;
    }
    let ghost base = args@;
    args.set(addr_slot, ArgSlot::Buf { bytes: new_addr });
    args.set(len_slot, ArgSlot::Val { v: new_len, owner: owners[len_slot] });
    proof {
        assert(args@ == base.update(addr_slot as int, args@[addr_slot as int]).update(
            len_slot as int,
            ArgSlot::Val { v: new_len, owner: owners@[len_slot as int] },
        ));
    }
    CallFrame { call_nr, caller: cage, target: owners[0], args, translate_errno: 0 }
}

/// An address-input socket handler (`bind`, `connect`): copy the address
/// bytes from the caller, jail an embedded Unix-domain path, and relay with
/// the rebuilt buffer and its new length. An address shorter than its family
/// tag, or a failed copy, is the fault error.
pub fn handle_sockaddr_in_call<R: CageRuntime>(
    rt: &mut R,
    ctx: &GrateContext,
    cage: u64,
    call_nr: u64,
    vals: &Vec<u64>,
    owners: &Vec<u64>,
) -> (r: i32)
    requires
        ctx.wf(),
        vals@.len() == 6,
        owners@.len() == 6,
    ensures
        vals@[2] < 2 ==> r == EFAULT,
{
    let addrlen = vals[2];
    if addrlen < 2 {
        return EFAULT;
    }
    let addr_bytes = match read_exact(rt, owners[1], vals[1], addrlen as usize) {
        Some(v) => v,
        None => {
            return EFAULT;
        },
    };
    if addr_bytes.len() < 2 {
        return EFAULT;
    }
    let frame = build_sockaddr_in_frame(ctx, cage, call_nr, vals, owners, &addr_bytes, 1, 2);
    rt.relay(&frame)
}

/// The addressed-send handler: with a destination address present, jail it
/// as the address-input handlers do; without one, pass everything through.
pub fn handle_sendto_call<R: CageRuntime>(
    rt: &mut R,
    ctx: &GrateContext,
    cage: u64,
    call_nr: u64,
    vals: &Vec<u64>,
    owners: &Vec<u64>,
) -> (r: i32)
    requires
        ctx.wf(),
        vals@.len() == 6,
        owners@.len() == 6,
    ensures
        vals@[4] != 0 && 0 < vals@[5] < 2 ==> r == EFAULT,
{
    let dest = vals[4];
    let addrlen = vals[5];
    if dest != 0 && addrlen > 0 {
        if addrlen < 2 {
            return EFAULT;
        }
        let addr_bytes = match read_exact(rt, owners[4], dest, addrlen as usize) {
            Some(v) => v,
            None => {
                return EFAULT;
            },
        };
        if addr_bytes.len() < 2 {
            return EFAULT;
        }
        let frame = build_sockaddr_in_frame(ctx, cage, call_nr, vals, owners, &addr_bytes, 4, 5);
        rt.relay(&frame)
    } else {
        let frame = build_passthrough_frame(cage, call_nr, vals, owners);
        rt.relay(&frame)
    }
}

/// An address-output socket handler (`accept`, `getsockname`, `getpeername`,
/// addressed receives): relay untouched; on success, best-effort, re-read
/// the length the call wrote, re-read the address buffer of that length,
/// un-jail an embedded Unix-domain path in place, and write it back. A
/// missing buffer, a zero length, or any failed copy leaves the result
/// exactly as the real call produced it — the call already succeeded and is
/// never failed over translation.
pub fn handle_sockaddr_out_call<R: CageRuntime>(
    rt: &mut R,
    ctx: &GrateContext,
    cage: u64,
    call_nr: u64,
    vals: &Vec<u64>,
    owners: &Vec<u64>,
    addr_slot: usize,
    lenptr_slot: usize,
) -> (r: i32)
    requires
        ctx.wf(),
        vals@.len() == 6,
        owners@.len() == 6,
        addr_slot < 6,
        lenptr_slot < 6,
{
    let frame = build_passthrough_frame(cage, call_nr, vals, owners);
    let ret = rt.relay(&frame);
    if ret >= 0 {
        let addr = vals[addr_slot];
        let lenptr = vals[lenptr_slot];
        if addr != 0 && lenptr != 0 {
            if let Some(lb) = read_exact(rt, owners[lenptr_slot], lenptr, 4) {
                let addrlen = decode_len(&lb);
                if addrlen > 0 {
                    if let Some(mut ab) = read_exact(rt, owners[addr_slot], addr, addrlen as usize) {
                        sockaddr::untranslate_sockaddr(&ctx.root, &mut ab);
                        let _ = rt.write_bytes(owners[addr_slot], addr, &ab);
                    }
                }
            }
        }
    }
    ret
}

/// The process-duplication handler: relay the real duplication; a positive
/// result means the caller is the parent and names the new cage, whose
/// working directory is inherited from the parent at this very moment,
/// before the child can mutate the table.
pub fn handle_fork_call<R: CageRuntime>(
    rt: &mut R,
    ctx: &mut GrateContext,
    cage: u64,
    call_nr: u64,
    vals: &Vec<u64>,
    owners: &Vec<u64>,
) -> (r: i32)
    requires
        old(ctx).wf(),
        vals@.len() == 6,
        owners@.len() == 6,
    ensures
        final(ctx).wf(),
        final(ctx).root@ == old(ctx).root@,
        r > 0 ==> final(ctx).cwds@ == old(ctx).cwds@.insert(
            r as u64,
            cwd_of(old(ctx).cwds@, cage),
        ),
        r <= 0 ==> final(ctx).cwds@ == old(ctx).cwds@,
{
    let frame = build_passthrough_frame(cage, call_nr, vals, owners);
    let ret = rt.relay(&frame);
    if ret > 0 {
        ctx.cwds.inherit(cage, ret as u64);
    }
    ret
}

/// Recompute and store the working directory of `cage`: normalize the target
/// under the current tracked directory and overwrite the entry. Purely
/// software-tracked; the real call is never made.
pub fn apply_chdir(ctx: &mut GrateContext, cage: u64, raw: &Vec<u8>) -> (r: i32)
    requires
        old(ctx).wf(),
    ensures
        final(ctx).wf(),
        final(ctx).root@ == old(ctx).root@,
        r == 0,
        final(ctx).cwds@ == old(ctx).cwds@.insert(
            cage,
            paths::normalize_spec(raw@, cwd_of(old(ctx).cwds@, cage)),
        ),
{
    let cwd = ctx.cwds.get(cage);
    let n = paths::normalize_path(raw, &cwd);
    proof {
        paths::lemma_normalize_abs(raw@, cwd@);
    }
    ctx.cwds.set(cage, n);
    0
}

/// The directory-change handler: read the target from the caller's space and
/// track it. Succeeds with a normalized entry, or faults with the table
/// untouched.
pub fn handle_chdir_call<R: CageRuntime>(
    rt: &mut R,
    ctx: &mut GrateContext,
    cage: u64,
    vals: &Vec<u64>,
    owners: &Vec<u64>,
) -> (r: i32)
    requires
        old(ctx).wf(),
        vals@.len() == 6,
        owners@.len() == 6,
    ensures
        final(ctx).wf(),
        final(ctx).root@ == old(ctx).root@,
        r == 0 || r == EFAULT,
        r == EFAULT ==> final(ctx).cwds@ == old(ctx).cwds@,
        r == 0 ==> exists|target: Seq<u8>|
            final(ctx).cwds@ == old(ctx).cwds@.insert(
                cage,
                #[trigger] paths::normalize_spec(target, cwd_of(old(ctx).cwds@, cage)),
            ),
        r == 0 ==> paths::is_normal(cwd_of(final(ctx).cwds@, cage)),
{
    match read_exact(rt, owners[0], vals[0], PATH_READ_LEN) {
        Some(b) => {
            let p = paths::clip_at_nul(&b);
            let r = apply_chdir(ctx, cage, &p);
            proof {
                paths::lemma_normalize_abs(p@, cwd_of(old(ctx).cwds@, cage));
                assert(final(ctx).cwds@ == old(ctx).cwds@.insert(
                    cage,
                    paths::normalize_spec(p@, cwd_of(old(ctx).cwds@, cage)),
                ));
            }
            r
        },
        None => EFAULT,
    }
}

/// What the directory-read handler hands back: the tracked directory plus
/// its terminator, or the range error when the caller's buffer cannot hold
/// them.
pub fn getcwd_payload(cwd: &Vec<u8>, size: u64) -> (r: Result<Vec<u8>, i32>)
    ensures
        r matches Ok(v) ==> cwd@.len() + 1 <= size && v@ == cwd@.push(paths::NUL),
        r matches Err(code) ==> cwd@.len() + 1 > size && code == ERANGE,
{
    if (cwd.len() as u64) >= size {
        Err(ERANGE)
    } else {
        let mut v = paths::copy_range(cwd, 0, cwd.len());
        v.push(paths::NUL);
        proof {
            assert(cwd@.subrange(0, cwd@.len() as int) =~= cwd@);
        }
        Ok(v)
    }
}

/// The directory-read handler: return the tracked virtual directory (never
/// the host's real one). A buffer smaller than the path plus terminator is
/// the range error and nothing is written; a failed write back is the fault
/// error; otherwise the buffer address is returned as the call's result.
pub fn handle_getcwd_call<R: CageRuntime>(
    rt: &mut R,
    ctx: &GrateContext,
    cage: u64,
    vals: &Vec<u64>,
    owners: &Vec<u64>,
) -> (r: i32)
    requires
        ctx.wf(),
        vals@.len() == 6,
        owners@.len() == 6,
    ensures
        cwd_of(ctx.cwds@, cage).len() + 1 > vals@[1] ==> r == ERANGE,
        cwd_of(ctx.cwds@, cage).len() + 1 <= vals@[1] ==> (r == EFAULT || r == vals@[0] as i32),
{
    let cwd = ctx.cwds.get(cage);
    match getcwd_payload(&cwd, vals[1]) {
        Err(code) => code,
        Ok(buf) => {
            if rt.write_bytes(owners[0], vals[0], &buf) {
                #[verifier::truncate]
                (vals[0] as i32)
            } else {
                EFAULT
            }
        },
    }
}

/// A re-jail request from inside the cage is always denied, whatever its
/// arguments: the jail is enforced by the interceptor and is not
/// renegotiable by the interposed party.
pub fn handle_chroot_call() -> (r: i32)
    ensures
        r == EPERM,
{
    EPERM
}

/// Changing directory to an open descriptor would need a descriptor-to-path
/// table this design does not keep; reported as unimplemented — a documented
/// limitation, not a silent gap.
pub fn handle_fchdir_call() -> (r: i32)
    ensures
        r == ENOSYS,
{
    ENOSYS
}

/// Changing the working directory and then reading it back yields exactly
/// the normalized target of the change — the tracked virtual directory,
/// never the host's real one — and that target is always in normalized form.
pub proof fn lemma_chdir_then_getcwd(m: Map<u64, Seq<u8>>, cage: u64, raw: Seq<u8>)
    ensures
        ({
            let target = paths::normalize_spec(raw, cwd_of(m, cage));
            cwd_of(m.insert(cage, target), cage) == target && paths::is_normal(target)
        }),
{
    paths::lemma_normalize_abs(raw, cwd_of(m, cage));
}

} // verus!
