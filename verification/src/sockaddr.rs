//! Translation of filesystem paths embedded in Unix-domain socket addresses.
//!
//! An address buffer starts with a two-byte family tag; when the tag selects
//! the Unix-domain family, the bytes from offset 2 to the first terminator
//! are a path subject to the same virtual/host mapping as every other path
//! argument. Any other family is passed through byte-for-byte unchanged.

use vstd::prelude::*;

use crate::context::{chroot_spec, GrateContext};
use crate::paths;
use crate::runtime::{AF_UNIX_BYTE_HI, AF_UNIX_BYTE_LO};

verus! {

/// The buffer carries a Unix-domain address with a path field after the tag.
pub open spec fn is_unix_addr(b: Seq<u8>) -> bool {
    b.len() > 2 && b[0] == AF_UNIX_BYTE_LO && b[1] == AF_UNIX_BYTE_HI
}

/// Inbound translation: the embedded path jailed, the buffer rebuilt as
/// exactly tag, host path, terminator; any other family unchanged.
pub open spec fn translate_in_spec(
    root: Seq<u8>,
    cwds: Map<u64, Seq<u8>>,
    b: Seq<u8>,
    cage: u64,
) -> Seq<u8> {
    if is_unix_addr(b) {
        b.take(2) + chroot_spec(root, cwds, paths::clip_spec(b.skip(2)), cage) + seq![paths::NUL]
    } else {
        b
    }
}

/// Outbound translation, in place: the embedded path un-jailed, truncated to
/// the path field's capacity less one, and terminated within bounds; bytes
/// past the terminator keep their old contents, and any other family is left
/// byte-for-byte unchanged.
pub open spec fn untranslate_spec(root: Seq<u8>, b: Seq<u8>) -> Seq<u8> {
    if is_unix_addr(b) {
        let v = paths::to_virtual_spec(root, paths::clip_spec(b.skip(2)));
        let cap = b.len() - 2;
        let copy_len = if v.len() <= cap - 1 {
            v.len() as int
        } else {
            cap - 1
        };
        b.take(2) + v.take(copy_len) + seq![paths::NUL] + b.skip(2 + copy_len + 1)
    } else {
        b
    }
}

/// Any address family other than Unix-domain is returned byte-for-byte
/// unchanged, in both directions.
pub proof fn lemma_other_family_untouched(
    root: Seq<u8>,
    cwds: Map<u64, Seq<u8>>,
    b: Seq<u8>,
    cage: u64,
)
    requires
        !is_unix_addr(b),
    ensures
        translate_in_spec(root, cwds, b, cage) == b,
        untranslate_spec(root, b) == b,
{
}

/// Jail the path of an inbound Unix-domain address (for `bind`, `connect`,
/// addressed sends). The real call must use the returned buffer and its
/// length, not the original ones.
pub fn translate_sockaddr_in(ctx: &GrateContext, cage: u64, addr: &Vec<u8>) -> (r: Vec<u8>)
    requires
        ctx.wf(),
        addr@.len() >= 2,
    ensures
        r@ == translate_in_spec(ctx.root@, ctx.cwds@, addr@, cage),
{
    if addr.len() > 2 && addr[0] == AF_UNIX_BYTE_LO && addr[1] == AF_UNIX_BYTE_HI {
        let raw_field = paths::copy_range(addr, 2, addr.len());
        proof {
            assert(raw_field@ == addr@.skip(2));
        }
        let path = paths::clip_at_nul(&raw_field);
        let host = ctx.chroot_path(&path, cage);
        let mut out: Vec<u8> = Vec::new();
        out.push(AF_UNIX_BYTE_LO);
        out.push(AF_UNIX_BYTE_HI);
        out.extend_from_slice(host.as_slice());
        out.push(paths::NUL);
        proof {
            assert(out@ =~= addr@.take(2) + host@ + seq![paths::NUL]);
        }
        out
    } else {
        let r = paths::copy_range(addr, 0, addr.len());
        proof {
            assert(r@ =~= addr@);
        }
        r
    }
}

/// Un-jail the path of an outbound Unix-domain address (for `accept`,
/// `getsockname`, `getpeername`, addressed receives), rewriting the buffer in
/// place.
pub fn untranslate_sockaddr(root: &Vec<u8>, buf: &mut Vec<u8>)
    ensures
        final(buf)@ == untranslate_spec(root@, old(buf)@),
{
    if !(buf.len() > 2 && buf[0] == AF_UNIX_BYTE_LO && buf[1] == AF_UNIX_BYTE_HI) {
        return ;
    }
    let raw_field = paths::copy_range(buf, 2, buf.len());
    proof {
        assert(raw_field@ == buf@.skip(2));
    }
    let path = paths::clip_at_nul(&raw_field);
    let v = paths::to_virtual(root, &path);
    let cap = buf.len() - 2;
    let copy_len: usize = if v.len() <= cap - 1 {
        v.len()
    } else {
        cap - 1
    };
    let mut out: Vec<u8> = Vec::new();
    out.push(AF_UNIX_BYTE_LO);
    out.push(AF_UNIX_BYTE_HI);
    let vpart = paths::copy_range(&v, 0, copy_len);
    out.extend_from_slice(vpart.as_slice());
    out.push(paths::NUL);
    let tail = paths::copy_range(buf, 2 + copy_len + 1, buf.len());
    out.extend_from_slice(tail.as_slice());
    proof {
        assert(out@ =~= buf@.take(2) + v@.take(copy_len as int) + seq![paths::NUL] + buf@.skip(
            2 + copy_len + 1,
        ));
    }
    *buf = out;
}

} // verus!
