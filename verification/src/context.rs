//! The grate's shared virtualization state: the jail root and the per-cage
//! working-directory table, constructed once at startup and handed by
//! reference into every handler invocation.

use vstd::prelude::*;

use crate::cwd::{cwd_of, CwdTable};
use crate::paths;

verus! {

/// The host path a raw path argument of `cage` resolves to: normalized under
/// the cage's tracked working directory, then prefixed with the jail root.
pub open spec fn chroot_spec(
    root: Seq<u8>,
    cwds: Map<u64, Seq<u8>>,
    raw: Seq<u8>,
    cage: u64,
) -> Seq<u8> {
    paths::host_of(root, paths::normalize_spec(raw, cwd_of(cwds, cage)))
}

/// The jail root and the working-directory table.
#[derive(Clone)]
pub struct GrateContext {
    /// The configured jail root, stored with trailing separators removed.
    /// Set once at startup and never renegotiated by the jailed side.
    pub root: Vec<u8>,
    /// The tracked working directory of each cage.
    pub cwds: CwdTable,
}

impl GrateContext {
    /// The shape every handler relies on.
    pub open spec fn wf(&self) -> bool {
        self.cwds.wf()
    }

    /// Build the context from the configured jail root, which must not be
    /// empty.
    pub fn new(root_raw: &Vec<u8>) -> (ctx: Self)
        requires
            root_raw@.len() > 0,
        ensures
            ctx.wf(),
            ctx.root@ == paths::trim_slashes(root_raw@),
            ctx.cwds@ == Map::<u64, Seq<u8>>::empty(),
    {
        GrateContext { root: paths::trim_trailing_slashes(root_raw), cwds: CwdTable::new() }
    }

    /// The single entry point of every path-input handler: resolve a raw path
    /// argument of `cage` to the host path the real call must use.
    pub fn chroot_path(&self, raw: &Vec<u8>, cage: u64) -> (r: Vec<u8>)
        requires
            self.wf(),
        ensures
            r@ == chroot_spec(self.root@, self.cwds@, raw@, cage),
    {
        let cwd = self.cwds.get(cage);
        let norm = paths::normalize_path(raw, &cwd);
        paths::to_host(&self.root, &norm)
    }
}

/// What a host path computed by `chroot_spec` looks like from the cage's
/// side: stripping the jail root gives back exactly the normalized virtual
/// path, whatever the raw argument was.
pub proof fn lemma_chroot_roundtrip(
    root: Seq<u8>,
    cwds: Map<u64, Seq<u8>>,
    raw: Seq<u8>,
    cage: u64,
)
    ensures
        paths::to_virtual_spec(root, chroot_spec(root, cwds, raw, cage)) == paths::normalize_spec(
            raw,
            cwd_of(cwds, cage),
        ),
{
    paths::lemma_normalize_abs(raw, cwd_of(cwds, cage));
    paths::lemma_virtual_host_roundtrip(root, paths::normalize_spec(raw, cwd_of(cwds, cage)));
}

} // verus!
