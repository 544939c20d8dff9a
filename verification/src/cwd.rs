//! Per-cage working-directory tracking.
//!
//! The table maps a cage id to the absolute virtual path the cage believes it
//! is in. Entries are created lazily (a cage without one is at `/`), copied
//! from parent to child on process duplication, and never deleted; cage
//! teardown is the external runtime's business.

use vstd::prelude::*;

use crate::paths;
use crate::paths::is_normal;

verus! {

/// The virtual root is a path in normalized form: the assembly of no
/// segments at all.
pub proof fn lemma_root_is_normal()
    ensures
        is_normal(seq![paths::SLASH]),
{
    let segs = Seq::<Seq<u8>>::empty();
    assert(paths::all_plain(segs) && seq![paths::SLASH] == paths::assemble(segs));
}

/// The working directory of a cage that never changed it: the virtual root.
pub open spec fn default_cwd() -> Seq<u8> {
    seq![paths::SLASH]
}

/// The tracked working directory of `cage` under table `m`.
pub open spec fn cwd_of(m: Map<u64, Seq<u8>>, cage: u64) -> Seq<u8> {
    if m.dom().contains(cage) {
        m[cage]
    } else {
        default_cwd()
    }
}

/// Keys appear at most once.
pub open spec fn unique_keys(s: Seq<(u64, Vec<u8>)>) -> bool {
    forall|i: int, j: int| 0 <= i < j < s.len() ==> (#[trigger] s[i]).0 != (#[trigger] s[j]).0
}

/// The map an entry list denotes; later entries would win, though the table
/// keeps keys unique.
pub open spec fn entries_map(s: Seq<(u64, Vec<u8>)>) -> Map<u64, Seq<u8>>
    decreases s.len(),
{
    if s.len() == 0 {
        Map::empty()
    } else {
        entries_map(s.drop_last()).insert(s.last().0, s.last().1@)
    }
}

proof fn lemma_entries_contains(s: Seq<(u64, Vec<u8>)>, k: u64)
    ensures
        entries_map(s).dom().contains(k) <==> exists|i: int|
            0 <= i < s.len() && (#[trigger] s[i]).0 == k,
    decreases s.len(),
{
    if s.len() > 0 {
        lemma_entries_contains(s.drop_last(), k);
        if s.last().0 == k {
            assert(s[s.len() - 1].0 == k);
        } else if entries_map(s).dom().contains(k) {
            let i = choose|i: int| 0 <= i < s.drop_last().len() && (#[trigger] s.drop_last()[i]).0
                == k;
            assert(s[i].0 == k);
        } else {
            if exists|i: int| 0 <= i < s.len() && (#[trigger] s[i]).0 == k {
                let i = choose|i: int| 0 <= i < s.len() && (#[trigger] s[i]).0 == k;
                assert(s.drop_last()[i].0 == k);
            }
        }
    }
}

proof fn lemma_entries_at(s: Seq<(u64, Vec<u8>)>, i: int)
    requires
        0 <= i < s.len(),
        forall|j: int| i < j < s.len() ==> (#[trigger] s[j]).0 != s[i].0,
    ensures
        entries_map(s).dom().contains(s[i].0),
        entries_map(s)[s[i].0] == s[i].1@,
    decreases s.len(),
{
    if i == s.len() - 1 {
    } else {
        assert(s.drop_last()[i] == s[i]);
        lemma_entries_at(s.drop_last(), i);
        assert(s.last() == s[s.len() - 1]);
    }
}

proof fn lemma_entries_update(s: Seq<(u64, Vec<u8>)>, i: int, p: Vec<u8>)
    requires
        0 <= i < s.len(),
        unique_keys(s),
    ensures
        entries_map(s.update(i, (s[i].0, p))) == entries_map(s).insert(s[i].0, p@),
    decreases s.len(),
{
    let t = s.update(i, (s[i].0, p));
    if i == s.len() - 1 {
        assert(t.drop_last() =~= s.drop_last());
        assert(t.last() == (s[i].0, p));
        assert(entries_map(s.drop_last()).insert(s[i].0, p@) =~= entries_map(s).insert(
            s[i].0,
            p@,
        ));
    } else {
        assert(t.drop_last() =~= s.drop_last().update(i, (s[i].0, p)));
        assert(t.last() == s.last());
        assert(s.drop_last()[i] == s[i]);
        lemma_entries_update(s.drop_last(), i, p);
        assert(s.last().0 != s[i].0);
        assert(entries_map(s.drop_last()).insert(s[i].0, p@).insert(s.last().0, s.last().1@)
            =~= entries_map(s.drop_last()).insert(s.last().0, s.last().1@).insert(s[i].0, p@));
    }
}

/// Mapping from cage id to its absolute virtual working directory.
#[derive(Clone)]
pub struct CwdTable {
    entries: Vec<(u64, Vec<u8>)>,
}

impl View for CwdTable {
    type V = Map<u64, Seq<u8>>;

    closed spec fn view(&self) -> Map<u64, Seq<u8>> {
        entries_map(self.entries@)
    }
}

impl CwdTable {
    /// The shape the methods preserve: one entry per cage, and every entry
    /// an absolute virtual path in normalized form — never empty, never
    /// holding a `.` or `..` segment.
    pub closed spec fn wf(&self) -> bool {
        &&& unique_keys(self.entries@)
        &&& forall|k: u64| self@.dom().contains(k) ==> is_normal(#[trigger] self@[k])
    }

    /// An empty table: every cage is at the virtual root.
    pub fn new() -> (t: Self)
        ensures
            t.wf(),
            t@ == Map::<u64, Seq<u8>>::empty(),
    {
        let t = CwdTable { entries: Vec::new() };
        proof {
            assert(t@ =~= Map::<u64, Seq<u8>>::empty());
        }
        t
    }

    /// The tracked working directory of `cage`, defaulting to `/` when the
    /// cage has no entry yet. What comes back is always in normalized form.
    pub fn get(&self, cage: u64) -> (r: Vec<u8>)
        requires
            self.wf(),
        ensures
            r@ == cwd_of(self@, cage),
            is_normal(r@),
    {
        proof {
            lemma_root_is_normal();
        }
        let n = self.entries.len();
        let mut i: usize = 0;
        while i < n
            invariant
                n == self.entries@.len(),
                i <= n,
                self.wf(),
                forall|m: int| 0 <= m < i ==> (#[trigger] self.entries@[m]).0 != cage,
            decreases n - i,
        {
            if self.entries[i].0 == cage {
                proof {
                    lemma_entries_at(self.entries@, i as int);
                    assert(self@.dom().contains(cage));
                    assert(is_normal(self@[cage]));
                    let v = self.entries@[i as int].1@;
                    assert(v.subrange(0, v.len() as int) =~= v);
                }
                return paths::copy_range(&self.entries[i].1, 0, self.entries[i].1.len());
            }
            i += 1;
        }
        proof {
            lemma_entries_contains(self.entries@, cage);
        }
        let mut r: Vec<u8> = Vec::new();
        r.push(paths::SLASH);
        proof {
            assert(r@ =~= default_cwd());
        }
        r
    }

    /// Overwrite (or create) the entry of `cage` with a normalized path.
    pub fn set(&mut self, cage: u64, cwd: Vec<u8>)
        requires
            old(self).wf(),
            is_normal(cwd@),
        ensures
            final(self).wf(),
            final(self)@ == old(self)@.insert(cage, cwd@),
    {
        let ghost orig = self.entries@;
        let n = self.entries.len();
        let mut i: usize = 0;
        while i < n
            invariant
                self.entries@ == orig,
                orig == old(self).entries@,
                old(self).wf(),
                is_normal(cwd@),
                n == orig.len(),
                i <= n,
                unique_keys(orig),
                forall|m: int| 0 <= m < i ==> (#[trigger] orig[m]).0 != cage,
            decreases n - i,
        {
            if self.entries[i].0 == cage {
                self.entries.set(i, (cage, cwd));
                proof {
                    lemma_entries_update(orig, i as int, cwd);
                    assert(orig[i as int].0 == cage);
                    assert((orig[i as int].0, cwd) == (cage, cwd));
                    assert(self.entries@ == orig.update(i as int, (orig[i as int].0, cwd)));
                    assert(entries_map(self.entries@) == entries_map(orig).insert(cage, cwd@));
                    assert(unique_keys(self.entries@)) by {
                        assert(forall|m: int|
                            0 <= m < self.entries@.len() ==> (#[trigger] self.entries@[m]).0
                                == orig[m].0);
                    }
                    assert forall|k: u64| self@.dom().contains(k) implies is_normal(
                        #[trigger] self@[k],
                    ) by {
                        if k != cage {
                            assert(self@[k] == old(self)@[k]);
                        }
                    }
                }
                return ;
            }
            i += 1;
        }
        self.entries.push((cage, cwd));
        proof {
            assert(self.entries@.drop_last() =~= orig);
            assert(self.entries@.last() == (cage, cwd));
            lemma_entries_contains(orig, cage);
            assert(unique_keys(self.entries@)) by {
                assert(forall|m: int|
                    0 <= m < orig.len() ==> #[trigger] self.entries@[m] == orig[m]);
            }
            assert forall|k: u64| self@.dom().contains(k) implies is_normal(
                #[trigger] self@[k],
            ) by {
                if k != cage {
                    assert(self@[k] == old(self)@[k]);
                }
            }
        }
    }

    /// Copy the parent's current working directory to the child, as done on a
    /// successful process duplication before the child can mutate the table.
    pub fn inherit(&mut self, parent: u64, child: u64)
        requires
            old(self).wf(),
        ensures
            final(self).wf(),
            final(self)@ == old(self)@.insert(child, cwd_of(old(self)@, parent)),
    {
        let p = self.get(parent);
        self.set(child, p);
    }
}

/// The tracked working directory survives later changes by the parent: after
/// a duplication copies the parent's entry to a distinct child, setting the
/// parent's entry leaves the child's exactly as it was copied.
pub proof fn lemma_inherit_isolated(
    m: Map<u64, Seq<u8>>,
    parent: u64,
    child: u64,
    later: Seq<u8>,
)
    requires
        parent != child,
    ensures
        cwd_of(m.insert(child, cwd_of(m, parent)).insert(parent, later), child) == cwd_of(
            m,
            parent,
        ),
{
}

} // verus!
