//! Lexical path virtualization.
//!
//! A virtual path is what the cage believes is absolute; a host path is the
//! virtual path normalized and prefixed with the jail root. Everything here is
//! purely lexical: paths are byte strings, split on `/`, with empty and `.`
//! segments dropped and `..` popping the last kept segment (popping past the
//! root is silently absorbed, never an escape).

use vstd::prelude::*;

verus! {

/// The path separator byte, `/`.
pub const SLASH: u8 = 47;

/// The dot byte, `.`.
pub const DOT: u8 = 46;

/// The string terminator byte.
pub const NUL: u8 = 0;

/// The `.` segment, which normalization drops.
pub open spec fn dot_seg() -> Seq<u8> {
    seq![DOT]
}

/// The `..` segment, which normalization resolves by popping.
pub open spec fn dotdot_seg() -> Seq<u8> {
    seq![DOT, DOT]
}

/// A segment that normalization keeps: non-empty, not `.`, not `..`, and free
/// of separators.
pub open spec fn is_plain_seg(seg: Seq<u8>) -> bool {
    &&& seg.len() > 0
    &&& seg != dot_seg()
    &&& seg != dotdot_seg()
    &&& forall|i: int| 0 <= i < seg.len() ==> seg[i] != SLASH
}

/// All segments of a list are plain.
pub open spec fn all_plain(segs: Seq<Seq<u8>>) -> bool {
    forall|i: int| 0 <= i < segs.len() ==> is_plain_seg(#[trigger] segs[i])
}

/// Split a byte string on `/`. The result always has at least one segment;
/// separators at the ends contribute empty segments, exactly as `str::split`.
pub open spec fn split_path(s: Seq<u8>) -> Seq<Seq<u8>>
    decreases s.len(),
{
    if s.len() == 0 {
        seq![Seq::<u8>::empty()]
    } else if s.first() == SLASH {
        seq![Seq::<u8>::empty()] + split_path(s.drop_first())
    } else {
        let rest = split_path(s.drop_first());
        seq![seq![s.first()] + rest.first()] + rest.drop_first()
    }
}

/// One step of the collapse: empty and `.` are dropped, `..` pops the last
/// kept segment if there is one, anything else is kept.
pub open spec fn collapse_step(pre: Seq<Seq<u8>>, seg: Seq<u8>) -> Seq<Seq<u8>> {
    if seg.len() == 0 || seg == dot_seg() {
        pre
    } else if seg == dotdot_seg() {
        if pre.len() == 0 {
            pre
        } else {
            pre.drop_last()
        }
    } else {
        pre.push(seg)
    }
}

/// Left-to-right collapse of raw segments.
pub open spec fn collapse(segs: Seq<Seq<u8>>) -> Seq<Seq<u8>>
    decreases segs.len(),
{
    if segs.len() == 0 {
        Seq::empty()
    } else {
        collapse_step(collapse(segs.drop_last()), segs.last())
    }
}

/// Reassemble segments with a `/` before each one: `join_segs([a, b]) == "/a/b"`.
pub open spec fn join_segs(segs: Seq<Seq<u8>>) -> Seq<u8>
    decreases segs.len(),
{
    if segs.len() == 0 {
        Seq::empty()
    } else {
        join_segs(segs.drop_last()) + seq![SLASH] + segs.last()
    }
}

/// The path a list of kept segments denotes; no segments means the root `/`.
pub open spec fn assemble(segs: Seq<Seq<u8>>) -> Seq<u8> {
    if segs.len() == 0 {
        seq![SLASH]
    } else {
        join_segs(segs)
    }
}

/// An absolute path: non-empty and starting with `/`.
pub open spec fn is_abs(p: Seq<u8>) -> bool {
    p.len() > 0 && p.first() == SLASH
}

/// An absolute path is taken as is; a relative one is interpreted under the
/// working directory.
pub open spec fn combine(p: Seq<u8>, cwd: Seq<u8>) -> Seq<u8> {
    if is_abs(p) {
        p
    } else {
        cwd + seq![SLASH] + p
    }
}

/// The kept segments of `p` resolved under working directory `cwd`.
pub open spec fn norm_segs(p: Seq<u8>, cwd: Seq<u8>) -> Seq<Seq<u8>> {
    collapse(split_path(combine(p, cwd)))
}

/// The normalized form of `p` under working directory `cwd`: absolute, with
/// no empty, `.`, or `..` segments.
pub open spec fn normalize_spec(p: Seq<u8>, cwd: Seq<u8>) -> Seq<u8> {
    assemble(norm_segs(p, cwd))
}

/// A path already in normalized form: some list of plain segments assembles
/// into it.
pub open spec fn is_normal(p: Seq<u8>) -> bool {
    exists|segs: Seq<Seq<u8>>| all_plain(segs) && p == assemble(segs)
}

/// `split_path` never returns an empty list.
pub proof fn lemma_split_len(s: Seq<u8>)
    ensures
        split_path(s).len() >= 1,
    decreases s.len(),
{
    if s.len() > 0 {
        lemma_split_len(s.drop_first());
    }
}

/// No segment produced by `split_path` contains a separator.
pub proof fn lemma_split_no_slash(s: Seq<u8>)
    ensures
        forall|i: int, j: int|
            0 <= i < split_path(s).len() && 0 <= j < split_path(s)[i].len()
                ==> #[trigger] split_path(s)[i][j] != SLASH,
    decreases s.len(),
{
    if s.len() > 0 {
        lemma_split_no_slash(s.drop_first());
        lemma_split_len(s.drop_first());
    }
}

/// A separator-free string splits into the single segment that it is.
pub proof fn lemma_split_whole(s: Seq<u8>)
    requires
        forall|i: int| 0 <= i < s.len() ==> s[i] != SLASH,
    ensures
        split_path(s) =~~= seq![s],
    decreases s.len(),
{
    if s.len() == 0 {
        assert(split_path(s) =~~= seq![s]);
    } else {
        lemma_split_whole(s.drop_first());
        assert(seq![s.first()] + s.drop_first() =~= s);
    }
}

/// Splitting distributes over a separator: the segments of `x / y` are the
/// segments of `x` followed by those of `y`.
pub proof fn lemma_split_append(x: Seq<u8>, y: Seq<u8>)
    ensures
        split_path(x + seq![SLASH] + y) =~~= split_path(x) + split_path(y),
    decreases x.len(),
{
    let whole = x + seq![SLASH] + y;
    if x.len() == 0 {
        assert(whole =~= seq![SLASH] + y);
        assert(whole.first() == SLASH);
        assert(whole.drop_first() =~= y);
    } else {
        lemma_split_append(x.drop_first(), y);
        lemma_split_len(x.drop_first());
        assert(whole.first() == x.first());
        assert(whole.drop_first() =~= x.drop_first() + seq![SLASH] + y);
        let restw = split_path(x.drop_first() + seq![SLASH] + y);
        let restx = split_path(x.drop_first());
        if x.first() == SLASH {
            assert(split_path(whole) =~~= seq![Seq::<u8>::empty()] + restw);
        } else {
            lemma_split_len(x.drop_first() + seq![SLASH] + y);
            assert(restw.first() == restx.first());
            assert(restw.drop_first() =~~= restx.drop_first() + split_path(y));
        }
    }
}

/// Appending a separator ends the current segment and opens an empty one.
pub proof fn lemma_split_push_slash(s: Seq<u8>)
    ensures
        split_path(s.push(SLASH)) =~~= split_path(s) + seq![Seq::<u8>::empty()],
{
    assert(s.push(SLASH) =~= s + seq![SLASH] + Seq::<u8>::empty());
    lemma_split_append(s, Seq::<u8>::empty());
}

/// Appending an ordinary byte extends the current (last) segment.
pub proof fn lemma_split_push_byte(s: Seq<u8>, b: u8)
    requires
        b != SLASH,
    ensures
        split_path(s.push(b)) =~~= split_path(s).drop_last().push(split_path(s).last().push(b)),
    decreases s.len(),
{
    lemma_split_len(s);
    if s.len() == 0 {
        assert(s.push(b).first() == b);
        assert(s.push(b).drop_first() =~= Seq::<u8>::empty());
        let rest = split_path(Seq::<u8>::empty());
        assert(rest =~~= seq![Seq::<u8>::empty()]);
        assert(seq![seq![b] + rest.first()] + rest.drop_first() =~~= seq![seq![b]]);
        assert(split_path(s.push(b)) =~~= seq![seq![b]]);
        assert(split_path(s).drop_last().push(split_path(s).last().push(b)) =~~= seq![seq![b]]);
    } else {
        lemma_split_push_byte(s.drop_first(), b);
        lemma_split_len(s.drop_first());
        assert(s.push(b).first() == s.first());
        assert(s.push(b).drop_first() =~= s.drop_first().push(b));
        let restp = split_path(s.drop_first().push(b));
        let rest = split_path(s.drop_first());
        if s.first() == SLASH {
            assert(split_path(s.push(b)) =~~= seq![Seq::<u8>::empty()] + restp);
            assert(split_path(s) =~~= seq![Seq::<u8>::empty()] + rest);
            assert((seq![Seq::<u8>::empty()] + rest).drop_last() =~~= seq![Seq::<u8>::empty()]
                + rest.drop_last());
        } else {
            if rest.len() == 1 {
                assert(restp =~~= seq![rest.last().push(b)]);
                assert(split_path(s.push(b)) =~~= seq![seq![s.first()] + rest.first().push(b)]);
                assert(split_path(s) =~~= seq![seq![s.first()] + rest.first()]);
                assert((seq![s.first()] + rest.first()).push(b) =~= seq![s.first()]
                    + rest.first().push(b));
            } else {
                assert(restp.first() == rest.first());
                assert(restp.drop_first() =~~= rest.drop_last().drop_first().push(
                    rest.last().push(b),
                ));
                assert(split_path(s.push(b)) =~~= seq![seq![s.first()] + rest.first()]
                    + restp.drop_first());
                assert(split_path(s).drop_last() =~~= seq![seq![s.first()] + rest.first()]
                    + rest.drop_first().drop_last());
                assert(rest.drop_first().drop_last() =~~= rest.drop_last().drop_first());
                assert(split_path(s).last() == rest.last());
            }
        }
    }
}

/// A non-empty list of segments joins into an absolute string.
pub proof fn lemma_join_abs(segs: Seq<Seq<u8>>)
    requires
        segs.len() >= 1,
    ensures
        join_segs(segs).len() >= 1,
        join_segs(segs).first() == SLASH,
    decreases segs.len(),
{
    if segs.len() > 1 {
        lemma_join_abs(segs.drop_last());
        assert(join_segs(segs).first() == join_segs(segs.drop_last()).first());
    } else {
        assert(join_segs(segs.drop_last()) =~= Seq::<u8>::empty());
        assert(join_segs(segs) =~= seq![SLASH] + segs.last());
    }
}

/// Whatever the segments, what `assemble` builds is an absolute path.
pub proof fn lemma_assemble_abs(segs: Seq<Seq<u8>>)
    ensures
        is_abs(assemble(segs)),
{
    if segs.len() == 0 {
        assert(assemble(segs).first() == SLASH);
    } else {
        lemma_join_abs(segs);
    }
}

/// Splitting a joined list of separator-free segments gives one leading empty
/// segment (from the leading `/`) followed by the original segments.
pub proof fn lemma_split_join(segs: Seq<Seq<u8>>)
    requires
        segs.len() >= 1,
        forall|i: int, j: int|
            0 <= i < segs.len() && 0 <= j < segs[i].len() ==> #[trigger] segs[i][j] != SLASH,
    ensures
        split_path(join_segs(segs)) =~~= seq![Seq::<u8>::empty()] + segs,
    decreases segs.len(),
{
    if segs.len() == 1 {
        assert(join_segs(segs.drop_last()) =~= Seq::<u8>::empty());
        assert(join_segs(segs) == Seq::<u8>::empty() + seq![SLASH] + segs.last());
        lemma_split_append(Seq::<u8>::empty(), segs.last());
        assert(forall|j: int| 0 <= j < segs.last().len() ==> segs.last()[j] != SLASH);
        lemma_split_whole(segs.last());
        assert(split_path(join_segs(segs)) =~~= seq![Seq::<u8>::empty()] + seq![segs.last()]);
        assert(seq![Seq::<u8>::empty()] + seq![segs.last()] =~~= seq![Seq::<u8>::empty()] + segs);
    } else {
        assert(forall|i: int, j: int|
            0 <= i < segs.drop_last().len() && 0 <= j < segs.drop_last()[i].len()
                ==> #[trigger] segs.drop_last()[i][j] != SLASH);
        lemma_split_join(segs.drop_last());
        lemma_split_append(join_segs(segs.drop_last()), segs.last());
        assert(forall|j: int| 0 <= j < segs.last().len() ==> segs.last()[j] != SLASH);
        lemma_split_whole(segs.last());
        assert(split_path(join_segs(segs)) =~~= (seq![Seq::<u8>::empty()] + segs.drop_last())
            + seq![segs.last()]);
    }
}

/// Collapsing a leading empty segment followed by plain segments keeps exactly
/// the plain segments.
pub proof fn lemma_collapse_plain(segs: Seq<Seq<u8>>)
    requires
        all_plain(segs),
    ensures
        collapse(seq![Seq::<u8>::empty()] + segs) =~~= segs,
    decreases segs.len(),
{
    let whole = seq![Seq::<u8>::empty()] + segs;
    if segs.len() == 0 {
        assert(whole =~~= seq![Seq::<u8>::empty()]);
        assert(whole.last().len() == 0);
        assert(whole.drop_last() =~~= Seq::<Seq<u8>>::empty());
        assert(collapse(Seq::<Seq<u8>>::empty()) =~~= Seq::<Seq<u8>>::empty());
        assert(collapse(whole) =~~= segs);
    } else {
        assert(all_plain(segs.drop_last()));
        lemma_collapse_plain(segs.drop_last());
        assert(whole.drop_last() =~~= seq![Seq::<u8>::empty()] + segs.drop_last());
        assert(whole.last() == segs.last());
        assert(is_plain_seg(segs.last()));
        assert(collapse(whole) =~~= segs.drop_last().push(segs.last()));
        assert(segs.drop_last().push(segs.last()) =~~= segs);
    }
}

/// Every segment that `collapse` keeps came through its filter: if the raw
/// segments are separator-free, the kept ones are plain.
pub proof fn lemma_collapse_all_plain(segs: Seq<Seq<u8>>)
    requires
        forall|i: int, j: int|
            0 <= i < segs.len() && 0 <= j < segs[i].len() ==> #[trigger] segs[i][j] != SLASH,
    ensures
        all_plain(collapse(segs)),
    decreases segs.len(),
{
    if segs.len() > 0 {
        assert(forall|i: int, j: int|
            0 <= i < segs.drop_last().len() && 0 <= j < segs.drop_last()[i].len()
                ==> #[trigger] segs.drop_last()[i][j] != SLASH);
        lemma_collapse_all_plain(segs.drop_last());
        let pre = collapse(segs.drop_last());
        let last = segs.last();
        if last.len() == 0 || last == dot_seg() {
        } else if last == dotdot_seg() {
            if pre.len() > 0 {
                assert(forall|i: int|
                    0 <= i < pre.drop_last().len() ==> is_plain_seg(#[trigger] pre.drop_last()[i]));
            }
        } else {
            assert(forall|j: int| 0 <= j < last.len() ==> last[j] != SLASH);
            assert(is_plain_seg(last));
            assert(forall|i: int|
                0 <= i < pre.push(last).len() ==> is_plain_seg(#[trigger] pre.push(last)[i]));
        }
    }
}

/// Re-splitting and re-collapsing an assembled list of plain segments gives
/// the same list back: normalization loses nothing that it kept.
pub proof fn lemma_resolve_assembled(segs: Seq<Seq<u8>>)
    requires
        all_plain(segs),
    ensures
        collapse(split_path(assemble(segs))) =~~= segs,
{
    if segs.len() == 0 {
        assert(assemble(segs) =~= Seq::<u8>::empty() + seq![SLASH] + Seq::<u8>::empty());
        lemma_split_append(Seq::<u8>::empty(), Seq::<u8>::empty());
        assert(split_path(assemble(segs)) =~~= seq![Seq::<u8>::empty(), Seq::<u8>::empty()]);
        assert(seq![Seq::<u8>::empty(), Seq::<u8>::empty()] =~~= seq![Seq::<u8>::empty()]
            + seq![Seq::<u8>::empty()]);
        lemma_collapse_plain(seq![Seq::<u8>::empty()].drop_first());
        assert(collapse(seq![Seq::<u8>::empty(), Seq::<u8>::empty()]) =~~= Seq::<Seq<u8>>::empty())
            by {
            let two = seq![Seq::<u8>::empty(), Seq::<u8>::empty()];
            assert(two.drop_last() =~~= seq![Seq::<u8>::empty()]);
            assert(seq![Seq::<u8>::empty()].drop_last() =~~= Seq::<Seq<u8>>::empty());
        }
    } else {
        assert(forall|i: int, j: int|
            0 <= i < segs.len() && 0 <= j < segs[i].len() ==> #[trigger] segs[i][j] != SLASH) by {
            assert(forall|i: int| 0 <= i < segs.len() ==> is_plain_seg(#[trigger] segs[i]));
        }
        lemma_split_join(segs);
        lemma_collapse_plain(segs);
    }
}

/// The segments normalization keeps are always plain, and what it returns is
/// always their assembly.
pub proof fn lemma_norm_segs_plain(p: Seq<u8>, cwd: Seq<u8>)
    ensures
        all_plain(norm_segs(p, cwd)),
{
    lemma_split_no_slash(combine(p, cwd));
    lemma_collapse_all_plain(split_path(combine(p, cwd)));
}

/// Normalization always yields an absolute path: popping `..` past the root
/// never empties the result or removes the leading `/`.
pub proof fn lemma_normalize_abs(p: Seq<u8>, cwd: Seq<u8>)
    ensures
        normalize_spec(p, cwd).len() >= 1,
        normalize_spec(p, cwd).first() == SLASH,
        is_abs(normalize_spec(p, cwd)),
        is_normal(normalize_spec(p, cwd)),
{
    lemma_assemble_abs(norm_segs(p, cwd));
    lemma_norm_segs_plain(p, cwd);
}

/// The host path of a virtual path: the jail root (already free of trailing
/// separators) prepended to it.
pub open spec fn host_of(root: Seq<u8>, vpath: Seq<u8>) -> Seq<u8> {
    root + vpath
}

/// `prefix` is a byte-for-byte prefix of `s`.
pub open spec fn starts_with(s: Seq<u8>, prefix: Seq<u8>) -> bool {
    s.len() >= prefix.len() && s.take(prefix.len() as int) == prefix
}

/// The virtual path of a host path: the jail root stripped when it is a
/// prefix (an empty remainder becomes the root `/`); a host path outside the
/// jail is passed through verbatim.
pub open spec fn to_virtual_spec(root: Seq<u8>, h: Seq<u8>) -> Seq<u8> {
    if starts_with(h, root) {
        if h.len() == root.len() {
            seq![SLASH]
        } else {
            h.skip(root.len() as int)
        }
    } else {
        h
    }
}

/// `s` with all trailing separators removed.
pub open spec fn trim_slashes(s: Seq<u8>) -> Seq<u8>
    decreases s.len(),
{
    if s.len() > 0 && s.last() == SLASH {
        trim_slashes(s.drop_last())
    } else {
        s
    }
}

/// `s` up to but not including its first terminator byte; all of `s` if it
/// has none.
pub open spec fn clip_spec(s: Seq<u8>) -> Seq<u8>
    decreases s.len(),
{
    if s.len() == 0 {
        s
    } else if s.first() == NUL {
        Seq::empty()
    } else {
        seq![s.first()] + clip_spec(s.drop_first())
    }
}

/// Jailing then un-jailing is the identity on normalized paths, whatever the
/// jail root.
pub proof fn lemma_virtual_host_roundtrip(root: Seq<u8>, p: Seq<u8>)
    requires
        is_normal(p),
    ensures
        to_virtual_spec(root, host_of(root, p)) == p,
{
    let segs = choose|segs: Seq<Seq<u8>>| all_plain(segs) && p == assemble(segs);
    lemma_assemble_abs(segs);
    assert((root + p).take(root.len() as int) =~= root);
    assert((root + p).skip(root.len() as int) =~= p);
}

/// What normalization returns is clean: either the bare root `/`, or a path
/// whose segments — after the one empty segment its leading `/` contributes —
/// are exactly the kept segments, none of them empty, `.`, or `..`.
pub proof fn lemma_normalize_clean(p: Seq<u8>, cwd: Seq<u8>)
    ensures
        ({
            let r = normalize_spec(p, cwd);
            let segs = norm_segs(p, cwd);
            r == seq![SLASH] || (split_path(r) == seq![Seq::<u8>::empty()] + segs && all_plain(
                segs,
            ))
        }),
{
    let segs = norm_segs(p, cwd);
    lemma_norm_segs_plain(p, cwd);
    if segs.len() > 0 {
        assert(forall|i: int, j: int|
            0 <= i < segs.len() && 0 <= j < segs[i].len() ==> #[trigger] segs[i][j] != SLASH) by {
            assert(forall|i: int| 0 <= i < segs.len() ==> is_plain_seg(#[trigger] segs[i]));
        }
        lemma_split_join(segs);
    }
}

/// Normalization is idempotent: normalizing a normalized path changes nothing,
/// whatever working directory the second pass uses.
pub proof fn lemma_normalize_idempotent(p: Seq<u8>, cwd: Seq<u8>, cwd2: Seq<u8>)
    ensures
        normalize_spec(normalize_spec(p, cwd), cwd2) == normalize_spec(p, cwd),
{
    let segs = norm_segs(p, cwd);
    let r = normalize_spec(p, cwd);
    lemma_norm_segs_plain(p, cwd);
    lemma_assemble_abs(segs);
    assert(combine(r, cwd2) == r);
    lemma_resolve_assembled(segs);
    assert(norm_segs(r, cwd2) =~~= segs);
}

/// The views of a list of byte vectors.
pub open spec fn seg_views(segs: Seq<Vec<u8>>) -> Seq<Seq<u8>> {
    segs.map_values(|v: Vec<u8>| v@)
}

/// Copy the bytes of `s` from `from` (inclusive) to `to` (exclusive).
pub fn copy_range(s: &Vec<u8>, from: usize, to: usize) -> (r: Vec<u8>)
    requires
        from <= to <= s@.len(),
    ensures
        r@ == s@.subrange(from as int, to as int),
{
    let mut r: Vec<u8> = Vec::new();
    let mut k: usize = from;
    while k < to
        invariant
            from <= k <= to <= s@.len(),
            r@ == s@.subrange(from as int, k as int),
        decreases to - k,
    {
        r.push(s[k]);
        proof {
            assert(s@.subrange(from as int, k + 1) =~= s@.subrange(from as int, k as int).push(
                s@[k as int],
            ));
        }
        k += 1;
    }
    r
}

proof fn lemma_clip_is_prefix(s: Seq<u8>, k: int)
    requires
        0 <= k <= s.len(),
        forall|m: int| 0 <= m < k ==> s[m] != NUL,
        k == s.len() || s[k] == NUL,
    ensures
        clip_spec(s) == s.take(k),
    decreases s.len(),
{
    if s.len() == 0 {
        assert(s.take(k) =~= s);
    } else if s.first() == NUL {
        assert(s.take(0) =~= Seq::<u8>::empty());
    } else {
        lemma_clip_is_prefix(s.drop_first(), k - 1);
        assert(seq![s.first()] + s.drop_first().take(k - 1) =~= s.take(k));
    }
}

/// The path portion of a raw, possibly terminator-padded buffer: everything
/// before the first terminator byte.
pub fn clip_at_nul(s: &Vec<u8>) -> (r: Vec<u8>)
    ensures
        r@ == clip_spec(s@),
{
    let mut k: usize = 0;
    while k < s.len() && s[k] != NUL
        invariant
            k <= s@.len(),
            forall|m: int| 0 <= m < k ==> s@[m] != NUL,
        decreases s@.len() - k,
    {
        k += 1;
    }
    proof {
        lemma_clip_is_prefix(s@, k as int);
    }
    copy_range(s, 0, k)
}

/// Remove all trailing separators, as done to the configured jail root.
pub fn trim_trailing_slashes(s: &Vec<u8>) -> (r: Vec<u8>)
    ensures
        r@ == trim_slashes(s@),
{
    let mut n: usize = s.len();
    proof {
        assert(s@.take(s@.len() as int) =~= s@);
    }
    while n > 0 && s[n - 1] == SLASH
        invariant
            n <= s@.len(),
            trim_slashes(s@) == trim_slashes(s@.take(n as int)),
        decreases n,
    {
        proof {
            assert(s@.take(n as int).last() == SLASH);
            assert(s@.take(n as int).drop_last() =~= s@.take(n - 1));
        }
        n -= 1;
    }
    proof {
        if n > 0 {
            assert(s@.take(n as int).last() != SLASH);
        }
    }
    copy_range(s, 0, n)
}

/// Whether `prefix` is a byte-for-byte prefix of `s`.
pub fn starts_with_bytes(s: &Vec<u8>, prefix: &Vec<u8>) -> (b: bool)
    ensures
        b == starts_with(s@, prefix@),
{
    if s.len() < prefix.len() {
        return false;
    }
    let mut k: usize = 0;
    while k < prefix.len()
        invariant
            k <= prefix@.len() <= s@.len(),
            forall|m: int| 0 <= m < k ==> s@[m] == prefix@[m],
        decreases prefix@.len() - k,
    {
        if s[k] != prefix[k] {
            proof {
                assert(s@.take(prefix@.len() as int)[k as int] != prefix@[k as int]);
            }
            return false;
        }
        k += 1;
    }
    proof {
        assert(s@.take(prefix@.len() as int) =~= prefix@);
    }
    true
}

/// Feed one raw segment into the kept-segment stack: drop it, pop on `..`,
/// or keep it.
fn flush_segment(segs: &mut Vec<Vec<u8>>, cur: Vec<u8>)
    ensures
        seg_views(final(segs)@) == collapse_step(seg_views(old(segs)@), cur@),
{
    let ghost pre = seg_views(segs@);
    if cur.len() == 0 {
    } else if cur.len() == 1 && cur[0] == DOT {
        proof {
            assert(cur@ =~= dot_seg());
        }
    } else if cur.len() == 2 && cur[0] == DOT && cur[1] == DOT {
        proof {
            assert(cur@ =~= dotdot_seg());
        }
        if segs.len() > 0 {
            segs.pop();
            proof {
                assert(seg_views(segs@) =~~= pre.drop_last());
            }
        } else {
            proof {
                assert(pre.len() == 0);
            }
        }
    } else {
        proof {
            assert(cur@ != dot_seg()) by {
                if cur@ == dot_seg() {
                    assert(cur@.len() == 1 && cur@[0] == DOT);
                }
            }
            assert(cur@ != dotdot_seg()) by {
                if cur@ == dotdot_seg() {
                    assert(cur@.len() == 2 && cur@[0] == DOT && cur@[1] == DOT);
                }
            }
        }
        let ghost c = cur@;
        segs.push(cur);
        proof {
            assert(seg_views(segs@) =~~= pre.push(c));
        }
    }
}

/// Normalize a raw path under a working directory: interpret it under `cwd`
/// unless it is already absolute, drop empty and `.` segments, resolve `..`
/// lexically (pops past the root are silently absorbed, never an escape), and
/// reassemble with a single leading `/`.
pub fn normalize_path(path: &Vec<u8>, cwd: &Vec<u8>) -> (r: Vec<u8>)
    ensures
        r@ == normalize_spec(path@, cwd@),
{
    let mut combined: Vec<u8> = Vec::new();
    if path.len() > 0 && path[0] == SLASH {
        combined.extend_from_slice(path.as_slice());
    } else {
        combined.extend_from_slice(cwd.as_slice());
        combined.push(SLASH);
        combined.extend_from_slice(path.as_slice());
    }
    proof {
        assert(combined@ =~= combine(path@, cwd@));
    }
    let ghost comb = combined@;

    // Split on `/` and collapse, in one left-to-right pass.
    let mut segs: Vec<Vec<u8>> = Vec::new();
    let mut cur: Vec<u8> = Vec::new();
    let mut i: usize = 0;
    proof {
        assert(comb.take(0) =~= Seq::<u8>::empty());
        assert(split_path(comb.take(0)).drop_last() =~~= Seq::<Seq<u8>>::empty());
        assert(seg_views(segs@) =~~= collapse(split_path(comb.take(0)).drop_last()));
        assert(cur@ =~= split_path(comb.take(0)).last());
    }
    while i < combined.len()
        invariant
            i <= combined@.len(),
            combined@ == comb,
            seg_views(segs@) == collapse(split_path(comb.take(i as int)).drop_last()),
            cur@ == split_path(comb.take(i as int)).last(),
        decreases combined@.len() - i,
    {
        let ghost pre = comb.take(i as int);
        let b = combined[i];
        proof {
            assert(comb.take(i + 1) =~= pre.push(comb[i as int]));
        }
        if b == SLASH {
            proof {
                lemma_split_push_slash(pre);
                lemma_split_len(pre);
            }
            flush_segment(&mut segs, cur);
            cur = Vec::new();
            proof {
                let sp = split_path(pre);
                assert(collapse(sp) == collapse_step(collapse(sp.drop_last()), sp.last()));
                assert(split_path(comb.take(i + 1)).drop_last() =~~= sp);
                assert(split_path(comb.take(i + 1)).last() =~= Seq::<u8>::empty());
            }
        } else {
            proof {
                lemma_split_push_byte(pre, b);
            }
            cur.push(b);
            proof {
                let sp = split_path(pre);
                assert(split_path(comb.take(i + 1)).drop_last() =~~= sp.drop_last());
                assert(split_path(comb.take(i + 1)).last() == sp.last().push(b));
            }
        }
        i += 1;
    }
    proof {
        assert(comb.take(comb.len() as int) =~= comb);
        lemma_split_len(comb);
    }
    flush_segment(&mut segs, cur);
    proof {
        let sp = split_path(comb);
        assert(collapse(sp) == collapse_step(collapse(sp.drop_last()), sp.last()));
        assert(seg_views(segs@) == norm_segs(path@, cwd@));
    }

    // Reassemble with a `/` before every kept segment.
    let ghost kept = seg_views(segs@);
    let mut out: Vec<u8> = Vec::new();
    if segs.len() == 0 {
        out.push(SLASH);
        proof {
            assert(kept.len() == 0);
            assert(out@ =~= assemble(kept));
        }
    } else {
        proof {
            assert(kept.len() == segs@.len());
        }
        let mut j: usize = 0;
        proof {
            assert(kept.take(0) =~~= Seq::<Seq<u8>>::empty());
        }
        while j < segs.len()
            invariant
                j <= segs@.len(),
                seg_views(segs@) == kept,
                kept.len() == segs@.len(),
                out@ == join_segs(kept.take(j as int)),
            decreases segs@.len() - j,
        {
            out.push(SLASH);
            out.extend_from_slice(segs[j].as_slice());
            proof {
                assert(kept.take(j + 1).drop_last() =~~= kept.take(j as int));
                assert(kept.take(j + 1).last() == kept[j as int]);
                assert(kept[j as int] == segs@[j as int]@);
                assert(out@ =~= join_segs(kept.take(j as int)) + seq![SLASH] + kept[j as int]);
                assert(out@ == join_segs(kept.take(j + 1)));
            }
            j += 1;
        }
        proof {
            assert(kept.take(segs@.len() as int) =~= kept);
            assert(out@ == assemble(kept));
        }
    }
    out
}

/// Prefix a normalized virtual path with the jail root. Purely lexical: no
/// existence check is performed.
pub fn to_host(root: &Vec<u8>, vpath: &Vec<u8>) -> (r: Vec<u8>)
    ensures
        r@ == host_of(root@, vpath@),
{
    let mut r = copy_range(root, 0, root.len());
    r.extend_from_slice(vpath.as_slice());
    proof {
        assert(root@.subrange(0, root@.len() as int) =~= root@);
    }
    r
}

/// Strip the jail root from a host path, passing a path outside the jail
/// through verbatim (such a result escaped the jail on the host side, e.g. a
/// symlink target, and is not rejected).
pub fn to_virtual(root: &Vec<u8>, h: &Vec<u8>) -> (r: Vec<u8>)
    ensures
        r@ == to_virtual_spec(root@, h@),
{
    if starts_with_bytes(h, root) {
        if h.len() == root.len() {
            let mut r: Vec<u8> = Vec::new();
            r.push(SLASH);
            proof {
                assert(r@ =~= seq![SLASH]);
            }
            r
        } else {
            copy_range(h, root.len(), h.len())
        }
    } else {
        copy_range(h, 0, h.len())
    }
}

} // verus!
