use crate::logic::{boundary, local_boundary, Ctx};
use crate::lookup::{class_of, EgcProps};
use vstd::prelude::*;

verus! {

/// The classes of the characters of a text, in order.
pub open spec fn classes(t: Seq<char>) -> Seq<EgcProps> {
    Seq::new(t.len(), |i: int| class_of(t[i] as u32))
}

/// The context after the first `n` classes of `ps`, where `ps` begins at a
/// cluster boundary.
pub open spec fn ctx_after(ps: Seq<EgcProps>, n: int) -> Ctx
    decreases n,
{
    if n <= 0 {
        Ctx::Start
    } else {
        ctx_after(ps, n - 1).spec_step(ps[n - 1])
    }
}

/// Does a scan that began at the start of `ps` find a boundary just before
/// position `i`?
pub open spec fn breaks_before(ps: Seq<EgcProps>, i: int) -> bool {
    0 < i < ps.len() && boundary(ctx_after(ps, i), ps[i - 1], ps[i])
}

/// The first position from `from` on before which the scan finds a boundary;
/// the length of `ps` where there is none.
pub open spec fn scan_from(ps: Seq<EgcProps>, from: int) -> int
    decreases ps.len() - from,
{
    if from >= ps.len() {
        ps.len() as int
    } else if breaks_before(ps, from) {
        from
    } else {
        scan_from(ps, from + 1)
    }
}

/// The number of characters in the first cluster of `ps`: 0 for the empty
/// sequence, else at least 1.
pub open spec fn first_cluster_len(ps: Seq<EgcProps>) -> int {
    scan_from(ps, 1)
}

/// Where the last cluster of `ps` begins, found by walking over the clusters
/// from the front. It is 0 for the empty sequence.
pub open spec fn last_cluster_start(ps: Seq<EgcProps>) -> int
    decreases ps.len(),
{
    let n = first_cluster_len(ps);
    if 0 < n < ps.len() {
        n + last_cluster_start(ps.skip(n))
    } else {
        0
    }
}

/// Is position `i` the edge of a cluster of `ps`? Position 0 is one, and so
/// is the end of each cluster.
pub open spec fn is_cluster_edge(ps: Seq<EgcProps>, i: int) -> bool
    decreases ps.len(),
{
    let n = first_cluster_len(ps);
    if i == 0 {
        true
    } else if 0 < n <= i <= ps.len() {
        is_cluster_edge(ps.skip(n), i - n)
    } else {
        false
    }
}

/// What the classes on both sides of position `i` say of a boundary there.
pub open spec fn local_at(ps: Seq<EgcProps>, i: int) -> Option<bool> {
    local_boundary(ps[i - 1], ps[i])
}

/// The last position at or before `i` where the two neighbours alone make a
/// boundary; 0 where there is none.
pub open spec fn last_local_from(ps: Seq<EgcProps>, i: int) -> int
    decreases i,
{
    if i <= 0 {
        0
    } else if local_at(ps, i) == Some(true) {
        i
    } else {
        last_local_from(ps, i - 1)
    }
}

/// The last position inside `ps` where the two neighbours alone make a
/// boundary; 0 where there is none.
pub open spec fn last_local_break(ps: Seq<EgcProps>) -> int {
    last_local_from(ps, ps.len() - 1)
}

/// Is there a position strictly between `lo` and `hi` where the neighbours
/// alone cannot decide?
pub open spec fn undecided_between(ps: Seq<EgcProps>, lo: int, hi: int) -> bool {
    exists|j: int| lo < j < hi && (#[trigger] local_at(ps, j)) is None
}

/// What the scan finds: the first position from `from` on with a boundary
/// before it, and no such position before that one.
pub proof fn lemma_scan_bounds(ps: Seq<EgcProps>, from: int)
    requires
        from <= ps.len(),
    ensures
        from <= scan_from(ps, from) <= ps.len(),
        forall|j: int| from <= j < scan_from(ps, from) ==> !breaks_before(ps, j),
        scan_from(ps, from) < ps.len() ==> breaks_before(ps, scan_from(ps, from)),
    decreases ps.len() - from,
{
    if from < ps.len() && !breaks_before(ps, from) {
        lemma_scan_bounds(ps, from + 1);
    }
}

/// The first cluster of a text that is not empty holds at least one
/// character and no more than the text.
pub proof fn lemma_first_cluster_bounds(ps: Seq<EgcProps>)
    ensures
        ps.len() == 0 ==> first_cluster_len(ps) == 0,
        ps.len() > 0 ==> 1 <= first_cluster_len(ps) <= ps.len(),
{
    if ps.len() > 0 {
        lemma_scan_bounds(ps, 1);
    }
}

/// A scan is decided by what it has read: a sequence that agrees with `ps`
/// on the first `m` classes has the same contexts there.
pub proof fn lemma_ctx_prefix(ps: Seq<EgcProps>, qs: Seq<EgcProps>, m: int, n: int)
    requires
        0 <= n <= m <= ps.len(),
        m <= qs.len(),
        forall|j: int| 0 <= j < m ==> ps[j] == qs[j],
    ensures
        ctx_after(ps, n) == ctx_after(qs, n),
    decreases n,
{
    if n > 0 {
        lemma_ctx_prefix(ps, qs, m, n - 1);
    }
}

/// The scan of a prefix finds what the scan of the text finds, or stops where
/// the prefix ends.
proof fn lemma_scan_prefix(ps: Seq<EgcProps>, m: int, from: int)
    requires
        1 <= from <= m <= ps.len(),
    ensures
        scan_from(ps.take(m), from) == if scan_from(ps, from) < m {
            scan_from(ps, from)
        } else {
            m
        },
    decreases m - from,
{
    let qs = ps.take(m);
    if from < m {
        lemma_ctx_prefix(ps, qs, m, from);
        assert(breaks_before(qs, from) == breaks_before(ps, from));
        if !breaks_before(ps, from) {
            lemma_scan_prefix(ps, m, from + 1);
        }
    } else {
        lemma_scan_bounds(ps, from);
    }
}

/// The first cluster of a prefix is the first cluster of the text, cut off
/// where the prefix ends.
pub proof fn lemma_first_cluster_prefix(ps: Seq<EgcProps>, m: int)
    requires
        0 <= m <= ps.len(),
    ensures
        first_cluster_len(ps.take(m)) == if first_cluster_len(ps) < m {
            first_cluster_len(ps)
        } else {
            m
        },
{
    if m >= 1 {
        lemma_scan_prefix(ps, m, 1);
    } else {
        lemma_first_cluster_bounds(ps);
    }
}

/// From the edge of a cluster the walk goes on as on a text of its own: the
/// next cluster ends at another edge, and it is the last cluster of the text
/// up to there.
pub proof fn lemma_cluster_step(ps: Seq<EgcProps>, i: int)
    requires
        0 <= i < ps.len(),
        is_cluster_edge(ps, i),
    ensures
        i < i + first_cluster_len(ps.skip(i)) <= ps.len(),
        is_cluster_edge(ps, i + first_cluster_len(ps.skip(i))),
        last_cluster_start(ps.take(i + first_cluster_len(ps.skip(i)))) == i,
    decreases ps.len(),
{
    let e = i + first_cluster_len(ps.skip(i));
    let n = first_cluster_len(ps);
    lemma_first_cluster_bounds(ps.skip(i));
    if i == 0 {
        assert(ps.skip(0) =~= ps);
        lemma_first_cluster_prefix(ps, e);
        assert(is_cluster_edge(ps.skip(n), 0));
    } else {
        let rest = ps.skip(n);
        assert(rest.skip(i - n) =~= ps.skip(i));
        lemma_cluster_step(rest, i - n);
        assert(is_cluster_edge(rest, e - n));
        lemma_first_cluster_prefix(ps, e);
        assert(ps.take(e).skip(n) =~= rest.take(e - n));
    }
}

/// A boundary that two neighbours make by themselves is the edge of a
/// cluster, whatever came before.
pub proof fn lemma_local_break_is_edge(ps: Seq<EgcProps>, c: int)
    requires
        0 <= c < ps.len(),
        c == 0 || local_at(ps, c) == Some(true),
    ensures
        is_cluster_edge(ps, c),
    decreases ps.len(),
{
    if c > 0 {
        let n = first_cluster_len(ps);
        lemma_scan_bounds(ps, 1);
        assert(breaks_before(ps, c));
        let rest = ps.skip(n);
        if c > n {
            assert(local_at(rest, c - n) == local_at(ps, c));
        }
        lemma_local_break_is_edge(rest, c - n);
    }
}

/// A scan that meets no boundary goes on to the end.
proof fn lemma_scan_without_break(ps: Seq<EgcProps>, from: int)
    requires
        1 <= from <= ps.len(),
        forall|j: int| from <= j < ps.len() ==> !breaks_before(ps, j),
    ensures
        scan_from(ps, from) == ps.len(),
    decreases ps.len() - from,
{
    if from < ps.len() {
        lemma_scan_without_break(ps, from + 1);
    }
}

/// Where the neighbours at every position after `c` say that there is no
/// boundary, the text from `c` on is one cluster.
pub proof fn lemma_joined_run(ps: Seq<EgcProps>, c: int)
    requires
        0 <= c < ps.len(),
        forall|j: int| c < j < ps.len() ==> #[trigger] local_at(ps, j) == Some(false),
    ensures
        first_cluster_len(ps.skip(c)) == ps.len() - c,
{
    let qs = ps.skip(c);
    assert forall|j: int| 1 <= j < qs.len() implies !breaks_before(qs, j) by {
        assert(local_at(ps, c + j) == Some(false));
        assert(local_at(qs, j) == local_at(ps, c + j));
    }
    lemma_scan_without_break(qs, 1);
}

/// What the backward search for a local boundary finds: a position where the
/// neighbours make a boundary, or 0, and no such position after it.
pub proof fn lemma_last_local_from(ps: Seq<EgcProps>, i: int)
    requires
        i < ps.len(),
    ensures
        0 <= last_local_from(ps, i),
        last_local_from(ps, i) <= i || last_local_from(ps, i) == 0,
        last_local_from(ps, i) > 0 ==> local_at(ps, last_local_from(ps, i)) == Some(true),
        forall|j: int|
            last_local_from(ps, i) < j <= i ==> #[trigger] local_at(ps, j) != Some(true),
    decreases i,
{
    if i > 0 && local_at(ps, i) != Some(true) {
        lemma_last_local_from(ps, i - 1);
    }
}

/// The last local boundary is the edge of a cluster. Where the neighbours
/// decide at every position after it, it is where the last cluster begins.
pub proof fn lemma_last_local_break(ps: Seq<EgcProps>)
    requires
        ps.len() > 0,
    ensures
        0 <= last_local_break(ps) < ps.len(),
        is_cluster_edge(ps, last_local_break(ps)),
        !undecided_between(ps, last_local_break(ps), ps.len() as int) ==> last_cluster_start(ps)
            == last_local_break(ps),
{
    let c = last_local_break(ps);
    lemma_last_local_from(ps, ps.len() - 1);
    lemma_local_break_is_edge(ps, c);
    if !undecided_between(ps, c, ps.len() as int) {
        assert forall|j: int| c < j < ps.len() implies #[trigger] local_at(ps, j) == Some(
            false,
        ) by {
            assert(local_at(ps, j) != Some(true));
            assert(!(local_at(ps, j) is None));
        }
        lemma_joined_run(ps, c);
        lemma_cluster_step(ps, c);
        assert(ps.take(ps.len() as int) =~= ps);
    }
}

/// The last cluster of a text that is not empty begins inside the text.
pub proof fn lemma_last_cluster_start_bounds(ps: Seq<EgcProps>)
    ensures
        0 <= last_cluster_start(ps),
        ps.len() > 0 ==> last_cluster_start(ps) < ps.len(),
    decreases ps.len(),
{
    let n = first_cluster_len(ps);
    if 0 < n < ps.len() {
        lemma_last_cluster_start_bounds(ps.skip(n));
    }
}

} // verus!
