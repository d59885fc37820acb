use crate::cluster::{
    classes, first_cluster_len, is_cluster_edge, last_cluster_start, lemma_cluster_step,
    lemma_first_cluster_bounds, lemma_first_cluster_prefix, lemma_last_cluster_start_bounds,
};
use crate::encoding::{byte_pos, lemma_byte_pos_increases};
use crate::lookup::EgcProps;
use vstd::prelude::*;

verus! {

/// The positions at which the clusters end that a forward walk from
/// position `a` passes, in the order of the walk.
pub open spec fn ends_from(ps: Seq<EgcProps>, a: int) -> Seq<int>
    decreases ps.len() - a,
{
    if 0 <= a < ps.len() {
        proof {
            lemma_first_cluster_bounds(ps.skip(a));
        }
        let e = a + first_cluster_len(ps.skip(a));
        seq![e] + ends_from(ps, e)
    } else {
        seq![]
    }
}

/// The positions that a forward walk over the whole text gives: the end of
/// each cluster, rising.
pub open spec fn forward_ends(ps: Seq<EgcProps>) -> Seq<int> {
    ends_from(ps, 0)
}

/// The positions at which the clusters begin that a backward walk from
/// position `k` passes, in the order of the walk.
pub open spec fn starts_from(ps: Seq<EgcProps>, k: int) -> Seq<int>
    decreases k,
{
    if 0 < k <= ps.len() {
        proof {
            lemma_last_cluster_start_bounds(ps.take(k));
        }
        let j = last_cluster_start(ps.take(k));
        seq![j] + starts_from(ps, j)
    } else {
        seq![]
    }
}

/// The positions that a backward walk over the whole text gives: the start
/// of each cluster, falling.
pub open spec fn backward_starts(ps: Seq<EgcProps>) -> Seq<int> {
    starts_from(ps, ps.len() as int)
}

/// The byte offsets of the character positions `idx` in the text.
pub open spec fn offsets_of(t: Seq<char>, idx: Seq<int>) -> Seq<int> {
    Seq::new(idx.len(), |i: int| byte_pos(t, idx[i]))
}

/// The byte offsets that a forward walk over the text gives.
pub open spec fn forward_offsets(t: Seq<char>) -> Seq<int> {
    offsets_of(t, forward_ends(classes(t)))
}

/// The byte offsets that a backward walk over the text gives.
pub open spec fn backward_offsets(t: Seq<char>) -> Seq<int> {
    offsets_of(t, backward_starts(classes(t)))
}

/// The clusters of the text, from the first to the last.
pub open spec fn forward_clusters(t: Seq<char>) -> Seq<Seq<char>>
    decreases t.len(),
{
    if t.len() > 0 {
        proof {
            lemma_first_cluster_bounds(classes(t));
        }
        let n = first_cluster_len(classes(t));
        seq![t.take(n)] + forward_clusters(t.skip(n))
    } else {
        seq![]
    }
}

/// The clusters of the text as a backward walk gives them, from the last to
/// the first.
pub open spec fn backward_clusters(t: Seq<char>) -> Seq<Seq<char>>
    decreases t.len(),
{
    if t.len() > 0 {
        proof {
            lemma_last_cluster_start_bounds(classes(t));
        }
        let j = last_cluster_start(classes(t));
        seq![t.skip(j)] + backward_clusters(t.take(j))
    } else {
        seq![]
    }
}

/// The ends of the clusters rise strictly, each lies after the start of the
/// walk and within the text, and the last one is the end of the text.
pub proof fn lemma_ends_from_rise(ps: Seq<EgcProps>, a: int)
    requires
        0 <= a <= ps.len(),
    ensures
        forall|i: int|
            0 <= i < ends_from(ps, a).len() ==> a < #[trigger] ends_from(ps, a)[i] <= ps.len(),
        forall|i: int, j: int|
            #![trigger ends_from(ps, a)[i], ends_from(ps, a)[j]]
            0 <= i < j < ends_from(ps, a).len() ==> ends_from(ps, a)[i] < ends_from(ps, a)[j],
        a < ps.len() ==> ends_from(ps, a).len() > 0 && ends_from(ps, a).last() == ps.len(),
        a == ps.len() ==> ends_from(ps, a).len() == 0,
    decreases ps.len() - a,
{
    if a < ps.len() {
        lemma_first_cluster_bounds(ps.skip(a));
        let e = a + first_cluster_len(ps.skip(a));
        lemma_ends_from_rise(ps, e);
        let tail = ends_from(ps, e);
        let all = ends_from(ps, a);
        assert(all =~= seq![e] + tail);
        assert forall|i: int| 0 <= i < all.len() implies a < #[trigger] all[i] <= ps.len() by {
            if i > 0 {
                assert(all[i] == tail[i - 1]);
            }
        }
        assert forall|i: int, j: int|
            #![trigger all[i], all[j]]
            0 <= i < j < all.len() implies all[i] < all[j] by {
            assert(all[j] == tail[j - 1]);
            if i > 0 {
                assert(all[i] == tail[i - 1]);
            }
        }
    }
}

/// A forward walk gives offsets that rise strictly, and the last one is the
/// length of the text.
pub proof fn lemma_forward_ends_rise(ps: Seq<EgcProps>)
    ensures
        forall|i: int|
            0 <= i < forward_ends(ps).len() ==> 0 < #[trigger] forward_ends(ps)[i] <= ps.len(),
        forall|i: int, j: int|
            #![trigger forward_ends(ps)[i], forward_ends(ps)[j]]
            0 <= i < j < forward_ends(ps).len() ==> forward_ends(ps)[i] < forward_ends(ps)[j],
        ps.len() > 0 ==> forward_ends(ps).len() > 0 && forward_ends(ps).last() == ps.len(),
        ps.len() == 0 ==> forward_ends(ps).len() == 0,
{
    lemma_ends_from_rise(ps, 0);
}

/// In bytes too, a forward walk gives offsets that rise strictly, and the
/// last one is the length of the encoded text.
pub proof fn lemma_forward_offsets_rise(t: Seq<char>)
    ensures
        forall|i: int| 0 <= i < forward_offsets(t).len() ==> 0 < #[trigger] forward_offsets(t)[i],
        forall|i: int, j: int|
            #![trigger forward_offsets(t)[i], forward_offsets(t)[j]]
            0 <= i < j < forward_offsets(t).len() ==> forward_offsets(t)[i] < forward_offsets(t)[j],
        t.len() > 0 ==> forward_offsets(t).len() > 0 && forward_offsets(t).last() == byte_pos(
            t,
            t.len() as int,
        ),
        t.len() == 0 ==> forward_offsets(t).len() == 0,
{
    let ends = forward_ends(classes(t));
    lemma_forward_ends_rise(classes(t));
    assert forall|i: int| 0 <= i < forward_offsets(t).len() implies 0
        < #[trigger] forward_offsets(t)[i] by {
        assert(0 < ends[i] <= t.len());
        lemma_byte_pos_increases(t, 0, ends[i]);
    }
    assert forall|i: int, j: int|
        #![trigger forward_offsets(t)[i], forward_offsets(t)[j]]
        0 <= i < j < forward_offsets(t).len() implies forward_offsets(t)[i] < forward_offsets(
        t,
    )[j] by {
        assert(0 < ends[i] < ends[j]);
        lemma_byte_pos_increases(t, ends[i], ends[j]);
    }
}

/// The clusters of a forward walk, put in a row, are the text.
pub proof fn lemma_forward_clusters_concat(t: Seq<char>)
    ensures
        forward_clusters(t).flatten() == t,
        forall|i: int|
            0 <= i < forward_clusters(t).len() ==> (#[trigger] forward_clusters(t)[i]).len() > 0,
    decreases t.len(),
{
    if t.len() > 0 {
        lemma_first_cluster_bounds(classes(t));
        let n = first_cluster_len(classes(t));
        let rest = forward_clusters(t.skip(n));
        lemma_forward_clusters_concat(t.skip(n));
        let all = forward_clusters(t);
        assert(all =~= seq![t.take(n)] + rest);
        assert(all.drop_first() =~= rest);
        assert(all.flatten() =~= t.take(n) + t.skip(n));
        assert(t.take(n) + t.skip(n) =~= t);
        assert forall|i: int| 0 <= i < all.len() implies (#[trigger] all[i]).len() > 0 by {
            if i > 0 {
                assert(all[i] == rest[i - 1]);
            }
        }
    } else {
        assert(forward_clusters(t).flatten() =~= t);
    }
}

/// The clusters of a text are those of the text before its last cluster, and
/// the last cluster.
pub proof fn lemma_forward_clusters_last(t: Seq<char>)
    requires
        t.len() > 0,
    ensures
        forward_clusters(t) == forward_clusters(t.take(last_cluster_start(classes(t)))).push(
            t.skip(last_cluster_start(classes(t))),
        ),
    decreases t.len(),
{
    let ps = classes(t);
    let n = first_cluster_len(ps);
    let j = last_cluster_start(ps);
    lemma_first_cluster_bounds(ps);
    if n < t.len() {
        let rest = t.skip(n);
        assert(classes(rest) =~= ps.skip(n));
        let j2 = last_cluster_start(classes(rest));
        lemma_last_cluster_start_bounds(classes(rest));
        lemma_forward_clusters_last(rest);
        let head = t.take(j);
        assert(classes(head) =~= ps.take(j));
        lemma_first_cluster_prefix(ps, j);
        assert(head.take(n) =~= t.take(n));
        assert(head.skip(n) =~= rest.take(j2));
        assert(rest.skip(j2) =~= t.skip(j));
        assert(forward_clusters(head) =~= seq![t.take(n)] + forward_clusters(rest.take(j2)));
        assert(forward_clusters(t) =~= forward_clusters(head).push(t.skip(j)));
    } else {
        assert(t.take(n) =~= t);
        assert(t.skip(0) =~= t);
        assert(forward_clusters(t.skip(n)) =~= Seq::<Seq<char>>::empty());
        assert(forward_clusters(t.take(0)) =~= Seq::<Seq<char>>::empty());
        assert(forward_clusters(t) =~= forward_clusters(t.take(j)).push(t.skip(j)));
    }
}

/// A backward walk gives the clusters of a forward walk, in reverse order.
pub proof fn lemma_backward_clusters_reverse(t: Seq<char>)
    ensures
        backward_clusters(t).reverse() == forward_clusters(t),
    decreases t.len(),
{
    if t.len() > 0 {
        let j = last_cluster_start(classes(t));
        lemma_last_cluster_start_bounds(classes(t));
        lemma_backward_clusters_reverse(t.take(j));
        lemma_forward_clusters_last(t);
        let back = backward_clusters(t);
        let inner = backward_clusters(t.take(j));
        assert(back =~= seq![t.skip(j)] + inner);
        assert(back.reverse() =~= inner.reverse().push(t.skip(j)));
    } else {
        assert(backward_clusters(t).reverse() =~= forward_clusters(t));
    }
}

/// The clusters of a backward walk, put in a row from the last one given to
/// the first, are the text.
pub proof fn lemma_backward_clusters_concat(t: Seq<char>)
    ensures
        backward_clusters(t).reverse().flatten() == t,
{
    lemma_backward_clusters_reverse(t);
    lemma_forward_clusters_concat(t);
}

/// From an edge on, the backward walk over the whole text gives the ends of
/// the forward walk in reverse, then the edge, then what lies before it.
proof fn lemma_starts_meet_ends(ps: Seq<EgcProps>, a: int)
    requires
        0 <= a < ps.len(),
        is_cluster_edge(ps, a),
    ensures
        backward_starts(ps) == ends_from(ps, a).drop_last().reverse() + seq![a] + starts_from(
            ps,
            a,
        ),
    decreases ps.len() - a,
{
    let len = ps.len() as int;
    let e = a + first_cluster_len(ps.skip(a));
    lemma_cluster_step(ps, a);
    let tail = ends_from(ps, e);
    let all = ends_from(ps, a);
    assert(all =~= seq![e] + tail);
    assert(starts_from(ps, e) =~= seq![a] + starts_from(ps, a));
    if e < len {
        lemma_starts_meet_ends(ps, e);
        assert(all.drop_last() =~= seq![e] + tail.drop_last());
        assert(all.drop_last().reverse() =~= tail.drop_last().reverse() + seq![e]);
        assert(backward_starts(ps) =~= all.drop_last().reverse() + seq![a] + starts_from(ps, a));
    } else {
        assert(all.drop_last() =~= Seq::<int>::empty());
        assert(all.drop_last().reverse() =~= Seq::<int>::empty());
        assert(backward_starts(ps) =~= all.drop_last().reverse() + seq![a] + starts_from(ps, a));
    }
}

/// A backward walk gives the positions of a forward walk in reverse order:
/// both pass the same boundaries inside the text. The backward walk ends
/// with the start of the text, where the forward walk ends with its end.
pub proof fn lemma_backward_reverses_forward(ps: Seq<EgcProps>)
    ensures
        ps.len() == 0 ==> backward_starts(ps).len() == 0 && forward_ends(ps).len() == 0,
        ps.len() > 0 ==> backward_starts(ps) == forward_ends(ps).drop_last().reverse().push(0),
        ps.len() > 0 ==> backward_starts(ps).reverse().push(ps.len() as int) == seq![0int]
            + forward_ends(ps),
{
    if ps.len() > 0 {
        lemma_starts_meet_ends(ps, 0);
        lemma_ends_from_rise(ps, 0);
        let ends = forward_ends(ps);
        let back = backward_starts(ps);
        assert(starts_from(ps, 0) =~= Seq::<int>::empty());
        assert(back =~= ends.drop_last().reverse().push(0));
        assert(back.reverse().push(ps.len() as int) =~= seq![0int] + ends);
    }
}

/// In bytes too, a backward walk gives the offsets of a forward walk in
/// reverse order, with the start of the text in place of its end.
pub proof fn lemma_backward_offsets_reverse_forward(t: Seq<char>)
    ensures
        t.len() == 0 ==> backward_offsets(t).len() == 0 && forward_offsets(t).len() == 0,
        t.len() > 0 ==> backward_offsets(t) == forward_offsets(t).drop_last().reverse().push(0),
        t.len() > 0 ==> backward_offsets(t).reverse().push(byte_pos(t, t.len() as int)) == seq![
            0int,
        ] + forward_offsets(t),
{
    let ps = classes(t);
    lemma_backward_reverses_forward(ps);
    lemma_forward_ends_rise(ps);
    if t.len() > 0 {
        let ends = forward_ends(ps);
        let back = backward_starts(ps);
        assert(back.len() == ends.len());
        assert(backward_offsets(t) =~= forward_offsets(t).drop_last().reverse().push(0)) by {
            assert forall|i: int| 0 <= i < back.len() implies backward_offsets(t)[i]
                == forward_offsets(t).drop_last().reverse().push(0)[i] by {
                if i < back.len() - 1 {
                    assert(back[i] == ends.drop_last().reverse()[i]);
                }
            }
        }
        assert(backward_offsets(t).reverse().push(byte_pos(t, t.len() as int)) =~= seq![0int]
            + forward_offsets(t));
    }
}

/// Two forward walks over the same text give the same offsets.
pub proof fn lemma_forward_walk_deterministic(s: Seq<char>, t: Seq<char>)
    requires
        s =~= t,
    ensures
        forward_offsets(s) == forward_offsets(t),
        forward_clusters(s) == forward_clusters(t),
{
}

} // verus!
