use crate::cluster::{
    breaks_before, first_cluster_len, is_cluster_edge, last_cluster_start, lemma_cluster_step,
    lemma_first_cluster_bounds, lemma_scan_bounds, local_at,
};
use crate::walk::{ends_from, forward_ends};
use crate::context::{
    carries_conjunct, conjunct_from, conjunct_open, emoji_from, emoji_joined, emoji_open,
    indicators_before, lemma_ctx_is_open_rule, linker_between,
};
use crate::lookup::EgcProps;
use vstd::prelude::*;

verus! {

/// Do the rules join the characters at the positions `i - 1` and `i` of the
/// text, so that no boundary lies between them?
///
/// The two classes decide where they can. Else a consonant is joined to a
/// conjunct that has a linker, a pictograph to an emoji sequence that ends
/// in a joiner, and a regional indicator to an odd number of regional
/// indicators before it, wherever in the text these began.
pub open spec fn joined_by_rule(ps: Seq<EgcProps>, i: int) -> bool {
    match local_at(ps, i) {
        Some(b) => !b,
        None => {
            ||| (ps[i] == EgcProps::IN_CO && conjunct_open(ps, i, true))
            ||| (ps[i] == EgcProps::EP && emoji_joined(ps, i))
            ||| (ps[i] == EgcProps::RI && indicators_before(ps, i) % 2 == 1)
        },
    }
}

/// Position `a` is the start of the text or a boundary by the rules.
pub open spec fn starts_by_rule(ps: Seq<EgcProps>, a: int) -> bool {
    a == 0 || (0 < a < ps.len() && !joined_by_rule(ps, a))
}

/// What is open after `w` classes of the text from position `a` on is open
/// in the whole text.
proof fn lemma_open_in_rest(ps: Seq<EgcProps>, a: int, w: int)
    requires
        0 <= a,
        0 <= w,
        a + w <= ps.len(),
    ensures
        forall|j: int| #[trigger]
            conjunct_from(ps.skip(a), j, w) <==> j >= 0 && conjunct_from(ps, j + a, w + a),
        forall|j: int| #[trigger]
            emoji_from(ps.skip(a), j, w) <==> j >= 0 && emoji_from(ps, j + a, w + a),
        forall|j: int|
            j >= 0 ==> (#[trigger] linker_between(ps.skip(a), j, w) <==> linker_between(
                ps,
                j + a,
                w + a,
            )),
{
    let qs = ps.skip(a);
    let n = w + a;
    assert forall|j: int| #[trigger]
        conjunct_from(qs, j, w) <==> j >= 0 && conjunct_from(ps, j + a, n) by {
        if conjunct_from(qs, j, w) {
            assert forall|m: int| j + a < m < n implies carries_conjunct(#[trigger] ps[m]) by {
                assert(carries_conjunct(qs[m - a]));
            }
        }
        if j >= 0 && conjunct_from(ps, j + a, n) {
            assert forall|m: int| j < m < w implies carries_conjunct(#[trigger] qs[m]) by {
                assert(carries_conjunct(ps[m + a]));
            }
        }
    }
    assert forall|j: int| #[trigger]
        emoji_from(qs, j, w) <==> j >= 0 && emoji_from(ps, j + a, n) by {
        if emoji_from(qs, j, w) {
            assert forall|m: int| j + a < m < n implies (#[trigger] ps[m]).spec_is_gcb_ex() by {
                assert(qs[m - a].spec_is_gcb_ex());
            }
        }
        if j >= 0 && emoji_from(ps, j + a, n) {
            assert forall|m: int| j < m < w implies (#[trigger] qs[m]).spec_is_gcb_ex() by {
                assert(ps[m + a].spec_is_gcb_ex());
            }
        }
    }
    assert forall|j: int| j >= 0 implies (#[trigger] linker_between(qs, j, w)
        <==> linker_between(ps, j + a, n)) by {
        if linker_between(qs, j, w) {
            let m = choose|m: int| j < m < w && #[trigger] qs[m] == EgcProps::IN_LI;
            assert(j + a < m + a < n && ps[m + a] == EgcProps::IN_LI);
        }
        if linker_between(ps, j + a, n) {
            let m = choose|m: int| j + a < m < n && #[trigger] ps[m] == EgcProps::IN_LI;
            assert(j < m - a < w && qs[m - a] == EgcProps::IN_LI);
        }
    }
}

/// A run of regional indicators that ends at position `n` and began at or
/// after position `a` is as long in the text from `a` on as in the whole
/// text; one that began before `a` is longer by the run that ends at `a`.
proof fn lemma_indicators_in_rest(ps: Seq<EgcProps>, a: int, n: int)
    requires
        0 <= a <= n <= ps.len(),
    ensures
        indicators_before(ps.skip(a), n - a) == n - a ==> indicators_before(ps, n) == n - a
            + indicators_before(ps, a),
        indicators_before(ps.skip(a), n - a) != n - a ==> indicators_before(ps, n)
            == indicators_before(ps.skip(a), n - a),
        0 <= indicators_before(ps.skip(a), n - a) <= n - a,
        indicators_before(ps.skip(a), n - a) == n - a && a < n ==> ps[a] == EgcProps::RI,
    decreases n - a,
{
    if n > a {
        lemma_indicators_in_rest(ps, a, n - 1);
        assert(ps.skip(a)[n - a - 1] == ps[n - 1]);
    }
}

/// A scan that begins at a boundary decides as the rules do on the whole
/// text: what the rules look back for never lies before the boundary.
pub proof fn lemma_scan_follows_rules(ps: Seq<EgcProps>, a: int, i: int)
    requires
        0 <= a < i < ps.len(),
        starts_by_rule(ps, a),
    ensures
        breaks_before(ps.skip(a), i - a) <==> !joined_by_rule(ps, i),
{
    let qs = ps.skip(a);
    let m = i - a;
    assert(qs[m - 1] == ps[i - 1] && qs[m] == ps[i]);
    lemma_ctx_is_open_rule(qs, m);
    if local_at(ps, i) is None {
        if ps[i] == EgcProps::IN_CO {
            lemma_open_in_rest(ps, a, m);
            if conjunct_open(qs, m, true) {
                let j = choose|j: int| #[trigger]
                    conjunct_from(qs, j, m) && linker_between(qs, j, m);
                assert(conjunct_from(ps, j + a, i));
            }
            if conjunct_open(ps, i, true) {
                let j = choose|j: int| #[trigger]
                    conjunct_from(ps, j, i) && linker_between(ps, j, i);
                if j < a {
                    assert(carries_conjunct(ps[a]));
                    if j < a - 1 {
                        assert(carries_conjunct(ps[a - 1]));
                    }
                    assert(local_at(ps, a) == Some(false));
                } else {
                    assert(conjunct_from(qs, j - a, m));
                }
            }
        } else if ps[i] == EgcProps::EP {
            if emoji_joined(qs, m) {
                lemma_open_in_rest(ps, a, m - 1);
                let j = choose|j: int| #[trigger] emoji_from(qs, j, m - 1);
                assert(emoji_from(ps, j + a, i - 1));
            }
            if emoji_joined(ps, i) {
                let j = choose|j: int| #[trigger] emoji_from(ps, j, i - 1);
                if j < a {
                    if a < i - 1 {
                        assert(ps[a].spec_is_gcb_ex());
                    }
                    if j < a - 1 {
                        assert(ps[a - 1].spec_is_gcb_ex());
                    }
                    assert(local_at(ps, a) == Some(false));
                } else {
                    assert(emoji_from(qs, j - a, m - 1));
                }
            }
        } else {
            lemma_indicators_in_rest(ps, a, i);
        }
    }
}

/// Seen from the edge of a cluster, the later edges are those of the text
/// that begins there.
pub proof fn lemma_edge_in_rest(ps: Seq<EgcProps>, a: int, i: int)
    requires
        0 <= a <= i <= ps.len(),
        is_cluster_edge(ps, a),
    ensures
        is_cluster_edge(ps, i) == is_cluster_edge(ps.skip(a), i - a),
    decreases ps.len(),
{
    if a == 0 {
        assert(ps.skip(0) =~= ps);
    } else {
        let n = first_cluster_len(ps);
        lemma_edge_in_rest(ps.skip(n), a - n, i - n);
        assert(ps.skip(n).skip(a - n) =~= ps.skip(a));
    }
}

/// After an edge that is a boundary by the rules, the edges are the
/// boundaries that the rules give.
proof fn lemma_edges_by_rule_from(ps: Seq<EgcProps>, a: int)
    requires
        0 <= a <= ps.len(),
        is_cluster_edge(ps, a),
        starts_by_rule(ps, a),
    ensures
        forall|i: int| a < i < ps.len() ==> (is_cluster_edge(ps, i) <==> !joined_by_rule(ps, i)),
    decreases ps.len() - a,
{
    if a < ps.len() {
        let qs = ps.skip(a);
        let n = first_cluster_len(qs);
        let e = a + n;
        lemma_scan_bounds(qs, 1);
        lemma_cluster_step(ps, a);
        if e < ps.len() {
            lemma_scan_follows_rules(ps, a, e);
            lemma_edges_by_rule_from(ps, e);
        }
        assert forall|i: int| a < i < ps.len() implies (is_cluster_edge(ps, i) <==> !joined_by_rule(
            ps,
            i,
        )) by {
            if i < e {
                lemma_scan_follows_rules(ps, a, i);
                lemma_edge_in_rest(ps, a, i);
                assert(!breaks_before(qs, i - a));
            }
        }
    }
}

/// The edges of the clusters are the boundaries that the rules give: inside
/// the text, a cluster ends at a position if and only if the rules do not
/// join the characters on its two sides.
pub proof fn lemma_edges_are_rule_boundaries(ps: Seq<EgcProps>)
    ensures
        forall|i: int| 0 < i < ps.len() ==> (is_cluster_edge(ps, i) <==> !joined_by_rule(ps, i)),
{
    lemma_edges_by_rule_from(ps, 0);
}

/// A forward walk from position `a` stops at the edges of the text that
/// begins there.
proof fn lemma_ends_are_edges_from(ps: Seq<EgcProps>, a: int, i: int)
    requires
        0 <= a <= ps.len(),
    ensures
        ends_from(ps, a).contains(i) <==> a < i <= ps.len() && is_cluster_edge(ps.skip(a), i - a),
    decreases ps.len() - a,
{
    if a < ps.len() {
        let qs = ps.skip(a);
        let n = first_cluster_len(qs);
        let e = a + n;
        lemma_first_cluster_bounds(qs);
        lemma_ends_are_edges_from(ps, e, i);
        assert(qs.skip(n) =~= ps.skip(e));
        let tail = ends_from(ps, e);
        let all = ends_from(ps, a);
        assert(all =~= seq![e] + tail);
        if all.contains(i) {
            let x = choose|x: int| 0 <= x < all.len() && all[x] == i;
            if x > 0 {
                assert(tail[x - 1] == i);
            }
        }
        if tail.contains(i) {
            let x = choose|x: int| 0 <= x < tail.len() && tail[x] == i;
            assert(all[x + 1] == i);
        }
        assert(all[0] == e);
        if i == e {
            assert(is_cluster_edge(qs.skip(n), 0));
        } else if e < i <= ps.len() {
            assert(is_cluster_edge(qs, i - a) == is_cluster_edge(qs.skip(n), i - a - n));
        }
    }
}

/// A forward walk stops where the rules put a boundary, and nowhere else
/// before the end of the text.
pub proof fn lemma_forward_ends_are_rule_boundaries(ps: Seq<EgcProps>)
    ensures
        forall|i: int| 0 < i < ps.len() ==> (forward_ends(ps).contains(i) <==> !joined_by_rule(ps, i)),
{
    lemma_edges_are_rule_boundaries(ps);
    assert forall|i: int| 0 < i < ps.len() implies (forward_ends(ps).contains(i)
        <==> !joined_by_rule(ps, i)) by {
        lemma_ends_are_edges_from(ps, 0, i);
        assert(ps.skip(0) =~= ps);
    }
}

/// The first cluster of a text ends at the first boundary that the rules
/// give, or at the end of the text where they give none.
pub proof fn lemma_first_cluster_by_rule(ps: Seq<EgcProps>)
    ensures
        forall|i: int| 0 < i < first_cluster_len(ps) ==> joined_by_rule(ps, i),
        first_cluster_len(ps) < ps.len() ==> !joined_by_rule(ps, first_cluster_len(ps)),
{
    if ps.len() > 0 {
        lemma_scan_bounds(ps, 1);
        assert(ps.skip(0) =~= ps);
        assert forall|i: int| 0 < i <= first_cluster_len(ps) && i < ps.len() implies (
        joined_by_rule(ps, i) <==> i < first_cluster_len(ps)) by {
            lemma_scan_follows_rules(ps, 0, i);
        }
    }
}

/// The last cluster begins at an edge, and no edge lies inside it.
proof fn lemma_last_cluster_is_last_edge(ps: Seq<EgcProps>)
    ensures
        is_cluster_edge(ps, last_cluster_start(ps)),
        forall|i: int| last_cluster_start(ps) < i < ps.len() ==> !is_cluster_edge(ps, i),
    decreases ps.len(),
{
    let n = first_cluster_len(ps);
    if 0 < n < ps.len() {
        let rest = ps.skip(n);
        lemma_last_cluster_is_last_edge(rest);
        assert(is_cluster_edge(rest, last_cluster_start(ps) - n));
        assert forall|i: int| last_cluster_start(ps) < i < ps.len() implies !is_cluster_edge(
            ps,
            i,
        ) by {
            assert(is_cluster_edge(ps, i) == is_cluster_edge(rest, i - n));
        }
    } else {
        assert forall|i: int| 0 < i < ps.len() implies !is_cluster_edge(ps, i) by {}
    }
}

/// The last cluster of a text begins at the last boundary that the rules
/// give, or at the start of the text where they give none.
pub proof fn lemma_last_cluster_by_rule(ps: Seq<EgcProps>)
    ensures
        starts_by_rule(ps, last_cluster_start(ps)),
        forall|i: int| last_cluster_start(ps) < i < ps.len() ==> joined_by_rule(ps, i),
{
    lemma_last_cluster_is_last_edge(ps);
    lemma_edges_are_rule_boundaries(ps);
    crate::cluster::lemma_last_cluster_start_bounds(ps);
}

} // verus!
