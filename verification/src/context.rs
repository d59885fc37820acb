use crate::cluster::ctx_after;
use crate::logic::Ctx;
use crate::lookup::EgcProps;
use vstd::prelude::*;

verus! {

/// Can a character of this class stand between the consonants of a conjunct?
pub open spec fn carries_conjunct(p: EgcProps) -> bool {
    p == EgcProps::IN_LI || p.spec_is_incb_ex()
}

/// Does a conjunct begin with a consonant at position `j` and go on up to
/// position `n`: nothing but linkers and extenders after the consonant?
pub open spec fn conjunct_from(ps: Seq<EgcProps>, j: int, n: int) -> bool {
    &&& 0 <= j < n
    &&& ps[j] == EgcProps::IN_CO
    &&& forall|m: int| j < m < n ==> carries_conjunct(#[trigger] ps[m])
}

/// Is there a linker after position `j` and before position `n`?
pub open spec fn linker_between(ps: Seq<EgcProps>, j: int, n: int) -> bool {
    exists|m: int| j < m < n && #[trigger] ps[m] == EgcProps::IN_LI
}

/// Is a conjunct open after the first `n` classes, with a linker seen or not
/// as `linked` says?
pub open spec fn conjunct_open(ps: Seq<EgcProps>, n: int, linked: bool) -> bool {
    exists|j: int| #[trigger] conjunct_from(ps, j, n) && linker_between(ps, j, n) == linked
}

/// Does an emoji sequence begin with a pictograph at position `j` and go on
/// up to position `n`: nothing but extenders after the pictograph?
pub open spec fn emoji_from(ps: Seq<EgcProps>, j: int, n: int) -> bool {
    &&& 0 <= j < n
    &&& ps[j] == EgcProps::EP
    &&& forall|m: int| j < m < n ==> (#[trigger] ps[m]).spec_is_gcb_ex()
}

/// Is an emoji sequence open after the first `n` classes, with no joiner yet?
pub open spec fn emoji_open(ps: Seq<EgcProps>, n: int) -> bool {
    exists|j: int| #[trigger] emoji_from(ps, j, n)
}

/// Is class `n - 1` a joiner that follows an open emoji sequence?
pub open spec fn emoji_joined(ps: Seq<EgcProps>, n: int) -> bool {
    n >= 2 && ps[n - 1] == EgcProps::ZWJ && emoji_open(ps, n - 1)
}

/// The number of regional indicators in a row just before position `n`.
pub open spec fn indicators_before(ps: Seq<EgcProps>, n: int) -> int
    decreases n,
{
    if n > 0 && ps[n - 1] == EgcProps::RI {
        1 + indicators_before(ps, n - 1)
    } else {
        0
    }
}

/// What the context after the first `n` classes should be, said without the
/// steps that lead to it: the rule that is open there, if any.
pub open spec fn open_rule(ps: Seq<EgcProps>, n: int) -> Ctx {
    if conjunct_open(ps, n, true) {
        Ctx::Indic(true)
    } else if conjunct_open(ps, n, false) {
        Ctx::Indic(false)
    } else if emoji_joined(ps, n) {
        Ctx::Emoji(true)
    } else if emoji_open(ps, n) {
        Ctx::Emoji(false)
    } else if indicators_before(ps, n) % 2 == 1 {
        Ctx::Ri
    } else {
        Ctx::Start
    }
}

/// How what is open after `n` classes comes from what was open before the
/// last of them.
proof fn lemma_open_step(ps: Seq<EgcProps>, n: int)
    requires
        0 < n <= ps.len(),
    ensures
        forall|j: int| #[trigger]
            conjunct_from(ps, j, n) <==> (j == n - 1 && ps[n - 1] == EgcProps::IN_CO) || (
            conjunct_from(ps, j, n - 1) && carries_conjunct(ps[n - 1])),
        forall|j: int| #[trigger]
            emoji_from(ps, j, n) <==> (j == n - 1 && ps[n - 1] == EgcProps::EP) || (emoji_from(
                ps,
                j,
                n - 1,
            ) && ps[n - 1].spec_is_gcb_ex()),
        forall|j: int|
            j < n - 1 ==> (#[trigger] linker_between(ps, j, n) <==> linker_between(ps, j, n - 1)
                || ps[n - 1] == EgcProps::IN_LI),
        !linker_between(ps, n - 1, n),
{
    let p = ps[n - 1];
    assert forall|j: int| #[trigger]
        conjunct_from(ps, j, n) <==> (j == n - 1 && p == EgcProps::IN_CO) || (conjunct_from(
            ps,
            j,
            n - 1,
        ) && carries_conjunct(p)) by {
        if conjunct_from(ps, j, n) && j < n - 1 {
            assert(carries_conjunct(ps[n - 1]));
        }
    }
    assert forall|j: int| #[trigger]
        emoji_from(ps, j, n) <==> (j == n - 1 && p == EgcProps::EP) || (emoji_from(ps, j, n - 1)
            && p.spec_is_gcb_ex()) by {
        if emoji_from(ps, j, n) && j < n - 1 {
            assert(ps[n - 1].spec_is_gcb_ex());
        }
    }
    assert forall|j: int| j < n - 1 implies (#[trigger] linker_between(ps, j, n)
        <==> linker_between(ps, j, n - 1) || p == EgcProps::IN_LI) by {
        if linker_between(ps, j, n) {
            let m = choose|m: int| j < m < n && #[trigger] ps[m] == EgcProps::IN_LI;
            if m < n - 1 {
                assert(j < m < n - 1 && ps[m] == EgcProps::IN_LI);
            }
        }
        if linker_between(ps, j, n - 1) {
            let m = choose|m: int| j < m < n - 1 && #[trigger] ps[m] == EgcProps::IN_LI;
            assert(j < m < n && ps[m] == EgcProps::IN_LI);
        }
        if p == EgcProps::IN_LI {
            assert(j < n - 1 < n && ps[n - 1] == EgcProps::IN_LI);
        }
    }
}

/// The context after `n` classes tells which rule is open there: a conjunct,
/// with or without a linker, an emoji sequence, with or without its
/// joiner, an odd run of regional indicators, or none.
pub proof fn lemma_ctx_is_open_rule(ps: Seq<EgcProps>, n: int)
    requires
        0 <= n <= ps.len(),
    ensures
        ctx_after(ps, n) == open_rule(ps, n),
        forall|b: bool| ctx_after(ps, n) == Ctx::Indic(b) <==> conjunct_open(ps, n, b),
        ctx_after(ps, n) == Ctx::Emoji(false) <==> emoji_open(ps, n),
        ctx_after(ps, n) == Ctx::Emoji(true) <==> emoji_joined(ps, n),
        ctx_after(ps, n) == Ctx::Ri <==> indicators_before(ps, n) % 2 == 1,
    decreases n,
{
    if n > 0 {
        lemma_ctx_is_open_rule(ps, n - 1);
        lemma_open_step(ps, n);
        let p = ps[n - 1];
        let c = ctx_after(ps, n - 1);
        let d = ctx_after(ps, n);
        assert(d == c.spec_step(p));
        // what was open before the last class
        match c {
            Ctx::Indic(s) => {
                let j = choose|j: int| #[trigger]
                    conjunct_from(ps, j, n - 1) && linker_between(ps, j, n - 1) == s;
                if carries_conjunct(p) {
                    assert(conjunct_from(ps, j, n));
                }
            },
            Ctx::Emoji(s) => {
                assert(!conjunct_open(ps, n - 1, true) && !conjunct_open(ps, n - 1, false));
                assert forall|k: int| !#[trigger] conjunct_from(ps, k, n - 1) by {
                    if conjunct_from(ps, k, n - 1) {
                        assert(conjunct_open(ps, n - 1, linker_between(ps, k, n - 1)));
                    }
                }
                if !s {
                    let j = choose|j: int| #[trigger] emoji_from(ps, j, n - 1);
                    if p.spec_is_gcb_ex() {
                        assert(emoji_from(ps, j, n));
                    }
                }
            },
            _ => {
                assert(!conjunct_open(ps, n - 1, true) && !conjunct_open(ps, n - 1, false));
                assert forall|k: int| !#[trigger] conjunct_from(ps, k, n - 1) by {
                    if conjunct_from(ps, k, n - 1) {
                        assert(conjunct_open(ps, n - 1, linker_between(ps, k, n - 1)));
                    }
                }
            },
        }
        if p == EgcProps::IN_CO {
            assert(conjunct_from(ps, n - 1, n));
        }
        if p == EgcProps::EP {
            assert(emoji_from(ps, n - 1, n));
        }
    } else {
        assert(!conjunct_open(ps, n, true));
        assert(!conjunct_open(ps, n, false));
        assert(!emoji_open(ps, n));
    }
}

} // verus!
