use crate::cluster::{
    classes, ctx_after, first_cluster_len, last_local_break, last_local_from, local_at,
    scan_from, undecided_between,
};
use crate::encoding::{
    byte_pos, lemma_byte_pos_increases, lemma_encode_take, scalar_at, scalar_before,
};
use crate::lookup::{lookup_code_point, EgcProps};
use vstd::prelude::*;

verus! {

/// Context for segmentation: which rule that spans more than two characters
/// is open after the characters read so far.
#[derive(Debug, Clone, Copy, PartialEq, Eq, Structural)]
pub enum Ctx {
    /// At a cluster boundary (including the start of the text).
    Start,
    /// Inside a possible conjunct of Indic consonants (rule GB9c); the flag
    /// tells whether a linker has been seen.
    Indic(bool),
    /// Inside a possible emoji sequence (rule GB11); the flag tells whether
    /// the last character was a zero-width joiner.
    Emoji(bool),
    /// After an odd number of regional indicators (rules GB12 and GB13).
    Ri,
}

impl Ctx {
    /// The context after a character of class `p`.
    ///
    /// The rules are tried in a fixed order: the Indic conjunct, the emoji
    /// sequence, the regional indicators. Where none applies the context
    /// falls back to `Start`.
    pub open spec fn spec_step(self, p: EgcProps) -> Ctx {
        if p == EgcProps::IN_CO {
            Ctx::Indic(false)
        } else if self is Indic && p == EgcProps::IN_LI {
            Ctx::Indic(true)
        } else if self is Indic && p.spec_is_incb_ex() {
            self
        } else if p == EgcProps::EP {
            Ctx::Emoji(false)
        } else if self == Ctx::Emoji(false) && p.spec_is_gcb_ex() {
            Ctx::Emoji(false)
        } else if self == Ctx::Emoji(false) && p == EgcProps::ZWJ {
            Ctx::Emoji(true)
        } else if p == EgcProps::RI {
            if self == Ctx::Ri {
                Ctx::Start
            } else {
                Ctx::Ri
            }
        } else {
            Ctx::Start
        }
    }

    /// Computes the new context after a character of class `p`.
    #[verifier::when_used_as_spec(spec_step)]
    pub fn step(self, p: EgcProps) -> (r: Ctx)
        ensures
            r == self.spec_step(p),
    {
        // GB9c
        if p == EgcProps::IN_CO {
            return Ctx::Indic(false);
        }
        if let Ctx::Indic(s) = self {
            if p == EgcProps::IN_LI {
                return Ctx::Indic(true);
            } else if p.is_incb_ex() {
                return Ctx::Indic(s);
            }
        }
        // GB11
        if p == EgcProps::EP {
            return Ctx::Emoji(false);
        }
        if let Ctx::Emoji(s) = self {
            if !s {
                if p.is_gcb_ex() {
                    return Ctx::Emoji(false);
                }
                if p == EgcProps::ZWJ {
                    return Ctx::Emoji(true);
                }
            }
        }
        // GB12/13
        if p == EgcProps::RI {
            return if self == Ctx::Ri {
                Ctx::Start
            } else {
                Ctx::Ri
            };
        }
        Ctx::Start
    }
}

/// Do two hangul classes in this order belong to one syllable?
pub open spec fn hangul_joins(p1: EgcProps, p2: EgcProps) -> bool {
    ||| (p1 == EgcProps::L && p2 != EgcProps::T)
    ||| ((p1 == EgcProps::LV || p1 == EgcProps::V) && (p2 == EgcProps::V || p2 == EgcProps::T))
    ||| ((p1 == EgcProps::LVT || p1 == EgcProps::T) && p2 == EgcProps::T)
}

/// Does the pair need the context to be decided? These are the pairs that
/// may continue an Indic conjunct, an emoji sequence or a pair of regional
/// indicators.
pub open spec fn needs_context(p1: EgcProps, p2: EgcProps) -> bool {
    ||| ((p1.spec_is_incb_ex() || p1 == EgcProps::IN_LI) && p2 == EgcProps::IN_CO)
    ||| (p1 == EgcProps::ZWJ && p2 == EgcProps::EP)
    ||| (p1 == EgcProps::RI && p2 == EgcProps::RI)
}

/// What the two classes alone say of a boundary between two neighbours:
/// `Some(true)` for a boundary, `Some(false)` for none, `None` where the
/// context decides.
pub open spec fn local_boundary(p1: EgcProps, p2: EgcProps) -> Option<bool> {
    if p1 == EgcProps::XX && p2 == EgcProps::XX {
        Some(true)
    } else if p1 == EgcProps::CR && p2 == EgcProps::LF {
        Some(false)
    } else if p1.spec_is_control() || p2.spec_is_control() {
        Some(true)
    } else if p1.spec_is_hangul() && p2.spec_is_hangul() {
        Some(!hangul_joins(p1, p2))
    } else if p2.spec_is_gcb_ex() || p2 == EgcProps::ZWJ {
        Some(false)
    } else if p2 == EgcProps::SM || p1 == EgcProps::PP {
        Some(false)
    } else if needs_context(p1, p2) {
        None
    } else {
        Some(true)
    }
}

/// Computes whether a cluster boundary lies between characters of the classes
/// `p1` and `p2`, with no further context.
///
/// If context is needed to decide, returns `None`.
pub fn is_local_boundary(p1: EgcProps, p2: EgcProps) -> (r: Option<bool>)
    ensures
        r == local_boundary(p1, p2),
{
    if p1 == EgcProps::XX && p2 == EgcProps::XX {
        return Some(true);
    }
    if p1 == EgcProps::CR && p2 == EgcProps::LF {
        // GB3
        return Some(false);
    }
    if p1.is_control() || p2.is_control() {
        // GB4/5
        return Some(true);
    }
    if p1.is_hangul() && p2.is_hangul() {
        let merge = (p1 == EgcProps::L && p2 != EgcProps::T)  // GB6
         || ((p1 == EgcProps::LV || p1 == EgcProps::V) && (p2 == EgcProps::V || p2
            == EgcProps::T))  // GB7
         || ((p1 == EgcProps::LVT || p1 == EgcProps::T) && p2 == EgcProps::T);  // GB8
        return if merge {
            Some(false)
        } else {
            Some(true)
        };
    }
    if p2.is_gcb_ex() || p2 == EgcProps::ZWJ {
        // GB9
        return Some(false);
    }
    if p2 == EgcProps::SM || p1 == EgcProps::PP {
        // GB9a/b
        return Some(false);
    }
    if (p1.is_incb_ex() || p1 == EgcProps::IN_LI) && p2 == EgcProps::IN_CO {
        // GB9c
        return None;
    }
    if p1 == EgcProps::ZWJ && p2 == EgcProps::EP {
        // GB11
        return None;
    }
    if p1 == EgcProps::RI && p2 == EgcProps::RI {
        // GB12/13
        return None;
    }
    Some(true)
}

/// Does the open rule of the context `c` join a following character of
/// class `p2` to the cluster?
pub open spec fn context_joins(c: Ctx, p2: EgcProps) -> bool {
    ||| (c == Ctx::Indic(true) && p2 == EgcProps::IN_CO)
    ||| (c == Ctx::Emoji(true) && p2 == EgcProps::EP)
    ||| (c == Ctx::Ri && p2 == EgcProps::RI)
}

/// Is there a cluster boundary between characters of the classes `p1` and
/// `p2`, where `c` is the context up to and including the first of them?
pub open spec fn boundary(c: Ctx, p1: EgcProps, p2: EgcProps) -> bool {
    match local_boundary(p1, p2) {
        Some(b) => b,
        None => !context_joins(c, p2),
    }
}

/// Computes whether a cluster boundary lies between characters of the classes
/// `p1` and `p2`, given the context `c` up to and including the first character.
pub fn is_boundary(c: Ctx, p1: EgcProps, p2: EgcProps) -> (r: bool)
    ensures
        r == boundary(c, p1, p2),
{
    if let Some(b) = is_local_boundary(p1, p2) {
        return b;
    }
    !((c == Ctx::Indic(true) && p2 == EgcProps::IN_CO)  // GB9c
     || (c == Ctx::Emoji(true) && p2 == EgcProps::EP)  // GB11
     || (c == Ctx::Ri && p2 == EgcProps::RI))  // GB12/13
}

/// The byte offset at which the first cluster of the text ends.
pub open spec fn first_boundary_offset(t: Seq<char>) -> int {
    byte_pos(t, first_cluster_len(classes(t)))
}

/// Returns the offset of the first cluster boundary in the string, that is,
/// the length in bytes of the first cluster.
///
/// If the string is empty, returns 0.
pub fn first_boundary(s: &str) -> (r: usize)
    ensures
        r == first_boundary_offset(s@),
        s@.len() == 0 ==> r == 0,
        s@.len() > 0 ==> 0 < r <= byte_pos(s@, s@.len() as int),
{
    let b = s.as_bytes();
    let n: usize = b.len();
    let ghost t = s@;
    let ghost ps = classes(t);
    let mut ctx = Ctx::Start;
    let mut p1: Option<EgcProps> = None;
    let mut i: usize = 0;
    let ghost mut k: int = 0;
    proof {
        lemma_encode_take(t, t.len() as int);
        assert(t.take(t.len() as int) =~= t);
    }
    while i < n
        invariant
            t == s@,
            b@ == vstd::utf8::encode_utf8(t),
            n == b@.len(),
            n == byte_pos(t, t.len() as int),
            ps == classes(t),
            0 <= k <= t.len(),
            i == byte_pos(t, k),
            ctx == ctx_after(ps, k),
            k == 0 ==> p1 is None,
            k > 0 ==> p1 == Some(ps[k - 1]),
            first_cluster_len(ps) == scan_from(
                ps,
                if k < 1 {
                    1
                } else {
                    k
                },
            ),
        decreases n - i,
    {
        let (cp, w) = scalar_at(b, i, Ghost(t), Ghost(k));
        let p2 = lookup_code_point(cp);
        assert(p2 == ps[k]);
        if let Some(p) = p1 {
            if is_boundary(ctx, p, p2) {
                proof {
                    lemma_byte_pos_increases(t, 0, k);
                }
                return i;
            }
        }
        ctx = ctx.step(p2);
        p1 = Some(p2);
        i += w;
        proof {
            k = k + 1;
        }
    }
    proof {
        if k < t.len() {
            lemma_byte_pos_increases(t, k, t.len() as int);
        }
    }
    n
}

/// Returns the offset of the last local cluster boundary in the string, and a
/// flag that tells whether a boundary that is not local may have been
/// skipped over.
///
/// A local boundary is one which can be decided by looking only at the two
/// characters around it. The flag is set where a pair that needs its context
/// lies after the boundary that is returned. Where no local boundary is
/// found, the offset is 0.
pub fn last_local_boundary(s: &str) -> (r: (usize, bool))
    ensures
        r.0 == byte_pos(s@, last_local_break(classes(s@))),
        r.1 == undecided_between(
            classes(s@),
            last_local_break(classes(s@)),
            s@.len() as int,
        ),
{
    let b = s.as_bytes();
    let ghost t = s@;
    let ghost ps = classes(t);
    let ghost len = t.len() as int;
    let mut p2: Option<EgcProps> = None;
    let mut maybe_skipped = false;
    let mut i: usize = b.len();
    let ghost mut k: int = len;
    proof {
        lemma_encode_take(t, len);
        assert(t.take(len) =~= t);
    }
    while i > 0
        invariant
            t == s@,
            b@ == vstd::utf8::encode_utf8(t),
            ps == classes(t),
            len == t.len(),
            0 <= k <= len,
            i == byte_pos(t, k),
            k == len ==> p2 is None,
            k < len ==> p2 == Some(ps[k]),
            last_local_break(ps) == last_local_from(
                ps,
                if k < len {
                    k
                } else {
                    len - 1
                },
            ),
            maybe_skipped == undecided_between(ps, k, len),
        decreases i,
    {
        let (cp, w) = scalar_before(b, i, Ghost(t), Ghost(k));
        let p1 = lookup_code_point(cp);
        assert(p1 == ps[k - 1]);
        if let Some(p) = p2 {
            match is_local_boundary(p1, p) {
                Some(boundary) => {
                    if boundary {
                        return (i, maybe_skipped);
                    }
                    assert(undecided_between(ps, k - 1, len) == undecided_between(ps, k, len))
                        by {
                        if undecided_between(ps, k - 1, len) {
                            let j = choose|j: int| k - 1 < j < len && local_at(ps, j) is None;
                            assert(k < j < len && local_at(ps, j) is None);
                        }
                    }
                },
                None => {
                    assert(k - 1 < k < len && local_at(ps, k) is None);
                    maybe_skipped = true;
                },
            }
        } else {
            assert(!undecided_between(ps, k - 1, len));
        }
        p2 = Some(p1);
        proof {
            lemma_byte_pos_increases(t, 0, k - 1);
            k = k - 1;
        }
        i -= w;
    }
    proof {
        if k > 0 {
            lemma_byte_pos_increases(t, 0, k);
        }
    }
    (0, maybe_skipped)
}

} // verus!
