use egc::logic::{is_boundary, is_local_boundary, Ctx};
use egc::lookup::EgcProps;

const ALL: [EgcProps; 18] = [
    EgcProps::XX,
    EgcProps::LF,
    EgcProps::CR,
    EgcProps::CN,
    EgcProps::L,
    EgcProps::V,
    EgcProps::T,
    EgcProps::LV,
    EgcProps::LVT,
    EgcProps::SM,
    EgcProps::PP,
    EgcProps::IN_CO,
    EgcProps::ZWJ,
    EgcProps::IN_EX,
    EgcProps::IN_LI,
    EgcProps::EX,
    EgcProps::EP,
    EgcProps::RI,
];

const CONTEXTS: [Ctx; 6] = [
    Ctx::Start,
    Ctx::Indic(false),
    Ctx::Indic(true),
    Ctx::Emoji(false),
    Ctx::Emoji(true),
    Ctx::Ri,
];

#[test]
fn predicates_hold_of_their_groups_only() {
    for p in ALL {
        assert_eq!(
            p.is_control(),
            matches!(p, EgcProps::LF | EgcProps::CR | EgcProps::CN)
        );
        assert_eq!(
            p.is_hangul(),
            matches!(
                p,
                EgcProps::L | EgcProps::V | EgcProps::T | EgcProps::LV | EgcProps::LVT
            )
        );
        assert_eq!(p.is_incb_ex(), matches!(p, EgcProps::ZWJ | EgcProps::IN_EX));
        assert_eq!(
            p.is_gcb_ex(),
            matches!(p, EgcProps::IN_EX | EgcProps::IN_LI | EgcProps::EX)
        );
    }
}

#[test]
fn classes_are_ordered_as_declared() {
    for i in 0..ALL.len() {
        for j in 0..ALL.len() {
            assert_eq!(ALL[i] < ALL[j], i < j);
            assert_eq!(ALL[i] == ALL[j], i == j);
        }
    }
}

#[test]
fn step_consonant_always_opens_a_conjunct() {
    for c in CONTEXTS {
        assert_eq!(c.step(EgcProps::IN_CO), Ctx::Indic(false));
    }
}

#[test]
fn step_inside_a_conjunct() {
    for seen in [false, true] {
        assert_eq!(Ctx::Indic(seen).step(EgcProps::IN_LI), Ctx::Indic(true));
        assert_eq!(Ctx::Indic(seen).step(EgcProps::IN_EX), Ctx::Indic(seen));
        assert_eq!(Ctx::Indic(seen).step(EgcProps::ZWJ), Ctx::Indic(seen));
        assert_eq!(Ctx::Indic(seen).step(EgcProps::EX), Ctx::Start);
        assert_eq!(Ctx::Indic(seen).step(EgcProps::XX), Ctx::Start);
        assert_eq!(Ctx::Indic(seen).step(EgcProps::SM), Ctx::Start);
        assert_eq!(Ctx::Indic(seen).step(EgcProps::EP), Ctx::Emoji(false));
        assert_eq!(Ctx::Indic(seen).step(EgcProps::RI), Ctx::Ri);
    }
}

#[test]
fn step_pictograph_always_opens_an_emoji_sequence() {
    for c in CONTEXTS {
        assert_eq!(c.step(EgcProps::EP), Ctx::Emoji(false));
    }
}

#[test]
fn step_inside_an_emoji_sequence() {
    assert_eq!(Ctx::Emoji(false).step(EgcProps::EX), Ctx::Emoji(false));
    assert_eq!(Ctx::Emoji(false).step(EgcProps::IN_EX), Ctx::Emoji(false));
    assert_eq!(Ctx::Emoji(false).step(EgcProps::IN_LI), Ctx::Emoji(false));
    assert_eq!(Ctx::Emoji(false).step(EgcProps::ZWJ), Ctx::Emoji(true));
    assert_eq!(Ctx::Emoji(false).step(EgcProps::XX), Ctx::Start);
    assert_eq!(Ctx::Emoji(false).step(EgcProps::SM), Ctx::Start);
    // after the joiner only a pictograph keeps the sequence going
    assert_eq!(Ctx::Emoji(true).step(EgcProps::EX), Ctx::Start);
    assert_eq!(Ctx::Emoji(true).step(EgcProps::ZWJ), Ctx::Start);
    assert_eq!(Ctx::Emoji(true).step(EgcProps::EP), Ctx::Emoji(false));
}

#[test]
fn step_regional_indicators_toggle() {
    assert_eq!(Ctx::Start.step(EgcProps::RI), Ctx::Ri);
    assert_eq!(Ctx::Ri.step(EgcProps::RI), Ctx::Start);
    assert_eq!(Ctx::Indic(true).step(EgcProps::RI), Ctx::Ri);
    assert_eq!(Ctx::Emoji(false).step(EgcProps::RI), Ctx::Ri);
    assert_eq!(Ctx::Emoji(true).step(EgcProps::RI), Ctx::Ri);
}

#[test]
fn step_falls_back_to_start() {
    for c in CONTEXTS {
        for p in [
            EgcProps::XX,
            EgcProps::LF,
            EgcProps::CR,
            EgcProps::CN,
            EgcProps::L,
            EgcProps::V,
            EgcProps::T,
            EgcProps::LV,
            EgcProps::LVT,
            EgcProps::SM,
            EgcProps::PP,
        ] {
            assert_eq!(c.step(p), Ctx::Start);
        }
    }
    assert_eq!(Ctx::Start.step(EgcProps::ZWJ), Ctx::Start);
    assert_eq!(Ctx::Start.step(EgcProps::IN_LI), Ctx::Start);
    assert_eq!(Ctx::Ri.step(EgcProps::EX), Ctx::Start);
}

#[test]
fn local_default_pair_is_a_boundary() {
    assert_eq!(is_local_boundary(EgcProps::XX, EgcProps::XX), Some(true));
}

#[test]
fn local_cr_lf_is_joined() {
    assert_eq!(is_local_boundary(EgcProps::CR, EgcProps::LF), Some(false));
    assert_eq!(is_local_boundary(EgcProps::LF, EgcProps::CR), Some(true));
    assert_eq!(is_local_boundary(EgcProps::CR, EgcProps::CR), Some(true));
    assert_eq!(is_local_boundary(EgcProps::LF, EgcProps::LF), Some(true));
}

#[test]
fn local_controls_break_on_both_sides() {
    for c in [EgcProps::LF, EgcProps::CR, EgcProps::CN] {
        for p in ALL {
            if !(c == EgcProps::CR && p == EgcProps::LF) {
                assert_eq!(is_local_boundary(c, p), Some(true));
            }
            if !(p == EgcProps::CR && c == EgcProps::LF) {
                assert_eq!(is_local_boundary(p, c), Some(true));
            }
        }
    }
}

#[test]
fn local_hangul_syllables() {
    let (l, v, t, lv, lvt) = (
        EgcProps::L,
        EgcProps::V,
        EgcProps::T,
        EgcProps::LV,
        EgcProps::LVT,
    );
    let joined = [
        (l, l),
        (l, v),
        (l, lv),
        (l, lvt),
        (lv, v),
        (lv, t),
        (v, v),
        (v, t),
        (lvt, t),
        (t, t),
    ];
    for a in [l, v, t, lv, lvt] {
        for b in [l, v, t, lv, lvt] {
            let expected = !joined.contains(&(a, b));
            assert_eq!(is_local_boundary(a, b), Some(expected));
        }
    }
}

#[test]
fn local_extenders_and_marks_join() {
    for p in [
        EgcProps::XX,
        EgcProps::L,
        EgcProps::SM,
        EgcProps::PP,
        EgcProps::IN_CO,
        EgcProps::ZWJ,
        EgcProps::IN_EX,
        EgcProps::IN_LI,
        EgcProps::EX,
        EgcProps::EP,
        EgcProps::RI,
    ] {
        for q in [
            EgcProps::IN_EX,
            EgcProps::IN_LI,
            EgcProps::EX,
            EgcProps::ZWJ,
            EgcProps::SM,
        ] {
            assert_eq!(is_local_boundary(p, q), Some(false));
        }
    }
}

#[test]
fn local_prepend_joins_what_follows() {
    for q in [
        EgcProps::XX,
        EgcProps::L,
        EgcProps::PP,
        EgcProps::IN_CO,
        EgcProps::EP,
        EgcProps::RI,
    ] {
        assert_eq!(is_local_boundary(EgcProps::PP, q), Some(false));
    }
    assert_eq!(is_local_boundary(EgcProps::PP, EgcProps::CN), Some(true));
}

#[test]
fn local_pairs_that_need_context() {
    for p in [EgcProps::ZWJ, EgcProps::IN_EX, EgcProps::IN_LI] {
        assert_eq!(is_local_boundary(p, EgcProps::IN_CO), None);
    }
    assert_eq!(is_local_boundary(EgcProps::ZWJ, EgcProps::EP), None);
    assert_eq!(is_local_boundary(EgcProps::RI, EgcProps::RI), None);
}

#[test]
fn local_other_pairs_are_boundaries() {
    assert_eq!(is_local_boundary(EgcProps::EX, EgcProps::IN_CO), Some(true));
    assert_eq!(is_local_boundary(EgcProps::IN_CO, EgcProps::IN_CO), Some(true));
    assert_eq!(is_local_boundary(EgcProps::EX, EgcProps::EP), Some(true));
    assert_eq!(is_local_boundary(EgcProps::EP, EgcProps::EP), Some(true));
    assert_eq!(is_local_boundary(EgcProps::RI, EgcProps::XX), Some(true));
    assert_eq!(is_local_boundary(EgcProps::XX, EgcProps::RI), Some(true));
    assert_eq!(is_local_boundary(EgcProps::XX, EgcProps::L), Some(true));
    assert_eq!(is_local_boundary(EgcProps::T, EgcProps::XX), Some(true));
    assert_eq!(is_local_boundary(EgcProps::SM, EgcProps::XX), Some(true));
    assert_eq!(is_local_boundary(EgcProps::ZWJ, EgcProps::XX), Some(true));
}

#[test]
fn boundary_follows_the_local_answer_in_every_context() {
    for c in CONTEXTS {
        for a in ALL {
            for b in ALL {
                if let Some(expected) = is_local_boundary(a, b) {
                    assert_eq!(is_boundary(c, a, b), expected);
                }
            }
        }
    }
}

#[test]
fn boundary_by_context() {
    for c in CONTEXTS {
        assert_eq!(
            is_boundary(c, EgcProps::IN_LI, EgcProps::IN_CO),
            c != Ctx::Indic(true)
        );
        assert_eq!(
            is_boundary(c, EgcProps::ZWJ, EgcProps::IN_CO),
            c != Ctx::Indic(true)
        );
        assert_eq!(
            is_boundary(c, EgcProps::ZWJ, EgcProps::EP),
            c != Ctx::Emoji(true)
        );
        assert_eq!(is_boundary(c, EgcProps::RI, EgcProps::RI), c != Ctx::Ri);
    }
}
