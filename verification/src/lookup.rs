use crate::data::RANGE_COUNT;
use vstd::prelude::*;

/// The table of ranges.
pub use crate::data::RANGES;

verus! {

/// The class of a code point: what the segmentation rules need to know of it.
///
/// It combines the properties Grapheme_Cluster_Break (GCB), Indic_Conjunct_Break
/// (InCB) and Extended_Pictographic (ExtPict), with one variant for each
/// combination that occurs.
#[allow(non_camel_case_types)]
#[derive(Debug, Clone, Copy, PartialEq, Eq, PartialOrd, Ord, Structural)]
pub enum EgcProps {
    /// Default
    XX,
    /// GCB=LF (line feed)
    LF,
    /// GCB=CR (carriage return)
    CR,
    /// GCB=Control
    CN,
    /// GCB=L (hangul leading consonant)
    L,
    /// GCB=V (hangul vowel)
    V,
    /// GCB=T (hangul trailing consonant)
    T,
    /// GCB=LV (hangul syllable, leading + vowel)
    LV,
    /// GCB=LVT (hangul syllable, leading + vowel + trailing)
    LVT,
    /// GCB=SpacingMark
    SM,
    /// GCB=Prepend
    PP,
    /// InCB=Consonant
    IN_CO,
    /// GCB=ZWJ, InCB=Extend (zero-width joiner)
    ZWJ,
    /// GCB=Extend, InCB=Extend
    IN_EX,
    /// GCB=Extend, InCB=Linker
    IN_LI,
    /// GCB=Extend, InCB=None
    EX,
    /// ExtPict=Yes
    EP,
    /// GCB=Regional_Indicator
    RI,
}

impl EgcProps {
    /// The place of the class in the order of declaration, from 0.
    pub open spec fn ordinal(self) -> int {
        match self {
            EgcProps::XX => 0,
            EgcProps::LF => 1,
            EgcProps::CR => 2,
            EgcProps::CN => 3,
            EgcProps::L => 4,
            EgcProps::V => 5,
            EgcProps::T => 6,
            EgcProps::LV => 7,
            EgcProps::LVT => 8,
            EgcProps::SM => 9,
            EgcProps::PP => 10,
            EgcProps::IN_CO => 11,
            EgcProps::ZWJ => 12,
            EgcProps::IN_EX => 13,
            EgcProps::IN_LI => 14,
            EgcProps::EX => 15,
            EgcProps::EP => 16,
            EgcProps::RI => 17,
        }
    }

    /// LF, CR or CN.
    pub open spec fn spec_is_control(self) -> bool {
        self == EgcProps::LF || self == EgcProps::CR || self == EgcProps::CN
    }

    /// L, V, T, LV or LVT.
    pub open spec fn spec_is_hangul(self) -> bool {
        self == EgcProps::L || self == EgcProps::V || self == EgcProps::T || self == EgcProps::LV
            || self == EgcProps::LVT
    }

    /// InCB=Extend: ZWJ or IN_EX.
    pub open spec fn spec_is_incb_ex(self) -> bool {
        self == EgcProps::ZWJ || self == EgcProps::IN_EX
    }

    /// GCB=Extend: IN_EX, IN_LI or EX.
    pub open spec fn spec_is_gcb_ex(self) -> bool {
        self == EgcProps::IN_EX || self == EgcProps::IN_LI || self == EgcProps::EX
    }

    /// The place of the class in the order of declaration, as a number.
    fn rank(self) -> (r: u8)
        ensures
            r == self.ordinal(),
    {
        match self {
            EgcProps::XX => 0,
            EgcProps::LF => 1,
            EgcProps::CR => 2,
            EgcProps::CN => 3,
            EgcProps::L => 4,
            EgcProps::V => 5,
            EgcProps::T => 6,
            EgcProps::LV => 7,
            EgcProps::LVT => 8,
            EgcProps::SM => 9,
            EgcProps::PP => 10,
            EgcProps::IN_CO => 11,
            EgcProps::ZWJ => 12,
            EgcProps::IN_EX => 13,
            EgcProps::IN_LI => 14,
            EgcProps::EX => 15,
            EgcProps::EP => 16,
            EgcProps::RI => 17,
        }
    }

    /// Is the character a control character (LF, CR, CN)?
    #[verifier::when_used_as_spec(spec_is_control)]
    pub fn is_control(self) -> (r: bool)
        ensures
            r == self.spec_is_control(),
            r == (EgcProps::LF.ordinal() <= self.ordinal() <= EgcProps::CN.ordinal()),
    {
        let k: u8 = self.rank();
        1 <= k && k <= 3
    }

    /// Is the character hangul (L, V, T, LV, LVT)?
    #[verifier::when_used_as_spec(spec_is_hangul)]
    pub fn is_hangul(self) -> (r: bool)
        ensures
            r == self.spec_is_hangul(),
            r == (EgcProps::L.ordinal() <= self.ordinal() <= EgcProps::LVT.ordinal()),
    {
        let k: u8 = self.rank();
        4 <= k && k <= 8
    }

    /// Does the character have InCB=Extend (ZWJ, IN_EX)?
    #[verifier::when_used_as_spec(spec_is_incb_ex)]
    pub fn is_incb_ex(self) -> (r: bool)
        ensures
            r == self.spec_is_incb_ex(),
            r == (EgcProps::ZWJ.ordinal() <= self.ordinal() <= EgcProps::IN_EX.ordinal()),
    {
        let k: u8 = self.rank();
        12 <= k && k <= 13
    }

    /// Does the character have GCB=Extend (IN_EX, IN_LI, EX)?
    #[verifier::when_used_as_spec(spec_is_gcb_ex)]
    pub fn is_gcb_ex(self) -> (r: bool)
        ensures
            r == self.spec_is_gcb_ex(),
            r == (EgcProps::IN_EX.ordinal() <= self.ordinal() <= EgcProps::EX.ordinal()),
    {
        let k: u8 = self.rank();
        13 <= k && k <= 15
    }
}

/// A range of code points and the class of the code points in it.
#[derive(Clone, Copy)]
pub struct CharRange {
    /// The first code point of the range.
    pub start: u32,
    /// The number of code points in the range.
    pub count: u16,
    /// The class of every code point in the range.
    pub kind: EgcProps,
}

impl CharRange {
    /// Does the range hold the code point `cp`?
    pub open spec fn holds(self, cp: u32) -> bool {
        self.start <= cp < self.start + self.count
    }
}

/// The range of `count` code points from `start` on, of class `kind`.
pub(crate) fn ran(start: u32, count: u16, kind: EgcProps) -> (r: CharRange)
    ensures
        r == (CharRange { start, count, kind }),
{
    CharRange { start, count, kind }
}

/// Row `i` of the table.
#[verifier::opaque]
pub open spec fn range_at(i: int) -> CharRange {
    CharRange { start: RANGES[i].0, count: RANGES[i].1, kind: RANGES[i].2 }
}

/// Row `i` lies within the code space and ends before the next row begins.
pub open spec fn row_in_order(i: int) -> bool {
    &&& range_at(i).start + range_at(i).count <= 0x110000
    &&& i + 1 < RANGE_COUNT ==> range_at(i).start + range_at(i).count <= range_at(i + 1).start
}

// The rows are in order; the table is gone through in three parts.
proof fn lemma_rows_from_0()
    ensures
        forall|i: int| 0 <= i < 256 ==> row_in_order(i),
{
    reveal(range_at);
}

proof fn lemma_rows_from_256()
    ensures
        forall|i: int| 256 <= i < 512 ==> row_in_order(i),
{
    reveal(range_at);
}

proof fn lemma_rows_from_512()
    ensures
        forall|i: int| 512 <= i < 733 ==> row_in_order(i),
{
    reveal(range_at);
}

/// The table is sorted and its ranges are disjoint: each one ends before the
/// next begins, and all lie within the code space.
pub proof fn lemma_ranges_sorted()
    ensures
        forall|i: int| 0 <= i < RANGE_COUNT ==> #[trigger] row_in_order(i),
{
    lemma_rows_from_0();
    lemma_rows_from_256();
    lemma_rows_from_512();
}

/// Any two rows of the table are in order.
pub proof fn lemma_ranges_ordered(i: int, j: int)
    requires
        0 <= i < j < RANGE_COUNT,
    ensures
        range_at(i).start + range_at(i).count <= range_at(j).start,
    decreases j - i,
{
    lemma_ranges_sorted();
    assert(row_in_order(j - 1));
    if i + 1 < j {
        lemma_ranges_ordered(i, j - 1);
    }
}

/// The class of the first row from row `i` on that holds `cp`; the default
/// class where there is none.
pub open spec fn table_class_from(cp: u32, i: int) -> EgcProps
    decreases RANGE_COUNT - i,
{
    if i < 0 || i >= RANGE_COUNT {
        EgcProps::XX
    } else if range_at(i).holds(cp) {
        range_at(i).kind
    } else {
        table_class_from(cp, i + 1)
    }
}

/// The class of the code point `cp`.
///
/// Printable ASCII and the block from U+3300 up to U+A000 have the default
/// class. A precomposed hangul syllable is LV where it is the first of its
/// group of 28, else LVT. Every other code point has the class of the row of
/// the table that holds it, or the default class where no row does.
pub open spec fn class_of(cp: u32) -> EgcProps {
    if (0x20 <= cp < 0x7f) || (0x3300 <= cp < 0xa000) {
        EgcProps::XX
    } else if 0xac00 <= cp <= 0xd7a3 {
        if (cp - 0xac00) % 28 == 0 {
            EgcProps::LV
        } else {
            EgcProps::LVT
        }
    } else {
        table_class_from(cp, 0)
    }
}

/// Where no row from row `i` on holds `cp`, the class is the default one.
proof fn lemma_none_holds(cp: u32, i: int)
    requires
        0 <= i <= RANGE_COUNT,
        forall|j: int| i <= j < RANGE_COUNT ==> !#[trigger] range_at(j).holds(cp),
    ensures
        table_class_from(cp, i) == EgcProps::XX,
    decreases RANGE_COUNT - i,
{
    if i < RANGE_COUNT {
        lemma_none_holds(cp, i + 1);
    }
}

/// Where row `p` is the first from row `i` on that holds `cp`, the class is
/// that of row `p`.
proof fn lemma_first_holds(cp: u32, i: int, p: int)
    requires
        0 <= i <= p < RANGE_COUNT,
        forall|j: int| i <= j < p ==> !#[trigger] range_at(j).holds(cp),
        range_at(p).holds(cp),
    ensures
        table_class_from(cp, i) == range_at(p).kind,
    decreases p - i,
{
    if i < p {
        lemma_first_holds(cp, i + 1, p);
    }
}

/// Reads row `i` of the table.
fn row(i: usize) -> (r: CharRange)
    requires
        i < RANGE_COUNT,
    ensures
        r == range_at(i as int),
{
    reveal(range_at);
    let entry = RANGES[i];
    ran(entry.0, entry.1, entry.2)
}

/// The class of a code point by its number.
pub(crate) fn lookup_code_point(cp: u32) -> (r: EgcProps)
    ensures
        r == class_of(cp),
{
    if (cp >= 0x20 && cp < 0x7f) || (cp >= 0x3300 && cp < 0xa000) {
        return EgcProps::XX;
    }
    if cp >= 0xac00 && cp <= 0xd7a3 {
        return if (cp - 0xac00) % 28 == 0 {
            EgcProps::LV
        } else {
            EgcProps::LVT
        };
    }
    let mut start: usize = 0;
    let mut end: usize = RANGE_COUNT;
    while end > start
        invariant
            0 <= start <= end <= RANGE_COUNT,
            class_of(cp) == table_class_from(cp, 0),
            forall|j: int| 0 <= j < start ==> !#[trigger] range_at(j).holds(cp),
            forall|j: int| end <= j < RANGE_COUNT ==> !#[trigger] range_at(j).holds(cp),
        decreases end - start,
    {
        let pivot_idx: usize = start + (end - start) / 2;
        let pivot: CharRange = row(pivot_idx);
        proof {
            lemma_ranges_sorted();
            assert(row_in_order(pivot_idx as int));
        }
        if cp < pivot.start {
            assert forall|j: int| pivot_idx <= j < RANGE_COUNT implies !#[trigger] range_at(
                j,
            ).holds(cp) by {
                if pivot_idx < j {
                    lemma_ranges_ordered(pivot_idx as int, j);
                }
            }
            end = pivot_idx;
        } else if cp >= pivot.start + pivot.count as u32 {
            assert forall|j: int| 0 <= j < pivot_idx + 1 implies !#[trigger] range_at(j).holds(
                cp,
            ) by {
                if j < pivot_idx {
                    lemma_ranges_ordered(j, pivot_idx as int);
                }
            }
            start = pivot_idx + 1;
        } else {
            proof {
                assert forall|j: int| 0 <= j < pivot_idx implies !#[trigger] range_at(j).holds(
                    cp,
                ) by {
                    lemma_ranges_ordered(j, pivot_idx as int);
                }
                lemma_first_holds(cp, 0, pivot_idx as int);
            }
            return pivot.kind;
        }
    }
    proof {
        lemma_none_holds(cp, 0);
    }
    EgcProps::XX
}

/// Looks up the class of the character `c`.
pub fn lookup_egc_props(c: char) -> (r: EgcProps)
    ensures
        r == class_of(c as u32),
{
    lookup_code_point(c as u32)
}

} // verus!
