use vstd::prelude::*;
use vstd::utf8::{
    decode_first_scalar, encode_scalar, encode_utf8, encode_utf8_decode_utf8,
    encode_utf8_first_scalar, encode_utf8_valid_utf8, is_char_boundary, is_continuation_byte,
    length_of_first_scalar, pop_first_scalar, valid_first_scalar,
};

verus! {

/// The number of bytes that the character takes in UTF-8.
pub open spec fn char_width(c: char) -> int {
    encode_scalar(c as u32).len() as int
}

/// The byte offset at which character `k` of the text begins in its UTF-8
/// encoding; for `k` the length of the text, the length of the encoding.
pub open spec fn byte_pos(t: Seq<char>, k: int) -> int
    decreases k,
{
    if k <= 0 {
        0
    } else {
        byte_pos(t, k - 1) + char_width(t[k - 1])
    }
}

/// Does a character of the text begin at byte offset `off`, or the text end there?
pub open spec fn is_char_start(t: Seq<char>, off: int) -> bool {
    exists|k: int| 0 <= k <= t.len() && #[trigger] byte_pos(t, k) == off
}

/// The index of the character that begins at byte offset `off`.
pub open spec fn char_index(t: Seq<char>, off: int) -> int {
    choose|k: int| 0 <= k <= t.len() && #[trigger] byte_pos(t, k) == off
}

/// Later characters begin at later bytes.
pub proof fn lemma_byte_pos_increases(t: Seq<char>, j: int, k: int)
    requires
        0 <= j <= k,
    ensures
        byte_pos(t, j) + (k - j) <= byte_pos(t, k),
        0 <= byte_pos(t, j),
    decreases k,
{
    if j < k {
        lemma_byte_pos_increases(t, j, k - 1);
    } else if k > 0 {
        lemma_byte_pos_increases(t, j - 1, k - 1);
    }
}

/// A byte offset belongs to one character index only.
pub proof fn lemma_char_index(t: Seq<char>, k: int)
    requires
        0 <= k <= t.len(),
    ensures
        is_char_start(t, byte_pos(t, k)),
        char_index(t, byte_pos(t, k)) == k,
{
    let j = char_index(t, byte_pos(t, k));
    if j < k {
        lemma_byte_pos_increases(t, j, k);
    } else if k < j {
        lemma_byte_pos_increases(t, k, j);
    }
}

/// The byte offsets depend on the characters before them only.
pub proof fn lemma_byte_pos_prefix(s: Seq<char>, t: Seq<char>, k: int)
    requires
        0 <= k <= s.len(),
        k <= t.len(),
        forall|j: int| 0 <= j < k ==> s[j] == t[j],
    ensures
        byte_pos(s, k) == byte_pos(t, k),
    decreases k,
{
    if k > 0 {
        lemma_byte_pos_prefix(s, t, k - 1);
    }
}

/// The byte offsets in the text after character `a` are those of the whole
/// text, less the offset of `a`.
pub proof fn lemma_byte_pos_skip(t: Seq<char>, a: int, k: int)
    requires
        0 <= a <= t.len(),
        0 <= k <= t.len() - a,
    ensures
        byte_pos(t.skip(a), k) == byte_pos(t, a + k) - byte_pos(t, a),
    decreases k,
{
    if k > 0 {
        lemma_byte_pos_skip(t, a, k - 1);
    }
}

/// The encoding of two texts in a row is the two encodings in a row.
pub proof fn lemma_encode_concat(a: Seq<char>, b: Seq<char>)
    ensures
        encode_utf8(a + b) == encode_utf8(a) + encode_utf8(b),
    decreases a.len(),
{
    if a.len() == 0 {
        assert(a + b =~= b);
        assert(encode_utf8(a) + encode_utf8(b) =~= encode_utf8(b));
    } else {
        lemma_encode_concat(a.drop_first(), b);
        assert((a + b).drop_first() =~= a.drop_first() + b);
        assert(encode_utf8(a + b) =~= encode_utf8(a) + encode_utf8(b));
    }
}

/// The encoding of a single character.
pub proof fn lemma_encode_single(c: char)
    ensures
        encode_utf8(seq![c]) == encode_scalar(c as u32),
{
    let s = seq![c];
    assert(s.drop_first() =~= Seq::<char>::empty());
    assert(encode_utf8(s.drop_first()) =~= Seq::<u8>::empty());
    assert(encode_utf8(s) =~= encode_scalar(c as u32));
}

/// The first `k` characters take `byte_pos(t, k)` bytes, and their encoding
/// is the beginning of the encoding of the text.
pub proof fn lemma_encode_take(t: Seq<char>, k: int)
    requires
        0 <= k <= t.len(),
    ensures
        encode_utf8(t.take(k)).len() == byte_pos(t, k),
        byte_pos(t, k) <= encode_utf8(t).len(),
        encode_utf8(t.take(k)) == encode_utf8(t).subrange(0, byte_pos(t, k)),
        encode_utf8(t.skip(k)) == encode_utf8(t).subrange(
            byte_pos(t, k),
            encode_utf8(t).len() as int,
        ),
    decreases k,
{
    lemma_encode_concat(t.take(k), t.skip(k));
    assert(t.take(k) + t.skip(k) =~= t);
    if k > 0 {
        lemma_encode_take(t, k - 1);
        lemma_encode_concat(t.take(k - 1), seq![t[k - 1]]);
        lemma_encode_single(t[k - 1]);
        assert(t.take(k - 1) + seq![t[k - 1]] =~= t.take(k));
    } else {
        assert(t.take(0) =~= Seq::<char>::empty());
    }
    let whole = encode_utf8(t);
    let head = encode_utf8(t.take(k));
    let tail = encode_utf8(t.skip(k));
    assert(whole.subrange(0, head.len() as int) =~= head);
    assert(whole.subrange(head.len() as int, whole.len() as int) =~= tail);
}

/// The bytes of character `k`, where they lie and how they are made up: a
/// leading byte that tells their number, then continuation bytes.
pub proof fn lemma_encoding_at(t: Seq<char>, k: int)
    requires
        0 <= k < t.len(),
    ensures
        byte_pos(t, k + 1) <= encode_utf8(t).len(),
        encode_utf8(t).subrange(byte_pos(t, k), byte_pos(t, k + 1)) == encode_scalar(
            t[k] as u32,
        ),
        valid_first_scalar(encode_scalar(t[k] as u32)),
        decode_first_scalar(encode_scalar(t[k] as u32)) == t[k] as u32,
        length_of_first_scalar(encode_scalar(t[k] as u32)) == char_width(t[k]),
        !is_continuation_byte(encode_scalar(t[k] as u32)[0]),
        forall|j: int|
            1 <= j < char_width(t[k]) ==> is_continuation_byte(
                #[trigger] encode_scalar(t[k] as u32)[j],
            ),
{
    let c = t[k];
    let e = encode_scalar(c as u32);
    lemma_encode_take(t, k);
    lemma_encode_take(t, k + 1);
    assert(t.take(k) + seq![c] =~= t.take(k + 1));
    assert(encode_utf8(t).subrange(byte_pos(t, k), byte_pos(t, k + 1)) =~= e);
    encode_utf8_first_scalar(seq![c]);
}

/// Reads the character that begins at byte `i`: its code point and the
/// number of bytes it takes.
pub(crate) fn scalar_at(
    b: &[u8],
    i: usize,
    Ghost(t): Ghost<Seq<char>>,
    Ghost(k): Ghost<int>,
) -> (r: (u32, usize))
    requires
        b@ == encode_utf8(t),
        0 <= k < t.len(),
        i == byte_pos(t, k),
    ensures
        r.0 == t[k] as u32,
        r.1 == char_width(t[k]),
        i + r.1 == byte_pos(t, k + 1),
        i + r.1 <= b@.len(),
{
    proof {
        lemma_encoding_at(t, k);
    }
    let ghost e = encode_scalar(t[k] as u32);
    assert(forall|j: int| 0 <= j < e.len() ==> e[j] == b@[i + j]);
    let b0: u8 = b[i];
    assert(b0 == e[0]);
    if b0 < 0x80 {
        ((b0 & 0x7f) as u32, 1)
    } else if b0 < 0xe0 {
        let b1: u8 = b[i + 1];
        assert(b1 == e[1]);
        ((((b0 & 0x1f) as u32) << 6) | ((b1 & 0x3f) as u32), 2)
    } else if b0 < 0xf0 {
        let b1: u8 = b[i + 1];
        let b2: u8 = b[i + 2];
        assert(b1 == e[1] && b2 == e[2]);
        ((((b0 & 0x0f) as u32) << 12) | (((b1 & 0x3f) as u32) << 6) | ((b2 & 0x3f) as u32), 3)
    } else {
        let b1: u8 = b[i + 1];
        let b2: u8 = b[i + 2];
        let b3: u8 = b[i + 3];
        assert(b1 == e[1] && b2 == e[2] && b3 == e[3]);
        (
            (((b0 & 0x07) as u32) << 18) | (((b1 & 0x3f) as u32) << 12) | (((b2 & 0x3f) as u32)
                << 6) | ((b3 & 0x3f) as u32),
            4,
        )
    }
}

/// Reads the character that ends just before byte `i`: its code point and
/// the number of bytes it takes.
pub(crate) fn scalar_before(
    b: &[u8],
    i: usize,
    Ghost(t): Ghost<Seq<char>>,
    Ghost(k): Ghost<int>,
) -> (r: (u32, usize))
    requires
        b@ == encode_utf8(t),
        0 < k <= t.len(),
        i == byte_pos(t, k),
    ensures
        r.0 == t[k - 1] as u32,
        r.1 == char_width(t[k - 1]),
        i - r.1 == byte_pos(t, k - 1),
{
    proof {
        lemma_encoding_at(t, k - 1);
        lemma_byte_pos_increases(t, 0, k - 1);
    }
    let ghost e = encode_scalar(t[k - 1] as u32);
    let ghost w = char_width(t[k - 1]);
    assert(forall|j: int| 0 <= j < w ==> e[j] == b@[i - w + j]);
    let z: u8 = b[i - 1];
    assert(z == e[w - 1]);
    if z < 0x80 || z >= 0xc0 {
        ((z & 0x7f) as u32, 1)
    } else {
        let y: u8 = b[i - 2];
        assert(y == e[w - 2]);
        if y < 0x80 || y >= 0xc0 {
            ((((y & 0x1f) as u32) << 6) | ((z & 0x3f) as u32), 2)
        } else {
            let x: u8 = b[i - 3];
            assert(x == e[w - 3]);
            if x < 0x80 || x >= 0xc0 {
                (
                    (((x & 0x0f) as u32) << 12) | (((y & 0x3f) as u32) << 6) | ((z & 0x3f) as u32),
                    3,
                )
            } else {
                let v: u8 = b[i - 4];
                assert(v == e[w - 4]);
                (
                    (((v & 0x07) as u32) << 18) | (((x & 0x3f) as u32) << 12) | (((y
                        & 0x3f) as u32) << 6) | ((z & 0x3f) as u32),
                    4,
                )
            }
        }
    }
}

/// Where a character begins, the encoding may be cut.
pub proof fn lemma_char_start_is_boundary(t: Seq<char>, k: int)
    requires
        0 <= k <= t.len(),
    ensures
        is_char_boundary(encode_utf8(t), byte_pos(t, k)),
    decreases k,
{
    let bytes = encode_utf8(t);
    encode_utf8_valid_utf8(t);
    if k > 0 {
        let rest = t.drop_first();
        encode_utf8_first_scalar(t);
        lemma_encode_take(t, 1);
        lemma_byte_pos_skip(t, 1, k - 1);
        assert(t.skip(1) =~= rest);
        assert(pop_first_scalar(bytes) =~= encode_utf8(rest));
        lemma_char_start_is_boundary(rest, k - 1);
    }
}

/// Two texts with the same encoding are the same text.
pub proof fn lemma_encode_injective(a: Seq<char>, b: Seq<char>)
    requires
        encode_utf8(a) == encode_utf8(b),
    ensures
        a == b,
{
    encode_utf8_decode_utf8(a);
    encode_utf8_decode_utf8(b);
}

/// The part of the string from character `j` up to character `k`, which
/// begin at the bytes `from` and `to`.
pub(crate) fn substring<'a>(
    s: &'a str,
    from: usize,
    to: usize,
    Ghost(j): Ghost<int>,
    Ghost(k): Ghost<int>,
) -> (r: &'a str)
    requires
        0 <= j <= k <= s@.len(),
        from == byte_pos(s@, j),
        to == byte_pos(s@, k),
    ensures
        r@ == s@.subrange(j, k),
{
    let ghost t = s@;
    proof {
        lemma_char_start_is_boundary(t, k);
        lemma_encode_take(t, k);
    }
    let (head, _) = s.split_at(to);
    proof {
        lemma_encode_injective(head@, t.take(k));
        lemma_byte_pos_prefix(t.take(k), t, j);
        lemma_char_start_is_boundary(head@, j);
        lemma_encode_take(head@, j);
    }
    let (_, mid) = head.split_at(from);
    proof {
        lemma_encode_injective(mid@, head@.skip(j));
        assert(t.take(k).skip(j) =~= t.subrange(j, k));
    }
    mid
}

} // verus!
