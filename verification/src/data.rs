use crate::lookup::EgcProps;
use crate::lookup::EgcProps::{CN, CR, EP, EX, IN_CO, IN_EX, IN_LI, L, LF, PP, RI, SM, T, V, ZWJ};
use vstd::prelude::*;

verus! {

/// Number of rows in [`RANGES`].
pub const RANGE_COUNT: usize = 733;

/// The code point ranges whose class is not the default one, each as first code
/// point, number of code points and class. The rows rise and do not overlap.
/// Precomposed hangul syllables are left out: their class is computed.
pub const RANGES: [(u32, u16, EgcProps); 733] = [
    (0x0000, 10, CN),
    (0x000a, 1, LF),
    (0x000b, 2, CN),
    (0x000d, 1, CR),
    (0x000e, 18, CN),
    (0x007f, 33, CN),
    (0x00a9, 1, EP),
    (0x00ad, 1, CN),
    (0x00ae, 1, EP),
    (0x0300, 79, IN_EX),
    (0x034f, 1, EX),
    (0x0350, 32, IN_EX),
    (0x0483, 5, IN_EX),
    (0x0488, 2, EX),
    (0x0591, 45, IN_EX),
    (0x05bf, 1, IN_EX),
    (0x05c1, 2, IN_EX),
    (0x05c4, 2, IN_EX),
    (0x05c7, 1, IN_EX),
    (0x0600, 6, PP),
    (0x0610, 11, IN_EX),
    (0x061c, 1, CN),
    (0x064b, 21, IN_EX),
    (0x0670, 1, IN_EX),
    (0x06d6, 7, IN_EX),
    (0x06dd, 1, PP),
    (0x06df, 6, IN_EX),
    (0x06e7, 2, IN_EX),
    (0x06ea, 4, IN_EX),
    (0x070f, 1, PP),
    (0x0711, 1, IN_EX),
    (0x0730, 27, IN_EX),
    (0x07a6, 11, EX),
    (0x07eb, 9, IN_EX),
    (0x07fd, 1, IN_EX),
    (0x0816, 4, IN_EX),
    (0x081b, 9, IN_EX),
    (0x0825, 3, IN_EX),
    (0x0829, 5, IN_EX),
    (0x0859, 3, IN_EX),
    (0x0890, 2, PP),
    (0x0898, 8, IN_EX),
    (0x08ca, 24, IN_EX),
    (0x08e2, 1, PP),
    (0x08e3, 29, IN_EX),
    (0x0900, 3, EX),
    (0x0903, 1, SM),
    (0x0915, 37, IN_CO),
    (0x093a, 1, EX),
    (0x093b, 1, SM),
    (0x093c, 1, IN_EX),
    (0x093e, 3, SM),
    (0x0941, 8, EX),
    (0x0949, 4, SM),
    (0x094d, 1, IN_LI),
    (0x094e, 2, SM),
    (0x0951, 4, IN_EX),
    (0x0955, 3, EX),
    (0x0958, 8, IN_CO),
    (0x0962, 2, EX),
    (0x0978, 8, IN_CO),
    (0x0981, 1, EX),
    (0x0982, 2, SM),
    (0x0995, 20, IN_CO),
    (0x09aa, 7, IN_CO),
    (0x09b2, 1, IN_CO),
    (0x09b6, 4, IN_CO),
    (0x09bc, 1, IN_EX),
    (0x09be, 1, EX),
    (0x09bf, 2, SM),
    (0x09c1, 4, EX),
    (0x09c7, 2, SM),
    (0x09cb, 2, SM),
    (0x09cd, 1, IN_LI),
    (0x09d7, 1, EX),
    (0x09dc, 2, IN_CO),
    (0x09df, 1, IN_CO),
    (0x09e2, 2, EX),
    (0x09f0, 2, IN_CO),
    (0x09fe, 1, IN_EX),
    (0x0a01, 2, EX),
    (0x0a03, 1, SM),
    (0x0a3c, 1, IN_EX),
    (0x0a3e, 3, SM),
    (0x0a41, 2, EX),
    (0x0a47, 2, EX),
    (0x0a4b, 3, EX),
    (0x0a51, 1, EX),
    (0x0a70, 2, EX),
    (0x0a75, 1, EX),
    (0x0a81, 2, EX),
    (0x0a83, 1, SM),
    (0x0a95, 20, IN_CO),
    (0x0aaa, 7, IN_CO),
    (0x0ab2, 2, IN_CO),
    (0x0ab5, 5, IN_CO),
    (0x0abc, 1, IN_EX),
    (0x0abe, 3, SM),
    (0x0ac1, 5, EX),
    (0x0ac7, 2, EX),
    (0x0ac9, 1, SM),
    (0x0acb, 2, SM),
    (0x0acd, 1, IN_LI),
    (0x0ae2, 2, EX),
    (0x0af9, 1, IN_CO),
    (0x0afa, 6, EX),
    (0x0b01, 1, EX),
    (0x0b02, 2, SM),
    (0x0b15, 20, IN_CO),
    (0x0b2a, 7, IN_CO),
    (0x0b32, 2, IN_CO),
    (0x0b35, 5, IN_CO),
    (0x0b3c, 1, IN_EX),
    (0x0b3e, 2, EX),
    (0x0b40, 1, SM),
    (0x0b41, 4, EX),
    (0x0b47, 2, SM),
    (0x0b4b, 2, SM),
    (0x0b4d, 1, IN_LI),
    (0x0b55, 3, EX),
    (0x0b5c, 2, IN_CO),
    (0x0b5f, 1, IN_CO),
    (0x0b62, 2, EX),
    (0x0b71, 1, IN_CO),
    (0x0b82, 1, EX),
    (0x0bbe, 1, EX),
    (0x0bbf, 1, SM),
    (0x0bc0, 1, EX),
    (0x0bc1, 2, SM),
    (0x0bc6, 3, SM),
    (0x0bca, 3, SM),
    (0x0bcd, 1, EX),
    (0x0bd7, 1, EX),
    (0x0c00, 1, EX),
    (0x0c01, 3, SM),
    (0x0c04, 1, EX),
    (0x0c15, 20, IN_CO),
    (0x0c2a, 16, IN_CO),
    (0x0c3c, 1, IN_EX),
    (0x0c3e, 3, EX),
    (0x0c41, 4, SM),
    (0x0c46, 3, EX),
    (0x0c4a, 3, EX),
    (0x0c4d, 1, IN_LI),
    (0x0c55, 2, IN_EX),
    (0x0c58, 3, IN_CO),
    (0x0c62, 2, EX),
    (0x0c81, 1, EX),
    (0x0c82, 2, SM),
    (0x0cbc, 1, IN_EX),
    (0x0cbe, 1, SM),
    (0x0cbf, 1, EX),
    (0x0cc0, 2, SM),
    (0x0cc2, 1, EX),
    (0x0cc3, 2, SM),
    (0x0cc6, 1, EX),
    (0x0cc7, 2, SM),
    (0x0cca, 2, SM),
    (0x0ccc, 2, EX),
    (0x0cd5, 2, EX),
    (0x0ce2, 2, EX),
    (0x0cf3, 1, SM),
    (0x0d00, 2, EX),
    (0x0d02, 2, SM),
    (0x0d15, 38, IN_CO),
    (0x0d3b, 2, IN_EX),
    (0x0d3e, 1, EX),
    (0x0d3f, 2, SM),
    (0x0d41, 4, EX),
    (0x0d46, 3, SM),
    (0x0d4a, 3, SM),
    (0x0d4d, 1, IN_LI),
    (0x0d4e, 1, PP),
    (0x0d57, 1, EX),
    (0x0d62, 2, EX),
    (0x0d81, 1, EX),
    (0x0d82, 2, SM),
    (0x0dca, 1, EX),
    (0x0dcf, 1, EX),
    (0x0dd0, 2, SM),
    (0x0dd2, 3, EX),
    (0x0dd6, 1, EX),
    (0x0dd8, 7, SM),
    (0x0ddf, 1, EX),
    (0x0df2, 2, SM),
    (0x0e31, 1, EX),
    (0x0e33, 1, SM),
    (0x0e34, 4, EX),
    (0x0e38, 3, IN_EX),
    (0x0e47, 1, EX),
    (0x0e48, 4, IN_EX),
    (0x0e4c, 3, EX),
    (0x0eb1, 1, EX),
    (0x0eb3, 1, SM),
    (0x0eb4, 4, EX),
    (0x0eb8, 3, IN_EX),
    (0x0ebb, 2, EX),
    (0x0ec8, 4, IN_EX),
    (0x0ecc, 3, EX),
    (0x0f18, 2, IN_EX),
    (0x0f35, 1, IN_EX),
    (0x0f37, 1, IN_EX),
    (0x0f39, 1, IN_EX),
    (0x0f3e, 2, SM),
    (0x0f71, 2, IN_EX),
    (0x0f73, 1, EX),
    (0x0f74, 1, IN_EX),
    (0x0f75, 5, EX),
    (0x0f7a, 4, IN_EX),
    (0x0f7e, 1, EX),
    (0x0f7f, 1, SM),
    (0x0f80, 1, IN_EX),
    (0x0f81, 1, EX),
    (0x0f82, 3, IN_EX),
    (0x0f86, 2, IN_EX),
    (0x0f8d, 11, EX),
    (0x0f99, 36, EX),
    (0x0fc6, 1, IN_EX),
    (0x102d, 4, EX),
    (0x1031, 1, SM),
    (0x1032, 5, EX),
    (0x1037, 1, IN_EX),
    (0x1039, 2, IN_EX),
    (0x103b, 2, SM),
    (0x103d, 2, EX),
    (0x1056, 2, SM),
    (0x1058, 2, EX),
    (0x105e, 3, EX),
    (0x1071, 4, EX),
    (0x1082, 1, EX),
    (0x1084, 1, SM),
    (0x1085, 2, EX),
    (0x108d, 1, IN_EX),
    (0x109d, 1, EX),
    (0x1100, 96, L),
    (0x1160, 72, V),
    (0x11a8, 88, T),
    (0x135d, 3, IN_EX),
    (0x1712, 2, EX),
    (0x1714, 1, IN_EX),
    (0x1715, 1, SM),
    (0x1732, 2, EX),
    (0x1734, 1, SM),
    (0x1752, 2, EX),
    (0x1772, 2, EX),
    (0x17b4, 2, EX),
    (0x17b6, 1, SM),
    (0x17b7, 7, EX),
    (0x17be, 8, SM),
    (0x17c6, 1, EX),
    (0x17c7, 2, SM),
    (0x17c9, 9, EX),
    (0x17d2, 1, IN_EX),
    (0x17d3, 1, EX),
    (0x17dd, 1, IN_EX),
    (0x180b, 3, EX),
    (0x180e, 1, CN),
    (0x180f, 1, EX),
    (0x1885, 2, EX),
    (0x18a9, 1, IN_EX),
    (0x1920, 3, EX),
    (0x1923, 4, SM),
    (0x1927, 2, EX),
    (0x1929, 3, SM),
    (0x1930, 2, SM),
    (0x1932, 1, EX),
    (0x1933, 6, SM),
    (0x1939, 3, IN_EX),
    (0x1a17, 2, IN_EX),
    (0x1a19, 2, SM),
    (0x1a1b, 1, EX),
    (0x1a55, 1, SM),
    (0x1a56, 1, EX),
    (0x1a57, 1, SM),
    (0x1a58, 7, EX),
    (0x1a60, 1, IN_EX),
    (0x1a62, 1, EX),
    (0x1a65, 8, EX),
    (0x1a6d, 6, SM),
    (0x1a73, 2, EX),
    (0x1a75, 8, IN_EX),
    (0x1a7f, 1, IN_EX),
    (0x1ab0, 14, IN_EX),
    (0x1abe, 1, EX),
    (0x1abf, 16, IN_EX),
    (0x1b00, 4, EX),
    (0x1b04, 1, SM),
    (0x1b34, 1, IN_EX),
    (0x1b35, 6, EX),
    (0x1b3b, 1, SM),
    (0x1b3c, 1, EX),
    (0x1b3d, 5, SM),
    (0x1b42, 1, EX),
    (0x1b43, 2, SM),
    (0x1b6b, 9, IN_EX),
    (0x1b80, 2, EX),
    (0x1b82, 1, SM),
    (0x1ba1, 1, SM),
    (0x1ba2, 4, EX),
    (0x1ba6, 2, SM),
    (0x1ba8, 2, EX),
    (0x1baa, 1, SM),
    (0x1bab, 1, IN_EX),
    (0x1bac, 2, EX),
    (0x1be6, 1, IN_EX),
    (0x1be7, 1, SM),
    (0x1be8, 2, EX),
    (0x1bea, 3, SM),
    (0x1bed, 1, EX),
    (0x1bee, 1, SM),
    (0x1bef, 3, EX),
    (0x1bf2, 2, SM),
    (0x1c24, 8, SM),
    (0x1c2c, 8, EX),
    (0x1c34, 2, SM),
    (0x1c36, 1, EX),
    (0x1c37, 1, IN_EX),
    (0x1cd0, 3, IN_EX),
    (0x1cd4, 13, IN_EX),
    (0x1ce1, 1, SM),
    (0x1ce2, 7, IN_EX),
    (0x1ced, 1, IN_EX),
    (0x1cf4, 1, IN_EX),
    (0x1cf7, 1, SM),
    (0x1cf8, 2, IN_EX),
    (0x1dc0, 64, IN_EX),
    (0x200b, 1, CN),
    (0x200c, 1, EX),
    (0x200d, 1, ZWJ),
    (0x200e, 2, CN),
    (0x2028, 7, CN),
    (0x203c, 1, EP),
    (0x2049, 1, EP),
    (0x2060, 16, CN),
    (0x20d0, 13, IN_EX),
    (0x20dd, 4, EX),
    (0x20e1, 1, IN_EX),
    (0x20e2, 3, EX),
    (0x20e5, 12, IN_EX),
    (0x2122, 1, EP),
    (0x2139, 1, EP),
    (0x2194, 6, EP),
    (0x21a9, 2, EP),
    (0x231a, 2, EP),
    (0x2328, 1, EP),
    (0x2388, 1, EP),
    (0x23cf, 1, EP),
    (0x23e9, 11, EP),
    (0x23f8, 3, EP),
    (0x24c2, 1, EP),
    (0x25aa, 2, EP),
    (0x25b6, 1, EP),
    (0x25c0, 1, EP),
    (0x25fb, 4, EP),
    (0x2600, 6, EP),
    (0x2607, 12, EP),
    (0x2614, 114, EP),
    (0x2690, 118, EP),
    (0x2708, 11, EP),
    (0x2714, 1, EP),
    (0x2716, 1, EP),
    (0x271d, 1, EP),
    (0x2721, 1, EP),
    (0x2728, 1, EP),
    (0x2733, 2, EP),
    (0x2744, 1, EP),
    (0x2747, 1, EP),
    (0x274c, 1, EP),
    (0x274e, 1, EP),
    (0x2753, 3, EP),
    (0x2757, 1, EP),
    (0x2763, 5, EP),
    (0x2795, 3, EP),
    (0x27a1, 1, EP),
    (0x27b0, 1, EP),
    (0x27bf, 1, EP),
    (0x2934, 2, EP),
    (0x2b05, 3, EP),
    (0x2b1b, 2, EP),
    (0x2b50, 1, EP),
    (0x2b55, 1, EP),
    (0x2cef, 3, IN_EX),
    (0x2d7f, 1, IN_EX),
    (0x2de0, 32, IN_EX),
    (0x302a, 6, IN_EX),
    (0x3030, 1, EP),
    (0x303d, 1, EP),
    (0x3099, 2, IN_EX),
    (0x3297, 1, EP),
    (0x3299, 1, EP),
    (0xa66f, 1, IN_EX),
    (0xa670, 3, EX),
    (0xa674, 10, IN_EX),
    (0xa69e, 2, IN_EX),
    (0xa6f0, 2, IN_EX),
    (0xa802, 1, EX),
    (0xa806, 1, EX),
    (0xa80b, 1, EX),
    (0xa823, 2, SM),
    (0xa825, 2, EX),
    (0xa827, 1, SM),
    (0xa82c, 1, IN_EX),
    (0xa880, 2, SM),
    (0xa8b4, 16, SM),
    (0xa8c4, 2, EX),
    (0xa8e0, 18, IN_EX),
    (0xa8ff, 1, EX),
    (0xa926, 5, EX),
    (0xa92b, 3, IN_EX),
    (0xa947, 11, EX),
    (0xa952, 2, SM),
    (0xa960, 29, L),
    (0xa980, 3, EX),
    (0xa983, 1, SM),
    (0xa9b3, 1, IN_EX),
    (0xa9b4, 2, SM),
    (0xa9b6, 4, EX),
    (0xa9ba, 2, SM),
    (0xa9bc, 2, EX),
    (0xa9be, 3, SM),
    (0xa9e5, 1, EX),
    (0xaa29, 6, EX),
    (0xaa2f, 2, SM),
    (0xaa31, 2, EX),
    (0xaa33, 2, SM),
    (0xaa35, 2, EX),
    (0xaa43, 1, EX),
    (0xaa4c, 1, EX),
    (0xaa4d, 1, SM),
    (0xaa7c, 1, EX),
    (0xaab0, 1, IN_EX),
    (0xaab2, 3, IN_EX),
    (0xaab7, 2, IN_EX),
    (0xaabe, 2, IN_EX),
    (0xaac1, 1, IN_EX),
    (0xaaeb, 1, SM),
    (0xaaec, 2, EX),
    (0xaaee, 2, SM),
    (0xaaf5, 1, SM),
    (0xaaf6, 1, IN_EX),
    (0xabe3, 2, SM),
    (0xabe5, 1, EX),
    (0xabe6, 2, SM),
    (0xabe8, 1, EX),
    (0xabe9, 2, SM),
    (0xabec, 1, SM),
    (0xabed, 1, IN_EX),
    (0xd7b0, 23, V),
    (0xd7cb, 49, T),
    (0xfb1e, 1, IN_EX),
    (0xfe00, 16, EX),
    (0xfe20, 16, IN_EX),
    (0xfeff, 1, CN),
    (0xff9e, 2, EX),
    (0xfff0, 12, CN),
    (0x101fd, 1, IN_EX),
    (0x102e0, 1, IN_EX),
    (0x10376, 5, IN_EX),
    (0x10a01, 3, EX),
    (0x10a05, 2, EX),
    (0x10a0c, 1, EX),
    (0x10a0d, 1, IN_EX),
    (0x10a0e, 1, EX),
    (0x10a0f, 1, IN_EX),
    (0x10a38, 3, IN_EX),
    (0x10a3f, 1, IN_EX),
    (0x10ae5, 2, IN_EX),
    (0x10d24, 4, IN_EX),
    (0x10eab, 2, IN_EX),
    (0x10efd, 3, IN_EX),
    (0x10f46, 11, IN_EX),
    (0x10f82, 4, IN_EX),
    (0x11000, 1, SM),
    (0x11001, 1, EX),
    (0x11002, 1, SM),
    (0x11038, 15, EX),
    (0x11070, 1, IN_EX),
    (0x11073, 2, EX),
    (0x1107f, 1, IN_EX),
    (0x11080, 2, EX),
    (0x11082, 1, SM),
    (0x110b0, 3, SM),
    (0x110b3, 4, EX),
    (0x110b7, 2, SM),
    (0x110b9, 1, EX),
    (0x110ba, 1, IN_EX),
    (0x110bd, 1, PP),
    (0x110c2, 1, EX),
    (0x110cd, 1, PP),
    (0x11100, 3, IN_EX),
    (0x11127, 5, EX),
    (0x1112c, 1, SM),
    (0x1112d, 6, EX),
    (0x11133, 2, IN_EX),
    (0x11145, 2, SM),
    (0x11173, 1, IN_EX),
    (0x11180, 2, EX),
    (0x11182, 1, SM),
    (0x111b3, 3, SM),
    (0x111b6, 9, EX),
    (0x111bf, 2, SM),
    (0x111c2, 2, PP),
    (0x111c9, 1, EX),
    (0x111ca, 1, IN_EX),
    (0x111cb, 2, EX),
    (0x111ce, 1, SM),
    (0x111cf, 1, EX),
    (0x1122c, 3, SM),
    (0x1122f, 3, EX),
    (0x11232, 2, SM),
    (0x11234, 1, EX),
    (0x11235, 1, SM),
    (0x11236, 1, IN_EX),
    (0x11237, 1, EX),
    (0x1123e, 1, EX),
    (0x11241, 1, EX),
    (0x112df, 1, EX),
    (0x112e0, 3, SM),
    (0x112e3, 6, EX),
    (0x112e9, 2, IN_EX),
    (0x11300, 2, EX),
    (0x11302, 2, SM),
    (0x1133b, 2, IN_EX),
    (0x1133e, 1, EX),
    (0x1133f, 1, SM),
    (0x11340, 1, EX),
    (0x11341, 4, SM),
    (0x11347, 2, SM),
    (0x1134b, 3, SM),
    (0x11357, 1, EX),
    (0x11362, 2, SM),
    (0x11366, 7, IN_EX),
    (0x11370, 5, IN_EX),
    (0x11435, 3, SM),
    (0x11438, 8, EX),
    (0x11440, 2, SM),
    (0x11442, 3, EX),
    (0x11445, 1, SM),
    (0x11446, 1, IN_EX),
    (0x1145e, 1, IN_EX),
    (0x114b0, 1, EX),
    (0x114b1, 2, SM),
    (0x114b3, 6, EX),
    (0x114b9, 1, SM),
    (0x114ba, 1, EX),
    (0x114bb, 2, SM),
    (0x114bd, 1, EX),
    (0x114be, 1, SM),
    (0x114bf, 2, EX),
    (0x114c1, 1, SM),
    (0x114c2, 1, EX),
    (0x114c3, 1, IN_EX),
    (0x115af, 1, EX),
    (0x115b0, 2, SM),
    (0x115b2, 4, EX),
    (0x115b8, 4, SM),
    (0x115bc, 2, EX),
    (0x115be, 1, SM),
    (0x115bf, 1, EX),
    (0x115c0, 1, IN_EX),
    (0x115dc, 2, EX),
    (0x11630, 3, SM),
    (0x11633, 8, EX),
    (0x1163b, 2, SM),
    (0x1163d, 1, EX),
    (0x1163e, 1, SM),
    (0x1163f, 2, EX),
    (0x116ab, 1, EX),
    (0x116ac, 1, SM),
    (0x116ad, 1, EX),
    (0x116ae, 2, SM),
    (0x116b0, 6, EX),
    (0x116b6, 1, SM),
    (0x116b7, 1, IN_EX),
    (0x1171d, 3, EX),
    (0x11722, 4, EX),
    (0x11726, 1, SM),
    (0x11727, 4, EX),
    (0x1172b, 1, IN_EX),
    (0x1182c, 3, SM),
    (0x1182f, 9, EX),
    (0x11838, 1, SM),
    (0x11839, 1, EX),
    (0x1183a, 1, IN_EX),
    (0x11930, 1, EX),
    (0x11931, 5, SM),
    (0x11937, 2, SM),
    (0x1193b, 2, EX),
    (0x1193d, 1, SM),
    (0x1193e, 1, IN_EX),
    (0x1193f, 1, PP),
    (0x11940, 1, SM),
    (0x11941, 1, PP),
    (0x11942, 1, SM),
    (0x11943, 1, IN_EX),
    (0x119d1, 3, SM),
    (0x119d4, 4, EX),
    (0x119da, 2, EX),
    (0x119dc, 4, SM),
    (0x119e0, 1, EX),
    (0x119e4, 1, SM),
    (0x11a01, 10, EX),
    (0x11a33, 1, EX),
    (0x11a34, 1, IN_EX),
    (0x11a35, 4, EX),
    (0x11a39, 1, SM),
    (0x11a3a, 1, PP),
    (0x11a3b, 4, EX),
    (0x11a47, 1, IN_EX),
    (0x11a51, 6, EX),
    (0x11a57, 2, SM),
    (0x11a59, 3, EX),
    (0x11a84, 6, PP),
    (0x11a8a, 13, EX),
    (0x11a97, 1, SM),
    (0x11a98, 1, EX),
    (0x11a99, 1, IN_EX),
    (0x11c2f, 1, SM),
    (0x11c30, 7, EX),
    (0x11c38, 6, EX),
    (0x11c3e, 1, SM),
    (0x11c3f, 1, EX),
    (0x11c92, 22, EX),
    (0x11ca9, 1, SM),
    (0x11caa, 7, EX),
    (0x11cb1, 1, SM),
    (0x11cb2, 2, EX),
    (0x11cb4, 1, SM),
    (0x11cb5, 2, EX),
    (0x11d31, 6, EX),
    (0x11d3a, 1, EX),
    (0x11d3c, 2, EX),
    (0x11d3f, 3, EX),
    (0x11d42, 1, IN_EX),
    (0x11d43, 1, EX),
    (0x11d44, 2, IN_EX),
    (0x11d46, 1, PP),
    (0x11d47, 1, EX),
    (0x11d8a, 5, SM),
    (0x11d90, 2, EX),
    (0x11d93, 2, SM),
    (0x11d95, 1, EX),
    (0x11d96, 1, SM),
    (0x11d97, 1, IN_EX),
    (0x11ef3, 2, EX),
    (0x11ef5, 2, SM),
    (0x11f00, 2, EX),
    (0x11f02, 1, PP),
    (0x11f03, 1, SM),
    (0x11f34, 2, SM),
    (0x11f36, 5, EX),
    (0x11f3e, 2, SM),
    (0x11f40, 1, EX),
    (0x11f41, 1, SM),
    (0x11f42, 1, IN_EX),
    (0x13430, 16, CN),
    (0x13440, 1, EX),
    (0x13447, 15, EX),
    (0x16af0, 5, IN_EX),
    (0x16b30, 7, IN_EX),
    (0x16f4f, 1, EX),
    (0x16f51, 55, SM),
    (0x16f8f, 4, EX),
    (0x16fe4, 1, EX),
    (0x16ff0, 2, SM),
    (0x1bc9d, 1, EX),
    (0x1bc9e, 1, IN_EX),
    (0x1bca0, 4, CN),
    (0x1cf00, 46, EX),
    (0x1cf30, 23, EX),
    (0x1d165, 1, IN_EX),
    (0x1d166, 1, SM),
    (0x1d167, 3, IN_EX),
    (0x1d16d, 1, SM),
    (0x1d16e, 5, IN_EX),
    (0x1d173, 8, CN),
    (0x1d17b, 8, IN_EX),
    (0x1d185, 7, IN_EX),
    (0x1d1aa, 4, IN_EX),
    (0x1d242, 3, IN_EX),
    (0x1da00, 55, EX),
    (0x1da3b, 50, EX),
    (0x1da75, 1, EX),
    (0x1da84, 1, EX),
    (0x1da9b, 5, EX),
    (0x1daa1, 15, EX),
    (0x1e000, 7, IN_EX),
    (0x1e008, 17, IN_EX),
    (0x1e01b, 7, IN_EX),
    (0x1e023, 2, IN_EX),
    (0x1e026, 5, IN_EX),
    (0x1e08f, 1, IN_EX),
    (0x1e130, 7, IN_EX),
    (0x1e2ae, 1, IN_EX),
    (0x1e2ec, 4, IN_EX),
    (0x1e4ec, 4, IN_EX),
    (0x1e8d0, 7, IN_EX),
    (0x1e944, 7, IN_EX),
    (0x1f000, 256, EP),
    (0x1f10d, 3, EP),
    (0x1f12f, 1, EP),
    (0x1f16c, 6, EP),
    (0x1f17e, 2, EP),
    (0x1f18e, 1, EP),
    (0x1f191, 10, EP),
    (0x1f1ad, 57, EP),
    (0x1f1e6, 26, RI),
    (0x1f201, 15, EP),
    (0x1f21a, 1, EP),
    (0x1f22f, 1, EP),
    (0x1f232, 9, EP),
    (0x1f23c, 4, EP),
    (0x1f249, 434, EP),
    (0x1f3fb, 5, EX),
    (0x1f400, 318, EP),
    (0x1f546, 266, EP),
    (0x1f680, 128, EP),
    (0x1f774, 12, EP),
    (0x1f7d5, 43, EP),
    (0x1f80c, 4, EP),
    (0x1f848, 8, EP),
    (0x1f85a, 6, EP),
    (0x1f888, 8, EP),
    (0x1f8ae, 82, EP),
    (0x1f90c, 47, EP),
    (0x1f93c, 10, EP),
    (0x1f947, 441, EP),
    (0x1fc00, 1022, EP),
    (0xe0000, 32, CN),
    (0xe0020, 96, EX),
    (0xe0080, 128, CN),
    (0xe0100, 240, EX),
    (0xe01f0, 3600, CN),
];

} // verus!
