//! The Huffman code of header compression. Every byte has a code of 5 to 30
//! bits, the shorter the more often the byte occurs in header fields; one
//! further code of 30 bits marks the end of a string. A coded string is the
//! codes of its bytes, highest bit first, filled up to a whole byte with the
//! first bits of the end mark, which are all set.

use vstd::prelude::*;

verus! {

/// The symbol that marks the end of a string. The symbols below it are the
/// bytes.
pub const END_OF_STRING: usize = 256;

/// The code of a symbol: a number whose low bits are the code, and the
/// number of those bits.
#[verifier::opaque]
pub open spec fn spec_code(sym: int) -> (u32, u8) {
    if sym == 0 {
        (0x1ff8, 13)
    } else if sym == 1 {
        (0x7fffd8, 23)
    } else if sym == 2 {
        (0xfffffe2, 28)
    } else if sym == 3 {
        (0xfffffe3, 28)
    } else if sym == 4 {
        (0xfffffe4, 28)
    } else if sym == 5 {
        (0xfffffe5, 28)
    } else if sym == 6 {
        (0xfffffe6, 28)
    } else if sym == 7 {
        (0xfffffe7, 28)
    } else if sym == 8 {
        (0xfffffe8, 28)
    } else if sym == 9 {
        (0xffffea, 24)
    } else if sym == 10 {
        (0x3ffffffc, 30)
    } else if sym == 11 {
        (0xfffffe9, 28)
    } else if sym == 12 {
        (0xfffffea, 28)
    } else if sym == 13 {
        (0x3ffffffd, 30)
    } else if sym == 14 {
        (0xfffffeb, 28)
    } else if sym == 15 {
        (0xfffffec, 28)
    } else if sym == 16 {
        (0xfffffed, 28)
    } else if sym == 17 {
        (0xfffffee, 28)
    } else if sym == 18 {
        (0xfffffef, 28)
    } else if sym == 19 {
        (0xffffff0, 28)
    } else if sym == 20 {
        (0xffffff1, 28)
    } else if sym == 21 {
        (0xffffff2, 28)
    } else if sym == 22 {
        (0x3ffffffe, 30)
    } else if sym == 23 {
        (0xffffff3, 28)
    } else if sym == 24 {
        (0xffffff4, 28)
    } else if sym == 25 {
        (0xffffff5, 28)
    } else if sym == 26 {
        (0xffffff6, 28)
    } else if sym == 27 {
        (0xffffff7, 28)
    } else if sym == 28 {
        (0xffffff8, 28)
    } else if sym == 29 {
        (0xffffff9, 28)
    } else if sym == 30 {
        (0xffffffa, 28)
    } else if sym == 31 {
        (0xffffffb, 28)
    } else if sym == 32 {
        (0x14, 6)
    } else if sym == 33 {
        (0x3f8, 10)
    } else if sym == 34 {
        (0x3f9, 10)
    } else if sym == 35 {
        (0xffa, 12)
    } else if sym == 36 {
        (0x1ff9, 13)
    } else if sym == 37 {
        (0x15, 6)
    } else if sym == 38 {
        (0xf8, 8)
    } else if sym == 39 {
        (0x7fa, 11)
    } else if sym == 40 {
        (0x3fa, 10)
    } else if sym == 41 {
        (0x3fb, 10)
    } else if sym == 42 {
        (0xf9, 8)
    } else if sym == 43 {
        (0x7fb, 11)
    } else if sym == 44 {
        (0xfa, 8)
    } else if sym == 45 {
        (0x16, 6)
    } else if sym == 46 {
        (0x17, 6)
    } else if sym == 47 {
        (0x18, 6)
    } else if sym == 48 {
        (0x0, 5)
    } else if sym == 49 {
        (0x1, 5)
    } else if sym == 50 {
        (0x2, 5)
    } else if sym == 51 {
        (0x19, 6)
    } else if sym == 52 {
        (0x1a, 6)
    } else if sym == 53 {
        (0x1b, 6)
    } else if sym == 54 {
        (0x1c, 6)
    } else if sym == 55 {
        (0x1d, 6)
    } else if sym == 56 {
        (0x1e, 6)
    } else if sym == 57 {
        (0x1f, 6)
    } else if sym == 58 {
        (0x5c, 7)
    } else if sym == 59 {
        (0xfb, 8)
    } else if sym == 60 {
        (0x7ffc, 15)
    } else if sym == 61 {
        (0x20, 6)
    } else if sym == 62 {
        (0xffb, 12)
    } else if sym == 63 {
        (0x3fc, 10)
    } else if sym == 64 {
        (0x1ffa, 13)
    } else if sym == 65 {
        (0x21, 6)
    } else if sym == 66 {
        (0x5d, 7)
    } else if sym == 67 {
        (0x5e, 7)
    } else if sym == 68 {
        (0x5f, 7)
    } else if sym == 69 {
        (0x60, 7)
    } else if sym == 70 {
        (0x61, 7)
    } else if sym == 71 {
        (0x62, 7)
    } else if sym == 72 {
        (0x63, 7)
    } else if sym == 73 {
        (0x64, 7)
    } else if sym == 74 {
        (0x65, 7)
    } else if sym == 75 {
        (0x66, 7)
    } else if sym == 76 {
        (0x67, 7)
    } else if sym == 77 {
        (0x68, 7)
    } else if sym == 78 {
        (0x69, 7)
    } else if sym == 79 {
        (0x6a, 7)
    } else if sym == 80 {
        (0x6b, 7)
    } else if sym == 81 {
        (0x6c, 7)
    } else if sym == 82 {
        (0x6d, 7)
    } else if sym == 83 {
        (0x6e, 7)
    } else if sym == 84 {
        (0x6f, 7)
    } else if sym == 85 {
        (0x70, 7)
    } else if sym == 86 {
        (0x71, 7)
    } else if sym == 87 {
        (0x72, 7)
    } else if sym == 88 {
        (0xfc, 8)
    } else if sym == 89 {
        (0x73, 7)
    } else if sym == 90 {
        (0xfd, 8)
    } else if sym == 91 {
        (0x1ffb, 13)
    } else if sym == 92 {
        (0x7fff0, 19)
    } else if sym == 93 {
        (0x1ffc, 13)
    } else if sym == 94 {
        (0x3ffc, 14)
    } else if sym == 95 {
        (0x22, 6)
    } else if sym == 96 {
        (0x7ffd, 15)
    } else if sym == 97 {
        (0x3, 5)
    } else if sym == 98 {
        (0x23, 6)
    } else if sym == 99 {
        (0x4, 5)
    } else if sym == 100 {
        (0x24, 6)
    } else if sym == 101 {
        (0x5, 5)
    } else if sym == 102 {
        (0x25, 6)
    } else if sym == 103 {
        (0x26, 6)
    } else if sym == 104 {
        (0x27, 6)
    } else if sym == 105 {
        (0x6, 5)
    } else if sym == 106 {
        (0x74, 7)
    } else if sym == 107 {
        (0x75, 7)
    } else if sym == 108 {
        (0x28, 6)
    } else if sym == 109 {
        (0x29, 6)
    } else if sym == 110 {
        (0x2a, 6)
    } else if sym == 111 {
        (0x7, 5)
    } else if sym == 112 {
        (0x2b, 6)
    } else if sym == 113 {
        (0x76, 7)
    } else if sym == 114 {
        (0x2c, 6)
    } else if sym == 115 {
        (0x8, 5)
    } else if sym == 116 {
        (0x9, 5)
    } else if sym == 117 {
        (0x2d, 6)
    } else if sym == 118 {
        (0x77, 7)
    } else if sym == 119 {
        (0x78, 7)
    } else if sym == 120 {
        (0x79, 7)
    } else if sym == 121 {
        (0x7a, 7)
    } else if sym == 122 {
        (0x7b, 7)
    } else if sym == 123 {
        (0x7ffe, 15)
    } else if sym == 124 {
        (0x7fc, 11)
    } else if sym == 125 {
        (0x3ffd, 14)
    } else if sym == 126 {
        (0x1ffd, 13)
    } else if sym == 127 {
        (0xffffffc, 28)
    } else if sym == 128 {
        (0xfffe6, 20)
    } else if sym == 129 {
        (0x3fffd2, 22)
    } else if sym == 130 {
        (0xfffe7, 20)
    } else if sym == 131 {
        (0xfffe8, 20)
    } else if sym == 132 {
        (0x3fffd3, 22)
    } else if sym == 133 {
        (0x3fffd4, 22)
    } else if sym == 134 {
        (0x3fffd5, 22)
    } else if sym == 135 {
        (0x7fffd9, 23)
    } else if sym == 136 {
        (0x3fffd6, 22)
    } else if sym == 137 {
        (0x7fffda, 23)
    } else if sym == 138 {
        (0x7fffdb, 23)
    } else if sym == 139 {
        (0x7fffdc, 23)
    } else if sym == 140 {
        (0x7fffdd, 23)
    } else if sym == 141 {
        (0x7fffde, 23)
    } else if sym == 142 {
        (0xffffeb, 24)
    } else if sym == 143 {
        (0x7fffdf, 23)
    } else if sym == 144 {
        (0xffffec, 24)
    } else if sym == 145 {
        (0xffffed, 24)
    } else if sym == 146 {
        (0x3fffd7, 22)
    } else if sym == 147 {
        (0x7fffe0, 23)
    } else if sym == 148 {
        (0xffffee, 24)
    } else if sym == 149 {
        (0x7fffe1, 23)
    } else if sym == 150 {
        (0x7fffe2, 23)
    } else if sym == 151 {
        (0x7fffe3, 23)
    } else if sym == 152 {
        (0x7fffe4, 23)
    } else if sym == 153 {
        (0x1fffdc, 21)
    } else if sym == 154 {
        (0x3fffd8, 22)
    } else if sym == 155 {
        (0x7fffe5, 23)
    } else if sym == 156 {
        (0x3fffd9, 22)
    } else if sym == 157 {
        (0x7fffe6, 23)
    } else if sym == 158 {
        (0x7fffe7, 23)
    } else if sym == 159 {
        (0xffffef, 24)
    } else if sym == 160 {
        (0x3fffda, 22)
    } else if sym == 161 {
        (0x1fffdd, 21)
    } else if sym == 162 {
        (0xfffe9, 20)
    } else if sym == 163 {
        (0x3fffdb, 22)
    } else if sym == 164 {
        (0x3fffdc, 22)
    } else if sym == 165 {
        (0x7fffe8, 23)
    } else if sym == 166 {
        (0x7fffe9, 23)
    } else if sym == 167 {
        (0x1fffde, 21)
    } else if sym == 168 {
        (0x7fffea, 23)
    } else if sym == 169 {
        (0x3fffdd, 22)
    } else if sym == 170 {
        (0x3fffde, 22)
    } else if sym == 171 {
        (0xfffff0, 24)
    } else if sym == 172 {
        (0x1fffdf, 21)
    } else if sym == 173 {
        (0x3fffdf, 22)
    } else if sym == 174 {
        (0x7fffeb, 23)
    } else if sym == 175 {
        (0x7fffec, 23)
    } else if sym == 176 {
        (0x1fffe0, 21)
    } else if sym == 177 {
        (0x1fffe1, 21)
    } else if sym == 178 {
        (0x3fffe0, 22)
    } else if sym == 179 {
        (0x1fffe2, 21)
    } else if sym == 180 {
        (0x7fffed, 23)
    } else if sym == 181 {
        (0x3fffe1, 22)
    } else if sym == 182 {
        (0x7fffee, 23)
    } else if sym == 183 {
        (0x7fffef, 23)
    } else if sym == 184 {
        (0xfffea, 20)
    } else if sym == 185 {
        (0x3fffe2, 22)
    } else if sym == 186 {
        (0x3fffe3, 22)
    } else if sym == 187 {
        (0x3fffe4, 22)
    } else if sym == 188 {
        (0x7ffff0, 23)
    } else if sym == 189 {
        (0x3fffe5, 22)
    } else if sym == 190 {
        (0x3fffe6, 22)
    } else if sym == 191 {
        (0x7ffff1, 23)
    } else if sym == 192 {
        (0x3ffffe0, 26)
    } else if sym == 193 {
        (0x3ffffe1, 26)
    } else if sym == 194 {
        (0xfffeb, 20)
    } else if sym == 195 {
        (0x7fff1, 19)
    } else if sym == 196 {
        (0x3fffe7, 22)
    } else if sym == 197 {
        (0x7ffff2, 23)
    } else if sym == 198 {
        (0x3fffe8, 22)
    } else if sym == 199 {
        (0x1ffffec, 25)
    } else if sym == 200 {
        (0x3ffffe2, 26)
    } else if sym == 201 {
        (0x3ffffe3, 26)
    } else if sym == 202 {
        (0x3ffffe4, 26)
    } else if sym == 203 {
        (0x7ffffde, 27)
    } else if sym == 204 {
        (0x7ffffdf, 27)
    } else if sym == 205 {
        (0x3ffffe5, 26)
    } else if sym == 206 {
        (0xfffff1, 24)
    } else if sym == 207 {
        (0x1ffffed, 25)
    } else if sym == 208 {
        (0x7fff2, 19)
    } else if sym == 209 {
        (0x1fffe3, 21)
    } else if sym == 210 {
        (0x3ffffe6, 26)
    } else if sym == 211 {
        (0x7ffffe0, 27)
    } else if sym == 212 {
        (0x7ffffe1, 27)
    } else if sym == 213 {
        (0x3ffffe7, 26)
    } else if sym == 214 {
        (0x7ffffe2, 27)
    } else if sym == 215 {
        (0xfffff2, 24)
    } else if sym == 216 {
        (0x1fffe4, 21)
    } else if sym == 217 {
        (0x1fffe5, 21)
    } else if sym == 218 {
        (0x3ffffe8, 26)
    } else if sym == 219 {
        (0x3ffffe9, 26)
    } else if sym == 220 {
        (0xffffffd, 28)
    } else if sym == 221 {
        (0x7ffffe3, 27)
    } else if sym == 222 {
        (0x7ffffe4, 27)
    } else if sym == 223 {
        (0x7ffffe5, 27)
    } else if sym == 224 {
        (0xfffec, 20)
    } else if sym == 225 {
        (0xfffff3, 24)
    } else if sym == 226 {
        (0xfffed, 20)
    } else if sym == 227 {
        (0x1fffe6, 21)
    } else if sym == 228 {
        (0x3fffe9, 22)
    } else if sym == 229 {
        (0x1fffe7, 21)
    } else if sym == 230 {
        (0x1fffe8, 21)
    } else if sym == 231 {
        (0x7ffff3, 23)
    } else if sym == 232 {
        (0x3fffea, 22)
    } else if sym == 233 {
        (0x3fffeb, 22)
    } else if sym == 234 {
        (0x1ffffee, 25)
    } else if sym == 235 {
        (0x1ffffef, 25)
    } else if sym == 236 {
        (0xfffff4, 24)
    } else if sym == 237 {
        (0xfffff5, 24)
    } else if sym == 238 {
        (0x3ffffea, 26)
    } else if sym == 239 {
        (0x7ffff4, 23)
    } else if sym == 240 {
        (0x3ffffeb, 26)
    } else if sym == 241 {
        (0x7ffffe6, 27)
    } else if sym == 242 {
        (0x3ffffec, 26)
    } else if sym == 243 {
        (0x3ffffed, 26)
    } else if sym == 244 {
        (0x7ffffe7, 27)
    } else if sym == 245 {
        (0x7ffffe8, 27)
    } else if sym == 246 {
        (0x7ffffe9, 27)
    } else if sym == 247 {
        (0x7ffffea, 27)
    } else if sym == 248 {
        (0x7ffffeb, 27)
    } else if sym == 249 {
        (0xffffffe, 28)
    } else if sym == 250 {
        (0x7ffffec, 27)
    } else if sym == 251 {
        (0x7ffffed, 27)
    } else if sym == 252 {
        (0x7ffffee, 27)
    } else if sym == 253 {
        (0x7ffffef, 27)
    } else if sym == 254 {
        (0x7fffff0, 27)
    } else if sym == 255 {
        (0x3ffffee, 26)
    } else {
        (0x3fffffff, 30)
    }
}

/// Every code has between 5 and 30 bits.
pub proof fn lemma_code_len(sym: int)
    ensures
        5 <= spec_code(sym).1 <= 30,
{
    reveal(spec_code);
}

/// The code of a symbol.
pub fn code(sym: usize) -> (r: (u32, u8))
    requires
        sym <= END_OF_STRING,
    ensures
        r == spec_code(sym as int),
        5 <= r.1 <= 30,
{
    proof {
        reveal(spec_code);
    }
    if sym == 0 {
        (0x1ff8, 13)
    } else if sym == 1 {
        (0x7fffd8, 23)
    } else if sym == 2 {
        (0xfffffe2, 28)
    } else if sym == 3 {
        (0xfffffe3, 28)
    } else if sym == 4 {
        (0xfffffe4, 28)
    } else if sym == 5 {
        (0xfffffe5, 28)
    } else if sym == 6 {
        (0xfffffe6, 28)
    } else if sym == 7 {
        (0xfffffe7, 28)
    } else if sym == 8 {
        (0xfffffe8, 28)
    } else if sym == 9 {
        (0xffffea, 24)
    } else if sym == 10 {
        (0x3ffffffc, 30)
    } else if sym == 11 {
        (0xfffffe9, 28)
    } else if sym == 12 {
        (0xfffffea, 28)
    } else if sym == 13 {
        (0x3ffffffd, 30)
    } else if sym == 14 {
        (0xfffffeb, 28)
    } else if sym == 15 {
        (0xfffffec, 28)
    } else if sym == 16 {
        (0xfffffed, 28)
    } else if sym == 17 {
        (0xfffffee, 28)
    } else if sym == 18 {
        (0xfffffef, 28)
    } else if sym == 19 {
        (0xffffff0, 28)
    } else if sym == 20 {
        (0xffffff1, 28)
    } else if sym == 21 {
        (0xffffff2, 28)
    } else if sym == 22 {
        (0x3ffffffe, 30)
    } else if sym == 23 {
        (0xffffff3, 28)
    } else if sym == 24 {
        (0xffffff4, 28)
    } else if sym == 25 {
        (0xffffff5, 28)
    } else if sym == 26 {
        (0xffffff6, 28)
    } else if sym == 27 {
        (0xffffff7, 28)
    } else if sym == 28 {
        (0xffffff8, 28)
    } else if sym == 29 {
        (0xffffff9, 28)
    } else if sym == 30 {
        (0xffffffa, 28)
    } else if sym == 31 {
        (0xffffffb, 28)
    } else if sym == 32 {
        (0x14, 6)
    } else if sym == 33 {
        (0x3f8, 10)
    } else if sym == 34 {
        (0x3f9, 10)
    } else if sym == 35 {
        (0xffa, 12)
    } else if sym == 36 {
        (0x1ff9, 13)
    } else if sym == 37 {
        (0x15, 6)
    } else if sym == 38 {
        (0xf8, 8)
    } else if sym == 39 {
        (0x7fa, 11)
    } else if sym == 40 {
        (0x3fa, 10)
    } else if sym == 41 {
        (0x3fb, 10)
    } else if sym == 42 {
        (0xf9, 8)
    } else if sym == 43 {
        (0x7fb, 11)
    } else if sym == 44 {
        (0xfa, 8)
    } else if sym == 45 {
        (0x16, 6)
    } else if sym == 46 {
        (0x17, 6)
    } else if sym == 47 {
        (0x18, 6)
    } else if sym == 48 {
        (0x0, 5)
    } else if sym == 49 {
        (0x1, 5)
    } else if sym == 50 {
        (0x2, 5)
    } else if sym == 51 {
        (0x19, 6)
    } else if sym == 52 {
        (0x1a, 6)
    } else if sym == 53 {
        (0x1b, 6)
    } else if sym == 54 {
        (0x1c, 6)
    } else if sym == 55 {
        (0x1d, 6)
    } else if sym == 56 {
        (0x1e, 6)
    } else if sym == 57 {
        (0x1f, 6)
    } else if sym == 58 {
        (0x5c, 7)
    } else if sym == 59 {
        (0xfb, 8)
    } else if sym == 60 {
        (0x7ffc, 15)
    } else if sym == 61 {
        (0x20, 6)
    } else if sym == 62 {
        (0xffb, 12)
    } else if sym == 63 {
        (0x3fc, 10)
    } else if sym == 64 {
        (0x1ffa, 13)
    } else if sym == 65 {
        (0x21, 6)
    } else if sym == 66 {
        (0x5d, 7)
    } else if sym == 67 {
        (0x5e, 7)
    } else if sym == 68 {
        (0x5f, 7)
    } else if sym == 69 {
        (0x60, 7)
    } else if sym == 70 {
        (0x61, 7)
    } else if sym == 71 {
        (0x62, 7)
    } else if sym == 72 {
        (0x63, 7)
    } else if sym == 73 {
        (0x64, 7)
    } else if sym == 74 {
        (0x65, 7)
    } else if sym == 75 {
        (0x66, 7)
    } else if sym == 76 {
        (0x67, 7)
    } else if sym == 77 {
        (0x68, 7)
    } else if sym == 78 {
        (0x69, 7)
    } else if sym == 79 {
        (0x6a, 7)
    } else if sym == 80 {
        (0x6b, 7)
    } else if sym == 81 {
        (0x6c, 7)
    } else if sym == 82 {
        (0x6d, 7)
    } else if sym == 83 {
        (0x6e, 7)
    } else if sym == 84 {
        (0x6f, 7)
    } else if sym == 85 {
        (0x70, 7)
    } else if sym == 86 {
        (0x71, 7)
    } else if sym == 87 {
        (0x72, 7)
    } else if sym == 88 {
        (0xfc, 8)
    } else if sym == 89 {
        (0x73, 7)
    } else if sym == 90 {
        (0xfd, 8)
    } else if sym == 91 {
        (0x1ffb, 13)
    } else if sym == 92 {
        (0x7fff0, 19)
    } else if sym == 93 {
        (0x1ffc, 13)
    } else if sym == 94 {
        (0x3ffc, 14)
    } else if sym == 95 {
        (0x22, 6)
    } else if sym == 96 {
        (0x7ffd, 15)
    } else if sym == 97 {
        (0x3, 5)
    } else if sym == 98 {
        (0x23, 6)
    } else if sym == 99 {
        (0x4, 5)
    } else if sym == 100 {
        (0x24, 6)
    } else if sym == 101 {
        (0x5, 5)
    } else if sym == 102 {
        (0x25, 6)
    } else if sym == 103 {
        (0x26, 6)
    } else if sym == 104 {
        (0x27, 6)
    } else if sym == 105 {
        (0x6, 5)
    } else if sym == 106 {
        (0x74, 7)
    } else if sym == 107 {
        (0x75, 7)
    } else if sym == 108 {
        (0x28, 6)
    } else if sym == 109 {
        (0x29, 6)
    } else if sym == 110 {
        (0x2a, 6)
    } else if sym == 111 {
        (0x7, 5)
    } else if sym == 112 {
        (0x2b, 6)
    } else if sym == 113 {
        (0x76, 7)
    } else if sym == 114 {
        (0x2c, 6)
    } else if sym == 115 {
        (0x8, 5)
    } else if sym == 116 {
        (0x9, 5)
    } else if sym == 117 {
        (0x2d, 6)
    } else if sym == 118 {
        (0x77, 7)
    } else if sym == 119 {
        (0x78, 7)
    } else if sym == 120 {
        (0x79, 7)
    } else if sym == 121 {
        (0x7a, 7)
    } else if sym == 122 {
        (0x7b, 7)
    } else if sym == 123 {
        (0x7ffe, 15)
    } else if sym == 124 {
        (0x7fc, 11)
    } else if sym == 125 {
        (0x3ffd, 14)
    } else if sym == 126 {
        (0x1ffd, 13)
    } else if sym == 127 {
        (0xffffffc, 28)
    } else if sym == 128 {
        (0xfffe6, 20)
    } else if sym == 129 {
        (0x3fffd2, 22)
    } else if sym == 130 {
        (0xfffe7, 20)
    } else if sym == 131 {
        (0xfffe8, 20)
    } else if sym == 132 {
        (0x3fffd3, 22)
    } else if sym == 133 {
        (0x3fffd4, 22)
    } else if sym == 134 {
        (0x3fffd5, 22)
    } else if sym == 135 {
        (0x7fffd9, 23)
    } else if sym == 136 {
        (0x3fffd6, 22)
    } else if sym == 137 {
        (0x7fffda, 23)
    } else if sym == 138 {
        (0x7fffdb, 23)
    } else if sym == 139 {
        (0x7fffdc, 23)
    } else if sym == 140 {
        (0x7fffdd, 23)
    } else if sym == 141 {
        (0x7fffde, 23)
    } else if sym == 142 {
        (0xffffeb, 24)
    } else if sym == 143 {
        (0x7fffdf, 23)
    } else if sym == 144 {
        (0xffffec, 24)
    } else if sym == 145 {
        (0xffffed, 24)
    } else if sym == 146 {
        (0x3fffd7, 22)
    } else if sym == 147 {
        (0x7fffe0, 23)
    } else if sym == 148 {
        (0xffffee, 24)
    } else if sym == 149 {
        (0x7fffe1, 23)
    } else if sym == 150 {
        (0x7fffe2, 23)
    } else if sym == 151 {
        (0x7fffe3, 23)
    } else if sym == 152 {
        (0x7fffe4, 23)
    } else if sym == 153 {
        (0x1fffdc, 21)
    } else if sym == 154 {
        (0x3fffd8, 22)
    } else if sym == 155 {
        (0x7fffe5, 23)
    } else if sym == 156 {
        (0x3fffd9, 22)
    } else if sym == 157 {
        (0x7fffe6, 23)
    } else if sym == 158 {
        (0x7fffe7, 23)
    } else if sym == 159 {
        (0xffffef, 24)
    } else if sym == 160 {
        (0x3fffda, 22)
    } else if sym == 161 {
        (0x1fffdd, 21)
    } else if sym == 162 {
        (0xfffe9, 20)
    } else if sym == 163 {
        (0x3fffdb, 22)
    } else if sym == 164 {
        (0x3fffdc, 22)
    } else if sym == 165 {
        (0x7fffe8, 23)
    } else if sym == 166 {
        (0x7fffe9, 23)
    } else if sym == 167 {
        (0x1fffde, 21)
    } else if sym == 168 {
        (0x7fffea, 23)
    } else if sym == 169 {
        (0x3fffdd, 22)
    } else if sym == 170 {
        (0x3fffde, 22)
    } else if sym == 171 {
        (0xfffff0, 24)
    } else if sym == 172 {
        (0x1fffdf, 21)
    } else if sym == 173 {
        (0x3fffdf, 22)
    } else if sym == 174 {
        (0x7fffeb, 23)
    } else if sym == 175 {
        (0x7fffec, 23)
    } else if sym == 176 {
        (0x1fffe0, 21)
    } else if sym == 177 {
        (0x1fffe1, 21)
    } else if sym == 178 {
        (0x3fffe0, 22)
    } else if sym == 179 {
        (0x1fffe2, 21)
    } else if sym == 180 {
        (0x7fffed, 23)
    } else if sym == 181 {
        (0x3fffe1, 22)
    } else if sym == 182 {
        (0x7fffee, 23)
    } else if sym == 183 {
        (0x7fffef, 23)
    } else if sym == 184 {
        (0xfffea, 20)
    } else if sym == 185 {
        (0x3fffe2, 22)
    } else if sym == 186 {
        (0x3fffe3, 22)
    } else if sym == 187 {
        (0x3fffe4, 22)
    } else if sym == 188 {
        (0x7ffff0, 23)
    } else if sym == 189 {
        (0x3fffe5, 22)
    } else if sym == 190 {
        (0x3fffe6, 22)
    } else if sym == 191 {
        (0x7ffff1, 23)
    } else if sym == 192 {
        (0x3ffffe0, 26)
    } else if sym == 193 {
        (0x3ffffe1, 26)
    } else if sym == 194 {
        (0xfffeb, 20)
    } else if sym == 195 {
        (0x7fff1, 19)
    } else if sym == 196 {
        (0x3fffe7, 22)
    } else if sym == 197 {
        (0x7ffff2, 23)
    } else if sym == 198 {
        (0x3fffe8, 22)
    } else if sym == 199 {
        (0x1ffffec, 25)
    } else if sym == 200 {
        (0x3ffffe2, 26)
    } else if sym == 201 {
        (0x3ffffe3, 26)
    } else if sym == 202 {
        (0x3ffffe4, 26)
    } else if sym == 203 {
        (0x7ffffde, 27)
    } else if sym == 204 {
        (0x7ffffdf, 27)
    } else if sym == 205 {
        (0x3ffffe5, 26)
    } else if sym == 206 {
        (0xfffff1, 24)
    } else if sym == 207 {
        (0x1ffffed, 25)
    } else if sym == 208 {
        (0x7fff2, 19)
    } else if sym == 209 {
        (0x1fffe3, 21)
    } else if sym == 210 {
        (0x3ffffe6, 26)
    } else if sym == 211 {
        (0x7ffffe0, 27)
    } else if sym == 212 {
        (0x7ffffe1, 27)
    } else if sym == 213 {
        (0x3ffffe7, 26)
    } else if sym == 214 {
        (0x7ffffe2, 27)
    } else if sym == 215 {
        (0xfffff2, 24)
    } else if sym == 216 {
        (0x1fffe4, 21)
    } else if sym == 217 {
        (0x1fffe5, 21)
    } else if sym == 218 {
        (0x3ffffe8, 26)
    } else if sym == 219 {
        (0x3ffffe9, 26)
    } else if sym == 220 {
        (0xffffffd, 28)
    } else if sym == 221 {
        (0x7ffffe3, 27)
    } else if sym == 222 {
        (0x7ffffe4, 27)
    } else if sym == 223 {
        (0x7ffffe5, 27)
    } else if sym == 224 {
        (0xfffec, 20)
    } else if sym == 225 {
        (0xfffff3, 24)
    } else if sym == 226 {
        (0xfffed, 20)
    } else if sym == 227 {
        (0x1fffe6, 21)
    } else if sym == 228 {
        (0x3fffe9, 22)
    } else if sym == 229 {
        (0x1fffe7, 21)
    } else if sym == 230 {
        (0x1fffe8, 21)
    } else if sym == 231 {
        (0x7ffff3, 23)
    } else if sym == 232 {
        (0x3fffea, 22)
    } else if sym == 233 {
        (0x3fffeb, 22)
    } else if sym == 234 {
        (0x1ffffee, 25)
    } else if sym == 235 {
        (0x1ffffef, 25)
    } else if sym == 236 {
        (0xfffff4, 24)
    } else if sym == 237 {
        (0xfffff5, 24)
    } else if sym == 238 {
        (0x3ffffea, 26)
    } else if sym == 239 {
        (0x7ffff4, 23)
    } else if sym == 240 {
        (0x3ffffeb, 26)
    } else if sym == 241 {
        (0x7ffffe6, 27)
    } else if sym == 242 {
        (0x3ffffec, 26)
    } else if sym == 243 {
        (0x3ffffed, 26)
    } else if sym == 244 {
        (0x7ffffe7, 27)
    } else if sym == 245 {
        (0x7ffffe8, 27)
    } else if sym == 246 {
        (0x7ffffe9, 27)
    } else if sym == 247 {
        (0x7ffffea, 27)
    } else if sym == 248 {
        (0x7ffffeb, 27)
    } else if sym == 249 {
        (0xffffffe, 28)
    } else if sym == 250 {
        (0x7ffffec, 27)
    } else if sym == 251 {
        (0x7ffffed, 27)
    } else if sym == 252 {
        (0x7ffffee, 27)
    } else if sym == 253 {
        (0x7ffffef, 27)
    } else if sym == 254 {
        (0x7fffff0, 27)
    } else if sym == 255 {
        (0x3ffffee, 26)
    } else {
        (0x3fffffff, 30)
    }
}

/// Two to the power of `n`.
pub open spec fn spec_pow2(n: nat) -> nat
    decreases n,
{
    if n == 0 {
        1
    } else {
        2 * spec_pow2((n - 1) as nat)
    }
}

/// Bit `pos` of the bytes, the highest bit of each byte first.
pub open spec fn spec_bit(bytes: Seq<u8>, pos: int) -> bool {
    (bytes[pos / 8] as nat / spec_pow2((7 - pos % 8) as nat)) % 2 == 1
}

/// Bit `i` of a code of `len` bits, the highest first.
pub open spec fn spec_code_bit(code: u32, len: u8, i: int) -> bool {
    (code as nat / spec_pow2((len - 1 - i) as nat)) % 2 == 1
}

/// Whether the first `n` bits of the symbol's code are the bits from `pos`
/// on.
pub open spec fn spec_code_matches(bytes: Seq<u8>, pos: int, sym: int, n: int) -> bool
    decreases n,
{
    n <= 0 || (spec_code_matches(bytes, pos, sym, n - 1) && spec_bit(bytes, pos + n - 1)
        == spec_code_bit(spec_code(sym).0, spec_code(sym).1, n - 1))
}

/// Whether the symbol's code stands at `pos`, in full.
pub open spec fn spec_code_at(bytes: Seq<u8>, pos: int, sym: int) -> bool {
    pos + spec_code(sym).1 <= 8 * bytes.len() && spec_code_matches(
        bytes,
        pos,
        sym,
        spec_code(sym).1 as int,
    )
}

/// The first symbol from `from` on whose code stands at `pos`.
pub open spec fn spec_symbol_at(bytes: Seq<u8>, pos: int, from: int) -> Option<int>
    decreases 257 - from,
{
    if from > 256 {
        None
    } else if spec_code_at(bytes, pos, from) {
        Some(from)
    } else {
        spec_symbol_at(bytes, pos, from + 1)
    }
}

/// A symbol that is found is one from `from` on whose code stands at `pos`,
/// and no symbol between `from` and it has its code there.
pub proof fn lemma_symbol_at(bytes: Seq<u8>, pos: int, from: int)
    ensures
        match spec_symbol_at(bytes, pos, from) {
            Some(sym) => from <= sym <= 256 && spec_code_at(bytes, pos, sym) && forall|k: int|
                from <= k < sym ==> !spec_code_at(bytes, pos, k),
            None => forall|k: int| from <= k <= 256 ==> !spec_code_at(bytes, pos, k),
        },
    decreases 257 - from,
{
    if from <= 256 && !spec_code_at(bytes, pos, from) {
        lemma_symbol_at(bytes, pos, from + 1);
    }
}

/// Whether every bit from `pos` on is set.
pub open spec fn spec_all_ones(bytes: Seq<u8>, pos: int) -> bool
    decreases 8 * bytes.len() - pos,
{
    pos < 0 || pos >= 8 * bytes.len() || (spec_bit(bytes, pos) && spec_all_ones(bytes, pos + 1))
}

/// The string whose codes stand from `pos` on, or `None` where the bits
/// are no coded string: the end mark stands among the codes, or what follows
/// the last code is a whole byte or more, or has a bit that is not set.
pub open spec fn spec_decode_from(bytes: Seq<u8>, pos: int) -> Option<Seq<u8>>
    decreases 8 * bytes.len() - pos,
    via spec_decode_from_decreases
{
    match spec_symbol_at(bytes, pos, 0) {
        Some(sym) => if sym < 0 || sym >= 256 || pos < 0 {
            None
        } else {
            match spec_decode_from(bytes, pos + spec_code(sym).1) {
                Some(rest) => Some(seq![sym as u8] + rest),
                None => None,
            }
        },
        None => if 8 * bytes.len() - pos < 8 && spec_all_ones(bytes, pos) {
            Some(Seq::empty())
        } else {
            None
        },
    }
}

#[via_fn]
proof fn spec_decode_from_decreases(bytes: Seq<u8>, pos: int) {
    lemma_symbol_at(bytes, pos, 0);
    if spec_symbol_at(bytes, pos, 0) is Some {
        lemma_code_len(spec_symbol_at(bytes, pos, 0)->Some_0);
    }
}

/// The string that the bytes are the Huffman coding of, or `None` where
/// they are the coding of none.
pub open spec fn spec_huffman_decode(bytes: Seq<u8>) -> Option<Seq<u8>> {
    spec_decode_from(bytes, 0)
}

/// The powers of two grow.
pub proof fn lemma_pow2_grows(a: nat, b: nat)
    requires
        a <= b,
    ensures
        1 <= spec_pow2(a) <= spec_pow2(b),
    decreases b,
{
    if b > 0 {
        if a < b {
            lemma_pow2_grows(a, (b - 1) as nat);
        } else {
            lemma_pow2_grows((a - 1) as nat, (b - 1) as nat);
        }
    }
}

/// A code that matches in its first `n` bits matches in its first `m`, for
/// any smaller `m`.
pub proof fn lemma_matches_shorter(bytes: Seq<u8>, pos: int, sym: int, n: int, m: int)
    requires
        m <= n,
        spec_code_matches(bytes, pos, sym, n),
    ensures
        spec_code_matches(bytes, pos, sym, m),
    decreases n,
{
    if m < n && n > 0 {
        lemma_matches_shorter(bytes, pos, sym, n - 1, m);
    }
}

/// Two to the power of 30.
proof fn lemma_pow2_30()
    ensures
        spec_pow2(30) == 0x4000_0000,
{
    reveal_with_fuel(spec_pow2, 11);
    assert(spec_pow2(10) == 1024);
    assert(spec_pow2(20) == 1024 * 1024);
    assert(spec_pow2(30) == 1024 * 1024 * 1024);
}

fn pow2(n: u8) -> (r: u32)
    requires
        n <= 30,
    ensures
        r == spec_pow2(n as nat),
        1 <= r <= 0x4000_0000,
{
    proof {
        lemma_pow2_30();
        lemma_pow2_grows(n as nat, 30);
    }
    let mut r: u32 = 1;
    let mut i: u8 = 0;
    while i < n
        invariant
            i <= n <= 30,
            r == spec_pow2(i as nat),
            spec_pow2(30) == 0x4000_0000,
        decreases n - i,
    {
        proof {
            lemma_pow2_grows((i + 1) as nat, 30);
        }
        r = r * 2;
        i = i + 1;
    }
    r
}

/// Bit `i` behind bit `bit` of the byte at `byte`, if the bytes reach that
/// far.
fn bit_at(bytes: &[u8], byte: usize, bit: u8, i: u8) -> (r: Option<bool>)
    requires
        byte <= bytes@.len(),
        bit < 8,
        i <= 30,
    ensures
        match r {
            Some(b) => 8 * byte + bit + i < 8 * bytes@.len() && b == spec_bit(
                bytes@,
                8 * byte + bit + i,
            ),
            None => 8 * byte + bit + i >= 8 * bytes@.len(),
        },
{
    let off: usize = ((bit + i) / 8) as usize;
    let k: u8 = (bit + i) % 8;
    if off >= bytes.len() - byte {
        return None;
    }
    let mask: u32 = pow2(7 - k);
    let b: u32 = bytes[byte + off] as u32;
    proof {
        let pos = 8 * byte + bit + i;
        assert(pos / 8 == byte + off);
        assert(pos % 8 == k);
    }
    Some((b / mask) % 2 == 1)
}

/// Whether the symbol's code stands at bit `bit` of the byte at `byte`.
fn code_at(bytes: &[u8], byte: usize, bit: u8, sym: usize) -> (r: bool)
    requires
        8 * byte + bit <= 8 * bytes@.len(),
        bit < 8,
        sym <= END_OF_STRING,
    ensures
        r == spec_code_at(bytes@, 8 * byte + bit, sym as int),
{
    let (c, len) = code(sym);
    let ghost pos = 8 * byte + bit;
    let mut i: u8 = 0;
    while i < len
        invariant
            i <= len,
            (c, len) == spec_code(sym as int),
            5 <= len <= 30,
            byte <= bytes@.len(),
            bit < 8,
            pos == 8 * byte + bit,
            pos + i <= 8 * bytes@.len(),
            spec_code_matches(bytes@, pos, sym as int, i as int),
        decreases len - i,
    {
        match bit_at(bytes, byte, bit, i) {
            None => {
                return false;
            },
            Some(b) => {
                let want: bool = (c / pow2(len - 1 - i)) % 2 == 1;
                if b != want {
                    proof {
                        if spec_code_matches(bytes@, pos, sym as int, len as int) {
                            lemma_matches_shorter(bytes@, pos, sym as int, len as int, i + 1);
                        }
                    }
                    return false;
                }
            },
        }
        i = i + 1;
    }
    true
}

/// The symbol whose code stands at bit `bit` of the byte at `byte`.
fn symbol_at(bytes: &[u8], byte: usize, bit: u8) -> (r: Option<usize>)
    requires
        8 * byte + bit <= 8 * bytes@.len(),
        bit < 8,
    ensures
        match r {
            Some(sym) => sym <= END_OF_STRING && spec_symbol_at(bytes@, 8 * byte + bit, 0) == Some(
                sym as int,
            ),
            None => spec_symbol_at(bytes@, 8 * byte + bit, 0) is None,
        },
{
    let mut sym: usize = 0;
    while sym <= END_OF_STRING
        invariant
            sym <= END_OF_STRING + 1,
            8 * byte + bit <= 8 * bytes@.len(),
            bit < 8,
            spec_symbol_at(bytes@, 8 * byte + bit, 0) == spec_symbol_at(
                bytes@,
                8 * byte + bit,
                sym as int,
            ),
        decreases END_OF_STRING + 1 - sym,
    {
        if code_at(bytes, byte, bit, sym) {
            return Some(sym);
        }
        sym = sym + 1;
    }
    None
}

/// Whether every bit from bit `bit` of the byte at `byte` on is set, where
/// fewer than eight bits are left.
fn all_ones(bytes: &[u8], byte: usize, bit: u8) -> (r: bool)
    requires
        8 * byte + bit <= 8 * bytes@.len(),
        bit < 8,
        8 * bytes@.len() - (8 * byte + bit) < 8,
    ensures
        r == spec_all_ones(bytes@, 8 * byte + bit),
{
    let ghost pos = 8 * byte + bit;
    let mut i: u8 = 0;
    loop
        invariant
            i <= 8,
            byte <= bytes@.len(),
            bit < 8,
            pos == 8 * byte + bit,
            8 * bytes@.len() - pos < 8,
            pos + i <= 8 * bytes@.len(),
            spec_all_ones(bytes@, pos) == spec_all_ones(bytes@, pos + i),
        decreases 8 - i,
    {
        match bit_at(bytes, byte, bit, i) {
            None => {
                return true;
            },
            Some(b) => {
                if !b {
                    return false;
                }
            },
        }
        i = i + 1;
    }
}

/// Decodes a Huffman-coded string. The end mark among the codes, and bits
/// behind the last code that are a whole byte or more, or that are not all
/// set, make the bytes the coding of no string.
pub fn huffman_decode(bytes: &[u8]) -> (r: Option<Vec<u8>>)
    ensures
        match r {
            Some(s) => spec_huffman_decode(bytes@) == Some(s@),
            None => spec_huffman_decode(bytes@) is None,
        },
{
    let mut out: Vec<u8> = Vec::new();
    let n: usize = bytes.len();
    let mut byte: usize = 0;
    let mut bit: u8 = 0;
    loop
        invariant
            n == bytes@.len(),
            byte <= bytes@.len(),
            bit < 8,
            8 * byte + bit <= 8 * bytes@.len(),
            spec_decode_from(bytes@, 0) == (match spec_decode_from(bytes@, 8 * byte + bit) {
                Some(rest) => Some(out@ + rest),
                None => None,
            }),
        decreases 8 * bytes@.len() - (8 * byte + bit),
    {
        let ghost pos = 8 * byte + bit;
        proof {
            lemma_symbol_at(bytes@, pos, 0);
        }
        match symbol_at(bytes, byte, bit) {
            Some(sym) => {
                if sym >= END_OF_STRING {
                    return None;
                }
                let (_, len) = code(sym);
                let ghost before = out@;
                assert(spec_code_at(bytes@, pos, sym as int));
                assert(pos + len <= 8 * bytes@.len());
                out.push(sym as u8);
                let total: u8 = bit + len;
                assert(8 * (byte + total / 8) <= 8 * byte + total);
                assert(byte + total / 8 <= bytes@.len());
                byte = byte + (total / 8) as usize;
                bit = total % 8;
                proof {
                    assert(8 * byte + bit == pos + len);
                    let rest = spec_decode_from(bytes@, pos + len);
                    if rest is Some {
                        assert(before + (seq![sym as u8] + rest->Some_0) =~= out@ + rest->Some_0);
                    }
                }
            },
            None => {
                let left: usize = n - byte;
                if left >= 2 || (left == 1 && bit == 0) {
                    return None;
                }
                if !all_ones(bytes, byte, bit) {
                    return None;
                }
                proof {
                    assert(out@ + Seq::<u8>::empty() =~= out@);
                }
                return Some(out);
            },
        }
    }
}

} // verus!
