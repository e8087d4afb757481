//! The sponge around Keccak-f[1600]: SHA-3 padding, absorbing rate-sized
//! blocks into the lanes, squeezing little-endian output bytes, and the
//! lowercase hexadecimal rendering of those bytes.

use vstd::prelude::*;

use super::permutation::keccak_f;

verus! {

/// The rates, in bytes, of SHA3-224, SHA3-256, SHA3-384 and SHA3-512.
pub open spec fn valid_rate(rate: int) -> bool {
    rate == 144 || rate == 136 || rate == 104 || rate == 72
}

/// The number of rate-sized blocks of the padded message: padding always adds
/// at least one byte, so a message of `len` bytes takes `len / rate + 1` blocks.
pub open spec fn block_count(len: int, rate: int) -> int {
    len / rate + 1
}

/// Byte `i` of the padded message: the message itself, then the SHA-3 domain
/// bits 0x06 on the first byte after it, zeros, and 0x80 on the very last byte
/// (both marks fall on the same byte when only one byte of padding fits).
pub open spec fn padded_byte(msg: Seq<u8>, rate: int, i: int) -> u8 {
    let last = block_count(msg.len() as int, rate) * rate - 1;
    if i < msg.len() {
        msg[i]
    } else {
        (if i == msg.len() {
            0x06u8
        } else {
            0u8
        }) | (if i == last {
            0x80u8
        } else {
            0u8
        })
    }
}

/// Block `k` of the padded message.
pub open spec fn block(msg: Seq<u8>, rate: int, k: int) -> Seq<u8> {
    Seq::new(rate as nat, |j: int| padded_byte(msg, rate, k * rate + j))
}

/// The little-endian 64-bit word made of bytes `o .. o + 8` of `b`.
pub open spec fn le_word(b: Seq<u8>, o: int) -> u64 {
    (b[o] as u64) | ((b[o + 1] as u64) << 8u64) | ((b[o + 2] as u64) << 16u64) | ((b[o + 3]
        as u64) << 24u64) | ((b[o + 4] as u64) << 32u64) | ((b[o + 5] as u64) << 40u64) | ((b[o
        + 6] as u64) << 48u64) | ((b[o + 7] as u64) << 56u64)
}

/// XORs a block into the first `blk.len() / 8` lanes, word by word.
pub open spec fn absorb(s: Seq<u64>, blk: Seq<u8>) -> Seq<u64> {
    Seq::new(
        25,
        |j: int|
            if j < blk.len() / 8 {
                s[j] ^ le_word(blk, 8 * j)
            } else {
                s[j]
            },
    )
}

/// The all-zero state.
pub open spec fn zero_lanes() -> Seq<u64> {
    Seq::new(25, |j: int| 0u64)
}

/// The state after the first `k` blocks of the padded message were each
/// absorbed and followed by Keccak-f.
pub open spec fn absorb_all(msg: Seq<u8>, rate: int, k: int) -> Seq<u64>
    decreases k,
{
    if k <= 0 {
        zero_lanes()
    } else {
        keccak_f(absorb(absorb_all(msg, rate, k - 1), block(msg, rate, k - 1)))
    }
}

/// The state after the whole padded message went through the sponge.
pub open spec fn sponge(msg: Seq<u8>, rate: int) -> Seq<u64> {
    absorb_all(msg, rate, block_count(msg.len() as int, rate))
}

/// Byte `k` of the state read lane by lane, each lane little-endian.
pub open spec fn lane_byte(s: Seq<u64>, k: int) -> u8 {
    ((s[k / 8] >> ((8 * (k % 8)) as u64)) & 0xffu64) as u8
}

/// The first `d` bytes of the state.
pub open spec fn squeeze(s: Seq<u64>, d: int) -> Seq<u8> {
    Seq::new(d as nat, |k: int| lane_byte(s, k))
}

/// The SHA-3 digest of `msg` with the given rate and digest length in bytes.
pub open spec fn sha3_digest(msg: Seq<u8>, rate: int, d: int) -> Seq<u8> {
    squeeze(sponge(msg, rate), d)
}

/// The lowercase hexadecimal digit of a nibble.
pub open spec fn hex_char(n: u8) -> char {
    if n < 10 {
        (48 + n) as char
    } else {
        (87 + n) as char
    }
}

/// Two lowercase hexadecimal digits per byte, high nibble first.
pub open spec fn hex(bytes: Seq<u8>) -> Seq<char> {
    Seq::new(
        2 * bytes.len(),
        |i: int|
            if i % 2 == 0 {
                hex_char(bytes[i / 2] >> 4u8)
            } else {
                hex_char(bytes[i / 2] & 0xfu8)
            },
    )
}

/// A character is a lowercase hexadecimal digit.
pub open spec fn is_lower_hex_digit(c: char) -> bool {
    ('0' <= c && c <= '9') || ('a' <= c && c <= 'f')
}

/// Padding never touches the message: byte `j` of padded block `k` is byte
/// `k * rate + j` of the message whenever that byte exists.
pub proof fn lemma_padding_keeps_message(msg: Seq<u8>, rate: int, k: int, j: int)
    requires
        valid_rate(rate),
        0 <= k,
        0 <= j < rate,
        k * rate + j < msg.len(),
    ensures
        block(msg, rate, k)[j] == msg[k * rate + j],
{
}

/// The padded message is the shortest whole number of blocks longer than the
/// message; its first byte past the message is 0x06, its last byte is 0x80,
/// the two being 0x86 when they are the same byte, and every byte between
/// them is zero.
pub proof fn lemma_padding_shape(msg: Seq<u8>, rate: int)
    requires
        valid_rate(rate),
    ensures
        block_count(msg.len() as int, rate) * rate > msg.len(),
        (block_count(msg.len() as int, rate) - 1) * rate <= msg.len(),
        msg.len() < block_count(msg.len() as int, rate) * rate - 1 ==> padded_byte(
            msg,
            rate,
            msg.len() as int,
        ) == 0x06u8 && padded_byte(msg, rate, block_count(msg.len() as int, rate) * rate - 1)
            == 0x80u8,
        msg.len() == block_count(msg.len() as int, rate) * rate - 1 ==> padded_byte(
            msg,
            rate,
            msg.len() as int,
        ) == 0x86u8,
        forall|i: int|
            msg.len() < i < block_count(msg.len() as int, rate) * rate - 1 ==> padded_byte(
                msg,
                rate,
                i,
            ) == 0u8,
{
    let len = msg.len() as int;
    let q = len / rate;
    assert(q * rate <= len < q * rate + rate) by (nonlinear_arith)
        requires
            rate > 0,
            len >= 0,
            q == len / rate,
    ;
    assert((q + 1) * rate == q * rate + rate) by (nonlinear_arith);
    let last = (q + 1) * rate - 1;
    assert((0x06u8 | 0u8) == 0x06u8) by (bit_vector);
    assert((0u8 | 0x80u8) == 0x80u8) by (bit_vector);
    assert((0x06u8 | 0x80u8) == 0x86u8) by (bit_vector);
    assert((0u8 | 0u8) == 0u8) by (bit_vector);
}

/// Absorbing XORs byte `k` of the block into byte `k` of the state (lanes in
/// index order, each little-endian) and leaves the lanes past the block alone.
pub proof fn lemma_absorb_bytes(s: Seq<u64>, blk: Seq<u8>, k: int, j: int)
    requires
        s.len() == 25,
        blk.len() % 8 == 0,
        blk.len() <= 200,
        0 <= k < blk.len(),
        blk.len() / 8 <= j < 25,
    ensures
        lane_byte(absorb(s, blk), k) == lane_byte(s, k) ^ blk[k],
        absorb(s, blk)[j] == s[j],
{
    let l = k / 8;
    let t: u64 = (k % 8) as u64;
    assert(l < blk.len() / 8);
    let x = s[l];
    let o = 8 * l;
    let (b0, b1, b2, b3, b4, b5, b6, b7) = (
        blk[o],
        blk[o + 1],
        blk[o + 2],
        blk[o + 3],
        blk[o + 4],
        blk[o + 5],
        blk[o + 6],
        blk[o + 7],
    );
    let w = le_word(blk, o);
    assert(w == (b0 as u64) | ((b1 as u64) << 8u64) | ((b2 as u64) << 16u64) | ((b3 as u64)
        << 24u64) | ((b4 as u64) << 32u64) | ((b5 as u64) << 40u64) | ((b6 as u64) << 48u64)
        | ((b7 as u64) << 56u64));
    let sh = (8 * t) as u64;
    assert(absorb(s, blk)[l] == x ^ w);
    assert(k == o + t);
    assert(((((x ^ w) >> sh) & 0xffu64) as u8) == ((((x >> sh) & 0xffu64) as u8) ^ (if t == 0 {
        b0
    } else if t == 1 {
        b1
    } else if t == 2 {
        b2
    } else if t == 3 {
        b3
    } else if t == 4 {
        b4
    } else if t == 5 {
        b5
    } else if t == 6 {
        b6
    } else {
        b7
    }))) by (bit_vector)
        requires
            w == (b0 as u64) | ((b1 as u64) << 8u64) | ((b2 as u64) << 16u64) | ((b3 as u64)
                << 24u64) | ((b4 as u64) << 32u64) | ((b5 as u64) << 40u64) | ((b6 as u64)
                << 48u64) | ((b7 as u64) << 56u64),
            sh == 8 * t,
            t < 8,
    ;
}

/// The value of a lowercase hexadecimal digit.
pub open spec fn hex_value(c: char) -> int {
    if '0' <= c && c <= '9' {
        c as int - 48
    } else {
        c as int - 87
    }
}

/// The hex rendering reads back: each byte is 16 times the value of its first
/// digit plus the value of its second, and every digit is a lowercase hex
/// digit.
pub proof fn lemma_hex_reads_back(bytes: Seq<u8>, i: int)
    requires
        0 <= i < bytes.len(),
    ensures
        hex(bytes).len() == 2 * bytes.len(),
        is_lower_hex_digit(hex(bytes)[2 * i]),
        is_lower_hex_digit(hex(bytes)[2 * i + 1]),
        16 * hex_value(hex(bytes)[2 * i]) + hex_value(hex(bytes)[2 * i + 1]) == bytes[i] as int,
{
    let b = bytes[i];
    assert((2 * i) / 2 == i && (2 * i + 1) / 2 == i && (2 * i) % 2 == 0 && (2 * i + 1) % 2 == 1);
    assert(b >> 4u8 < 16 && b & 0xfu8 < 16 && 16 * (b >> 4u8) + (b & 0xfu8) == b) by (bit_vector);
}

proof fn lemma_block_bounds(len: int, rate: int, k: int, offset: int)
    requires
        rate > 0,
        len >= 0,
        0 <= k < block_count(len, rate),
        0 <= offset < rate,
    ensures
        k * rate <= len,
        (k * rate + offset == block_count(len, rate) * rate - 1) <==> (k == len / rate && offset
            == rate - 1),
{
    let q = len / rate;
    assert(q * rate <= len) by (nonlinear_arith)
        requires
            rate > 0,
            len >= 0,
            q == len / rate,
    ;
    assert(k * rate <= q * rate) by (nonlinear_arith)
        requires
            k <= q,
            rate > 0,
    ;
    if k < q {
        assert(k * rate + rate <= q * rate) by (nonlinear_arith)
            requires
                k + 1 <= q,
                rate > 0,
        ;
    }
    assert((q + 1) * rate == q * rate + rate) by (nonlinear_arith);
}

/// Byte `offset` of block `k` of the padded message.
pub fn padded_byte_at(msg: &[u8], rate: usize, k: usize, offset: usize) -> (b: u8)
    requires
        rate > 0,
        k < block_count(msg@.len() as int, rate as int),
        offset < rate,
    ensures
        b == padded_byte(msg@, rate as int, k * rate + offset),
{
    proof {
        lemma_block_bounds(msg@.len() as int, rate as int, k as int, offset as int);
    }
    let len = msg.len();
    let base = k * rate;
    if offset < len - base {
        msg[base + offset]
    } else {
        let first: u8 = if offset == len - base {
            0x06u8
        } else {
            0u8
        };
        let last: u8 = if k == len / rate && offset == rate - 1 {
            0x80u8
        } else {
            0u8
        };
        first | last
    }
}

/// XORs block `k` of the padded message into the lanes.
pub fn absorb_block(s: &mut [u64; 25], msg: &[u8], rate: usize, k: usize)
    requires
        valid_rate(rate as int),
        k < block_count(msg@.len() as int, rate as int),
    ensures
        final(s)@ == absorb(old(s)@, block(msg@, rate as int, k as int)),
{
    let ghost s0 = s@;
    let ghost blk = block(msg@, rate as int, k as int);
    let words = rate / 8;
    for j in 0..words
        invariant
            valid_rate(rate as int),
            words == rate / 8,
            k < block_count(msg@.len() as int, rate as int),
            blk == block(msg@, rate as int, k as int),
            s@.len() == 25,
            forall|i: int| 0 <= i < j ==> s@[i] == s0[i] ^ le_word(blk, 8 * i),
            forall|i: int| j <= i < 25 ==> s@[i] == s0[i],
    {
        let o = 8 * j;
        let b0 = padded_byte_at(msg, rate, k, o);
        let b1 = padded_byte_at(msg, rate, k, o + 1);
        let b2 = padded_byte_at(msg, rate, k, o + 2);
        let b3 = padded_byte_at(msg, rate, k, o + 3);
        let b4 = padded_byte_at(msg, rate, k, o + 4);
        let b5 = padded_byte_at(msg, rate, k, o + 5);
        let b6 = padded_byte_at(msg, rate, k, o + 6);
        let b7 = padded_byte_at(msg, rate, k, o + 7);
        let w = (b0 as u64) | ((b1 as u64) << 8u64) | ((b2 as u64) << 16u64) | ((b3 as u64)
            << 24u64) | ((b4 as u64) << 32u64) | ((b5 as u64) << 40u64) | ((b6 as u64) << 48u64)
            | ((b7 as u64) << 56u64);
        assert(w == le_word(blk, 8 * j));
        s[j] = s[j] ^ w;
    }
    assert(s@ =~= absorb(s0, blk));
}

/// The first `d` bytes of the lanes, each lane little-endian.
pub fn squeeze_bytes(s: &[u64; 25], d: usize) -> (out: Vec<u8>)
    requires
        d <= 200,
    ensures
        out@ == squeeze(s@, d as int),
{
    let mut out: Vec<u8> = Vec::new();
    for k in 0..d
        invariant
            d <= 200,
            out@.len() == k,
            forall|i: int| 0 <= i < k ==> out@[i] == lane_byte(s@, i),
    {
        let byte = ((s[k / 8] >> ((8 * (k % 8)) as u64)) & 0xffu64) as u8;
        out.push(byte);
    }
    assert(out@ =~= squeeze(s@, d as int));
    out
}

/// The one-character string holding the hexadecimal digit of a nibble.
pub fn hex_digit(n: u8) -> (s: &'static str)
    requires
        n < 16,
    ensures
        s@ == seq![hex_char(n)],
{
    if n == 0 {
        proof { reveal_strlit("0"); }
        "0"
    } else if n == 1 {
        proof { reveal_strlit("1"); }
        "1"
    } else if n == 2 {
        proof { reveal_strlit("2"); }
        "2"
    } else if n == 3 {
        proof { reveal_strlit("3"); }
        "3"
    } else if n == 4 {
        proof { reveal_strlit("4"); }
        "4"
    } else if n == 5 {
        proof { reveal_strlit("5"); }
        "5"
    } else if n == 6 {
        proof { reveal_strlit("6"); }
        "6"
    } else if n == 7 {
        proof { reveal_strlit("7"); }
        "7"
    } else if n == 8 {
        proof { reveal_strlit("8"); }
        "8"
    } else if n == 9 {
        proof { reveal_strlit("9"); }
        "9"
    } else if n == 10 {
        proof { reveal_strlit("a"); }
        "a"
    } else if n == 11 {
        proof { reveal_strlit("b"); }
        "b"
    } else if n == 12 {
        proof { reveal_strlit("c"); }
        "c"
    } else if n == 13 {
        proof { reveal_strlit("d"); }
        "d"
    } else if n == 14 {
        proof { reveal_strlit("e"); }
        "e"
    } else {
        proof { reveal_strlit("f"); }
        "f"
    }
}

/// Renders bytes as lowercase hexadecimal, two digits per byte.
pub fn to_hex(bytes: &[u8]) -> (h: String)
    ensures
        h@ == hex(bytes@),
        h@.len() == 2 * bytes@.len(),
        forall|i: int| 0 <= i < h@.len() ==> is_lower_hex_digit(#[trigger] h@[i]),
{
    let mut h = String::new();
    for k in 0..bytes.len()
        invariant
            h@.len() == 2 * k,
            forall|i: int| 0 <= i < 2 * k ==> h@[i] == hex(bytes@)[i],
    {
        let b = bytes[k];
        let hi = b >> 4u8;
        let lo = b & 0xfu8;
        assert(hi < 16 && lo < 16) by (bit_vector)
            requires
                hi == b >> 4u8,
                lo == b & 0xfu8,
        ;
        h.append(hex_digit(hi));
        h.append(hex_digit(lo));
    }
    assert(h@ =~= hex(bytes@));
    assert forall|i: int| 0 <= i < h@.len() implies is_lower_hex_digit(#[trigger] h@[i]) by {
        let b = bytes@[i / 2];
        assert(b >> 4u8 < 16 && b & 0xfu8 < 16) by (bit_vector);
    }
    h
}

} // verus!
