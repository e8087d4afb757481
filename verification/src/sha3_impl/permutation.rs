//! The five step mappings of Keccak-f[1600] (theta, rho, pi, chi, iota),
//! stated over a sequence of 25 lanes (lane (x, y) at index x + 5 * y) and
//! carried out in place on the lane array.

use vstd::prelude::*;

use super::constants::{RHO_OFFSETS, ROUND_CONSTANTS};

verus! {

/// Left rotation of a 64-bit lane by `n` bit positions (`n < 64`).
pub open spec fn rotl(v: u64, n: u64) -> u64 {
    if n == 0 {
        v
    } else {
        (v << n) | (v >> ((64 - n) as u64))
    }
}

/// Parity of column `x`: the XOR of the five lanes (x, 0) .. (x, 4).
pub open spec fn parity(s: Seq<u64>, x: int) -> u64 {
    s[x] ^ s[x + 5] ^ s[x + 10] ^ s[x + 15] ^ s[x + 20]
}

/// The value theta XORs into every lane of column `x`.
pub open spec fn theta_d(s: Seq<u64>, x: int) -> u64 {
    parity(s, (x + 4) % 5) ^ rotl(parity(s, (x + 1) % 5), 1)
}

/// Theta: every lane absorbs the parities of the two neighbouring columns.
pub open spec fn theta(s: Seq<u64>) -> Seq<u64> {
    Seq::new(25, |i: int| s[i] ^ theta_d(s, i % 5))
}

/// The rotation offset of the lane at index `i`.
pub open spec fn rho_offset(i: int) -> u64 {
    RHO_OFFSETS[i % 5][i / 5] as u64
}

/// Rho: every lane is rotated by its own fixed offset.
pub open spec fn rho(s: Seq<u64>) -> Seq<u64> {
    Seq::new(25, |i: int| rotl(s[i], rho_offset(i)))
}

/// The index of the lane that pi moves to index `i`: lane (x, y) receives
/// lane ((x + 3y) mod 5, x).
pub open spec fn pi_source(i: int) -> int {
    ((i % 5) + 3 * (i / 5)) % 5 + 5 * (i % 5)
}

/// Pi: the lanes are rearranged over the 5x5 grid.
pub open spec fn pi(s: Seq<u64>) -> Seq<u64> {
    Seq::new(25, |i: int| s[pi_source(i)])
}

/// The chi value of the lane at index `i`.
pub open spec fn chi_lane(s: Seq<u64>, i: int) -> u64 {
    let x = i % 5;
    let row = i - x;
    s[i] ^ (!s[row + (x + 1) % 5] & s[row + (x + 2) % 5])
}

/// Chi: the non-linear row mixing.
pub open spec fn chi(s: Seq<u64>) -> Seq<u64> {
    Seq::new(25, |i: int| chi_lane(s, i))
}

/// Iota: the round constant of round `r` is XORed into lane (0, 0).
pub open spec fn iota(s: Seq<u64>, r: int) -> Seq<u64> {
    s.update(0, s[0] ^ ROUND_CONSTANTS[r])
}

/// Step mapping number `k` (0 theta, 1 rho, 2 pi, 3 chi, 4 iota) of round `r`.
pub open spec fn sub_step(s: Seq<u64>, k: int, r: int) -> Seq<u64> {
    if k == 0 {
        theta(s)
    } else if k == 1 {
        rho(s)
    } else if k == 2 {
        pi(s)
    } else if k == 3 {
        chi(s)
    } else {
        iota(s, r)
    }
}

/// One full round `r`: theta, rho, pi, chi, then iota.
pub open spec fn round(s: Seq<u64>, r: int) -> Seq<u64> {
    iota(chi(pi(rho(theta(s)))), r)
}

/// The first `n` rounds applied to `s`.
pub open spec fn rounds(s: Seq<u64>, n: int) -> Seq<u64>
    decreases n,
{
    if n <= 0 {
        s
    } else {
        round(rounds(s, n - 1), n - 1)
    }
}

/// Keccak-f[1600]: all 24 rounds.
pub open spec fn keccak_f(s: Seq<u64>) -> Seq<u64> {
    rounds(s, 24)
}

/// The state reached from `s` after `r` full rounds and the first `k` step
/// mappings of round `r`.
pub open spec fn partial(s: Seq<u64>, r: int, k: int) -> Seq<u64>
    decreases k,
{
    if k <= 0 {
        rounds(s, r)
    } else {
        sub_step(partial(s, r, k - 1), k - 1, r)
    }
}

/// Carrying out all five step mappings of a round finishes that round.
pub proof fn lemma_partial_full_round(s: Seq<u64>, r: int)
    requires
        0 <= r,
    ensures
        partial(s, r, 5) == rounds(s, r + 1),
{
    reveal_with_fuel(partial, 6);
}

/// Rotation loses no bits: rotating left by `n` and then by `64 - n` gives
/// the lane back, and bit `i` moves to bit `(i + n) mod 64`.
pub proof fn lemma_rotl_is_rotation(v: u64, n: u64, i: u64)
    requires
        0 < n < 64,
        i < 64,
    ensures
        rotl(rotl(v, n), (64 - n) as u64) == v,
        ((rotl(v, n) >> ((i + n) % 64)) & 1u64) == ((v >> i) & 1u64),
{
    let m = (64 - n) as u64;
    assert((((v << n) | (v >> m)) << m) | (((v << n) | (v >> m)) >> n) == v) by (bit_vector)
        requires
            0 < n < 64,
            m == 64 - n,
    ;
    assert(((((v << n) | (v >> m)) >> ((i + n) % 64)) & 1u64) == ((v >> i) & 1u64)) by (
    bit_vector)
        requires
            0 < n < 64,
            m == 64 - n,
            i < 64,
    ;
}

/// Rotates a lane left by `n` bits.
pub fn rotate_lane(v: u64, n: u64) -> (r: u64)
    requires
        n < 64,
    ensures
        r == rotl(v, n),
{
    if n == 0 {
        v
    } else {
        (v << n) | (v >> (64 - n))
    }
}

/// Applies theta to the lanes in place.
pub fn apply_theta(s: &mut [u64; 25])
    ensures
        final(s)@ == theta(old(s)@),
{
    let ghost s0 = s@;
    let mut c = [0u64; 5];
    for x in 0..5
        invariant
            s@ == s0,
            forall|j: int| 0 <= j < x ==> c[j] == parity(s0, j),
    {
        c[x] = s[x] ^ s[x + 5] ^ s[x + 10] ^ s[x + 15] ^ s[x + 20];
    }
    let mut d = [0u64; 5];
    for x in 0..5
        invariant
            s@ == s0,
            forall|j: int| 0 <= j < 5 ==> c[j] == parity(s0, j),
            forall|j: int| 0 <= j < x ==> d[j] == theta_d(s0, j),
    {
        d[x] = c[(x + 4) % 5] ^ rotate_lane(c[(x + 1) % 5], 1);
    }
    for i in 0..25
        invariant
            s@.len() == 25,
            forall|j: int| 0 <= j < 5 ==> d[j] == theta_d(s0, j),
            forall|j: int| 0 <= j < i ==> s@[j] == s0[j] ^ theta_d(s0, j % 5),
            forall|j: int| i <= j < 25 ==> s@[j] == s0[j],
    {
        s[i] = s[i] ^ d[i % 5];
    }
    assert(s@ =~= theta(s0));
}

/// Applies rho to the lanes in place.
pub fn apply_rho(s: &mut [u64; 25])
    ensures
        final(s)@ == rho(old(s)@),
{
    let ghost s0 = s@;
    for i in 0..25
        invariant
            s@.len() == 25,
            forall|j: int| 0 <= j < i ==> s@[j] == rotl(s0[j], rho_offset(j)),
            forall|j: int| i <= j < 25 ==> s@[j] == s0[j],
    {
        let x = i % 5;
        let z = i / 5;
        let offset = RHO_OFFSETS[x][z];
        assert(offset < 64) by {
            assert(RHO_OFFSETS[x as int][z as int] < 64);
        }
        s[i] = rotate_lane(s[i], offset as u64);
    }
    assert(s@ =~= rho(s0));
}

/// Applies pi to the lanes in place.
pub fn apply_pi(s: &mut [u64; 25])
    ensures
        final(s)@ == pi(old(s)@),
{
    let source = *s;
    for i in 0..25
        invariant
            s@.len() == 25,
            forall|j: int| 0 <= j < i ==> s@[j] == source@[pi_source(j)],
    {
        let src = (i % 5 + 3 * (i / 5)) % 5 + 5 * (i % 5);
        s[i] = source[src];
    }
    assert(s@ =~= pi(source@));
}

/// Applies chi to the lanes in place.
pub fn apply_chi(s: &mut [u64; 25])
    ensures
        final(s)@ == chi(old(s)@),
{
    let ghost s0 = s@;
    for y in 0..5
        invariant
            s@.len() == 25,
            forall|j: int| 0 <= j < 5 * y ==> s@[j] == chi_lane(s0, j),
            forall|j: int| 5 * y <= j < 25 ==> s@[j] == s0[j],
    {
        let row = 5 * y;
        let lanes = [s[row], s[row + 1], s[row + 2], s[row + 3], s[row + 4]];
        for x in 0..5
            invariant
                s@.len() == 25,
                row == 5 * y,
                y < 5,
                forall|j: int| 0 <= j < 5 ==> lanes[j] == s0[row + j],
                forall|j: int| 0 <= j < row ==> s@[j] == chi_lane(s0, j),
                forall|j: int| row <= j < row + x ==> s@[j] == chi_lane(s0, j),
                forall|j: int| row + x <= j < 25 ==> s@[j] == s0[j],
        {
            s[row + x] = lanes[x] ^ (!lanes[(x + 1) % 5] & lanes[(x + 2) % 5]);
        }
    }
    assert(s@ =~= chi(s0));
}

/// Applies iota of round `r` to the lanes in place.
pub fn apply_iota(s: &mut [u64; 25], r: usize)
    requires
        r < 24,
    ensures
        final(s)@ == iota(old(s)@, r as int),
{
    s[0] = s[0] ^ ROUND_CONSTANTS[r];
    assert(s@ =~= iota(old(s)@, r as int));
}

/// Applies all 24 rounds of Keccak-f[1600] in place.
pub fn apply_keccak_f(s: &mut [u64; 25])
    ensures
        final(s)@ == keccak_f(old(s)@),
{
    let ghost s0 = s@;
    for r in 0..24
        invariant
            s@ == rounds(s0, r as int),
    {
        apply_theta(s);
        apply_rho(s);
        apply_pi(s);
        apply_chi(s);
        apply_iota(s, r);
    }
}

} // verus!
