//! Mathematical model of the hash: the mixing state and every step of the
//! algorithm as specification functions over sequences of bytes and words.
//! The executable code in `highwayhash` is proved to follow this model.
use vstd::prelude::*;

verus! {

/// The mixing state: four vectors of four 64-bit lanes each.
#[verifier::ext_equal]
pub struct MixState {
    pub v0: Seq<u64>,
    pub v1: Seq<u64>,
    pub mul0: Seq<u64>,
    pub mul1: Seq<u64>,
}

/// Swap the low and high 32-bit halves of a 64-bit word.
pub open spec fn swap_halves(x: u64) -> u64 {
    (x >> 32) | (x << 32)
}

/// The byte-interleaving merge of two 64-bit lanes: picks fixed byte
/// positions from each input and recombines them into one word.
#[verifier::opaque]
pub open spec fn zipper_merge_hi(v1: u64, v0: u64) -> u64 {
    ((v1 & 0xff000000u64 | v0 & 0xff00000000u64) >> 24)
        | (v1 & 0xff0000u64)
        | ((v1 & 0xff0000000000u64) >> 16)
        | ((v1 & 0xff00u64) << 24)
        | ((v0 & 0xff000000000000u64) >> 8)
        | ((v1 & 0xffu64) << 48)
        | (v0 & 0xff00000000000000u64)
}

/// The second half of the byte-interleaving merge, with its own byte layout.
#[verifier::opaque]
pub open spec fn zipper_merge_lo(v1: u64, v0: u64) -> u64 {
    ((v0 & 0xff000000u64 | v1 & 0xff00000000u64) >> 24)
        | ((v0 & 0xff0000000000u64 | v1 & 0xff000000000000u64) >> 16)
        | (v0 & 0xff0000u64)
        | ((v0 & 0xff00u64) << 32)
        | ((v1 & 0xff00000000000000u64) >> 8)
        | (v0 << 56)
}

/// Zipper-merge a pair of lanes and add the results into two accumulators.
/// Returns (new high accumulator, new low accumulator).
pub open spec fn spec_zipper(v1: u64, v0: u64, add1: u64, add0: u64) -> (u64, u64) {
    (
        add1.wrapping_add(zipper_merge_hi(v1, v0)),
        add0.wrapping_add(zipper_merge_lo(v1, v0)),
    )
}

/// One lane of the compression step: inject the input lane, cross-multiply
/// the 32-bit halves, and fold the products into the multiplier accumulators.
/// Returns (v0, v1, mul0, mul1) for that lane.
#[verifier::opaque]
pub open spec fn spec_mix_lane(v0: u64, v1: u64, m0: u64, m1: u64, lane: u64) -> (
    u64,
    u64,
    u64,
    u64,
) {
    let nv1 = v1.wrapping_add(m0.wrapping_add(lane));
    let nm0 = m0 ^ (nv1 & 0xffffffffu64).wrapping_mul(v0 >> 32);
    let nv0 = v0.wrapping_add(m1);
    let nm1 = m1 ^ (nv0 & 0xffffffffu64).wrapping_mul(nv1 >> 32);
    (nv0, nv1, nm0, nm1)
}

/// The full compression step over four input lanes: per-lane mixing followed
/// by the zipper merges across lane pairs, first into v0, then - using the
/// freshly merged v0 - into v1.
#[verifier::opaque]
pub open spec fn spec_update(s: MixState, lanes: Seq<u64>) -> MixState {
    let l0 = spec_mix_lane(s.v0[0], s.v1[0], s.mul0[0], s.mul1[0], lanes[0]);
    let l1 = spec_mix_lane(s.v0[1], s.v1[1], s.mul0[1], s.mul1[1], lanes[1]);
    let l2 = spec_mix_lane(s.v0[2], s.v1[2], s.mul0[2], s.mul1[2], lanes[2]);
    let l3 = spec_mix_lane(s.v0[3], s.v1[3], s.mul0[3], s.mul1[3], lanes[3]);
    let a01 = spec_zipper(l1.1, l0.1, l1.0, l0.0);
    let a23 = spec_zipper(l3.1, l2.1, l3.0, l2.0);
    let b01 = spec_zipper(a01.0, a01.1, l1.1, l0.1);
    let b23 = spec_zipper(a23.0, a23.1, l3.1, l2.1);
    MixState {
        v0: seq![a01.1, a01.0, a23.1, a23.0],
        v1: seq![b01.1, b01.0, b23.1, b23.0],
        mul0: seq![l0.2, l1.2, l2.2, l3.2],
        mul1: seq![l0.3, l1.3, l2.3, l3.3],
    }
}

/// A 64-bit little-endian read of eight bytes starting at `off`.
#[verifier::opaque]
pub open spec fn le64_at(b: Seq<u8>, off: int) -> u64 {
    (b[off] as u64)
        | ((b[off + 1] as u64) << 8)
        | ((b[off + 2] as u64) << 16)
        | ((b[off + 3] as u64) << 24)
        | ((b[off + 4] as u64) << 32)
        | ((b[off + 5] as u64) << 40)
        | ((b[off + 6] as u64) << 48)
        | ((b[off + 7] as u64) << 56)
}

/// Compress one 32-byte block, read as four little-endian lanes.
pub open spec fn spec_update_packet(s: MixState, block: Seq<u8>) -> MixState {
    spec_update(
        s,
        seq![le64_at(block, 0), le64_at(block, 8), le64_at(block, 16), le64_at(block, 24)],
    )
}

/// Rotate a 32-bit half left by `c` positions, 1 <= c <= 31.
pub open spec fn rot32_half(h: u32, c: u32) -> u32 {
    (h << c) | (h >> ((32 - c) as u32))
}

/// Rotate each 32-bit half of a 64-bit lane left by `c`, independently.
pub open spec fn rot32_lane(x: u64, c: u32) -> u64 {
    let h0 = (x & 0xffffffffu64) as u32;
    let h1 = (x >> 32) as u32;
    (rot32_half(h0, c) as u64) | ((rot32_half(h1, c) as u64) << 32)
}

/// The length injection and rotation applied before a padded tail block:
/// each v0 lane absorbs the tail length, each v1 half-lane is rotated by it.
pub open spec fn spec_tail_mixin(s: MixState, len: u64) -> MixState {
    let inc = (len << 32).wrapping_add(len);
    MixState {
        v0: seq![
            s.v0[0].wrapping_add(inc),
            s.v0[1].wrapping_add(inc),
            s.v0[2].wrapping_add(inc),
            s.v0[3].wrapping_add(inc),
        ],
        v1: seq![
            rot32_lane(s.v1[0], len as u32),
            rot32_lane(s.v1[1], len as u32),
            rot32_lane(s.v1[2], len as u32),
            rot32_lane(s.v1[3], len as u32),
        ],
        mul0: s.mul0,
        mul1: s.mul1,
    }
}

/// Byte `i` of the zero-padded 32-byte block built from a tail of
/// 1 to 31 bytes: a direct copy of the 4-aligned prefix, then either the
/// last four tail bytes moved to positions 28..31 (tails of 16 or more)
/// or up to three leftover bytes scattered to positions 16..18.
#[verifier::opaque]
pub open spec fn spec_tail_byte(tail: Seq<u8>, i: int) -> u8 {
    let len = tail.len() as int;
    let m4 = len % 4;
    let floor4 = len - m4;
    if len >= 16 {
        if i >= 28 {
            tail[len - 4 + (i - 28)]
        } else if i < floor4 {
            tail[i]
        } else {
            0
        }
    } else {
        if i < floor4 {
            tail[i]
        } else if m4 != 0 && i == 16 {
            tail[floor4]
        } else if m4 != 0 && i == 17 {
            tail[floor4 + m4 / 2]
        } else if m4 != 0 && i == 18 {
            tail[floor4 + m4 - 1]
        } else {
            0
        }
    }
}

/// The padded 32-byte block built from a partial tail.
pub open spec fn spec_tail_packet(tail: Seq<u8>) -> Seq<u8> {
    Seq::new(32, |i: int| spec_tail_byte(tail, i))
}

/// Consume a 1-to-31-byte tail: length injection, rotation, then one
/// compression of the padded block.
pub open spec fn spec_update_remainder(s: MixState, tail: Seq<u8>) -> MixState {
    spec_update_packet(spec_tail_mixin(s, tail.len() as u64), spec_tail_packet(tail))
}

/// The state after keying: the multiplier accumulators hold the eight fixed
/// round constants, and the key enters v0 directly and v1 half-swapped.
#[verifier::opaque]
pub open spec fn spec_reset(key: Seq<u64>) -> MixState {
    let mul0 = seq![
        0xdbe6d5d5fe4cce2fu64,
        0xa4093822299f31d0u64,
        0x13198a2e03707344u64,
        0x243f6a8885a308d3u64,
    ];
    let mul1 = seq![
        0x3bd39e10cb0ef593u64,
        0xc0acf169b5f18a8cu64,
        0xbe5466cf34e90c6cu64,
        0x452821e638d01377u64,
    ];
    MixState {
        v0: seq![mul0[0] ^ key[0], mul0[1] ^ key[1], mul0[2] ^ key[2], mul0[3] ^ key[3]],
        v1: seq![
            mul1[0] ^ swap_halves(key[0]),
            mul1[1] ^ swap_halves(key[1]),
            mul1[2] ^ swap_halves(key[2]),
            mul1[3] ^ swap_halves(key[3]),
        ],
        mul0: mul0,
        mul1: mul1,
    }
}

/// The finalization permutation of v0: swap halves of each lane and reorder
/// the lanes as 2, 3, 0, 1.
pub open spec fn spec_permute(v: Seq<u64>) -> Seq<u64> {
    seq![swap_halves(v[2]), swap_halves(v[3]), swap_halves(v[0]), swap_halves(v[1])]
}

/// One extra diffusion round: compress the permuted v0 as if it were input.
pub open spec fn spec_permute_and_update(s: MixState) -> MixState {
    spec_update(s, spec_permute(s.v0))
}

/// `n` diffusion rounds in sequence.
pub open spec fn spec_rounds(s: MixState, n: nat) -> MixState
    decreases n,
{
    if n == 0 {
        s
    } else {
        spec_permute_and_update(spec_rounds(s, (n - 1) as nat))
    }
}

/// The 64-bit digest: four diffusion rounds, then the sum of lane 0 of all
/// four vectors.
pub open spec fn spec_finalize64(s: MixState) -> u64 {
    let f = spec_rounds(s, 4);
    f.v0[0].wrapping_add(f.v1[0]).wrapping_add(f.mul0[0]).wrapping_add(f.mul1[0])
}

/// The 128-bit digest: six diffusion rounds, then two cross-lane sums.
pub open spec fn spec_finalize128(s: MixState) -> (u64, u64) {
    let f = spec_rounds(s, 6);
    (
        f.v0[0].wrapping_add(f.mul0[0]).wrapping_add(f.v1[2]).wrapping_add(f.mul1[2]),
        f.v0[1].wrapping_add(f.mul0[1]).wrapping_add(f.v1[3]).wrapping_add(f.mul1[3]),
    )
}

/// The fixed linear fold used by the 256-bit digest: mask the top two bits
/// of the highest word and XOR shifted copies of the two high words into the
/// two low words. Returns (high word, low word).
pub open spec fn spec_mod_reduce(a3_unmasked: u64, a2: u64, a1: u64, a0: u64) -> (u64, u64) {
    let a3 = a3_unmasked & 0x3fffffffffffffffu64;
    (
        a1 ^ ((a3 << 1) | (a2 >> 63)) ^ ((a3 << 2) | (a2 >> 62)),
        a0 ^ (a2 << 1) ^ (a2 << 2),
    )
}

/// The 256-bit digest: ten diffusion rounds, then two folds over lane pairs.
/// Returns the digest words in order (h0, h1, h2, h3).
pub open spec fn spec_finalize256(s: MixState) -> (u64, u64, u64, u64) {
    let f = spec_rounds(s, 10);
    let p = spec_mod_reduce(
        f.v1[1].wrapping_add(f.mul1[1]),
        f.v1[0].wrapping_add(f.mul1[0]),
        f.v0[1].wrapping_add(f.mul0[1]),
        f.v0[0].wrapping_add(f.mul0[0]),
    );
    let q = spec_mod_reduce(
        f.v1[3].wrapping_add(f.mul1[3]),
        f.v1[2].wrapping_add(f.mul1[2]),
        f.v0[3].wrapping_add(f.mul0[3]),
        f.v0[2].wrapping_add(f.mul0[2]),
    );
    (p.1, p.0, q.1, q.0)
}

/// Compress every leading full 32-byte block of `data`, leaving any
/// shorter tail untouched.
pub open spec fn spec_blocks(s: MixState, data: Seq<u8>) -> MixState
    decreases data.len(),
{
    if data.len() >= 32 {
        spec_blocks(spec_update_packet(s, data.take(32)), data.skip(32))
    } else {
        s
    }
}

/// Absorb a whole input: all full blocks, then the remainder exactly when
/// the length is not a multiple of 32.
pub open spec fn spec_process(s: MixState, data: Seq<u8>) -> MixState {
    let full = (data.len() - (data.len() % 32)) as int;
    let b = spec_blocks(s, data.take(full));
    if data.len() % 32 == 0 {
        b
    } else {
        spec_update_remainder(b, data.skip(full))
    }
}

/// The 64-bit hash of `data` under `key`.
pub open spec fn spec_hash64(data: Seq<u8>, key: Seq<u64>) -> u64 {
    spec_finalize64(spec_process(spec_reset(key), data))
}

/// The 128-bit hash of `data` under `key`, as an ordered pair of words.
pub open spec fn spec_hash128(data: Seq<u8>, key: Seq<u64>) -> (u64, u64) {
    spec_finalize128(spec_process(spec_reset(key), data))
}

/// The 256-bit hash of `data` under `key`, as an ordered 4-tuple of words.
pub open spec fn spec_hash256(data: Seq<u8>, key: Seq<u64>) -> (u64, u64, u64, u64) {
    spec_finalize256(spec_process(spec_reset(key), data))
}

/// Block absorption composes over concatenation: absorbing a block-aligned
/// prefix and then the rest reaches the same state as absorbing the whole
/// sequence at once. This is the heart of the streaming/one-shot agreement.
pub proof fn lemma_blocks_append(s: MixState, a: Seq<u8>, b: Seq<u8>)
    requires
        a.len() % 32 == 0,
    ensures
        spec_blocks(s, a + b) == spec_blocks(spec_blocks(s, a), b),
    decreases a.len(),
{
    if a.len() == 0 {
        assert(a + b =~= b);
    } else {
        assert(a.len() >= 32);
        assert((a + b).take(32) =~= a.take(32));
        assert((a + b).skip(32) =~= a.skip(32) + b);
        assert(a.skip(32).len() % 32 == 0);
        lemma_blocks_append(spec_update_packet(s, a.take(32)), a.skip(32), b);
    }
}

/// On exactly one block, block absorption is one compression.
pub proof fn lemma_blocks_one(s: MixState, b: Seq<u8>)
    requires
        b.len() == 32,
    ensures
        spec_blocks(s, b) == spec_update_packet(s, b),
{
    assert(b.take(32) =~= b);
    assert(b.skip(32) =~= Seq::<u8>::empty());
    assert(spec_blocks(spec_update_packet(s, b), Seq::<u8>::empty()) == spec_update_packet(s, b));
}

/// Absorbing one more full block extends block absorption by one
/// compression: the step a block-at-a-time loop takes.
pub proof fn lemma_blocks_step(s: MixState, d: Seq<u8>, o: int)
    requires
        0 <= o,
        o % 32 == 0,
        o + 32 <= d.len(),
    ensures
        spec_blocks(s, d.take(o + 32)) == spec_update_packet(
            spec_blocks(s, d.take(o)),
            d.subrange(o, o + 32),
        ),
{
    let block = d.subrange(o, o + 32);
    let prev = spec_blocks(s, d.take(o));
    lemma_blocks_one(prev, block);
    assert(d.take(o + 32) =~= d.take(o) + block);
    lemma_blocks_append(s, d.take(o), block);
}

/// Growing a sequence by `k` bytes, at most the room left in its current
/// partial block, moves the length's remainder mod 32 up by `k`, and back
/// to zero exactly when the block fills.
pub proof fn lemma_mod32_add(len: int, k: int)
    requires
        0 <= len,
        0 <= k,
        len % 32 + k <= 32,
    ensures
        (len + k) % 32 == if len % 32 + k == 32 {
            0int
        } else {
            len % 32 + k
        },
{
    let q = len / 32;
    let r = len % 32;
    vstd::arithmetic::div_mod::lemma_fundamental_div_mod(len, 32);
    if r + k == 32 {
        assert(len + k == (q + 1) * 32);
        vstd::arithmetic::div_mod::lemma_fundamental_div_mod_converse(len + k, 32, q + 1, 0);
    } else {
        assert(len + k == q * 32 + (r + k));
        vstd::arithmetic::div_mod::lemma_fundamental_div_mod_converse(len + k, 32, q, r + k);
    }
}

/// Streaming/one-shot agreement, stated on the model: once a block-aligned
/// prefix `a` has been absorbed block by block, absorbing the rest `b` (full
/// blocks plus remainder) reaches exactly the state of absorbing `a + b` at
/// once. Every digest width finalizes from that state, so a streaming
/// computation split anywhere on a block boundary agrees with the one-shot
/// hash of the concatenation.
pub proof fn lemma_stream_one_shot(key: Seq<u64>, a: Seq<u8>, b: Seq<u8>)
    requires
        a.len() % 32 == 0,
    ensures
        spec_process(spec_blocks(spec_reset(key), a), b) == spec_process(spec_reset(key), a + b),
{
    let s0 = spec_reset(key);
    let la = a.len() as int;
    let lb = b.len() as int;
    let fullb = lb - (lb % 32);
    vstd::arithmetic::div_mod::lemma_fundamental_div_mod(la, 32);
    vstd::arithmetic::div_mod::lemma_mod_multiples_vanish(la / 32, lb, 32);
    assert((la + lb) % 32 == lb % 32);
    assert((a + b).take(la + fullb) =~= a + b.take(fullb));
    lemma_blocks_append(s0, a, b.take(fullb));
    if lb % 32 != 0 {
        assert((a + b).skip(la + fullb) =~= b.skip(fullb));
    }
}

/// Every digest is a function of the key and the byte content alone: equal
/// inputs give equal outputs, at every width, on every call.
pub proof fn lemma_digest_deterministic(d1: Seq<u8>, k1: Seq<u64>, d2: Seq<u8>, k2: Seq<u64>)
    requires
        d1 == d2,
        k1 == k2,
    ensures
        spec_hash64(d1, k1) == spec_hash64(d2, k2),
        spec_hash128(d1, k1) == spec_hash128(d2, k2),
        spec_hash256(d1, k1) == spec_hash256(d2, k2),
{
}

} // verus!
