//! Executable hash: the mixing state, the one-shot processors and the
//! streaming accumulator, each proved against the model in `model`.
use vstd::prelude::*;
use vstd::slice::slice_subrange;

use crate::model::{
    le64_at, lemma_blocks_append, lemma_blocks_one, lemma_blocks_step, lemma_mod32_add,
    zipper_merge_hi, zipper_merge_lo,
    rot32_lane, spec_blocks, spec_finalize128, spec_finalize256, spec_finalize64, spec_hash128,
    spec_hash256, spec_hash64, spec_mix_lane, spec_mod_reduce, spec_permute,
    spec_permute_and_update, spec_process, spec_reset, spec_rounds, spec_tail_byte,
    spec_tail_mixin, spec_tail_packet, spec_update, spec_update_packet, spec_update_remainder,
    spec_zipper, MixState,
};

verus! {

/// Merge fixed byte positions of the lane pair (v1, v0) and add the two
/// merged words into the accumulators (add1, add0).
fn zipper_merge_and_add(v1: u64, v0: u64, add1: u64, add0: u64) -> (r: (u64, u64))
    ensures
        r == spec_zipper(v1, v0, add1, add0),
{
    proof {
        reveal(zipper_merge_hi);
        reveal(zipper_merge_lo);
    }
    let new_add1: u64 = add1.wrapping_add(
        ((v1 & 0xff000000u64 | v0 & 0xff00000000u64) >> 24)
            | (v1 & 0xff0000u64)
            | ((v1 & 0xff0000000000u64) >> 16)
            | ((v1 & 0xff00u64) << 24)
            | ((v0 & 0xff000000000000u64) >> 8)
            | ((v1 & 0xffu64) << 48)
            | (v0 & 0xff00000000000000u64),
    );
    let new_add0: u64 = add0.wrapping_add(
        ((v0 & 0xff000000u64 | v1 & 0xff00000000u64) >> 24)
            | ((v0 & 0xff0000000000u64 | v1 & 0xff000000000000u64) >> 16)
            | (v0 & 0xff0000u64)
            | ((v0 & 0xff00u64) << 32)
            | ((v1 & 0xff00000000000000u64) >> 8)
            | (v0 << 56),
    );
    (new_add1, new_add0)
}

/// Read a 64-bit little-endian word from eight bytes starting at `off`.
fn read64(src: &[u8], off: usize) -> (r: u64)
    requires
        off + 8 <= src@.len(),
    ensures
        r == le64_at(src@, off as int),
{
    proof {
        reveal(le64_at);
    }
    (src[off] as u64)
        | ((src[off + 1] as u64) << 8)
        | ((src[off + 2] as u64) << 16)
        | ((src[off + 3] as u64) << 24)
        | ((src[off + 4] as u64) << 32)
        | ((src[off + 5] as u64) << 40)
        | ((src[off + 6] as u64) << 48)
        | ((src[off + 7] as u64) << 56)
}

/// Rotate each 32-bit half of one lane left by `c` positions.
fn rotate_lane(x: u64, c: u32) -> (r: u64)
    requires
        1 <= c < 32,
    ensures
        r == rot32_lane(x, c),
{
    let h0: u32 = (x & 0xffffffffu64) as u32;
    let h1: u32 = (x >> 32) as u32;
    let d: u32 = 32 - c;
    let r0: u32 = (h0 << c) | (h0 >> d);
    let r1: u32 = (h1 << c) | (h1 >> d);
    (r0 as u64) | ((r1 as u64) << 32)
}

/// Rotate each 32-bit half of each lane left by `count` positions.
fn rotate32_by(count: usize, lanes: &[u64; 4]) -> (r: [u64; 4])
    requires
        1 <= count < 32,
    ensures
        r@ == seq![
            rot32_lane(lanes@[0], count as u32),
            rot32_lane(lanes@[1], count as u32),
            rot32_lane(lanes@[2], count as u32),
            rot32_lane(lanes@[3], count as u32),
        ],
{
    let c: u32 = count as u32;
    let r: [u64; 4] = [
        rotate_lane(lanes[0], c),
        rotate_lane(lanes[1], c),
        rotate_lane(lanes[2], c),
        rotate_lane(lanes[3], c),
    ];
    proof {
        assert(r@ =~= seq![
            rot32_lane(lanes@[0], count as u32),
            rot32_lane(lanes@[1], count as u32),
            rot32_lane(lanes@[2], count as u32),
            rot32_lane(lanes@[3], count as u32),
        ]);
    }
    r
}

/// The finalization permutation: swap the halves of every lane and reorder
/// the lanes as 2, 3, 0, 1.
fn permute(v: [u64; 4]) -> (r: [u64; 4])
    ensures
        r@ == spec_permute(v@),
{
    let r: [u64; 4] = [
        (v[2] >> 32) | (v[2] << 32),
        (v[3] >> 32) | (v[3] << 32),
        (v[0] >> 32) | (v[0] << 32),
        (v[1] >> 32) | (v[1] << 32),
    ];
    proof {
        assert(r@ =~= spec_permute(v@));
    }
    r
}

/// The fixed linear fold of the 256-bit finalization: mask the top two bits
/// of `a3_unmasked` and XOR shifted copies of the high words into the low.
fn modular_reduction(a3_unmasked: u64, a2: u64, a1: u64, a0: u64) -> (r: (u64, u64))
    ensures
        r == spec_mod_reduce(a3_unmasked, a2, a1, a0),
{
    let a3: u64 = a3_unmasked & 0x3fffffffffffffffu64;
    let new_m1: u64 = a1 ^ ((a3 << 1) | (a2 >> 63)) ^ ((a3 << 2) | (a2 >> 62));
    let new_m0: u64 = a0 ^ (a2 << 1) ^ (a2 << 2);
    (new_m1, new_m0)
}

/// One lane of the compression step; returns (v0, v1, mul0, mul1).
fn mix_lane(v0: u64, v1: u64, m0: u64, m1: u64, lane: u64) -> (r: (u64, u64, u64, u64))
    ensures
        r == spec_mix_lane(v0, v1, m0, m1, lane),
{
    proof {
        reveal(spec_mix_lane);
    }
    let nv1: u64 = v1.wrapping_add(m0.wrapping_add(lane));
    let nm0: u64 = m0 ^ (nv1 & 0xffffffffu64).wrapping_mul(v0 >> 32);
    let nv0: u64 = v0.wrapping_add(m1);
    let nm1: u64 = m1 ^ (nv0 & 0xffffffffu64).wrapping_mul(nv1 >> 32);
    (nv0, nv1, nm0, nm1)
}

/// The hash state: two vector arrays and two multiplier accumulator arrays
/// of four 64-bit lanes each, modeled by `MixState`.
#[derive(Debug, Copy, Clone)]
pub struct HighwayHashState {
    v0: [u64; 4],
    v1: [u64; 4],
    mul0: [u64; 4],
    mul1: [u64; 4],
}

impl View for HighwayHashState {
    type V = MixState;

    closed spec fn view(&self) -> MixState {
        MixState { v0: self.v0@, v1: self.v1@, mul0: self.mul0@, mul1: self.mul1@ }
    }
}

impl HighwayHashState {
    /// An all-zero state; every computation re-keys it through `reset`.
    fn new() -> (s: Self)
        ensures
            s@ == (MixState {
                v0: seq![0u64, 0u64, 0u64, 0u64],
                v1: seq![0u64, 0u64, 0u64, 0u64],
                mul0: seq![0u64, 0u64, 0u64, 0u64],
                mul1: seq![0u64, 0u64, 0u64, 0u64],
            }),
    {
        let s = HighwayHashState { v0: [0; 4], v1: [0; 4], mul0: [0; 4], mul1: [0; 4] };
        proof {
            assert(s@ =~= (MixState {
                v0: seq![0u64, 0u64, 0u64, 0u64],
                v1: seq![0u64, 0u64, 0u64, 0u64],
                mul0: seq![0u64, 0u64, 0u64, 0u64],
                mul1: seq![0u64, 0u64, 0u64, 0u64],
            }));
        }
        s
    }

    /// Key the state: load the round constants and fold the key into v0
    /// directly and into v1 with its word halves swapped.
    fn reset(&mut self, key: [u64; 4])
        ensures
            final(self)@ == spec_reset(key@),
    {
        proof {
            reveal(spec_reset);
        }
        self.mul0 = [
            0xdbe6d5d5fe4cce2fu64,
            0xa4093822299f31d0u64,
            0x13198a2e03707344u64,
            0x243f6a8885a308d3u64,
        ];
        self.mul1 = [
            0x3bd39e10cb0ef593u64,
            0xc0acf169b5f18a8cu64,
            0xbe5466cf34e90c6cu64,
            0x452821e638d01377u64,
        ];
        self.v0 = [
            self.mul0[0] ^ key[0],
            self.mul0[1] ^ key[1],
            self.mul0[2] ^ key[2],
            self.mul0[3] ^ key[3],
        ];
        self.v1 = [
            self.mul1[0] ^ ((key[0] >> 32) | (key[0] << 32)),
            self.mul1[1] ^ ((key[1] >> 32) | (key[1] << 32)),
            self.mul1[2] ^ ((key[2] >> 32) | (key[2] << 32)),
            self.mul1[3] ^ ((key[3] >> 32) | (key[3] << 32)),
        ];
        proof {
            assert(self@ =~= spec_reset(key@));
        }
    }

    /// The compression step over four input lanes.
    fn update(&mut self, lanes: &[u64; 4])
        ensures
            final(self)@ == spec_update(old(self)@, lanes@),
    {
        proof {
            reveal(spec_update);
        }
        let l0: (u64, u64, u64, u64) = mix_lane(
            self.v0[0],
            self.v1[0],
            self.mul0[0],
            self.mul1[0],
            lanes[0],
        );
        let l1: (u64, u64, u64, u64) = mix_lane(
            self.v0[1],
            self.v1[1],
            self.mul0[1],
            self.mul1[1],
            lanes[1],
        );
        let l2: (u64, u64, u64, u64) = mix_lane(
            self.v0[2],
            self.v1[2],
            self.mul0[2],
            self.mul1[2],
            lanes[2],
        );
        let l3: (u64, u64, u64, u64) = mix_lane(
            self.v0[3],
            self.v1[3],
            self.mul0[3],
            self.mul1[3],
            lanes[3],
        );
        let a01: (u64, u64) = zipper_merge_and_add(l1.1, l0.1, l1.0, l0.0);
        let a23: (u64, u64) = zipper_merge_and_add(l3.1, l2.1, l3.0, l2.0);
        let b01: (u64, u64) = zipper_merge_and_add(a01.0, a01.1, l1.1, l0.1);
        let b23: (u64, u64) = zipper_merge_and_add(a23.0, a23.1, l3.1, l2.1);
        self.v0 = [a01.1, a01.0, a23.1, a23.0];
        self.v1 = [b01.1, b01.0, b23.1, b23.0];
        self.mul0 = [l0.2, l1.2, l2.2, l3.2];
        self.mul1 = [l0.3, l1.3, l2.3, l3.3];
        proof {
            assert(self@ =~= spec_update(old(self)@, lanes@));
        }
    }

    /// Compress one 32-byte block, read as four little-endian lanes.
    fn update_packet(&mut self, packet: &[u8])
        requires
            packet@.len() == 32,
        ensures
            final(self)@ == spec_update_packet(old(self)@, packet@),
    {
        let lanes: [u64; 4] = [
            read64(packet, 0),
            read64(packet, 8),
            read64(packet, 16),
            read64(packet, 24),
        ];
        proof {
            assert(lanes@ =~= seq![
                le64_at(packet@, 0),
                le64_at(packet@, 8),
                le64_at(packet@, 16),
                le64_at(packet@, 24),
            ]);
        }
        self.update(&lanes);
    }

    /// Consume the final 1-to-31-byte tail: inject the length into v0,
    /// rotate the v1 halves by it, and compress a zero-padded block that
    /// carries the tail bytes in fixed positions.
    fn update_remainder(&mut self, bytes: &[u8], size_mod32: usize)
        requires
            1 <= size_mod32 < 32,
            bytes@.len() >= size_mod32,
        ensures
            final(self)@ == spec_update_remainder(old(self)@, bytes@.take(size_mod32 as int)),
    {
        let size_mod4: usize = size_mod32 % 4;
        let remainder: usize = size_mod32 - size_mod4;
        let lv: u64 = size_mod32 as u64;
        let inc: u64 = (lv << 32).wrapping_add(lv);
        self.v0 = [
            self.v0[0].wrapping_add(inc),
            self.v0[1].wrapping_add(inc),
            self.v0[2].wrapping_add(inc),
            self.v0[3].wrapping_add(inc),
        ];
        self.v1 = rotate32_by(size_mod32, &self.v1);
        proof {
            assert(self@ =~= spec_tail_mixin(old(self)@, lv));
        }
        let ghost mixed: MixState = self@;
        let ghost tail: Seq<u8> = bytes@.take(size_mod32 as int);

        let mut packet: [u8; 32] = [0; 32];
        let mut i: usize = 0;
        while i < remainder
            invariant
                i <= remainder,
                remainder <= size_mod32,
                size_mod32 < 32,
                bytes@.len() >= size_mod32,
                packet@.len() == 32,
                forall|j: int| 0 <= j < i ==> packet@[j] == bytes@[j],
                forall|j: int| i <= j < 32 ==> packet@[j] == 0,
            decreases remainder - i,
        {
            packet[i] = bytes[i];
            i += 1;
        }
        if size_mod32 >= 16 {
            let base: usize = size_mod32 - 4;
            packet[28] = bytes[base];
            packet[29] = bytes[base + 1];
            packet[30] = bytes[base + 2];
            packet[31] = bytes[base + 3];
        } else if size_mod4 != 0 {
            packet[16] = bytes[remainder];
            packet[17] = bytes[remainder + size_mod4 / 2];
            packet[18] = bytes[remainder + size_mod4 - 1];
        }
        proof {
            reveal(spec_tail_byte);
            assert forall|j: int| 0 <= j < 32 implies packet@[j] == spec_tail_byte(tail, j) by {
                assert(tail.len() == size_mod32);
            }
            assert(packet@ =~= spec_tail_packet(tail));
        }
        self.update_packet(packet.as_slice());
    }

    /// One extra diffusion round: compress the permuted v0 as input.
    fn permute_and_update(&mut self)
        ensures
            final(self)@ == spec_permute_and_update(old(self)@),
    {
        let permuted: [u64; 4] = permute(self.v0);
        self.update(&permuted);
    }

    /// Four diffusion rounds, then the 64-bit digest from lane 0.
    fn finalize64(&mut self) -> (r: u64)
        ensures
            final(self)@ == spec_rounds(old(self)@, 4),
            r == spec_finalize64(old(self)@),
    {
        let mut i: usize = 0;
        while i < 4
            invariant
                i <= 4,
                self@ == spec_rounds(old(self)@, i as nat),
            decreases 4 - i,
        {
            self.permute_and_update();
            i += 1;
        }
        self.v0[0].wrapping_add(self.v1[0]).wrapping_add(self.mul0[0]).wrapping_add(self.mul1[0])
    }

    /// Six diffusion rounds, then the 128-bit digest as two cross-lane sums.
    fn finalize128(&mut self) -> (r: [u64; 2])
        ensures
            final(self)@ == spec_rounds(old(self)@, 6),
            r@.len() == 2,
            (r@[0], r@[1]) == spec_finalize128(old(self)@),
    {
        let mut i: usize = 0;
        while i < 6
            invariant
                i <= 6,
                self@ == spec_rounds(old(self)@, i as nat),
            decreases 6 - i,
        {
            self.permute_and_update();
            i += 1;
        }
        let r: [u64; 2] = [
            self.v0[0].wrapping_add(self.mul0[0]).wrapping_add(self.v1[2]).wrapping_add(
                self.mul1[2],
            ),
            self.v0[1].wrapping_add(self.mul0[1]).wrapping_add(self.v1[3]).wrapping_add(
                self.mul1[3],
            ),
        ];
        r
    }

    /// Ten diffusion rounds, then the 256-bit digest via two linear folds.
    fn finalize256(&mut self) -> (r: [u64; 4])
        ensures
            final(self)@ == spec_rounds(old(self)@, 10),
            r@.len() == 4,
            (r@[0], r@[1], r@[2], r@[3]) == spec_finalize256(old(self)@),
    {
        let mut i: usize = 0;
        while i < 10
            invariant
                i <= 10,
                self@ == spec_rounds(old(self)@, i as nat),
            decreases 10 - i,
        {
            self.permute_and_update();
            i += 1;
        }
        let h10: (u64, u64) = modular_reduction(
            self.v1[1].wrapping_add(self.mul1[1]),
            self.v1[0].wrapping_add(self.mul1[0]),
            self.v0[1].wrapping_add(self.mul0[1]),
            self.v0[0].wrapping_add(self.mul0[0]),
        );
        let h32: (u64, u64) = modular_reduction(
            self.v1[3].wrapping_add(self.mul1[3]),
            self.v1[2].wrapping_add(self.mul1[2]),
            self.v0[3].wrapping_add(self.mul0[3]),
            self.v0[2].wrapping_add(self.mul0[2]),
        );
        let r: [u64; 4] = [h10.1, h10.0, h32.1, h32.0];
        r
    }

    /// Key the state, compress every full block of `data`, and consume the
    /// remainder exactly when the length is not a multiple of 32.
    fn process_all(&mut self, data: &Vec<u8>, key: [u64; 4])
        ensures
            final(self)@ == spec_process(spec_reset(key@), data@),
    {
        self.reset(key);
        let data_size: usize = data.len();
        let mut offset: usize = 0;
        proof {
            assert(data@.take(0) =~= Seq::<u8>::empty());
        }
        while data_size - offset >= 32
            invariant
                offset <= data_size,
                offset % 32 == 0,
                data_size == data@.len(),
                self@ == spec_blocks(spec_reset(key@), data@.take(offset as int)),
            decreases data_size - offset,
        {
            self.update_packet(slice_subrange(data.as_slice(), offset, offset + 32));
            proof {
                lemma_blocks_step(spec_reset(key@), data@, offset as int);
            }
            offset += 32;
        }
        proof {
            assert(data_size % 32 == data_size - offset) by (nonlinear_arith)
                requires
                    offset % 32 == 0,
                    offset <= data_size,
                    data_size - offset < 32,
            ;
        }
        if data_size % 32 != 0 {
            let tail_len: usize = data_size - offset;
            self.update_remainder(
                slice_subrange(data.as_slice(), offset, data_size),
                tail_len,
            );
            proof {
                let d = data@;
                let o = offset as int;
                assert(d.subrange(o, d.len() as int).take(tail_len as int) =~= d.skip(o));
            }
        }
    }
}

/// The 64-bit hash of `data` under `key`, computed in one shot.
pub fn highway_hash64(data: &Vec<u8>, key: [u64; 4]) -> (r: u64)
    ensures
        r == spec_hash64(data@, key@),
{
    let mut state = HighwayHashState::new();
    state.process_all(data, key);
    state.finalize64()
}

/// The 128-bit hash of `data` under `key`, as an ordered pair of words.
pub fn highway_hash128(data: &Vec<u8>, key: [u64; 4]) -> (r: [u64; 2])
    ensures
        r@.len() == 2,
        (r@[0], r@[1]) == spec_hash128(data@, key@),
{
    let mut state = HighwayHashState::new();
    state.process_all(data, key);
    state.finalize128()
}

/// The 256-bit hash of `data` under `key`, as an ordered 4-tuple of words.
pub fn highway_hash256(data: &Vec<u8>, key: [u64; 4]) -> (r: [u64; 4])
    ensures
        r@.len() == 4,
        (r@[0], r@[1], r@[2], r@[3]) == spec_hash256(data@, key@),
{
    let mut state = HighwayHashState::new();
    state.process_all(data, key);
    state.finalize256()
}

/// Consistency of a streaming accumulator: the buffer holds exactly the
/// unprocessed tail of the bytes fed so far, and the state has absorbed
/// every full block before that tail.
spec fn cat_inv(state: MixState, packet: Seq<u8>, num: int, key: Seq<u64>, fed: Seq<u8>) -> bool {
    &&& 0 <= num < 32
    &&& num == fed.len() % 32
    &&& packet.len() == 32
    &&& packet.subrange(0, num) == fed.skip(fed.len() - num)
    &&& state == spec_blocks(spec_reset(key), fed.take(fed.len() - num))
}

/// The streaming accumulator: a keyed state plus a partial-block buffer, so
/// input may arrive in pieces of any size. Every finish works on a copy of
/// the state and agrees with the one-shot hash of the concatenation of all
/// bytes appended so far.
#[derive(Copy, Clone)]
pub struct HighwayHashCat {
    state: HighwayHashState,
    packet: [u8; 32],
    num: usize,
    key: Ghost<Seq<u64>>,
    fed: Ghost<Seq<u8>>,
}

impl HighwayHashCat {
    /// The key this accumulator was created with.
    pub closed spec fn spec_key(&self) -> Seq<u64> {
        self.key@
    }

    /// The concatenation of every byte appended so far.
    pub closed spec fn spec_fed(&self) -> Seq<u8> {
        self.fed@
    }

    /// The accumulator is internally consistent; every constructor
    /// establishes this and every method preserves it.
    pub closed spec fn wf(&self) -> bool {
        cat_inv(self.state@, self.packet@, self.num as int, self.key@, self.fed@)
    }

    /// A fresh accumulator keyed with `key`, with nothing appended yet.
    pub fn new(key: [u64; 4]) -> (c: Self)
        ensures
            c.wf(),
            c.spec_key() == key@,
            c.spec_fed() == Seq::<u8>::empty(),
    {
        let mut state = HighwayHashState::new();
        state.reset(key);
        let c = HighwayHashCat {
            state,
            packet: [0; 32],
            num: 0,
            key: Ghost(key@),
            fed: Ghost(Seq::empty()),
        };
        proof {
            let e = Seq::<u8>::empty();
            assert(e.take(0) =~= e);
            assert(e.skip(0) =~= e);
            assert(c.packet@.subrange(0, 0) =~= e);
        }
        c
    }

    /// Absorb the front of `data` into the nonempty pending buffer,
    /// flushing the buffer through the compression step if it reaches a
    /// full block. Returns how many leading bytes of `data` were taken.
    fn top_off(&mut self, data: &[u8]) -> (consumed: usize)
        requires
            old(self).wf(),
            old(self).num != 0,
        ensures
            final(self).wf(),
            final(self).spec_key() == old(self).spec_key(),
            final(self).spec_fed() == old(self).spec_fed() + data@.take(consumed as int),
            consumed <= data@.len(),
            consumed < data@.len() ==> final(self).num == 0,
    {
        let ghost key0: Seq<u64> = self.key@;
        let ghost fed0: Seq<u8> = self.fed@;
        let data_size: usize = data.len();
        let capacity: usize = 32 - self.num;
        let num_add: usize = if data_size > capacity {
            capacity
        } else {
            data_size
        };
        let num0: usize = self.num;
        let mut i: usize = 0;
        while i < num_add
            invariant
                i <= num_add,
                0 < num0,
                num0 + num_add <= 32,
                num_add <= data@.len(),
                self.num == num0,
                self.key == old(self).key,
                self.fed == old(self).fed,
                self.state == old(self).state,
                self.packet@.len() == 32,
                self.packet@.subrange(0, num0 as int) == old(self).packet@.subrange(
                    0,
                    num0 as int,
                ),
                forall|j: int| 0 <= j < i ==> self.packet@[num0 + j] == data@[j],
            decreases num_add - i,
        {
            self.packet[self.num + i] = data[i];
            i += 1;
            proof {
                assert(self.packet@.subrange(0, num0 as int) =~= old(self).packet@.subrange(
                    0,
                    num0 as int,
                ));
            }
        }
        self.num = self.num + num_add;
        self.fed = Ghost(fed0 + data@.take(num_add as int));
        proof {
            lemma_mod32_add(fed0.len() as int, num_add as int);
            assert(self.packet@.subrange(0, self.num as int) =~= self.fed@.skip(
                self.fed@.len() - self.num,
            ));
            assert(self.fed@.take(self.fed@.len() - self.num) =~= fed0.take(fed0.len() - num0));
        }
        if self.num == 32 {
            self.state.update_packet(self.packet.as_slice());
            self.num = 0;
            proof {
                let fedp = self.fed@;
                let lp = fedp.len() as int;
                let aligned = fed0.take(fed0.len() - num0);
                assert(fedp.skip(lp - 32) =~= self.packet@);
                assert(fedp.take(lp - 32) =~= aligned);
                assert(fedp =~= aligned + self.packet@);
                lemma_blocks_append(spec_reset(key0), aligned, self.packet@);
                lemma_blocks_one(spec_blocks(spec_reset(key0), aligned), self.packet@);
                assert(fedp.take(lp) =~= fedp);
                assert(fedp.skip(lp) =~= Seq::<u8>::empty());
                assert(self.packet@.subrange(0, 0) =~= Seq::<u8>::empty());
            }
        }
        num_add
    }

    /// Store the trailing bytes of `data` from `offset` on, fewer than a
    /// full block, into the pending buffer for a later flush or finish.
    fn stash_tail(&mut self, data: &[u8], offset: usize)
        requires
            old(self).wf(),
            offset <= data@.len(),
            data@.len() - offset < 32,
            offset < data@.len() ==> old(self).num == 0,
        ensures
            final(self).wf(),
            final(self).spec_key() == old(self).spec_key(),
            final(self).spec_fed() == old(self).spec_fed() + data@.skip(offset as int),
    {
        let ghost key0: Seq<u64> = self.key@;
        let ghost fed0: Seq<u8> = self.fed@;
        let data_size: usize = data.len() - offset;
        let mut i: usize = 0;
        proof {
            assert(fed0 + data@.subrange(offset as int, offset as int) =~= fed0);
        }
        while i < data_size
            invariant
                i <= data_size,
                data_size < 32,
                data@.len() <= usize::MAX,
                offset + data_size == data@.len(),
                self.key@ == key0,
                self.fed@ == fed0 + data@.subrange(offset as int, offset + i),
                data_size > 0 ==> self.num == i,
                cat_inv(self.state@, self.packet@, self.num as int, key0, self.fed@),
            decreases data_size - i,
        {
            let ghost packet0: Seq<u8> = self.packet@;
            self.packet[self.num] = data[offset + i];
            self.num = self.num + 1;
            self.fed = Ghost(fed0 + data@.subrange(offset as int, offset + i + 1));
            proof {
                let fed_cur = fed0 + data@.subrange(offset as int, offset + i);
                let fed_new = self.fed@;
                let n = self.num as int;
                lemma_mod32_add(fed_cur.len() as int, 1);
                assert forall|j: int| 0 <= j < n implies self.packet@[j] == fed_new[fed_new.len()
                    - n + j] by {
                    if j < n - 1 {
                        assert(packet0.subrange(0, n - 1)[j] == fed_cur.skip(
                            fed_cur.len() - (n - 1),
                        )[j]);
                    }
                }
                assert(self.packet@.subrange(0, n) =~= fed_new.skip(fed_new.len() - n));
                assert(fed_new.take(fed_new.len() - n) =~= fed_cur.take(fed_cur.len() - (n - 1)));
            }
            i += 1;
        }
        proof {
            assert(fed0 + data@.subrange(offset as int, offset + data_size) =~= fed0 + data@.skip(
                offset as int,
            ));
        }
    }

    /// Feed more bytes, of any length including zero: top off the pending
    /// buffer (flushing it if it reaches a full block), absorb every full
    /// block of the rest directly, and keep the final partial block pending.
    pub fn append(&mut self, data: &[u8])
        requires
            old(self).wf(),
        ensures
            final(self).wf(),
            final(self).spec_key() == old(self).spec_key(),
            final(self).spec_fed() == old(self).spec_fed() + data@,
    {
        let ghost key0: Seq<u64> = self.key@;
        let ghost fed0: Seq<u8> = self.fed@;
        let mut offset: usize = 0;
        if self.num != 0 {
            offset = self.top_off(data);
        }
        proof {
            assert(fed0 + data@.take(offset as int) =~= self.fed@);
        }
        let mut data_size: usize = data.len() - offset;
        while data_size >= 32
            invariant
                data@.len() <= usize::MAX,
                offset + data_size == data@.len(),
                self.key@ == key0,
                self.fed@ == fed0 + data@.take(offset as int),
                data_size > 0 ==> self.num == 0,
                cat_inv(self.state@, self.packet@, self.num as int, key0, self.fed@),
            decreases data_size,
        {
            self.state.update_packet(slice_subrange(data, offset, offset + 32));
            proof {
                let fed_cur = fed0 + data@.take(offset as int);
                let block = data@.subrange(offset as int, offset as int + 32);
                assert(fed_cur.take(fed_cur.len() as int) =~= fed_cur);
                lemma_blocks_append(spec_reset(key0), fed_cur, block);
                lemma_blocks_one(spec_blocks(spec_reset(key0), fed_cur), block);
                lemma_mod32_add(fed_cur.len() as int, 32);
                assert(fed0 + data@.take(offset as int + 32) =~= fed_cur + block);
            }
            self.fed = Ghost(fed0 + data@.take(offset as int + 32));
            offset = offset + 32;
            data_size = data_size - 32;
            proof {
                let fed_new = self.fed@;
                assert(fed_new.take(fed_new.len() as int) =~= fed_new);
                assert(self.packet@.subrange(0, 0) =~= fed_new.skip(fed_new.len() as int));
            }
        }
        self.stash_tail(data, offset);
        proof {
            assert(fed0 + data@.take(offset as int) + data@.skip(offset as int) =~= fed0 + data@);
        }
    }

    /// The 64-bit digest of everything appended so far, equal to the
    /// one-shot `highway_hash64` of those bytes. Works on a copy of the
    /// state: the accumulator stays valid for further appends and finishes,
    /// and repeated calls return the same value.
    pub fn finish64(&self) -> (r: u64)
        requires
            self.wf(),
        ensures
            r == spec_hash64(self.spec_fed(), self.spec_key()),
    {
        let mut copy: HighwayHashState = self.state;
        self.finish_remainder(&mut copy);
        copy.finalize64()
    }

    /// The 128-bit digest of everything appended so far, equal to the
    /// one-shot `highway_hash128` of those bytes; non-mutating like
    /// `finish64`.
    pub fn finish128(&self) -> (r: [u64; 2])
        requires
            self.wf(),
        ensures
            r@.len() == 2,
            (r@[0], r@[1]) == spec_hash128(self.spec_fed(), self.spec_key()),
    {
        let mut copy: HighwayHashState = self.state;
        self.finish_remainder(&mut copy);
        copy.finalize128()
    }

    /// The 256-bit digest of everything appended so far, equal to the
    /// one-shot `highway_hash256` of those bytes; non-mutating like
    /// `finish64`.
    pub fn finalize256(&self) -> (r: [u64; 4])
        requires
            self.wf(),
        ensures
            r@.len() == 4,
            (r@[0], r@[1], r@[2], r@[3]) == spec_hash256(self.spec_fed(), self.spec_key()),
    {
        let mut copy: HighwayHashState = self.state;
        self.finish_remainder(&mut copy);
        copy.finalize256()
    }

    /// Bring a snapshot copy of the state to the fully absorbed state of
    /// everything appended: feed it the pending tail exactly when one is
    /// pending.
    fn finish_remainder(&self, copy: &mut HighwayHashState)
        requires
            self.wf(),
            old(copy)@ == self.state@,
        ensures
            final(copy)@ == spec_process(spec_reset(self.spec_key()), self.spec_fed()),
    {
        if self.num != 0 {
            copy.update_remainder(self.packet.as_slice(), self.num);
            proof {
                let fed = self.fed@;
                let full = fed.len() - self.num;
                assert(self.packet@.take(self.num as int) =~= self.packet@.subrange(
                    0,
                    self.num as int,
                ));
                assert(fed.take(full as int) =~= fed.take(fed.len() - self.num));
            }
        } else {
            proof {
                let fed = self.fed@;
                assert(fed.take(fed.len() as int) =~= fed);
            }
        }
    }
}

} // verus!
