//! The sparse encoder: a bitmap over the 64-bit slots of the flow record and
//! the words of the slots that are present.

use vstd::prelude::*;
use crate::endian::{
    clear_from, clear_upto, join_halves64, le32_at, le64_at, le64_halves, lemma_splice_cleared,
    lemma_splice_halves, read_word32, read_word64, set_field16, set_field32, set_field8, splice,
};

verus! {

/// Number of 64-bit units of a slot bitmap.
pub const FLOWMAP_UNITS: usize = 2;

/// Number of slots that a slot bitmap can hold.
pub const FLOWMAP_BITS: usize = 128;

/// Number of bytes of the flow record that a slot bitmap covers.
pub const FLOWMAP_BYTES: usize = 1024;

/// Number of words of a new value buffer.
pub const MINIFLOW_VALUES_SIZE: usize = 20;

/// Whether bit `i` of `x` is set.
pub open spec fn bit_is_set(x: u64, i: nat) -> bool {
    (x >> (i as u64)) & 1 == 1
}

/// The slots `first .. first + n`.
pub open spec fn slot_range(first: nat, n: nat) -> Set<nat> {
    Set::new(|i: nat| first <= i < first + n)
}

proof fn lemma_or_bit(x: u64, i: u64, j: u64)
    by (bit_vector)
    requires
        i < 64,
        j < 64,
    ensures
        ((x | (1u64 << i)) >> j) & 1 == 1 <==> (j == i || (x >> j) & 1 == 1),
{
}

proof fn lemma_zero_bit(j: u64)
    by (bit_vector)
    requires
        j < 64,
    ensures
        (0u64 >> j) & 1 == 0,
{
}

/// A set of slots of the flow record, one bit per 64-bit slot.
#[allow(non_camel_case_types)]
#[derive(Clone, Copy, Debug)]
pub struct flowmap {
    pub bits: [u64; 2],
}

impl flowmap {
    /// The slots whose bit is set.
    pub open spec fn view(&self) -> Set<nat> {
        Set::new(|i: nat| i < 128 && bit_is_set(self.bits[(i / 64) as int], i % 64))
    }

    /// The bitmap with no slot.
    pub fn new() -> (r: flowmap)
        ensures
            r@ == Set::<nat>::empty(),
            r.bits[0] == 0,
            r.bits[1] == 0,
    {
        let r = flowmap { bits: [0, 0] };
        proof {
            assert forall|i: nat| !r@.contains(i) by {
                if i < 128 {
                    lemma_zero_bit((i % 64) as u64);
                }
            }
            assert(r@ =~= Set::<nat>::empty());
        }
        r
    }

    /// Whether slot `idx` is in the bitmap.
    pub fn is_set(&self, idx: usize) -> (r: bool)
        requires
            idx < FLOWMAP_BITS,
        ensures
            r == self@.contains(idx as nat),
    {
        let unit: usize = idx / 64;
        let b: u64 = (idx % 64) as u64;
        (self.bits[unit] >> b) & 1 == 1
    }

    /// Adds slot `idx`.
    pub fn set_bit(&mut self, idx: usize)
        requires
            idx < FLOWMAP_BITS,
        ensures
            final(self)@ == old(self)@.insert(idx as nat),
    {
        let b: u64 = (idx % 64) as u64;
        let lo: u64 = self.bits[0];
        let hi: u64 = self.bits[1];
        if idx < 64 {
            self.bits = [lo | (1u64 << b), hi];
        } else {
            self.bits = [lo, hi | (1u64 << b)];
        }
        proof {
            assert forall|i: nat| self@.contains(i) == old(self)@.insert(idx as nat).contains(i) by {
                if i < 128 {
                    let x: u64 = old(self).bits[(i / 64) as int];
                    lemma_or_bit(x, b, (i % 64) as u64);
                }
            }
            assert(self@ =~= old(self)@.insert(idx as nat));
        }
    }

    /// Adds the `n` slots that start at `idx`.
    pub fn set(&mut self, idx: usize, n: usize)
        requires
            idx + n <= FLOWMAP_BITS,
        ensures
            final(self)@ == old(self)@.union(slot_range(idx as nat, n as nat)),
    {
        let mut i: usize = 0;
        while i < n
            invariant
                i <= n,
                idx + n <= FLOWMAP_BITS,
                self@ == old(self)@.union(slot_range(idx as nat, i as nat)),
            decreases n - i,
        {
            self.set_bit(idx + i);
            i += 1;
            proof {
                assert(self@ =~= old(self)@.union(slot_range(idx as nat, i as nat)));
            }
        }
        proof {
            assert(old(self)@ =~= old(self)@.union(slot_range(idx as nat, 0)));
        }
    }
}

/// The words that hold the 32-bit values of `halves` two by two, the first
/// of each pair in the low half; an odd last value is followed by zero.
pub open spec fn pack32(halves: Seq<u32>) -> Seq<u64> {
    Seq::new(
        ((halves.len() + 1) / 2) as nat,
        |i: int|
            le64_halves(
                halves[2 * i],
                if 2 * i + 1 < halves.len() {
                    halves[2 * i + 1]
                } else {
                    0
                },
            ),
    )
}

/// What an encoder holds: the slots marked present, the value buffer, the
/// index in the buffer of the word being filled, and the record of the pushes
/// made so far, each with the byte offset in the flow record and the byte
/// length that it was made with.
pub struct MfState {
    pub slots: Set<nat>,
    pub data: Seq<u64>,
    pub pos: nat,
    pub pushes: Seq<(nat, nat)>,
}

impl MfState {
    /// The word being filled lies in the buffer or right behind its end.
    pub open spec fn wf(self) -> bool {
        self.pos <= self.data.len()
    }

    /// The word being filled. Past the end of the buffer it is zero.
    pub open spec fn cur(self) -> u64 {
        if self.pos < self.data.len() {
            self.data[self.pos as int]
        } else {
            0
        }
    }

    /// Writes `w` as the word being filled. The buffer grows by one word
    /// where it ended there.
    pub open spec fn store(self, w: u64) -> MfState {
        MfState {
            data: if self.pos < self.data.len() {
                self.data.update(self.pos as int, w)
            } else {
                self.data.push(w)
            },
            ..self
        }
    }

    /// Moves on to the next word of the buffer.
    pub open spec fn advance(self) -> MfState {
        MfState { pos: self.pos + 1, ..self }
    }

    /// Marks the `n` slots from `slot` on as present.
    pub open spec fn mark(self, slot: nat, n: nat) -> MfState {
        MfState { slots: self.slots.union(slot_range(slot, n)), ..self }
    }

    /// Records a push of `len` bytes at byte offset `ofs`.
    pub open spec fn note(self, ofs: nat, len: nat) -> MfState {
        MfState { pushes: self.pushes.push((ofs, len)), ..self }
    }

    /// Writes the words of `words` one after the other and moves past them.
    pub open spec fn store_run(self, words: Seq<u64>) -> MfState
        decreases words.len(),
    {
        if words.len() == 0 {
            self
        } else {
            self.store_run(words.drop_last()).store(words.last()).advance()
        }
    }

    /// A push of the `n`-byte value `v` for the field at byte offset `ofs`.
    /// A field that starts a slot marks the slot; one that ends a slot moves
    /// on to the next word. A field that is not aligned to its size is
    /// recorded and leaves slots and buffer as they are.
    pub open spec fn push_field(self, ofs: nat, n: nat, v: int) -> MfState {
        let k = ofs % 8;
        let noted = self.note(ofs, n);
        if k % n != 0 {
            noted
        } else {
            let marked = if k == 0 {
                noted.mark(ofs / 8, 1)
            } else {
                noted
            };
            let stored = marked.store(splice(self.cur(), k, n, v));
            if k + n == 8 {
                stored.advance()
            } else {
                stored
            }
        }
    }

    /// Clears the word being filled from the byte of `ofs` on and moves on
    /// to the next word.
    pub open spec fn pad_to_64(self, ofs: nat) -> MfState {
        let k = ofs % 8;
        self.store(splice(self.cur(), k, (8 - k) as nat, 0)).advance()
    }

    /// Marks the slot of `ofs` and clears the word being filled before the
    /// byte of `ofs`.
    pub open spec fn pad_from_64(self, ofs: nat) -> MfState {
        let k = ofs % 8;
        self.mark(ofs / 8, 1).store(splice(self.cur(), 0, k, 0))
    }

    /// Marks `slots`, records `pushes`, and writes the whole words `words`
    /// from the word being filled on.
    pub open spec fn emit(self, slots: Set<nat>, pushes: Seq<(nat, nat)>, words: Seq<u64>) -> MfState {
        MfState {
            slots: self.slots.union(slots),
            pushes: self.pushes + pushes,
            ..self.store_run(words)
        }
    }

    /// A push of whole words at byte offset `ofs`.
    pub open spec fn push_words(self, ofs: nat, words: Seq<u64>) -> MfState {
        self.note(ofs, 8 * words.len()).mark(ofs / 8, words.len()).store_run(words)
    }

    /// A push of 32-bit values at byte offset `ofs`, padded to whole words.
    pub open spec fn push_words_32(self, ofs: nat, halves: Seq<u32>) -> MfState {
        self.note(ofs, 4 * halves.len()).mark(ofs / 8, pack32(halves).len()).store_run(
            pack32(halves),
        )
    }

    /// A push of the twelve bytes of two Ethernet addresses at byte offset
    /// `ofs`: the first eight fill a word, the last four start the next.
    pub open spec fn push_macs(self, ofs: nat, macs: Seq<u8>) -> MfState {
        let first = self.note(ofs, 12).mark(ofs / 8, 2).store(le64_at(macs, 0)).advance();
        first.store(splice(first.cur(), 0, 4, le32_at(macs, 8) as int))
    }
}

/// Whether the pushes of `p` were made in the order of the flow record:
/// each at a higher offset than the one before, and not before its end.
pub open spec fn pushes_ordered(p: Seq<(nat, nat)>) -> bool {
    forall|i: int, j: int|
        0 <= i < j < p.len() ==> (#[trigger] p[i]).0 < (#[trigger] p[j]).0 && p[i].0 + p[i].1
            <= p[j].0
}

/// A run of words lands in the buffer from the word being filled on, one
/// word after the other. The buffer grows where the run passes its end, and
/// keeps its other words. Slots and pushes stay as they are.
pub proof fn lemma_store_run(st: MfState, words: Seq<u64>)
    requires
        st.wf(),
    ensures
        st.store_run(words).wf(),
        st.store_run(words).slots == st.slots,
        st.store_run(words).pushes == st.pushes,
        st.store_run(words).pos == st.pos + words.len(),
        st.store_run(words).data.len() == if st.pos + words.len() <= st.data.len() {
            st.data.len()
        } else {
            st.pos + words.len()
        },
        forall|i: int|
            st.pos <= i < st.pos + words.len() ==> #[trigger] st.store_run(words).data[i]
                == words[i - st.pos],
        forall|i: int|
            0 <= i < st.pos || st.pos + words.len() <= i < st.data.len() ==> #[trigger] st.store_run(
                words,
            ).data[i] == st.data[i],
    decreases words.len(),
{
    if words.len() > 0 {
        lemma_store_run(st, words.drop_last());
    }
}

/// Pushes in order followed by pushes in order that start where the first
/// have ended are in order.
pub proof fn lemma_pushes_ordered_concat(a: Seq<(nat, nat)>, b: Seq<(nat, nat)>, bound: nat)
    requires
        pushes_ordered(a),
        pushes_ordered(b),
        forall|i: int| 0 <= i < a.len() ==> (#[trigger] a[i]).0 < bound && a[i].0 + a[i].1 <= bound,
        forall|j: int| 0 <= j < b.len() ==> (#[trigger] b[j]).0 >= bound,
    ensures
        pushes_ordered(a + b),
{
    assert forall|i: int, j: int| 0 <= i < j < (a + b).len() implies (#[trigger] (a + b)[i]).0 < (
    #[trigger] (a + b)[j]).0 && (a + b)[i].0 + (a + b)[i].1 <= (a + b)[j].0 by {
        if j < a.len() {
            assert((a + b)[i] == a[i] && (a + b)[j] == a[j]);
        } else if i < a.len() {
            assert((a + b)[i] == a[i] && (a + b)[j] == b[j - a.len()]);
        } else {
            assert((a + b)[i] == b[i - a.len()] && (a + b)[j] == b[j - a.len()]);
        }
    }
}

proof fn lemma_store_run_frame(
    st: MfState,
    slots: Set<nat>,
    pushes: Seq<(nat, nat)>,
    words: Seq<u64>,
)
    ensures
        (MfState { slots, pushes, ..st }).store_run(words) == (MfState {
            slots,
            pushes,
            ..st.store_run(words)
        }),
    decreases words.len(),
{
    if words.len() > 0 {
        lemma_store_run_frame(st, slots, pushes, words.drop_last());
    }
}

/// A run of words is written as its first part, then its second.
pub proof fn lemma_store_run_concat(st: MfState, a: Seq<u64>, b: Seq<u64>)
    ensures
        st.store_run(a + b) == st.store_run(a).store_run(b),
    decreases b.len(),
{
    if b.len() == 0 {
        assert(a + b =~= a);
    } else {
        lemma_store_run_concat(st, a, b.drop_last());
        assert((a + b).drop_last() =~= a + b.drop_last());
        assert((a + b).last() == b.last());
    }
}

/// A word that is written and passed is a run of one word.
pub proof fn lemma_store_run_one(st: MfState, w: u64)
    ensures
        st.store_run(seq![w]) == st.store(w).advance(),
{
    reveal_with_fuel(MfState::store_run, 2);
    assert(seq![w].drop_last() =~= Seq::<u64>::empty());
}

/// What is emitted in two parts is emitted as one: the slots of both, the
/// pushes of the first and then of the second, and the words likewise.
pub proof fn lemma_emit_emit(
    st: MfState,
    slots1: Set<nat>,
    pushes1: Seq<(nat, nat)>,
    words1: Seq<u64>,
    slots2: Set<nat>,
    pushes2: Seq<(nat, nat)>,
    words2: Seq<u64>,
)
    requires
        st.wf(),
    ensures
        st.emit(slots1, pushes1, words1).wf(),
        st.emit(slots1, pushes1, words1).emit(slots2, pushes2, words2) == st.emit(
            slots1.union(slots2),
            pushes1 + pushes2,
            words1 + words2,
        ),
{
    let mid = st.emit(slots1, pushes1, words1);
    lemma_store_run(st, words1);
    lemma_store_run_frame(st.store_run(words1), mid.slots, mid.pushes, words2);
    lemma_store_run_concat(st, words1, words2);
    lemma_store_run(st.store_run(words1), words2);
    lemma_store_run(st, words1 + words2);
    let l = mid.emit(slots2, pushes2, words2);
    let r = st.emit(slots1.union(slots2), pushes1 + pushes2, words1 + words2);
    assert(l.slots =~= r.slots);
    assert(l.pushes =~= r.pushes);
    assert(l.data == r.data);
}

/// Nothing emitted leaves the encoder as it is.
pub proof fn lemma_emit_nothing(st: MfState)
    ensures
        st.emit(Set::empty(), Seq::empty(), Seq::empty()) == st,
{
    assert(st.slots.union(Set::empty()) =~= st.slots);
    assert(st.pushes + Seq::<(nat, nat)>::empty() =~= st.pushes);
}

/// A push of words marks the slots of its words, is recorded once, and
/// writes its words.
pub proof fn lemma_push_words_emits(st: MfState, ofs: nat, words: Seq<u64>)
    ensures
        st.push_words(ofs, words) == st.emit(
            slot_range(ofs / 8, words.len()),
            seq![(ofs, 8 * words.len())],
            words,
        ),
{
    let noted = st.note(ofs, 8 * words.len()).mark(ofs / 8, words.len());
    lemma_store_run_frame(st, noted.slots, noted.pushes, words);
    assert(st.pushes.push((ofs, 8 * words.len())) =~= st.pushes + seq![(ofs, 8 * words.len())]);
}

/// A push of 32-bit values marks the slots of the words that hold them two
/// by two, is recorded once, and writes those words.
pub proof fn lemma_push_words_32_emits(st: MfState, ofs: nat, halves: Seq<u32>)
    ensures
        st.push_words_32(ofs, halves) == st.emit(
            slot_range(ofs / 8, pack32(halves).len()),
            seq![(ofs, 4 * halves.len())],
            pack32(halves),
        ),
{
    let noted = st.note(ofs, 4 * halves.len()).mark(ofs / 8, pack32(halves).len());
    lemma_store_run_frame(st, noted.slots, noted.pushes, pack32(halves));
    assert(st.pushes.push((ofs, 4 * halves.len())) =~= st.pushes + seq![(ofs, 4 * halves.len())]);
}

/// Two pushes of 32-bit fields that share a slot mark the slot and write
/// one word: the first field in its low half, the second in its high half,
/// whatever the buffer held there.
pub proof fn lemma_push_halves_emits(st: MfState, ofs: nat, lo: u32, hi: u32)
    requires
        st.wf(),
        ofs % 8 == 0,
    ensures
        st.push_field(ofs, 4, lo as int).push_field(ofs + 4, 4, hi as int) == st.emit(
            slot_range(ofs / 8, 1),
            seq![(ofs, 4nat), (ofs + 4, 4nat)],
            seq![le64_halves(lo, hi)],
        ),
{
    let first = st.push_field(ofs, 4, lo as int);
    let l = first.push_field(ofs + 4, 4, hi as int);
    let w = le64_halves(lo, hi);
    let r = st.emit(slot_range(ofs / 8, 1), seq![(ofs, 4nat), (ofs + 4, 4nat)], seq![w]);
    lemma_store_run_one(st, w);
    let c = st.cur();
    let x = splice(c, 0, 4, lo as int);
    assert(first.cur() == x);
    lemma_splice_halves(c, lo, hi);
    assert(l.data =~= r.data);
    assert(l.slots =~= r.slots);
    assert(l.pushes =~= r.pushes);
}

/// A 32-bit field that starts a slot, padded to the end of its word, marks
/// the slot and writes one word: the field in its low half, zero in its
/// high half, whatever the buffer held there.
pub proof fn lemma_push_low_half_emits(st: MfState, ofs: nat, lo: u32)
    requires
        st.wf(),
        ofs % 8 == 0,
    ensures
        st.push_field(ofs, 4, lo as int).pad_to_64(ofs + 4) == st.emit(
            slot_range(ofs / 8, 1),
            seq![(ofs, 4nat)],
            seq![lo as u64],
        ),
{
    let first = st.push_field(ofs, 4, lo as int);
    let l = first.pad_to_64(ofs + 4);
    let r = st.emit(slot_range(ofs / 8, 1), seq![(ofs, 4nat)], seq![lo as u64]);
    lemma_store_run_one(st, lo as u64);
    let c = st.cur();
    let x = splice(c, 0, 4, lo as int);
    assert(first.cur() == x);
    lemma_splice_cleared(c, lo);
    assert(l.data =~= r.data);
    assert(l.slots =~= r.slots);
    assert(l.pushes =~= r.pushes);
}

/// A 32-bit field that ends a slot, after padding from the start of its
/// word, marks the slot and writes one word: zero in its low half, the
/// field in its high half, whatever the buffer held there.
pub proof fn lemma_push_high_half_emits(st: MfState, ofs: nat, hi: u32)
    requires
        st.wf(),
        ofs % 8 == 4,
    ensures
        st.pad_from_64(ofs).push_field(ofs, 4, hi as int) == st.emit(
            slot_range(ofs / 8, 1),
            seq![(ofs, 4nat)],
            seq![le64_halves(0, hi)],
        ),
{
    let first = st.pad_from_64(ofs);
    let l = first.push_field(ofs, 4, hi as int);
    let w = le64_halves(0, hi);
    let r = st.emit(slot_range(ofs / 8, 1), seq![(ofs, 4nat)], seq![w]);
    lemma_store_run_one(st, w);
    let c = st.cur();
    let x = splice(c, 0, 4, 0);
    assert(first.cur() == x);
    lemma_splice_cleared(c, hi);
    assert(l.data =~= r.data);
    assert(l.slots =~= r.slots);
    assert(l.pushes =~= r.pushes);
}

/// A map of slots with the buffer of their words.
pub struct Miniflow {
    pub map: flowmap,
    pub values: Vec<u64>,
}

impl Miniflow {
    /// No slot present, and a buffer of `MINIFLOW_VALUES_SIZE` zero words.
    pub fn new() -> (r: Miniflow)
        ensures
            r.map@ == Set::<nat>::empty(),
            r.values@ == Seq::new(MINIFLOW_VALUES_SIZE as nat, |i: int| 0u64),
    {
        let mut values: Vec<u64> = Vec::new();
        let mut i: usize = 0;
        while i < MINIFLOW_VALUES_SIZE
            invariant
                i <= MINIFLOW_VALUES_SIZE,
                values@ == Seq::new(i as nat, |j: int| 0u64),
            decreases MINIFLOW_VALUES_SIZE - i,
        {
            values.push(0);
            i += 1;
            proof {
                assert(values@ =~= Seq::new(i as nat, |j: int| 0u64));
            }
        }
        Miniflow { map: flowmap::new(), values }
    }
}

/// The encoder that the header walk and the metadata projection push into.
#[allow(non_camel_case_types)]
pub struct mf_ctx {
    map: flowmap,
    data: Vec<u64>,
    pos: usize,
    log: Ghost<Seq<(nat, nat)>>,
}

impl mf_ctx {
    /// What the encoder holds.
    pub closed spec fn view(&self) -> MfState {
        MfState { slots: self.map@, data: self.data@, pos: self.pos as nat, pushes: self.log@ }
    }

    /// An encoder on the slots of `map` that fills `values` from its first
    /// word on.
    pub fn from_mf(map: flowmap, values: Vec<u64>) -> (r: mf_ctx)
        ensures
            r@ == (MfState { slots: map@, data: values@, pos: 0, pushes: Seq::empty() }),
            r@.wf(),
    {
        mf_ctx { map, data: values, pos: 0, log: Ghost(Seq::empty()) }
    }

    /// The slots marked present.
    pub fn map(&self) -> (r: flowmap)
        ensures
            r@ == self@.slots,
    {
        self.map
    }

    /// The value buffer.
    pub fn data(&self) -> (r: &Vec<u64>)
        ensures
            r@ == self@.data,
    {
        &self.data
    }

    /// Index in the buffer of the word being filled.
    pub fn position(&self) -> (r: usize)
        ensures
            r == self@.pos,
    {
        self.pos
    }

    fn cur_word(&self) -> (r: u64)
        ensures
            r == self@.cur(),
    {
        if self.pos < self.data.len() {
            self.data[self.pos]
        } else {
            0
        }
    }

    fn store(&mut self, w: u64)
        requires
            old(self)@.wf(),
        ensures
            final(self)@ == old(self)@.store(w),
            final(self)@.pos < final(self)@.data.len(),
    {
        if self.pos < self.data.len() {
            self.data.set(self.pos, w);
        } else {
            self.data.push(w);
        }
    }

    fn advance(&mut self)
        requires
            old(self)@.pos < old(self)@.data.len(),
        ensures
            final(self)@ == old(self)@.advance(),
            final(self)@.wf(),
    {
        let len: usize = self.data.len();
        assert(self.pos < len);
        self.pos = self.pos + 1;
    }

    fn mark(&mut self, slot: usize, n: usize)
        requires
            slot + n <= FLOWMAP_BITS,
        ensures
            final(self)@ == old(self)@.mark(slot as nat, n as nat),
    {
        self.map.set(slot, n);
    }

    fn note(&mut self, Ghost(ofs): Ghost<nat>, Ghost(len): Ghost<nat>)
        ensures
            final(self)@ == old(self)@.note(ofs, len),
    {
        self.log = Ghost(self.log@.push((ofs, len)));
    }

    /// Pushes a 64-bit value for the field at byte offset `ofs`.
    pub fn miniflow_push_uint64_(&mut self, ofs: usize, value: u64)
        requires
            old(self)@.wf(),
            ofs < FLOWMAP_BYTES,
        ensures
            final(self)@ == old(self)@.push_field(ofs as nat, 8, value as int),
            final(self)@.wf(),
    {
        proof {
            let w: u64 = self@.cur();
            assert(w as int % 1 == 0);
            assert(w as int / 0x1_0000_0000_0000_0000 == 0);
            assert(splice(w, 0, 8, value as int) == value);
        }
        self.note(Ghost(ofs as nat), Ghost(8));
        if ofs % 8 == 0 {
            self.mark(ofs / 8, 1);
            self.store(value);
            self.advance();
        }
    }

    /// Pushes a 32-bit value for the field at byte offset `ofs`.
    pub fn miniflow_push_uint32_(&mut self, ofs: usize, value: u32)
        requires
            old(self)@.wf(),
            ofs < FLOWMAP_BYTES,
        ensures
            final(self)@ == old(self)@.push_field(ofs as nat, 4, value as int),
            final(self)@.wf(),
    {
        let k: usize = ofs % 8;
        let cur: u64 = self.cur_word();
        self.note(Ghost(ofs as nat), Ghost(4));
        if k == 0 {
            self.mark(ofs / 8, 1);
            self.store(set_field32(cur, 0, value));
        } else if k == 4 {
            self.store(set_field32(cur, 4, value));
            self.advance();
        }
    }

    /// Pushes a 32-bit value that is held in wire order.
    pub fn miniflow_push_be32_(&mut self, ofs: usize, value: u32)
        requires
            old(self)@.wf(),
            ofs < FLOWMAP_BYTES,
        ensures
            final(self)@ == old(self)@.push_field(ofs as nat, 4, value as int),
            final(self)@.wf(),
    {
        self.miniflow_push_uint32_(ofs, value);
    }

    /// Pushes a 16-bit value for the field at byte offset `ofs`.
    pub fn miniflow_push_uint16_(&mut self, ofs: usize, value: u16)
        requires
            old(self)@.wf(),
            ofs < FLOWMAP_BYTES,
        ensures
            final(self)@ == old(self)@.push_field(ofs as nat, 2, value as int),
            final(self)@.wf(),
    {
        let k: usize = ofs % 8;
        let cur: u64 = self.cur_word();
        self.note(Ghost(ofs as nat), Ghost(2));
        if k == 0 {
            self.mark(ofs / 8, 1);
            self.store(set_field16(cur, 0, value));
        } else if k == 2 || k == 4 {
            self.store(set_field16(cur, k, value));
        } else if k == 6 {
            self.store(set_field16(cur, 6, value));
            self.advance();
        }
    }

    /// Pushes a 16-bit value that is held in wire order.
    pub fn miniflow_push_be16_(&mut self, ofs: usize, value: u16)
        requires
            old(self)@.wf(),
            ofs < FLOWMAP_BYTES,
        ensures
            final(self)@ == old(self)@.push_field(ofs as nat, 2, value as int),
            final(self)@.wf(),
    {
        self.miniflow_push_uint16_(ofs, value);
    }

    /// Pushes an 8-bit value for the field at byte offset `ofs`.
    pub fn miniflow_push_uint8_(&mut self, ofs: usize, value: u8)
        requires
            old(self)@.wf(),
            ofs < FLOWMAP_BYTES,
        ensures
            final(self)@ == old(self)@.push_field(ofs as nat, 1, value as int),
            final(self)@.wf(),
    {
        let k: usize = ofs % 8;
        let cur: u64 = self.cur_word();
        self.note(Ghost(ofs as nat), Ghost(1));
        if k == 0 {
            self.mark(ofs / 8, 1);
            self.store(set_field8(cur, 0, value));
        } else if k == 7 {
            self.store(set_field8(cur, 7, value));
            self.advance();
        } else {
            self.store(set_field8(cur, k, value));
        }
    }

    /// Pads the word being filled with zero bytes from the byte of `ofs` on,
    /// and moves on to the next word.
    pub fn miniflow_pad_to_64_(&mut self, ofs: usize)
        requires
            old(self)@.wf(),
        ensures
            final(self)@ == old(self)@.pad_to_64(ofs as nat),
            final(self)@.wf(),
    {
        let k: usize = ofs % 8;
        let cur: u64 = self.cur_word();
        self.store(clear_from(cur, k));
        self.advance();
    }

    /// Marks the slot of `ofs` and pads the word being filled with zero
    /// bytes before the byte of `ofs`.
    pub fn miniflow_pad_from_64_(&mut self, ofs: usize)
        requires
            old(self)@.wf(),
            ofs < FLOWMAP_BYTES,
        ensures
            final(self)@ == old(self)@.pad_from_64(ofs as nat),
            final(self)@.wf(),
    {
        let k: usize = ofs % 8;
        let cur: u64 = self.cur_word();
        self.mark(ofs / 8, 1);
        self.store(clear_upto(cur, k));
    }

    /// Pushes the first `n_words` words of `words` at byte offset `ofs`.
    pub fn miniflow_push_words_(&mut self, ofs: usize, words: &[u64], n_words: usize)
        requires
            old(self)@.wf(),
            n_words <= words@.len(),
            ofs / 8 + n_words <= FLOWMAP_BITS,
        ensures
            final(self)@ == old(self)@.push_words(ofs as nat, words@.take(n_words as int)),
            final(self)@.wf(),
    {
        self.note(Ghost(ofs as nat), Ghost(8 * n_words as nat));
        self.mark(ofs / 8, n_words);
        let ghost base = self@;
        let ghost run = words@.take(n_words as int);
        let mut i: usize = 0;
        while i < n_words
            invariant
                i <= n_words <= words@.len(),
                run == words@.take(n_words as int),
                self@ == base.store_run(run.take(i as int)),
                self@.wf(),
            decreases n_words - i,
        {
            self.store(words[i]);
            self.advance();
            i += 1;
            proof {
                assert(run.take(i as int).drop_last() =~= run.take(i - 1));
            }
        }
        proof {
            assert(run.take(n_words as int) =~= run);
        }
    }

    /// Pushes the first `n_words` 32-bit values of `halves` at byte offset
    /// `ofs`, two to a word; an odd last value fills the low half of a word
    /// whose high half is zero.
    pub fn miniflow_push_words_32_(&mut self, ofs: usize, halves: &[u32], n_words: usize)
        requires
            old(self)@.wf(),
            n_words <= halves@.len(),
            ofs / 8 + (n_words + 1) / 2 <= FLOWMAP_BITS,
        ensures
            final(self)@ == old(self)@.push_words_32(ofs as nat, halves@.take(n_words as int)),
            final(self)@.wf(),
    {
        let len: usize = halves.len();
        let n_slots: usize = (n_words + 1) / 2;
        self.note(Ghost(ofs as nat), Ghost(4 * n_words as nat));
        self.mark(ofs / 8, n_slots);
        let ghost base = self@;
        let ghost run = pack32(halves@.take(n_words as int));
        let mut i: usize = 0;
        while i < n_slots
            invariant
                i <= n_slots,
                n_slots == (n_words + 1) / 2,
                n_words <= halves@.len() == len,
                run == pack32(halves@.take(n_words as int)),
                self@ == base.store_run(run.take(i as int)),
                self@.wf(),
            decreases n_slots - i,
        {
            let lo: u32 = halves[2 * i];
            let hi: u32 = if 2 * i + 1 < n_words {
                halves[2 * i + 1]
            } else {
                0
            };
            self.store(join_halves64(lo, hi));
            self.advance();
            i += 1;
            proof {
                assert(run.take(i as int).drop_last() =~= run.take(i - 1));
            }
        }
        proof {
            assert(run.take(n_slots as int) =~= run);
        }
    }

    /// Pushes the two Ethernet addresses that `data` starts with at byte
    /// offset `ofs`. The word after the first is left to be completed.
    pub fn miniflow_push_macs_(&mut self, ofs: usize, data: &[u8])
        requires
            old(self)@.wf(),
            data@.len() >= 12,
            ofs / 8 + 2 <= FLOWMAP_BITS,
        ensures
            final(self)@ == old(self)@.push_macs(ofs as nat, data@),
            final(self)@.wf(),
    {
        let first: u64 = read_word64(data, 0);
        let second: u32 = read_word32(data, 8);
        self.note(Ghost(ofs as nat), Ghost(12));
        self.mark(ofs / 8, 2);
        self.store(first);
        self.advance();
        let cur: u64 = self.cur_word();
        self.store(set_field32(cur, 0, second));
    }
}

} // verus!
