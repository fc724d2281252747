//! The control block laid out in memory that both peers reach. The block
//! is a run of 32-bit words, least significant byte first: the id, the
//! state, then the request queue and the response queue, each a reserved
//! word, the producer index, the entries and the consumer index.

use vstd::prelude::*;
use vstd::bytes::spec_u32_from_le_bytes;
use vstd::bytes::spec_u32_to_le_bytes;
use vstd::bytes::u32_from_le_bytes;
use vstd::bytes::u32_to_le_bytes;
use super::share_mem::MBShareMem;
use super::share_mem::read_bytes;
use super::share_mem::write_bytes;
use crate::mb_channel::MBChannelIf;
use crate::mb_channel::MBChannelView;
use crate::mb_channel::idx_flag;
use crate::mb_channel::idx_masked;
use crate::mb_rpcs::MBRpc;
use crate::mb_std::mb_ptr_resolver::MBSMPtrResolver;
use crate::mb_channel::MBReqEntry;
use crate::mb_channel::MBReqView;
use crate::mb_channel::MBRespEntry;
use crate::mb_channel::MBState;
use crate::mb_channel::MB_CHANNEL_SIZE;
use crate::mb_channel::MB_MAX_ARGS;
use crate::mb_channel::MB_MAX_ENTRIES;
use crate::mb_rpcs::MBAction;
use crate::mb_rpcs::MBPtrT;

verus! {

/// Words of the control block.
pub const MB_CHANNEL_WORDS: usize = 104;

/// The word of the state.
pub const MB_WORD_STATE: usize = 1;

/// The word of the producer index of the request queue.
pub const MB_WORD_REQ_IDX_P: usize = 3;

/// The first word of the first request entry.
pub const MB_WORD_REQ_ENTRIES: usize = 4;

/// Words of a request entry.
pub const MB_REQ_ENTRY_WORDS: usize = 10;

/// The word of the consumer index of the request queue.
pub const MB_WORD_REQ_IDX_C: usize = 84;

/// The word of the producer index of the response queue.
pub const MB_WORD_RESP_IDX_P: usize = 86;

/// The first word of the first response entry.
pub const MB_WORD_RESP_ENTRIES: usize = 87;

/// Words of a response entry.
pub const MB_RESP_ENTRY_WORDS: usize = 2;

/// The word of the consumer index of the response queue.
pub const MB_WORD_RESP_IDX_C: usize = 103;

/// The 32-bit word that memory `m` holds at `addr`.
pub open spec fn word_at(m: Map<int, u8>, addr: int) -> u32 {
    spec_u32_from_le_bytes(read_bytes(m, addr, 4))
}

/// The words of the control block at `base`.
pub open spec fn block_words(m: Map<int, u8>, base: int) -> Seq<u32> {
    Seq::new(MB_CHANNEL_WORDS as nat, |k: int| word_at(m, base + 4 * k))
}

/// Writing a word of the block changes that word and no other.
pub proof fn lemma_write_word(m: Map<int, u8>, base: int, k: int, v: u32)
    requires
        0 <= k < MB_CHANNEL_WORDS,
        forall|a: int| base <= a < base + MB_CHANNEL_SIZE ==> m.dom().contains(a),
    ensures
        block_words(write_bytes(m, base + 4 * k, spec_u32_to_le_bytes(v)), base) == block_words(
            m,
            base,
        ).update(k, v),
{
    vstd::bytes::lemma_auto_spec_u32_to_from_le_bytes();
    let d = spec_u32_to_le_bytes(v);
    let m2 = write_bytes(m, base + 4 * k, d);
    assert forall|j: int| 0 <= j < MB_CHANNEL_WORDS implies #[trigger] block_words(m2, base)[j]
        == block_words(m, base).update(k, v)[j] by {
        if j == k {
            assert(read_bytes(m2, base + 4 * j, 4) =~= d);
        } else {
            assert(read_bytes(m2, base + 4 * j, 4) =~= read_bytes(m, base + 4 * j, 4));
        }
    }
    assert(block_words(m2, base) =~= block_words(m, base).update(k, v));
}

/// Whether memory `m1` differs from `m0` in the control block at `base`
/// alone.
pub open spec fn same_outside(m0: Map<int, u8>, m1: Map<int, u8>, base: int) -> bool {
    &&& m1.dom() == m0.dom()
    &&& forall|a: int|
        m0.dom().contains(a) && !(base <= a < base + MB_CHANNEL_SIZE) ==> #[trigger] m1[a]
            == m0[a]
}

/// An array with the eight values of `s`.
pub open spec fn array_of(s: Seq<u32>) -> [u32; MB_MAX_ARGS] {
    choose|a: [u32; MB_MAX_ARGS]| a@ == s
}

/// There is an array for every eight values.
pub proof fn lemma_array_of(s: Seq<u32>)
    requires
        s.len() == MB_MAX_ARGS,
    ensures
        array_of(s)@ == s,
{
    let a0 = vstd::array::spec_array_fill_for_copy_type::<u32, MB_MAX_ARGS>(0);
    let a1 = vstd::array::spec_array_update(a0, 0, s[0]);
    let a2 = vstd::array::spec_array_update(a1, 1, s[1]);
    let a3 = vstd::array::spec_array_update(a2, 2, s[2]);
    let a4 = vstd::array::spec_array_update(a3, 3, s[3]);
    let a5 = vstd::array::spec_array_update(a4, 4, s[4]);
    let a6 = vstd::array::spec_array_update(a5, 5, s[5]);
    let a7 = vstd::array::spec_array_update(a6, 6, s[6]);
    let a8 = vstd::array::spec_array_update(a7, 7, s[7]);
    assert(a8@ =~= s);
}

/// The request entry that ten words hold: action, count of words, slots.
pub open spec fn req_entry_of(w: Seq<u32>) -> MBReqEntry {
    MBReqEntry {
        action: MBAction::spec_from_code(w[0]),
        words: w[1],
        args: array_of(w.subrange(2, 10)),
    }
}

/// The ten words that hold a request entry.
pub open spec fn req_entry_words(e: MBReqEntry) -> Seq<u32> {
    seq![e.action.spec_code(), e.words] + e.args@
}

/// The response entry that two words hold: count of words, result.
pub open spec fn resp_entry_of(w: Seq<u32>) -> MBRespEntry {
    MBRespEntry { words: w[0], rets: w[1] }
}

/// An entry that was laid out in words is read back as it was.
pub proof fn lemma_req_entry_words(e: MBReqEntry)
    ensures
        req_entry_words(e).len() == MB_REQ_ENTRY_WORDS,
        req_entry_of(req_entry_words(e)) == e,
{
    let w = req_entry_words(e);
    assert(w.subrange(2, 10) =~= e.args@);
    lemma_array_of(e.args@);
    MBAction::lemma_code_round_trip(e.action);
    MBReqEntry::lemma_view_injective(req_entry_of(w), e);
}

/// What the words of a control block at `base` say of the channel.
pub open spec fn view_of_words(w: Seq<u32>, base: MBPtrT) -> MBChannelView {
    MBChannelView {
        base,
        state: if w[MB_WORD_STATE as int] == 1 {
            MBState::READY
        } else {
            MBState::INIT
        },
        req_idx_p: w[MB_WORD_REQ_IDX_P as int],
        req_idx_c: w[MB_WORD_REQ_IDX_C as int],
        resp_idx_p: w[MB_WORD_RESP_IDX_P as int],
        resp_idx_c: w[MB_WORD_RESP_IDX_C as int],
        req_slots: Seq::new(
            MB_MAX_ENTRIES as nat,
            |i: int|
                req_entry_of(
                    w.subrange(
                        MB_WORD_REQ_ENTRIES + MB_REQ_ENTRY_WORDS * i,
                        MB_WORD_REQ_ENTRIES + MB_REQ_ENTRY_WORDS * i + MB_REQ_ENTRY_WORDS,
                    ),
                ),
        ),
        resp_slots: Seq::new(
            MB_MAX_ENTRIES as nat,
            |i: int|
                resp_entry_of(
                    w.subrange(
                        MB_WORD_RESP_ENTRIES + MB_RESP_ENTRY_WORDS * i,
                        MB_WORD_RESP_ENTRIES + MB_RESP_ENTRY_WORDS * i + MB_RESP_ENTRY_WORDS,
                    ),
                ),
        ),
    }
}

/// Reads word `k` of the control block at `base`.
pub fn read_word<SM: MBShareMem>(mem: &SM, base: MBPtrT, k: usize) -> (v: u32)
    requires
        mem.inv(),
        mem.covers(base as int, MB_CHANNEL_SIZE as int),
        k < MB_CHANNEL_WORDS,
    ensures
        v == block_words(mem.mem(), base as int)[k as int],
{
    proof {
        mem.lemma_covers(base as int, MB_CHANNEL_SIZE as int);
        assert(mem.covers(base + 4 * k, 4));
    }
    let data = mem.read(base + 4 * (k as u32), 4);
    if data.len() == 4 {
        u32_from_le_bytes(data.as_slice())
    } else {
        0
    }
}

/// Writes word `k` of the control block at `base`.
pub fn write_word<SM: MBShareMem>(mem: &mut SM, base: MBPtrT, k: usize, v: u32)
    requires
        old(mem).inv(),
        old(mem).covers(base as int, MB_CHANNEL_SIZE as int),
        k < MB_CHANNEL_WORDS,
    ensures
        final(mem).inv(),
        forall|a: int, l: int| final(mem).covers(a, l) == old(mem).covers(a, l),
        block_words(final(mem).mem(), base as int) == block_words(
            old(mem).mem(),
            base as int,
        ).update(k as int, v),
        final(mem).mem() == write_bytes(
            old(mem).mem(),
            base + 4 * k,
            spec_u32_to_le_bytes(v),
        ),
        same_outside(old(mem).mem(), final(mem).mem(), base as int),
{
    proof {
        mem.lemma_covers(base as int, MB_CHANNEL_SIZE as int);
        assert(mem.covers(base + 4 * k, 4));
        lemma_write_word(mem.mem(), base as int, k as int, v);
        vstd::bytes::lemma_auto_spec_u32_to_from_le_bytes();
    }
    let data = u32_to_le_bytes(v);
    let _ = mem.write(base + 4 * (k as u32), data.as_slice());
    assert(mem.mem().dom() =~= old(mem).mem().dom());
}

/// What a peer keeps of a queue in shared memory: where the queue lies,
/// the entry that it fills next and the entry that it read last.
#[derive(Debug)]
pub struct MBQueueShareMem<T> {
    pub base: MBPtrT,
    pub cur_p_entry: T,
    pub cur_c_entry: T,
}

impl<T> MBQueueShareMem<T> {
    pub fn new(base: MBPtrT, cur_p_entry: T, cur_c_entry: T) -> (q: MBQueueShareMem<T>)
        ensures
            q.base == base,
            q.cur_p_entry == cur_p_entry,
            q.cur_c_entry == cur_c_entry,
    {
        MBQueueShareMem { base, cur_p_entry, cur_c_entry }
    }
}

/// A channel whose control block lies in shared memory at `base`. The
/// memory is held as the resolver through which a server of the channel
/// reaches it.
pub struct MBChannelShareMem<SM: MBShareMem> {
    pub base: MBPtrT,
    pub mem: MBSMPtrResolver<SM>,
    pub req_queue: MBQueueShareMem<MBReqEntry>,
    pub resp_queue: MBQueueShareMem<MBRespEntry>,
}

/// Words that are all zero say that the channel is as after construction.
pub proof fn lemma_zero_words_init(w: Seq<u32>, base: MBPtrT)
    requires
        w.len() == MB_CHANNEL_WORDS,
        forall|k: int| 0 <= k < MB_CHANNEL_WORDS ==> w[k] == 0,
    ensures
        view_of_words(w, base).is_init(base),
        view_of_words(w, base).wf(),
{
    let v = view_of_words(w, base);
    assert forall|i: int| 0 <= i < MB_MAX_ENTRIES implies (#[trigger] v.req_slots[i])@ == (
    MBReqView {
        action: MBAction::IDLE,
        words: 0,
        args: Seq::new(MB_MAX_ARGS as nat, |k: int| 0u32),
    }) by {
        let s = w.subrange(
            MB_WORD_REQ_ENTRIES + MB_REQ_ENTRY_WORDS * i,
            MB_WORD_REQ_ENTRIES + MB_REQ_ENTRY_WORDS * i + MB_REQ_ENTRY_WORDS,
        );
        lemma_array_of(s.subrange(2, 10));
        assert(s.subrange(2, 10) =~= Seq::new(MB_MAX_ARGS as nat, |k: int| 0u32));
    }
}

/// Writing a word that belongs to no entry leaves the entries as they
/// are.
pub proof fn lemma_slots_kept(w: Seq<u32>, base: MBPtrT, k: int, v: u32)
    requires
        w.len() == MB_CHANNEL_WORDS,
        k == MB_WORD_STATE || k == MB_WORD_REQ_IDX_P || k == MB_WORD_REQ_IDX_C || k
            == MB_WORD_RESP_IDX_P || k == MB_WORD_RESP_IDX_C,
    ensures
        view_of_words(w.update(k, v), base).req_slots == view_of_words(w, base).req_slots,
        view_of_words(w.update(k, v), base).resp_slots == view_of_words(w, base).resp_slots,
{
    let w2 = w.update(k, v);
    assert forall|i: int| 0 <= i < MB_MAX_ENTRIES implies #[trigger] view_of_words(
        w2,
        base,
    ).req_slots[i] == view_of_words(w, base).req_slots[i] by {
        assert(w2.subrange(
            MB_WORD_REQ_ENTRIES + MB_REQ_ENTRY_WORDS * i,
            MB_WORD_REQ_ENTRIES + MB_REQ_ENTRY_WORDS * i + MB_REQ_ENTRY_WORDS,
        ) =~= w.subrange(
            MB_WORD_REQ_ENTRIES + MB_REQ_ENTRY_WORDS * i,
            MB_WORD_REQ_ENTRIES + MB_REQ_ENTRY_WORDS * i + MB_REQ_ENTRY_WORDS,
        ));
    }
    assert forall|i: int| 0 <= i < MB_MAX_ENTRIES implies #[trigger] view_of_words(
        w2,
        base,
    ).resp_slots[i] == view_of_words(w, base).resp_slots[i] by {
        assert(w2.subrange(
            MB_WORD_RESP_ENTRIES + MB_RESP_ENTRY_WORDS * i,
            MB_WORD_RESP_ENTRIES + MB_RESP_ENTRY_WORDS * i + MB_RESP_ENTRY_WORDS,
        ) =~= w.subrange(
            MB_WORD_RESP_ENTRIES + MB_RESP_ENTRY_WORDS * i,
            MB_WORD_RESP_ENTRIES + MB_RESP_ENTRY_WORDS * i + MB_RESP_ENTRY_WORDS,
        ));
    }
    assert(view_of_words(w2, base).req_slots =~= view_of_words(w, base).req_slots);
    assert(view_of_words(w2, base).resp_slots =~= view_of_words(w, base).resp_slots);
}

/// Words `w2` that differ from `w` in the words of request slot `slot`
/// alone, where they hold `e`, say that `e` was put into that slot.
pub proof fn lemma_req_slot_written(w: Seq<u32>, w2: Seq<u32>, base: MBPtrT, slot: int, e: MBReqEntry)
    requires
        w.len() == MB_CHANNEL_WORDS,
        w2.len() == MB_CHANNEL_WORDS,
        0 <= slot < MB_MAX_ENTRIES,
        forall|k: int|
            0 <= k < MB_CHANNEL_WORDS && !(MB_WORD_REQ_ENTRIES + MB_REQ_ENTRY_WORDS * slot <= k
                < MB_WORD_REQ_ENTRIES + MB_REQ_ENTRY_WORDS * slot + MB_REQ_ENTRY_WORDS) ==> w2[k]
                == w[k],
        forall|j: int|
            0 <= j < MB_REQ_ENTRY_WORDS ==> w2[MB_WORD_REQ_ENTRIES + MB_REQ_ENTRY_WORDS * slot + j]
                == req_entry_words(e)[j],
    ensures
        view_of_words(w2, base) == (MBChannelView {
            req_slots: view_of_words(w, base).req_slots.update(slot, e),
            ..view_of_words(w, base)
        }),
{
    let v = view_of_words(w, base);
    let v2 = view_of_words(w2, base);
    lemma_req_entry_words(e);
    assert forall|i: int| 0 <= i < MB_MAX_ENTRIES implies #[trigger] v2.req_slots[i]
        == v.req_slots.update(slot, e)[i] by {
        let a = MB_WORD_REQ_ENTRIES + MB_REQ_ENTRY_WORDS * i;
        if i == slot {
            assert(w2.subrange(a, a + MB_REQ_ENTRY_WORDS) =~= req_entry_words(e));
        } else {
            assert(w2.subrange(a, a + MB_REQ_ENTRY_WORDS) =~= w.subrange(
                a,
                a + MB_REQ_ENTRY_WORDS,
            ));
        }
    }
    assert forall|i: int| 0 <= i < MB_MAX_ENTRIES implies #[trigger] v2.resp_slots[i]
        == v.resp_slots[i] by {
        let a = MB_WORD_RESP_ENTRIES + MB_RESP_ENTRY_WORDS * i;
        assert(w2.subrange(a, a + MB_RESP_ENTRY_WORDS) =~= w.subrange(a, a + MB_RESP_ENTRY_WORDS));
    }
    assert(v2.req_slots =~= v.req_slots.update(slot, e));
    assert(v2.resp_slots =~= v.resp_slots);
}

/// Words `w2` that differ from `w` in the words of response slot `slot`
/// alone, where they hold `e`, say that `e` was put into that slot.
pub proof fn lemma_resp_slot_written(
    w: Seq<u32>,
    w2: Seq<u32>,
    base: MBPtrT,
    slot: int,
    e: MBRespEntry,
)
    requires
        w.len() == MB_CHANNEL_WORDS,
        w2.len() == MB_CHANNEL_WORDS,
        0 <= slot < MB_MAX_ENTRIES,
        forall|k: int|
            0 <= k < MB_CHANNEL_WORDS && !(MB_WORD_RESP_ENTRIES + MB_RESP_ENTRY_WORDS * slot <= k
                < MB_WORD_RESP_ENTRIES + MB_RESP_ENTRY_WORDS * slot + MB_RESP_ENTRY_WORDS)
                ==> w2[k] == w[k],
        w2[MB_WORD_RESP_ENTRIES + MB_RESP_ENTRY_WORDS * slot] == e.words,
        w2[MB_WORD_RESP_ENTRIES + MB_RESP_ENTRY_WORDS * slot + 1] == e.rets,
    ensures
        view_of_words(w2, base) == (MBChannelView {
            resp_slots: view_of_words(w, base).resp_slots.update(slot, e),
            ..view_of_words(w, base)
        }),
{
    let v = view_of_words(w, base);
    let v2 = view_of_words(w2, base);
    assert forall|i: int| 0 <= i < MB_MAX_ENTRIES implies #[trigger] v2.req_slots[i]
        == v.req_slots[i] by {
        let a = MB_WORD_REQ_ENTRIES + MB_REQ_ENTRY_WORDS * i;
        assert(w2.subrange(a, a + MB_REQ_ENTRY_WORDS) =~= w.subrange(a, a + MB_REQ_ENTRY_WORDS));
    }
    assert forall|i: int| 0 <= i < MB_MAX_ENTRIES implies #[trigger] v2.resp_slots[i]
        == v.resp_slots.update(slot, e)[i] by {
        let a = MB_WORD_RESP_ENTRIES + MB_RESP_ENTRY_WORDS * i;
        if i != slot {
            assert(w2.subrange(a, a + MB_RESP_ENTRY_WORDS) =~= w.subrange(
                a,
                a + MB_RESP_ENTRY_WORDS,
            ));
        }
    }
    assert(v2.req_slots =~= v.req_slots);
    assert(v2.resp_slots =~= v.resp_slots.update(slot, e));
}

impl<SM: MBShareMem> MBChannelShareMem<SM> {
    /// The words of the control block.
    pub open spec fn words(&self) -> Seq<u32> {
        block_words(self.mem.sm.mem(), self.base as int)
    }

    /// Lays a control block out at `base` in `mem`: every word zero, and so
    /// state `INIT`. Nothing where the memory does not cover the block.
    pub fn new(base: MBPtrT, mem: SM) -> (r: Option<MBChannelShareMem<SM>>)
        requires
            mem.inv(),
        ensures
            r is Some <==> mem.covers(base as int, MB_CHANNEL_SIZE as int),
            r matches Some(ch) ==> ch.inv() && ch.view().is_init(base) && ch.view().wf()
                && same_outside(mem.mem(), ch.mem.sm.mem(), base as int) && forall|
                a: int,
                l: int,
            | ch.mem.sm.covers(a, l) == mem.covers(a, l),
    {
        let probe = mem.read(base, MB_CHANNEL_SIZE as usize);
        if probe.len() != MB_CHANNEL_SIZE as usize {
            return None;
        }
        proof {
            mem.lemma_covers(base as int, MB_CHANNEL_SIZE as int);
        }
        let mut mem = mem;
        let ghost mem0 = mem;
        let mut k: usize = 0;
        while k < MB_CHANNEL_WORDS
            invariant
                k <= MB_CHANNEL_WORDS,
                mem.inv(),
                mem.covers(base as int, MB_CHANNEL_SIZE as int),
                forall|a: int, l: int| mem.covers(a, l) == mem0.covers(a, l),
                same_outside(mem0.mem(), mem.mem(), base as int),
                forall|j: int| 0 <= j < k ==> block_words(mem.mem(), base as int)[j] == 0,
            decreases MB_CHANNEL_WORDS - k,
        {
            write_word(&mut mem, base, k, 0);
            k = k + 1;
        }
        proof {
            lemma_zero_words_init(block_words(mem.mem(), base as int), base);
        }
        let zero_args: [MBPtrT; MB_MAX_ARGS] = [0;MB_MAX_ARGS];
        let req = MBReqEntry { action: MBAction::IDLE, words: 0, args: zero_args };
        let resp = MBRespEntry { words: 0, rets: 0 };
        Some(
            MBChannelShareMem {
                base,
                mem: MBSMPtrResolver::new(mem),
                req_queue: MBQueueShareMem::new(base + 8, req, req),
                resp_queue: MBQueueShareMem::new(base + 340, resp, resp),
            },
        )
    }

    /// Reads the request entry of `slot`.
    fn load_req(&self, slot: u32) -> (e: MBReqEntry)
        requires
            self.inv(),
            slot < MB_MAX_ENTRIES,
        ensures
            e == self.view().req_slots[slot as int],
    {
        let first: usize = MB_WORD_REQ_ENTRIES + MB_REQ_ENTRY_WORDS * (slot as usize);
        let action = MBAction::from_code(read_word(&self.mem.sm, self.base, first));
        let words = read_word(&self.mem.sm, self.base, first + 1);
        let mut args: [MBPtrT; MB_MAX_ARGS] = [0;MB_MAX_ARGS];
        let mut k: usize = 0;
        while k < MB_MAX_ARGS
            invariant
                k <= MB_MAX_ARGS,
                self.inv(),
                first + MB_REQ_ENTRY_WORDS <= MB_CHANNEL_WORDS,
                forall|j: int| 0 <= j < k ==> args@[j] == self.words()[first + 2 + j],
            decreases MB_MAX_ARGS - k,
        {
            args[k] = read_word(&self.mem.sm, self.base, first + 2 + k);
            k = k + 1;
        }
        let e = MBReqEntry { action, words, args };
        proof {
            let s = self.words().subrange(first as int, first + MB_REQ_ENTRY_WORDS);
            assert(s.subrange(2, 10) =~= args@);
            lemma_array_of(args@);
            MBReqEntry::lemma_view_injective(e, req_entry_of(s));
        }
        e
    }

    /// Writes the request entry `e` into `slot` and returns the address of
    /// the slot.
    fn flush_req(&mut self, slot: u32, e: &MBReqEntry) -> (addr: MBPtrT)
        requires
            old(self).inv(),
            slot < MB_MAX_ENTRIES,
        ensures
            final(self).inv(),
            final(self).base == old(self).base,
            final(self).req_queue == old(self).req_queue,
            final(self).resp_queue == old(self).resp_queue,
            final(self).view() == (MBChannelView {
                req_slots: old(self).view().req_slots.update(slot as int, *e),
                ..old(self).view()
            }),
            addr == crate::mb_channel::spec_req_entry_addr(old(self).base, slot),
            same_outside(old(self).mem.sm.mem(), final(self).mem.sm.mem(), old(self).base as int),
    {
        let first: usize = MB_WORD_REQ_ENTRIES + MB_REQ_ENTRY_WORDS * (slot as usize);
        let ghost w0 = self.words();
        proof {
            self.mem.sm.lemma_covers(self.base as int, MB_CHANNEL_SIZE as int);
        }
        write_word(&mut self.mem.sm, self.base, first, e.action.code());
        write_word(&mut self.mem.sm, self.base, first + 1, e.words);
        let mut k: usize = 0;
        while k < MB_MAX_ARGS
            invariant
                k <= MB_MAX_ARGS,
                self.inv(),
                self.base == old(self).base,
                self.req_queue == old(self).req_queue,
                self.resp_queue == old(self).resp_queue,
                first == MB_WORD_REQ_ENTRIES + MB_REQ_ENTRY_WORDS * slot,
                slot < MB_MAX_ENTRIES,
                w0.len() == MB_CHANNEL_WORDS,
                forall|j: int|
                    0 <= j < MB_CHANNEL_WORDS && !(first <= j < first + MB_REQ_ENTRY_WORDS)
                        ==> self.words()[j] == w0[j],
                self.words()[first as int] == e.action.spec_code(),
                self.words()[first + 1] == e.words,
                forall|j: int| 0 <= j < k ==> self.words()[first + 2 + j] == e.args@[j],
                same_outside(old(self).mem.sm.mem(), self.mem.sm.mem(), self.base as int),
            decreases MB_MAX_ARGS - k,
        {
            write_word(&mut self.mem.sm, self.base, first + 2 + k, e.args[k]);
            k = k + 1;
        }
        proof {
            lemma_req_slot_written(w0, self.words(), self.base, slot as int, *e);
        }
        self.base + 4 * (first as u32)
    }

    /// Writes the response entry `e` into `slot` and returns the address
    /// of the slot.
    fn flush_resp(&mut self, slot: u32, e: &MBRespEntry) -> (addr: MBPtrT)
        requires
            old(self).inv(),
            slot < MB_MAX_ENTRIES,
        ensures
            final(self).inv(),
            final(self).base == old(self).base,
            final(self).req_queue == old(self).req_queue,
            final(self).resp_queue == old(self).resp_queue,
            final(self).view() == (MBChannelView {
                resp_slots: old(self).view().resp_slots.update(slot as int, *e),
                ..old(self).view()
            }),
            addr == crate::mb_channel::spec_resp_entry_addr(old(self).base, slot),
            same_outside(old(self).mem.sm.mem(), final(self).mem.sm.mem(), old(self).base as int),
    {
        let first: usize = MB_WORD_RESP_ENTRIES + MB_RESP_ENTRY_WORDS * (slot as usize);
        let ghost w0 = self.words();
        proof {
            self.mem.sm.lemma_covers(self.base as int, MB_CHANNEL_SIZE as int);
        }
        write_word(&mut self.mem.sm, self.base, first, e.words);
        write_word(&mut self.mem.sm, self.base, first + 1, e.rets);
        proof {
            lemma_resp_slot_written(w0, self.words(), self.base, slot as int, *e);
        }
        self.base + 4 * (first as u32)
    }

    /// Writes `v` into a word that belongs to no entry.
    fn set_word(&mut self, k: usize, v: u32)
        requires
            old(self).inv(),
            k == MB_WORD_STATE || k == MB_WORD_REQ_IDX_P || k == MB_WORD_REQ_IDX_C || k
                == MB_WORD_RESP_IDX_P || k == MB_WORD_RESP_IDX_C,
        ensures
            final(self).inv(),
            final(self).base == old(self).base,
            final(self).req_queue == old(self).req_queue,
            final(self).resp_queue == old(self).resp_queue,
            final(self).words() == old(self).words().update(k as int, v),
            final(self).view().req_slots == old(self).view().req_slots,
            final(self).view().resp_slots == old(self).view().resp_slots,
            same_outside(old(self).mem.sm.mem(), final(self).mem.sm.mem(), old(self).base as int),
    {
        proof {
            lemma_slots_kept(self.words(), self.base, k as int, v);
        }
        write_word(&mut self.mem.sm, self.base, k, v);
    }

    /// Reads a word of the control block.
    fn word(&self, k: usize) -> (v: u32)
        requires
            self.inv(),
            k < MB_CHANNEL_WORDS,
        ensures
            v == self.words()[k as int],
    {
        read_word(&self.mem.sm, self.base, k)
    }
}

impl<SM: MBShareMem> MBChannelIf for MBChannelShareMem<SM> {
    open spec fn inv(&self) -> bool {
        &&& self.mem.sm.inv()
        &&& self.mem.sm.covers(self.base as int, MB_CHANNEL_SIZE as int)
        &&& self.req_queue.base == self.base + 8
        &&& self.resp_queue.base == self.base + 340
    }

    open spec fn view(&self) -> MBChannelView {
        view_of_words(self.words(), self.base)
    }

    open spec fn req_staged(&self) -> MBReqEntry {
        self.req_queue.cur_p_entry
    }

    proof fn lemma_inv(&self) {
        self.mem.sm.lemma_covers(self.base as int, MB_CHANNEL_SIZE as int);
    }

    fn base(&self) -> (b: MBPtrT) {
        self.base
    }

    fn is_ready(&self) -> (b: bool) {
        self.word(MB_WORD_STATE) == 1
    }

    fn reset_req(&mut self)
        ensures
            same_outside(old(self).mem.sm.mem(), final(self).mem.sm.mem(), old(self).base as int),
    {
        self.set_word(MB_WORD_STATE, 0);
        self.set_word(MB_WORD_REQ_IDX_P, 0);
        self.set_word(MB_WORD_REQ_IDX_C, 0);
        self.set_word(MB_WORD_RESP_IDX_P, 0);
        self.set_word(MB_WORD_RESP_IDX_C, 0);
    }

    fn reset_ready(&self) -> (b: bool) {
        self.word(MB_WORD_REQ_IDX_P) == 0 && self.word(MB_WORD_REQ_IDX_C) == 0 && self.word(
            MB_WORD_RESP_IDX_P,
        ) == 0 && self.word(MB_WORD_RESP_IDX_C) == 0
    }

    fn reset_ack(&mut self)
        ensures
            same_outside(old(self).mem.sm.mem(), final(self).mem.sm.mem(), old(self).base as int),
    {
        self.set_word(MB_WORD_STATE, 1);
    }

    fn req_can_get(&self) -> (b: bool) {
        let p = self.word(MB_WORD_REQ_IDX_P);
        let c = self.word(MB_WORD_REQ_IDX_C);
        !(idx_masked(c) == idx_masked(p) && idx_flag(c) == idx_flag(p))
    }

    fn req_can_put(&self) -> (b: bool) {
        let p = self.word(MB_WORD_REQ_IDX_P);
        let c = self.word(MB_WORD_REQ_IDX_C);
        !(idx_masked(c) == idx_masked(p) && idx_flag(c) != idx_flag(p))
    }

    fn resp_can_get(&self) -> (b: bool) {
        let p = self.word(MB_WORD_RESP_IDX_P);
        let c = self.word(MB_WORD_RESP_IDX_C);
        !(idx_masked(c) == idx_masked(p) && idx_flag(c) == idx_flag(p))
    }

    fn resp_can_put(&self) -> (b: bool) {
        let p = self.word(MB_WORD_RESP_IDX_P);
        let c = self.word(MB_WORD_RESP_IDX_C);
        !(idx_masked(c) == idx_masked(p) && idx_flag(c) != idx_flag(p))
    }

    fn put_req<REQ: Copy, M: MBRpc<REQ = REQ>>(&mut self, master: &M, req: REQ) -> (addr: MBPtrT)
        ensures
            same_outside(old(self).mem.sm.mem(), final(self).mem.sm.mem(), old(self).base as int),
    {
        master.put_req(req, &mut self.req_queue.cur_p_entry);
        let e = self.req_queue.cur_p_entry;
        let slot = idx_masked(self.word(MB_WORD_REQ_IDX_P));
        self.flush_req(slot, &e)
    }

    fn get_req(&mut self) -> (e: MBReqEntry)
        ensures
            same_outside(old(self).mem.sm.mem(), final(self).mem.sm.mem(), old(self).base as int),
    {
        let slot = idx_masked(self.word(MB_WORD_REQ_IDX_C));
        let e = self.load_req(slot);
        self.req_queue.cur_c_entry = e;
        e
    }

    fn get_resp<RESP, M: MBRpc<RESP = RESP>>(&mut self, master: &M) -> (resp: RESP)
        ensures
            same_outside(old(self).mem.sm.mem(), final(self).mem.sm.mem(), old(self).base as int),
    {
        let slot = idx_masked(self.word(MB_WORD_RESP_IDX_C)) as usize;
        let first: usize = MB_WORD_RESP_ENTRIES + MB_RESP_ENTRY_WORDS * slot;
        let e = MBRespEntry { words: self.word(first), rets: self.word(first + 1) };
        self.resp_queue.cur_c_entry = e;
        master.get_resp(&e)
    }

    fn put_resp(&mut self, resp: MBRespEntry) -> (addr: MBPtrT)
        ensures
            same_outside(old(self).mem.sm.mem(), final(self).mem.sm.mem(), old(self).base as int),
    {
        self.resp_queue.cur_p_entry = resp;
        let slot = idx_masked(self.word(MB_WORD_RESP_IDX_P));
        self.flush_resp(slot, &resp)
    }

    fn commit_req(&mut self) -> (addr: MBPtrT)
        ensures
            same_outside(old(self).mem.sm.mem(), final(self).mem.sm.mem(), old(self).base as int),
    {
        proof {
            self.lemma_inv();
        }
        let v = self.word(MB_WORD_REQ_IDX_P).wrapping_add(1);
        self.set_word(MB_WORD_REQ_IDX_P, v);
        self.base + 12
    }

    fn ack_req(&mut self) -> (addr: MBPtrT)
        ensures
            same_outside(old(self).mem.sm.mem(), final(self).mem.sm.mem(), old(self).base as int),
    {
        proof {
            self.lemma_inv();
        }
        let v = self.word(MB_WORD_REQ_IDX_C).wrapping_add(1);
        self.set_word(MB_WORD_REQ_IDX_C, v);
        self.base + 336
    }

    fn ack_resp(&mut self) -> (addr: MBPtrT)
        ensures
            same_outside(old(self).mem.sm.mem(), final(self).mem.sm.mem(), old(self).base as int),
    {
        proof {
            self.lemma_inv();
        }
        let v = self.word(MB_WORD_RESP_IDX_C).wrapping_add(1);
        self.set_word(MB_WORD_RESP_IDX_C, v);
        self.base + 412
    }

    fn commit_resp(&mut self) -> (addr: MBPtrT)
        ensures
            same_outside(old(self).mem.sm.mem(), final(self).mem.sm.mem(), old(self).base as int),
    {
        proof {
            self.lemma_inv();
        }
        let v = self.word(MB_WORD_RESP_IDX_P).wrapping_add(1);
        self.set_word(MB_WORD_RESP_IDX_P, v);
        self.base + 344
    }
}

/// Why a control block could not be laid out.
#[derive(Debug, Clone, Copy, PartialEq, Eq, Structural)]
pub enum MBLayoutError {
    /// The control block of that index does not lie in the section.
    OutOfSection,
    /// The memory does not cover the control block.
    OutOfRange,
}

/// The address of control block `mb_id` in a section of control blocks, or
/// nothing where the block does not lie in the section or not in the
/// address space.
pub open spec fn spec_mailbox_base(section_addr: u64, section_size: u64, mb_id: usize) -> Option<
    MBPtrT,
> {
    let address = section_addr + MB_CHANNEL_SIZE * mb_id;
    if address + MB_CHANNEL_SIZE <= section_addr + section_size && address + MB_CHANNEL_SIZE
        <= 0x1_0000_0000 {
        Some(address as MBPtrT)
    } else {
        None
    }
}

/// The address of control block `mb_id` in the section that starts at
/// `section_addr` and has `section_size` bytes.
pub fn mailbox_base(section_addr: u64, section_size: u64, mb_id: usize) -> (r: Result<
    MBPtrT,
    MBLayoutError,
>)
    ensures
        spec_mailbox_base(section_addr, section_size, mb_id) matches Some(a) ==> r == Ok::<
            MBPtrT,
            MBLayoutError,
        >(a),
        spec_mailbox_base(section_addr, section_size, mb_id) is None ==> r == Err::<
            MBPtrT,
            MBLayoutError,
        >(MBLayoutError::OutOfSection),
{
    let scaled: u128 = 416 * (mb_id as u128);
    let address: u128 = section_addr as u128 + scaled;
    let end: u128 = address + MB_CHANNEL_SIZE as u128;
    if end <= section_addr as u128 + section_size as u128 && end <= 0x1_0000_0000 {
        Ok(address as MBPtrT)
    } else {
        Err(MBLayoutError::OutOfSection)
    }
}

/// A segment of a client's image: where it is to lie, and its bytes.
pub struct MBSegment {
    pub addr: u64,
    pub data: Vec<u8>,
}

/// Whether a segment is copied into memory that covers what `covered`
/// says: it has bytes, lies in the address space and is covered.
pub open spec fn spec_segment_fits(covered: spec_fn(int, int) -> bool, seg: MBSegment) -> bool {
    seg.data@.len() > 0 && seg.addr <= u32::MAX && covered(
        seg.addr as int,
        seg.data@.len() as int,
    )
}

/// The memory after the segments from `i` on were copied into it, one
/// after the other; a segment that does not fit is passed over.
pub open spec fn spec_load_from(
    m: Map<int, u8>,
    covered: spec_fn(int, int) -> bool,
    segs: Seq<MBSegment>,
    i: int,
) -> Map<int, u8>
    decreases segs.len() - i,
{
    if i < 0 || i >= segs.len() {
        m
    } else if spec_segment_fits(covered, segs[i]) {
        spec_load_from(write_bytes(m, segs[i].addr as int, segs[i].data@), covered, segs, i + 1)
    } else {
        spec_load_from(m, covered, segs, i + 1)
    }
}

/// The number of segments from `i` on that fit.
pub open spec fn spec_count_from(covered: spec_fn(int, int) -> bool, segs: Seq<MBSegment>, i: int)
    -> int
    decreases segs.len() - i,
{
    if i < 0 || i >= segs.len() {
        0
    } else if spec_segment_fits(covered, segs[i]) {
        1 + spec_count_from(covered, segs, i + 1)
    } else {
        spec_count_from(covered, segs, i + 1)
    }
}

/// Copies the segments of a client's image into `mem`, one after the
/// other; a segment that the memory does not cover is passed over. Returns
/// the number of segments copied.
pub fn load_segments<SM: MBShareMem>(mem: &mut SM, segs: &[MBSegment]) -> (n: usize)
    requires
        old(mem).inv(),
    ensures
        final(mem).inv(),
        forall|a: int, l: int| final(mem).covers(a, l) == old(mem).covers(a, l),
        final(mem).mem() == spec_load_from(
            old(mem).mem(),
            |a: int, l: int| old(mem).covers(a, l),
            segs@,
            0,
        ),
        n == spec_count_from(|a: int, l: int| old(mem).covers(a, l), segs@, 0),
{
    let ghost covered = |a: int, l: int| old(mem).covers(a, l);
    let mut n: usize = 0;
    let mut i: usize = 0;
    while i < segs.len()
        invariant
            i <= segs.len(),
            n <= i,
            mem.inv(),
            covered == (|a: int, l: int| old(mem).covers(a, l)),
            forall|a: int, l: int| mem.covers(a, l) == old(mem).covers(a, l),
            spec_load_from(old(mem).mem(), covered, segs@, 0) == spec_load_from(
                mem.mem(),
                covered,
                segs@,
                i as int,
            ),
            spec_count_from(covered, segs@, 0) == n + spec_count_from(covered, segs@, i as int),
        decreases segs.len() - i,
    {
        let seg = &segs[i];
        if seg.addr <= u32::MAX as u64 {
            assert(covered(seg.addr as int, seg.data@.len() as int) == mem.covers(
                seg.addr as int,
                seg.data@.len() as int,
            ));
            let w = mem.write(seg.addr as MBPtrT, seg.data.as_slice());
            if w > 0 {
                n = n + 1;
            }
        }
        i = i + 1;
    }
    n
}

impl<SM: MBShareMem> MBChannelShareMem<SM> {
    /// Lays out control block `mb_id` of the section of control blocks
    /// that starts at `section_addr` and has `section_size` bytes.
    pub fn with_elf(section_addr: u64, section_size: u64, mb_id: usize, mem: SM) -> (r: Result<
        MBChannelShareMem<SM>,
        MBLayoutError,
    >)
        requires
            mem.inv(),
        ensures
            r is Ok <==> (spec_mailbox_base(section_addr, section_size, mb_id) matches Some(base)
                && mem.covers(base as int, MB_CHANNEL_SIZE as int)),
            r matches Ok(ch) ==> ch.inv() && ch.view().wf() && ch.view().is_init(
                spec_mailbox_base(section_addr, section_size, mb_id)->0,
            ),
            r matches Err(e) ==> e == if spec_mailbox_base(
                section_addr,
                section_size,
                mb_id,
            ) is None {
                MBLayoutError::OutOfSection
            } else {
                MBLayoutError::OutOfRange
            },
    {
        let base = match mailbox_base(section_addr, section_size, mb_id) {
            Ok(b) => b,
            Err(e) => {
                return Err(e);
            },
        };
        match MBChannelShareMem::new(base, mem) {
            Some(ch) => Ok(ch),
            None => Err(MBLayoutError::OutOfRange),
        }
    }
}

} // verus!
