//! The mailbox control block: two rings of fixed-size entries, each with a
//! producer index and a consumer index, and a state word.

use vstd::prelude::*;
use crate::mb_rpcs::MBAction;
use crate::mb_rpcs::MBPtrT;
use crate::mb_rpcs::MBRpc;

verus! {

/// Slots for arguments in a request entry.
pub const MB_MAX_ARGS: usize = 8;

/// Depth of a ring; a power of two.
pub const MB_MAX_ENTRIES: usize = 8;

/// Size of a cache line to which the parts of a queue are padded, if any.
pub const MB_CACHE_LINE: Option<usize> = None;

/// The slot of the ring that an index selects: its low three bits.
pub open spec fn spec_idx_masked(ptr: u32) -> u32 {
    ptr % 8
}

/// The generation flag of an index: whether the bit above the slot is clear.
pub open spec fn spec_idx_flag(ptr: u32) -> bool {
    (ptr / 8) % 2 == 0
}

#[verifier::when_used_as_spec(spec_idx_masked)]
pub fn idx_masked(ptr: u32) -> (slot: u32)
    ensures
        slot == spec_idx_masked(ptr),
        slot < MB_MAX_ENTRIES,
{
    assert(ptr & 7 == ptr % 8) by (bit_vector);
    ptr & 7
}

#[verifier::when_used_as_spec(spec_idx_flag)]
pub fn idx_flag(ptr: u32) -> (flag: bool)
    ensures
        flag == spec_idx_flag(ptr),
{
    assert(((ptr >> 3) & 1 == 0) == ((ptr / 8) % 2 == 0)) by (bit_vector);
    (ptr >> 3) & 0x1 == 0
}

/// Whether the peer may use the channel.
#[derive(Debug, Copy, Clone, PartialEq, Eq, Structural)]
pub enum MBState {
    INIT,
    READY,
}

impl Default for MBState {
    fn default() -> (s: MBState)
        ensures
            s == MBState::INIT,
    {
        MBState::INIT
    }
}

/// One request: the action, the number of argument slots in use, the slots.
#[derive(Debug, Copy, Clone)]
pub struct MBReqEntry {
    pub action: MBAction,
    pub words: u32,
    pub args: [MBPtrT; MB_MAX_ARGS],
}

/// What a request entry holds, with its slots as a sequence.
#[verifier::ext_equal]
pub struct MBReqView {
    pub action: MBAction,
    pub words: u32,
    pub args: Seq<MBPtrT>,
}

impl View for MBReqEntry {
    type V = MBReqView;

    open spec fn view(&self) -> MBReqView {
        MBReqView { action: self.action, words: self.words, args: self.args@ }
    }
}

impl MBReqEntry {
    pub fn set_action(&mut self, v: MBAction)
        ensures
            final(self)@ == (MBReqView { action: v, ..old(self)@ }),
    {
        self.action = v;
    }

    pub fn set_words(&mut self, v: u32)
        ensures
            final(self)@ == (MBReqView { words: v, ..old(self)@ }),
    {
        self.words = v;
    }

    pub fn set_args(&mut self, i: usize, v: MBPtrT)
        requires
            i < MB_MAX_ARGS,
        ensures
            final(self)@ == (MBReqView { args: old(self)@.args.update(i as int, v), ..old(self)@ }),
    {
        self.args[i] = v;
    }

    /// Two entries with the same contents are the same entry.
    pub proof fn lemma_view_injective(a: MBReqEntry, b: MBReqEntry)
        requires
            a@ == b@,
        ensures
            a == b,
    {
        assert(a.args =~= b.args);
    }
}

impl Default for MBReqEntry {
    fn default() -> (e: MBReqEntry)
        ensures
            e.action == MBAction::IDLE,
            e.words == 0,
            e.args@ == Seq::new(MB_MAX_ARGS as nat, |i: int| 0u32),
    {
        MBReqEntry { action: MBAction::IDLE, words: 0, args: [0;MB_MAX_ARGS] }
    }
}

/// One response: the number of result words, and the result.
#[derive(Debug, Copy, Clone)]
pub struct MBRespEntry {
    pub words: u32,
    pub rets: MBPtrT,
}

impl MBRespEntry {
    pub fn get_rets(&self) -> (v: MBPtrT)
        ensures
            v == self.rets,
    {
        self.rets
    }
}

impl Default for MBRespEntry {
    fn default() -> (e: MBRespEntry)
        ensures
            e.words == 0,
            e.rets == 0,
    {
        MBRespEntry { words: 0, rets: 0 }
    }
}

/// The number of entries between a consumer index and a producer index:
/// their difference, the indices taken modulo 2^32.
pub open spec fn ring_len(idx_p: u32, idx_c: u32) -> int {
    if idx_p >= idx_c {
        idx_p - idx_c
    } else {
        idx_p - idx_c + 0x1_0000_0000
    }
}

/// The consumer lags the producer by no more than the depth of the ring.
pub open spec fn ring_valid(idx_p: u32, idx_c: u32) -> bool {
    ring_len(idx_p, idx_c) <= MB_MAX_ENTRIES
}

/// Slot and generation flag of both indices agree.
pub open spec fn ring_empty(idx_p: u32, idx_c: u32) -> bool {
    spec_idx_masked(idx_c) == spec_idx_masked(idx_p) && spec_idx_flag(idx_c) == spec_idx_flag(
        idx_p,
    )
}

/// The slots agree, the generation flags differ.
pub open spec fn ring_full(idx_p: u32, idx_c: u32) -> bool {
    spec_idx_masked(idx_c) == spec_idx_masked(idx_p) && spec_idx_flag(idx_c) != spec_idx_flag(
        idx_p,
    )
}

/// An index advanced by one, modulo 2^32.
pub open spec fn ring_next(idx: u32) -> u32 {
    if idx == u32::MAX {
        0
    } else {
        (idx + 1) as u32
    }
}

/// The slot that lies `i` entries behind the one that `idx` selects.
pub open spec fn ring_slot(idx: u32, i: int) -> int {
    (idx + i) % 8
}

/// The entries that were produced and not yet consumed, oldest first.
pub open spec fn ring_pending<T>(slots: Seq<T>, idx_p: u32, idx_c: u32) -> Seq<T> {
    Seq::new(ring_len(idx_p, idx_c) as nat, |i: int| slots[ring_slot(idx_c, i)])
}

/// On a valid ring the predicates `empty` and `full` say what the occupancy
/// is: none, and the whole depth.
pub proof fn lemma_ring_occupancy(idx_p: u32, idx_c: u32)
    requires
        ring_valid(idx_p, idx_c),
    ensures
        ring_empty(idx_p, idx_c) <==> ring_len(idx_p, idx_c) == 0,
        ring_full(idx_p, idx_c) <==> ring_len(idx_p, idx_c) == MB_MAX_ENTRIES,
        !(ring_empty(idx_p, idx_c) && ring_full(idx_p, idx_c)),
{
    let d = ring_len(idx_p, idx_c);
    assert(0 <= d <= 8);
    if idx_p >= idx_c {
        assert(idx_p == idx_c + d);
    } else {
        assert(idx_p + 0x1_0000_0000 == idx_c + d);
    }
    assert(0x1_0000_0000int % 16 == 0);
    // low four bits of an index: its slot and its flag
    assert(idx_p % 16 == (idx_p % 8) + 8 * ((idx_p / 8) % 2)) by (bit_vector);
    assert(idx_c % 16 == (idx_c % 8) + 8 * ((idx_c / 8) % 2)) by (bit_vector);
    assert((idx_p % 16) == ((idx_c % 16) + d) % 16) by (nonlinear_arith)
        requires
            0 <= d <= 8,
            idx_p == idx_c + d || idx_p + 0x1_0000_0000 == idx_c + d,
    ;
}

/// Producing into a ring that is not full keeps it valid and appends the
/// entry of the producer's slot to the pending entries.
pub proof fn lemma_ring_produce<T>(slots: Seq<T>, idx_p: u32, idx_c: u32)
    requires
        slots.len() == MB_MAX_ENTRIES,
        ring_valid(idx_p, idx_c),
        !ring_full(idx_p, idx_c),
    ensures
        ring_valid(ring_next(idx_p), idx_c),
        ring_pending(slots, ring_next(idx_p), idx_c) == ring_pending(slots, idx_p, idx_c).push(
            slots[spec_idx_masked(idx_p) as int],
        ),
{
    lemma_ring_occupancy(idx_p, idx_c);
    let d = ring_len(idx_p, idx_c);
    assert((idx_c + d) % 8 == idx_p % 8) by (nonlinear_arith)
        requires
            idx_p == idx_c + d || idx_p + 0x1_0000_0000 == idx_c + d,
    ;
    assert(ring_pending(slots, ring_next(idx_p), idx_c) =~= ring_pending(slots, idx_p, idx_c).push(
        slots[spec_idx_masked(idx_p) as int],
    ));
}

/// Consuming from a ring that is not empty keeps it valid and removes the
/// oldest pending entry, which is the one in the consumer's slot.
pub proof fn lemma_ring_consume<T>(slots: Seq<T>, idx_p: u32, idx_c: u32)
    requires
        slots.len() == MB_MAX_ENTRIES,
        ring_valid(idx_p, idx_c),
        !ring_empty(idx_p, idx_c),
    ensures
        ring_valid(idx_p, ring_next(idx_c)),
        ring_pending(slots, idx_p, idx_c).len() > 0,
        ring_pending(slots, idx_p, idx_c)[0] == slots[spec_idx_masked(idx_c) as int],
        ring_pending(slots, idx_p, ring_next(idx_c)) == ring_pending(
            slots,
            idx_p,
            idx_c,
        ).drop_first(),
{
    lemma_ring_occupancy(idx_p, idx_c);
    let c2 = ring_next(idx_c);
    assert forall|i: int| 0 <= i < ring_len(idx_p, c2) implies #[trigger] ring_slot(c2, i)
        == ring_slot(idx_c, i + 1) by {
        if idx_c == u32::MAX {
            assert((0 + i) % 8 == (0xffff_ffff + (i + 1)) % 8) by (nonlinear_arith)
                requires
                    0 <= i,
            ;
        }
    }
    assert(ring_pending(slots, idx_p, c2) =~= ring_pending(slots, idx_p, idx_c).drop_first());
}

/// Writing a slot that holds no pending entry leaves the pending entries as
/// they are.
pub proof fn lemma_ring_write_free_slot<T>(slots: Seq<T>, idx_p: u32, idx_c: u32, e: T)
    requires
        slots.len() == MB_MAX_ENTRIES,
        ring_valid(idx_p, idx_c),
        !ring_full(idx_p, idx_c),
    ensures
        ring_pending(slots.update(spec_idx_masked(idx_p) as int, e), idx_p, idx_c) == ring_pending(
            slots,
            idx_p,
            idx_c,
        ),
{
    lemma_ring_occupancy(idx_p, idx_c);
    let d = ring_len(idx_p, idx_c);
    assert forall|i: int| 0 <= i < d implies #[trigger] ring_slot(idx_c, i) != idx_p % 8 by {
        assert((idx_c + i) % 8 != idx_p % 8) by (nonlinear_arith)
            requires
                0 <= i < d,
                d < 8,
                idx_p == idx_c + d || idx_p + 0x1_0000_0000 == idx_c + d,
        ;
    }
    assert(ring_pending(slots.update(spec_idx_masked(idx_p) as int, e), idx_p, idx_c)
        =~= ring_pending(slots, idx_p, idx_c));
}

/// A ring of entries with one producer and one consumer.
pub trait MBQueueIf<T> {
    /// What the queue needs to work at all.
    spec fn inv(&self) -> bool;

    /// The producer index.
    spec fn spec_idx_p(&self) -> u32;

    /// The consumer index.
    spec fn spec_idx_c(&self) -> u32;

    /// The slots of the ring, as the consumer finds them.
    spec fn slots(&self) -> Seq<T>;

    /// The entry that the producer fills next.
    spec fn staged(&self) -> T;

    fn idx_p_masked(&self) -> (slot: u32)
        requires
            self.inv(),
        ensures
            slot == spec_idx_masked(self.spec_idx_p()),
    ;

    fn idx_c_masked(&self) -> (slot: u32)
        requires
            self.inv(),
        ensures
            slot == spec_idx_masked(self.spec_idx_c()),
    ;

    fn idx_p_flag(&self) -> (flag: bool)
        requires
            self.inv(),
        ensures
            flag == spec_idx_flag(self.spec_idx_p()),
    ;

    fn idx_c_flag(&self) -> (flag: bool)
        requires
            self.inv(),
        ensures
            flag == spec_idx_flag(self.spec_idx_c()),
    ;

    fn full(&self) -> (b: bool)
        requires
            self.inv(),
        ensures
            b == ring_full(self.spec_idx_p(), self.spec_idx_c()),
    {
        self.idx_c_masked() == self.idx_p_masked() && self.idx_c_flag() != self.idx_p_flag()
    }

    fn empty(&self) -> (b: bool)
        requires
            self.inv(),
        ensures
            b == ring_empty(self.spec_idx_p(), self.spec_idx_c()),
    {
        self.idx_c_masked() == self.idx_p_masked() && self.idx_c_flag() == self.idx_p_flag()
    }

    /// The entry that the producer fills next. Slots other than the
    /// producer's are out of its reach.
    fn cur_p_entry_mut(&mut self) -> (e: &mut T)
        requires
            old(self).inv(),
        ensures
            *e == old(self).staged(),
            final(self).inv(),
            final(self).staged() == *final(e),
            final(self).spec_idx_p() == old(self).spec_idx_p(),
            final(self).spec_idx_c() == old(self).spec_idx_c(),
            final(self).slots().len() == old(self).slots().len(),
            forall|i: int|
                0 <= i < old(self).slots().len() && i != spec_idx_masked(old(self).spec_idx_p())
                    ==> final(self).slots()[i] == old(self).slots()[i],
    ;

    /// The entry in the consumer's slot.
    fn cur_c_entry(&mut self) -> (e: &T)
        requires
            old(self).inv(),
            old(self).slots().len() == MB_MAX_ENTRIES,
        ensures
            *e == old(self).slots()[spec_idx_masked(old(self).spec_idx_c()) as int],
            final(self).inv(),
            final(self).spec_idx_p() == old(self).spec_idx_p(),
            final(self).spec_idx_c() == old(self).spec_idx_c(),
            final(self).slots() == old(self).slots(),
            final(self).staged() == old(self).staged(),
    ;

    /// Advances the producer index by one, modulo 2^32.
    fn advance_p(&mut self)
        requires
            old(self).inv(),
        ensures
            final(self).inv(),
            final(self).spec_idx_p() == ring_next(old(self).spec_idx_p()),
            final(self).spec_idx_c() == old(self).spec_idx_c(),
            final(self).slots() == old(self).slots(),
    ;

    /// Advances the consumer index by one, modulo 2^32.
    fn advance_c(&mut self)
        requires
            old(self).inv(),
        ensures
            final(self).inv(),
            final(self).spec_idx_c() == ring_next(old(self).spec_idx_c()),
            final(self).spec_idx_p() == old(self).spec_idx_p(),
            final(self).slots() == old(self).slots(),
            final(self).staged() == old(self).staged(),
    ;
}

/// The consumer index of a queue.
#[derive(Default, Debug, Copy, Clone)]
pub struct MBQueueIdxC(pub u32);

/// A ring in the memory of this process.
#[derive(Debug, Copy, Clone)]
pub struct MBQueue<T> {
    pub _reserverd: u32,
    pub idx_p: u32,
    pub queue: [T; MB_MAX_ENTRIES],
    pub idx_c: MBQueueIdxC,
}

impl<T> MBQueueIf<T> for MBQueue<T> {
    open spec fn inv(&self) -> bool {
        true
    }

    open spec fn spec_idx_p(&self) -> u32 {
        self.idx_p
    }

    open spec fn spec_idx_c(&self) -> u32 {
        self.idx_c.0
    }

    open spec fn slots(&self) -> Seq<T> {
        self.queue@
    }

    open spec fn staged(&self) -> T {
        self.queue@[spec_idx_masked(self.idx_p) as int]
    }

    fn idx_p_masked(&self) -> (slot: u32) {
        idx_masked(self.idx_p)
    }

    fn idx_c_masked(&self) -> (slot: u32) {
        idx_masked(self.idx_c.0)
    }

    fn idx_p_flag(&self) -> (flag: bool) {
        idx_flag(self.idx_p)
    }

    fn idx_c_flag(&self) -> (flag: bool) {
        idx_flag(self.idx_c.0)
    }

    fn cur_p_entry_mut(&mut self) -> (e: &mut T)
        ensures
            final(self).queue@ == old(self).queue@.update(
                spec_idx_masked(old(self).idx_p) as int,
                *final(e),
            ),
            final(self)._reserverd == old(self)._reserverd,
    {
        let slot = idx_masked(self.idx_p) as usize;
        &mut self.queue[slot]
    }

    fn cur_c_entry(&mut self) -> (e: &T)
        ensures
            *final(self) == *old(self),
    {
        let slot = idx_masked(self.idx_c.0) as usize;
        &self.queue[slot]
    }

    fn advance_p(&mut self)
        ensures
            *final(self) == (MBQueue { idx_p: ring_next(old(self).idx_p), ..*old(self) }),
    {
        self.idx_p = self.idx_p.wrapping_add(1);
    }

    fn advance_c(&mut self)
        ensures
            *final(self) == (MBQueue {
                idx_c: MBQueueIdxC(ring_next(old(self).idx_c.0)),
                ..*old(self)
            }),
    {
        self.idx_c.0 = self.idx_c.0.wrapping_add(1);
    }
}

/// Bytes of a request entry in the shared image: action, word count, slots.
pub const MB_REQ_ENTRY_SIZE: MBPtrT = 40;

/// Bytes of a response entry in the shared image: word count, result.
pub const MB_RESP_ENTRY_SIZE: MBPtrT = 8;

/// Where, in a queue, its producer index lies.
pub const MB_QUEUE_IDX_P_OFFSET: MBPtrT = 4;

/// Where, in a queue, its entries begin.
pub const MB_QUEUE_ENTRIES_OFFSET: MBPtrT = 8;

/// Where, in the request queue, its consumer index lies.
pub const MB_REQ_QUEUE_IDX_C_OFFSET: MBPtrT = 328;

/// Bytes of the request queue.
pub const MB_REQ_QUEUE_SIZE: MBPtrT = 332;

/// Where, in the response queue, its consumer index lies.
pub const MB_RESP_QUEUE_IDX_C_OFFSET: MBPtrT = 72;

/// Bytes of the response queue.
pub const MB_RESP_QUEUE_SIZE: MBPtrT = 76;

/// Where, in the control block, the state word lies.
pub const MB_STATE_OFFSET: MBPtrT = 4;

/// Where, in the control block, the request queue begins.
pub const MB_REQ_QUEUE_OFFSET: MBPtrT = 8;

/// Where, in the control block, the response queue begins.
pub const MB_RESP_QUEUE_OFFSET: MBPtrT = 340;

/// Bytes of the control block.
pub const MB_CHANNEL_SIZE: MBPtrT = 416;

/// The address of a slot of the request ring.
pub open spec fn spec_req_entry_addr(base: MBPtrT, slot: u32) -> int {
    base + MB_REQ_QUEUE_OFFSET + MB_QUEUE_ENTRIES_OFFSET + slot * MB_REQ_ENTRY_SIZE
}

/// The address of a slot of the response ring.
pub open spec fn spec_resp_entry_addr(base: MBPtrT, slot: u32) -> int {
    base + MB_RESP_QUEUE_OFFSET + MB_QUEUE_ENTRIES_OFFSET + slot * MB_RESP_ENTRY_SIZE
}

/// What can be observed of a channel: where it lies, its state word, its
/// four indices and the slots of its two rings.
#[verifier::ext_equal]
pub struct MBChannelView {
    pub base: MBPtrT,
    pub state: MBState,
    pub req_idx_p: u32,
    pub req_idx_c: u32,
    pub resp_idx_p: u32,
    pub resp_idx_c: u32,
    pub req_slots: Seq<MBReqEntry>,
    pub resp_slots: Seq<MBRespEntry>,
}

impl MBChannelView {
    /// Both rings have their eight slots, and in both the consumer lags the
    /// producer by no more than that.
    pub open spec fn wf(self) -> bool {
        &&& self.req_slots.len() == MB_MAX_ENTRIES
        &&& self.resp_slots.len() == MB_MAX_ENTRIES
        &&& ring_valid(self.req_idx_p, self.req_idx_c)
        &&& ring_valid(self.resp_idx_p, self.resp_idx_c)
    }

    /// The requests that were committed and not yet acknowledged, oldest
    /// first.
    pub open spec fn req_pending(self) -> Seq<MBReqEntry> {
        ring_pending(self.req_slots, self.req_idx_p, self.req_idx_c)
    }

    /// The responses that were committed and not yet acknowledged, oldest
    /// first.
    pub open spec fn resp_pending(self) -> Seq<MBRespEntry> {
        ring_pending(self.resp_slots, self.resp_idx_p, self.resp_idx_c)
    }

    pub open spec fn is_ready(self) -> bool {
        self.state == MBState::READY
    }

    pub open spec fn reset_ready(self) -> bool {
        self.req_idx_p == 0 && self.req_idx_c == 0 && self.resp_idx_p == 0 && self.resp_idx_c
            == 0
    }

    pub open spec fn req_can_put(self) -> bool {
        !ring_full(self.req_idx_p, self.req_idx_c)
    }

    pub open spec fn req_can_get(self) -> bool {
        !ring_empty(self.req_idx_p, self.req_idx_c)
    }

    pub open spec fn resp_can_put(self) -> bool {
        !ring_full(self.resp_idx_p, self.resp_idx_c)
    }

    pub open spec fn resp_can_get(self) -> bool {
        !ring_empty(self.resp_idx_p, self.resp_idx_c)
    }

    /// The slot that the next request is written to.
    pub open spec fn req_slot_p(self) -> int {
        spec_idx_masked(self.req_idx_p) as int
    }

    /// The slot that the next request is read from.
    pub open spec fn req_slot_c(self) -> int {
        spec_idx_masked(self.req_idx_c) as int
    }

    /// The slot that the next response is written to.
    pub open spec fn resp_slot_p(self) -> int {
        spec_idx_masked(self.resp_idx_p) as int
    }

    /// The slot that the next response is read from.
    pub open spec fn resp_slot_c(self) -> int {
        spec_idx_masked(self.resp_idx_c) as int
    }

    /// A control block as it is after construction at `base`: state `INIT`,
    /// all indices 0, every slot zeroed.
    pub open spec fn is_init(self, base: MBPtrT) -> bool {
        &&& self.base == base
        &&& self.state == MBState::INIT
        &&& self.reset_ready()
        &&& self.req_slots.len() == MB_MAX_ENTRIES
        &&& self.resp_slots.len() == MB_MAX_ENTRIES
        &&& forall|i: int|
            0 <= i < MB_MAX_ENTRIES ==> (#[trigger] self.req_slots[i])@ == (MBReqView {
                action: MBAction::IDLE,
                words: 0,
                args: Seq::new(MB_MAX_ARGS as nat, |k: int| 0u32),
            })
        &&& forall|i: int|
            0 <= i < MB_MAX_ENTRIES ==> #[trigger] self.resp_slots[i] == (MBRespEntry {
                words: 0,
                rets: 0,
            })
    }

    /// The channel after a reset was asked for: state `INIT`, all indices 0.
    pub open spec fn after_reset_req(self) -> MBChannelView {
        MBChannelView {
            state: MBState::INIT,
            req_idx_p: 0,
            req_idx_c: 0,
            resp_idx_p: 0,
            resp_idx_c: 0,
            ..self
        }
    }

    /// The channel after a reset was acknowledged: state `READY`.
    pub open spec fn after_reset_ack(self) -> MBChannelView {
        MBChannelView { state: MBState::READY, ..self }
    }

    /// The channel after a request was written to the producer's slot.
    pub open spec fn after_put_req(self, e: MBReqEntry) -> MBChannelView {
        MBChannelView { req_slots: self.req_slots.update(self.req_slot_p(), e), ..self }
    }

    /// The channel after a response was written to the producer's slot.
    pub open spec fn after_put_resp(self, e: MBRespEntry) -> MBChannelView {
        MBChannelView { resp_slots: self.resp_slots.update(self.resp_slot_p(), e), ..self }
    }

    pub open spec fn after_commit_req(self) -> MBChannelView {
        MBChannelView { req_idx_p: ring_next(self.req_idx_p), ..self }
    }

    pub open spec fn after_ack_req(self) -> MBChannelView {
        MBChannelView { req_idx_c: ring_next(self.req_idx_c), ..self }
    }

    pub open spec fn after_commit_resp(self) -> MBChannelView {
        MBChannelView { resp_idx_p: ring_next(self.resp_idx_p), ..self }
    }

    pub open spec fn after_ack_resp(self) -> MBChannelView {
        MBChannelView { resp_idx_c: ring_next(self.resp_idx_c), ..self }
    }
}

/// A mailbox channel: the operations of both peers on a control block.
pub trait MBChannelIf {
    /// What the channel needs to work at all.
    spec fn inv(&self) -> bool;

    /// What can be observed of the channel.
    spec fn view(&self) -> MBChannelView;

    /// The entry that the next request is written over.
    spec fn req_staged(&self) -> MBReqEntry;

    /// A channel that works has eight slots in each ring, and lies in the
    /// address space as a whole.
    proof fn lemma_inv(&self)
        requires
            self.inv(),
        ensures
            self.view().req_slots.len() == MB_MAX_ENTRIES,
            self.view().resp_slots.len() == MB_MAX_ENTRIES,
            self.view().base + MB_CHANNEL_SIZE <= 0x1_0000_0000,
    ;

    /// The address of the control block.
    fn base(&self) -> (b: MBPtrT)
        requires
            self.inv(),
        ensures
            b == self.view().base,
    ;

    /// Writes state `INIT` and zeroes the four indices.
    fn reset_req(&mut self)
        requires
            old(self).inv(),
        ensures
            final(self).inv(),
            final(self).view() == old(self).view().after_reset_req(),
    ;

    /// Writes state `READY`.
    fn reset_ack(&mut self)
        requires
            old(self).inv(),
        ensures
            final(self).inv(),
            final(self).view() == old(self).view().after_reset_ack(),
    ;

    /// Whether all four indices are zero.
    fn reset_ready(&self) -> (b: bool)
        requires
            self.inv(),
        ensures
            b == self.view().reset_ready(),
    ;

    /// Whether the state is `READY`.
    fn is_ready(&self) -> (b: bool)
        requires
            self.inv(),
        ensures
            b == self.view().is_ready(),
    ;

    fn req_can_get(&self) -> (b: bool)
        requires
            self.inv(),
        ensures
            b == self.view().req_can_get(),
    ;

    fn req_can_put(&self) -> (b: bool)
        requires
            self.inv(),
        ensures
            b == self.view().req_can_put(),
    ;

    fn resp_can_get(&self) -> (b: bool)
        requires
            self.inv(),
        ensures
            b == self.view().resp_can_get(),
    ;

    fn resp_can_put(&self) -> (b: bool)
        requires
            self.inv(),
        ensures
            b == self.view().resp_can_put(),
    ;

    /// Writes the request into the producer's slot of the request ring and
    /// returns the address of that slot. The index is left as it is.
    fn put_req<REQ: Copy, M: MBRpc<REQ = REQ>>(&mut self, master: &M, req: REQ) -> (addr: MBPtrT)
        requires
            old(self).inv(),
            master.req_valid(req),
        ensures
            final(self).inv(),
            final(self).view() == old(self).view().after_put_req(
                final(self).view().req_slots[old(self).view().req_slot_p()],
            ),
            final(self).view().req_slots[old(self).view().req_slot_p()]@ == master.spec_put_req(
                req,
                old(self).req_staged()@,
            ),
            addr == spec_req_entry_addr(
                old(self).view().base,
                spec_idx_masked(old(self).view().req_idx_p),
            ),
    ;

    /// A copy of the request in the consumer's slot. The index is left as
    /// it is.
    fn get_req(&mut self) -> (e: MBReqEntry)
        requires
            old(self).inv(),
        ensures
            final(self).inv(),
            final(self).view() == old(self).view(),
            final(self).req_staged() == old(self).req_staged(),
            e == old(self).view().req_slots[old(self).view().req_slot_c()],
    ;

    /// The answer that the response in the consumer's slot carries. The
    /// index is left as it is.
    fn get_resp<RESP, M: MBRpc<RESP = RESP>>(&mut self, master: &M) -> (resp: RESP)
        requires
            old(self).inv(),
        ensures
            final(self).inv(),
            final(self).view() == old(self).view(),
            final(self).req_staged() == old(self).req_staged(),
            resp == master.spec_get_resp(
                old(self).view().resp_slots[old(self).view().resp_slot_c()],
            ),
    ;

    /// Writes the response into the producer's slot of the response ring
    /// and returns the address of that slot. The index is left as it is.
    fn put_resp(&mut self, resp: MBRespEntry) -> (addr: MBPtrT)
        requires
            old(self).inv(),
        ensures
            final(self).inv(),
            final(self).view() == old(self).view().after_put_resp(resp),
            final(self).req_staged() == old(self).req_staged(),
            addr == spec_resp_entry_addr(
                old(self).view().base,
                spec_idx_masked(old(self).view().resp_idx_p),
            ),
    ;

    /// Advances the producer index of the request ring and returns the
    /// address of that index.
    fn commit_req(&mut self) -> (addr: MBPtrT)
        requires
            old(self).inv(),
        ensures
            final(self).inv(),
            final(self).view() == old(self).view().after_commit_req(),
            addr == old(self).view().base + MB_REQ_QUEUE_OFFSET + MB_QUEUE_IDX_P_OFFSET,
    ;

    /// Advances the consumer index of the request ring and returns the
    /// address of that index.
    fn ack_req(&mut self) -> (addr: MBPtrT)
        requires
            old(self).inv(),
        ensures
            final(self).inv(),
            final(self).view() == old(self).view().after_ack_req(),
            addr == old(self).view().base + MB_REQ_QUEUE_OFFSET + MB_REQ_QUEUE_IDX_C_OFFSET,
    ;

    /// Advances the consumer index of the response ring and returns the
    /// address of that index.
    fn ack_resp(&mut self) -> (addr: MBPtrT)
        requires
            old(self).inv(),
        ensures
            final(self).inv(),
            final(self).view() == old(self).view().after_ack_resp(),
            final(self).req_staged() == old(self).req_staged(),
            addr == old(self).view().base + MB_RESP_QUEUE_OFFSET + MB_RESP_QUEUE_IDX_C_OFFSET,
    ;

    /// Advances the producer index of the response ring and returns the
    /// address of that index.
    fn commit_resp(&mut self) -> (addr: MBPtrT)
        requires
            old(self).inv(),
        ensures
            final(self).inv(),
            final(self).view() == old(self).view().after_commit_resp(),
            final(self).req_staged() == old(self).req_staged(),
            addr == old(self).view().base + MB_RESP_QUEUE_OFFSET + MB_QUEUE_IDX_P_OFFSET,
    ;
}

/// A control block in the memory of this process.
#[derive(Debug, Copy, Clone)]
pub struct MBChannel {
    pub base: MBPtrT,
    pub id: u32,
    pub state: MBState,
    pub req_queue: MBQueue<MBReqEntry>,
    pub resp_queue: MBQueue<MBRespEntry>,
}

impl MBChannel {
    /// A zeroed control block in state `INIT`, at address 0.
    pub fn const_init() -> (ch: MBChannel)
        ensures
            ch.inv(),
            ch.view().wf(),
            ch.view().is_init(0),
            ch.id == 0,
    {
        let args: [MBPtrT; MB_MAX_ARGS] = [0;MB_MAX_ARGS];
        assert(args@ =~= Seq::new(MB_MAX_ARGS as nat, |k: int| 0u32));
        let req = MBReqEntry { words: 0, action: MBAction::IDLE, args };
        let reqs: [MBReqEntry; MB_MAX_ENTRIES] = [req;MB_MAX_ENTRIES];
        let resp = MBRespEntry { words: 0, rets: 0 };
        let resps: [MBRespEntry; MB_MAX_ENTRIES] = [resp;MB_MAX_ENTRIES];
        MBChannel {
            base: 0,
            id: 0,
            state: MBState::INIT,
            req_queue: MBQueue::<MBReqEntry> {
                _reserverd: 0,
                idx_p: 0,
                idx_c: MBQueueIdxC(0),
                queue: reqs,
            },
            resp_queue: MBQueue::<MBRespEntry> {
                _reserverd: 0,
                idx_p: 0,
                idx_c: MBQueueIdxC(0),
                queue: resps,
            },
        }
    }

    /// A zeroed control block in state `INIT` that lies at `base`.
    pub fn with_base(base: MBPtrT) -> (ch: MBChannel)
        requires
            base + MB_CHANNEL_SIZE <= 0x1_0000_0000,
        ensures
            ch.inv(),
            ch.view().wf(),
            ch.view().is_init(base),
            ch.id == 0,
    {
        let mut ch = MBChannel::const_init();
        ch.base = base;
        ch
    }
}

impl Default for MBChannel {
    fn default() -> (ch: MBChannel)
        ensures
            ch.inv(),
            ch.view().wf(),
            ch.view().is_init(0),
            ch.id == 0,
    {
        MBChannel::const_init()
    }
}

impl MBChannelIf for MBChannel {
    open spec fn inv(&self) -> bool {
        self.base + MB_CHANNEL_SIZE <= 0x1_0000_0000
    }

    open spec fn view(&self) -> MBChannelView {
        MBChannelView {
            base: self.base,
            state: self.state,
            req_idx_p: self.req_queue.idx_p,
            req_idx_c: self.req_queue.idx_c.0,
            resp_idx_p: self.resp_queue.idx_p,
            resp_idx_c: self.resp_queue.idx_c.0,
            req_slots: self.req_queue.queue@,
            resp_slots: self.resp_queue.queue@,
        }
    }

    open spec fn req_staged(&self) -> MBReqEntry {
        self.req_queue.queue@[spec_idx_masked(self.req_queue.idx_p) as int]
    }

    proof fn lemma_inv(&self) {
    }

    fn base(&self) -> (b: MBPtrT) {
        self.base
    }

    fn is_ready(&self) -> (b: bool) {
        self.state == MBState::READY
    }

    fn reset_req(&mut self) {
        self.state = MBState::INIT;
        self.req_queue.idx_p = 0;
        self.req_queue.idx_c.0 = 0;
        self.resp_queue.idx_p = 0;
        self.resp_queue.idx_c.0 = 0;
    }

    fn reset_ready(&self) -> (b: bool) {
        self.req_queue.idx_p == 0 && self.req_queue.idx_c.0 == 0 && self.resp_queue.idx_p == 0
            && self.resp_queue.idx_c.0 == 0
    }

    fn reset_ack(&mut self) {
        self.state = MBState::READY;
    }

    fn req_can_get(&self) -> (b: bool) {
        !self.req_queue.empty()
    }

    fn req_can_put(&self) -> (b: bool) {
        !self.req_queue.full()
    }

    fn resp_can_get(&self) -> (b: bool) {
        !self.resp_queue.empty()
    }

    fn resp_can_put(&self) -> (b: bool) {
        !self.resp_queue.full()
    }

    fn put_req<REQ: Copy, M: MBRpc<REQ = REQ>>(&mut self, master: &M, req: REQ) -> (addr: MBPtrT) {
        let slot = self.req_queue.idx_p_masked();
        let entry = self.req_queue.cur_p_entry_mut();
        master.put_req(req, entry);
        self.base + MB_REQ_QUEUE_OFFSET + MB_QUEUE_ENTRIES_OFFSET + slot * MB_REQ_ENTRY_SIZE
    }

    fn get_req(&mut self) -> (e: MBReqEntry) {
        *self.req_queue.cur_c_entry()
    }

    fn get_resp<RESP, M: MBRpc<RESP = RESP>>(&mut self, master: &M) -> (resp: RESP) {
        master.get_resp(self.resp_queue.cur_c_entry())
    }

    fn put_resp(&mut self, resp: MBRespEntry) -> (addr: MBPtrT) {
        let slot = self.resp_queue.idx_p_masked();
        let entry = self.resp_queue.cur_p_entry_mut();
        *entry = resp;
        self.base + MB_RESP_QUEUE_OFFSET + MB_QUEUE_ENTRIES_OFFSET + slot * MB_RESP_ENTRY_SIZE
    }

    fn commit_req(&mut self) -> (addr: MBPtrT) {
        self.req_queue.advance_p();
        self.base + MB_REQ_QUEUE_OFFSET + MB_QUEUE_IDX_P_OFFSET
    }

    fn ack_req(&mut self) -> (addr: MBPtrT) {
        self.req_queue.advance_c();
        self.base + MB_REQ_QUEUE_OFFSET + MB_REQ_QUEUE_IDX_C_OFFSET
    }

    fn ack_resp(&mut self) -> (addr: MBPtrT) {
        self.resp_queue.advance_c();
        self.base + MB_RESP_QUEUE_OFFSET + MB_RESP_QUEUE_IDX_C_OFFSET
    }

    fn commit_resp(&mut self) -> (addr: MBPtrT) {
        self.resp_queue.advance_p();
        self.base + MB_RESP_QUEUE_OFFSET + MB_QUEUE_IDX_P_OFFSET
    }
}

/// What a peer can observe of a channel through its operations: the state,
/// the four indices, and the entries that are pending in each ring.
pub struct MBObserved {
    pub state: MBState,
    pub req_idx_p: u32,
    pub req_idx_c: u32,
    pub resp_idx_p: u32,
    pub resp_idx_c: u32,
    pub req_pending: Seq<MBReqEntry>,
    pub resp_pending: Seq<MBRespEntry>,
}

impl MBChannelView {
    /// What a peer can observe of the channel.
    pub open spec fn observed(self) -> MBObserved {
        MBObserved {
            state: self.state,
            req_idx_p: self.req_idx_p,
            req_idx_c: self.req_idx_c,
            resp_idx_p: self.resp_idx_p,
            resp_idx_c: self.resp_idx_c,
            req_pending: self.req_pending(),
            resp_pending: self.resp_pending(),
        }
    }

    /// On a well-formed channel no more entries are pending than a ring
    /// has slots, and the four predicates say what the occupancy is: a
    /// ring can be read while an entry is pending, and written while a
    /// slot is free.
    pub proof fn lemma_occupancy(self)
        requires
            self.wf(),
        ensures
            self.req_pending().len() <= MB_MAX_ENTRIES,
            self.resp_pending().len() <= MB_MAX_ENTRIES,
            self.req_can_get() <==> self.req_pending().len() > 0,
            self.req_can_put() <==> self.req_pending().len() < MB_MAX_ENTRIES,
            self.resp_can_get() <==> self.resp_pending().len() > 0,
            self.resp_can_put() <==> self.resp_pending().len() < MB_MAX_ENTRIES,
    {
        lemma_ring_occupancy(self.req_idx_p, self.req_idx_c);
        lemma_ring_occupancy(self.resp_idx_p, self.resp_idx_c);
    }

    /// Every operation keeps a well-formed channel well-formed, as long as
    /// no peer commits into a full ring or acknowledges from an empty one.
    pub proof fn lemma_wf_kept(self, req: MBReqEntry, resp: MBRespEntry)
        requires
            self.wf(),
        ensures
            self.after_reset_req().wf(),
            self.after_reset_ack().wf(),
            self.after_put_req(req).wf(),
            self.after_put_resp(resp).wf(),
            self.req_can_put() ==> self.after_commit_req().wf(),
            self.req_can_get() ==> self.after_ack_req().wf(),
            self.resp_can_put() ==> self.after_commit_resp().wf(),
            self.resp_can_get() ==> self.after_ack_resp().wf(),
    {
        if self.req_can_put() {
            lemma_ring_produce(self.req_slots, self.req_idx_p, self.req_idx_c);
        }
        if self.req_can_get() {
            lemma_ring_consume(self.req_slots, self.req_idx_p, self.req_idx_c);
        }
        if self.resp_can_put() {
            lemma_ring_produce(self.resp_slots, self.resp_idx_p, self.resp_idx_c);
        }
        if self.resp_can_get() {
            lemma_ring_consume(self.resp_slots, self.resp_idx_p, self.resp_idx_c);
        }
    }

    /// The rings are queues. A request that is written and committed
    /// becomes the youngest pending request, and the pending responses
    /// stay as they are. The request that is read is the oldest pending
    /// one, and acknowledging removes it. The same holds of the responses.
    /// So requests are taken in the order of their commits, and so are
    /// responses.
    pub proof fn lemma_fifo(self, req: MBReqEntry, resp: MBRespEntry)
        requires
            self.wf(),
        ensures
            self.req_can_put() ==> self.after_put_req(req).after_commit_req().req_pending()
                == self.req_pending().push(req)
                    && self.after_put_req(req).after_commit_req().resp_pending() == self.resp_pending(),
            self.req_can_get() ==> self.req_pending().len() > 0 && self.req_slots[self.req_slot_c()]
                == self.req_pending()[0] && self.after_ack_req().req_pending()
                == self.req_pending().drop_first() && self.after_ack_req().resp_pending()
                == self.resp_pending(),
            self.resp_can_put() ==> self.after_put_resp(resp).after_commit_resp().resp_pending()
                == self.resp_pending().push(resp)
                    && self.after_put_resp(resp).after_commit_resp().req_pending() == self.req_pending(),
            self.resp_can_get() ==> self.resp_pending().len() > 0
                && self.resp_slots[self.resp_slot_c()] == self.resp_pending()[0]
                && self.after_ack_resp().resp_pending() == self.resp_pending().drop_first()
                && self.after_ack_resp().req_pending() == self.req_pending(),
    {
        if self.req_can_put() {
            let slots = self.req_slots.update(self.req_slot_p(), req);
            lemma_ring_write_free_slot(self.req_slots, self.req_idx_p, self.req_idx_c, req);
            lemma_ring_produce(slots, self.req_idx_p, self.req_idx_c);
        }
        if self.req_can_get() {
            lemma_ring_consume(self.req_slots, self.req_idx_p, self.req_idx_c);
        }
        if self.resp_can_put() {
            let slots = self.resp_slots.update(self.resp_slot_p(), resp);
            lemma_ring_write_free_slot(self.resp_slots, self.resp_idx_p, self.resp_idx_c, resp);
            lemma_ring_produce(slots, self.resp_idx_p, self.resp_idx_c);
        }
        if self.resp_can_get() {
            lemma_ring_consume(self.resp_slots, self.resp_idx_p, self.resp_idx_c);
        }
    }

    /// What goes into a ring without pending entries comes out as it went
    /// in: the request that is written and committed there is the one
    /// that is read next, and so is the response.
    pub proof fn lemma_passes(self, req: MBReqEntry, resp: MBRespEntry)
        requires
            self.wf(),
        ensures
            !self.req_can_get() ==> self.req_can_put() && ({
                let v = self.after_put_req(req).after_commit_req();
                v.req_can_get() && v.req_slots[v.req_slot_c()] == req
            }),
            !self.resp_can_get() ==> self.resp_can_put() && ({
                let v = self.after_put_resp(resp).after_commit_resp();
                v.resp_can_get() && v.resp_slots[v.resp_slot_c()] == resp
            }),
    {
        self.lemma_occupancy();
        self.lemma_fifo(req, resp);
        self.lemma_wf_kept(req, resp);
        if !self.req_can_get() {
            let v = self.after_put_req(req).after_commit_req();
            assert(v.req_pending() == self.req_pending().push(req));
            v.lemma_occupancy();
            v.lemma_fifo(req, resp);
        }
        if !self.resp_can_get() {
            let v = self.after_put_resp(resp).after_commit_resp();
            assert(v.resp_pending() == self.resp_pending().push(resp));
            v.lemma_occupancy();
            v.lemma_fifo(req, resp);
        }
    }

    /// A reset is ready exactly when all four indices are zero. After a
    /// reset was asked for, the channel cannot be told from one that was
    /// just constructed; and after the reset was acknowledged, not from a
    /// constructed one that was acknowledged.
    pub proof fn lemma_reset(self, fresh: MBChannelView, base: MBPtrT)
        requires
            self.req_slots.len() == MB_MAX_ENTRIES,
            self.resp_slots.len() == MB_MAX_ENTRIES,
            fresh.is_init(base),
        ensures
            self.reset_ready() <==> self.req_idx_p == 0 && self.req_idx_c == 0 && self.resp_idx_p
                == 0 && self.resp_idx_c == 0,
            self.after_reset_req().reset_ready(),
            self.after_reset_req().wf(),
            self.after_reset_req().observed() == fresh.observed(),
            self.after_reset_req().after_reset_ack().observed()
                == fresh.after_reset_ack().observed(),
            self.after_reset_req().after_reset_ack().is_ready(),
            self.after_reset_req().after_reset_ack().req_can_put(),
            !self.after_reset_req().after_reset_ack().resp_can_get(),
    {
        assert(self.after_reset_req().req_pending() =~= fresh.req_pending());
        assert(self.after_reset_req().resp_pending() =~= fresh.resp_pending());
    }
}

} // verus!
