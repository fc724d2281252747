//! Senders of a client that has no scheduler: every operation is one
//! attempt, which either makes progress or says that it would block.

use vstd::prelude::*;
use crate::mb_channel::MBChannelIf;
use crate::mb_channel::MBChannelView;
use crate::mb_channel::MBReqEntry;
use crate::mb_channel::MBReqView;
use crate::mb_channel::MBRespEntry;
use crate::mb_channel::MB_CHANNEL_SIZE;
use crate::mb_channel::MB_REQ_ENTRY_SIZE;
use crate::mb_channel::MB_REQ_QUEUE_OFFSET;
use crate::mb_channel::MB_QUEUE_IDX_P_OFFSET;
use crate::mb_channel::MB_RESP_QUEUE_IDX_C_OFFSET;
use crate::mb_channel::MB_RESP_QUEUE_OFFSET;
use crate::mb_channel::spec_req_entry_addr;
use crate::mb_rpcs::MBPtrT;
use crate::mb_rpcs::MBRpc;

verus! {

/// What the deployment binds to the platform: saving and restoring the
/// interrupt flags around an operation, and the fences before memory of
/// the peer is read and after memory that the peer reads is written.
pub trait MBHooks {
    fn save_flag(&mut self) -> MBPtrT;

    fn restore_flag(&mut self, flag: MBPtrT);

    fn rfence(&mut self, start: MBPtrT, size: usize);

    fn wfence(&mut self, start: MBPtrT, size: usize);
}

/// The binding for peers that share a coherent cache and have no
/// interrupts to keep out: nothing is done.
pub struct MBNullHooks;

impl MBHooks for MBNullHooks {
    fn save_flag(&mut self) -> (flag: MBPtrT)
        ensures
            flag == 0,
    {
        0
    }

    fn restore_flag(&mut self, flag: MBPtrT) {
    }

    fn rfence(&mut self, start: MBPtrT, size: usize) {
    }

    fn wfence(&mut self, start: MBPtrT, size: usize) {
    }
}

/// Why a response could not be taken.
#[derive(Debug, Clone, Copy, PartialEq, Eq, Structural)]
pub enum MBNbSenderErr {
    /// The channel is not in state `READY`.
    NotReady,
}

/// Why an attempt made no progress.
#[derive(Debug, Clone, Copy, PartialEq, Eq, Structural)]
pub enum MBNbError<E> {
    /// The attempt failed for good.
    Other(E),
    /// The attempt can be made again later.
    WouldBlock,
}

/// What a sender did to the channel and to the platform, step by step.
pub enum MBTraceOp {
    SaveFlag,
    RestoreFlag,
    /// A fence before a read of `size` bytes at `start`.
    RFence { start: MBPtrT, size: usize },
    /// A fence after a write of `size` bytes at `start`.
    WFence { start: MBPtrT, size: usize },
    /// A request was written to the entry at `addr`.
    PutReq { addr: MBPtrT },
    /// The producer index of the request ring, at `addr`, was advanced.
    CommitReq { addr: MBPtrT },
    /// The response in the consumer's slot was read.
    GetResp,
    /// The consumer index of the response ring, at `addr`, was advanced.
    AckResp { addr: MBPtrT },
    /// The state and the four indices were reset.
    ResetReq,
}

/// The steps of an attempt to send that would block: the block was fenced
/// for reading.
pub open spec fn spec_trace_blocked(base: MBPtrT) -> Seq<MBTraceOp> {
    seq![MBTraceOp::RFence { start: base, size: MB_CHANNEL_SIZE as usize }]
}

/// The steps of a send: the block is fenced for reading; the entry is
/// written and fenced; then the producer index is advanced and fenced.
pub open spec fn spec_trace_send(base: MBPtrT, entry: MBPtrT) -> Seq<MBTraceOp> {
    seq![
        MBTraceOp::RFence { start: base, size: MB_CHANNEL_SIZE as usize },
        MBTraceOp::PutReq { addr: entry },
        MBTraceOp::WFence { start: entry, size: MB_REQ_ENTRY_SIZE as usize },
        MBTraceOp::CommitReq {
            addr: (base + MB_REQ_QUEUE_OFFSET + MB_QUEUE_IDX_P_OFFSET) as MBPtrT,
        },
        MBTraceOp::WFence {
            start: (base + MB_REQ_QUEUE_OFFSET + MB_QUEUE_IDX_P_OFFSET) as MBPtrT,
            size: 4,
        },
    ]
}

/// The steps of a receive: the block is fenced for reading; the response
/// is read; then the consumer index is advanced and fenced.
pub open spec fn spec_trace_recv(base: MBPtrT) -> Seq<MBTraceOp> {
    seq![
        MBTraceOp::RFence { start: base, size: MB_CHANNEL_SIZE as usize },
        MBTraceOp::GetResp,
        MBTraceOp::AckResp {
            addr: (base + MB_RESP_QUEUE_OFFSET + MB_RESP_QUEUE_IDX_C_OFFSET) as MBPtrT,
        },
        MBTraceOp::WFence {
            start: (base + MB_RESP_QUEUE_OFFSET + MB_RESP_QUEUE_IDX_C_OFFSET) as MBPtrT,
            size: 4,
        },
    ]
}

/// The steps of a reset, between the saving and the restoring of the
/// interrupt flags: the state and the indices are reset, and the block is
/// fenced.
pub open spec fn spec_trace_reset(base: MBPtrT) -> Seq<MBTraceOp> {
    seq![
        MBTraceOp::SaveFlag,
        MBTraceOp::ResetReq,
        MBTraceOp::WFence { start: base, size: MB_CHANNEL_SIZE as usize },
        MBTraceOp::RestoreFlag,
    ]
}

/// Whether step `i` of a trace is fenced. The write of an entry stands
/// behind a fence for reading and two steps in front of the advance of its
/// index. That advance has the fence of the entry right in front of it and
/// the fence of the index right behind it. The read of a response stands
/// right behind a fence for reading and right in front of the advance of
/// its index, which has the fence of the index right behind it.
pub open spec fn spec_fenced_at(t: Seq<MBTraceOp>, i: int) -> bool {
    match t[i] {
        MBTraceOp::PutReq { addr } => 1 <= i && i + 2 < t.len() && t[i - 1] is RFence && t[i
            + 2] is CommitReq,
        MBTraceOp::CommitReq { addr } => 2 <= i && i + 1 < t.len() && t[i - 2] is PutReq && t[i
            - 1] == (MBTraceOp::WFence {
            start: t[i - 2]->PutReq_addr,
            size: MB_REQ_ENTRY_SIZE as usize,
        }) && t[i + 1] == (MBTraceOp::WFence { start: addr, size: 4 }),
        MBTraceOp::GetResp => 1 <= i && i + 1 < t.len() && t[i - 1] is RFence && t[i
            + 1] is AckResp,
        MBTraceOp::AckResp { addr } => 1 <= i && i + 1 < t.len() && t[i - 1] is GetResp && t[i
            + 1] == (MBTraceOp::WFence { start: addr, size: 4 }),
        _ => true,
    }
}

/// Whether every step of a trace is fenced: no entry is advertised before
/// it is written and fenced, and none is read before the block is fenced
/// for reading.
pub open spec fn spec_fenced(t: Seq<MBTraceOp>) -> bool {
    forall|i: int| 0 <= i < t.len() ==> #[trigger] spec_fenced_at(t, i)
}

/// Two fenced traces, one behind the other, are a fenced trace.
pub proof fn lemma_fenced_concat(t: Seq<MBTraceOp>, s: Seq<MBTraceOp>)
    requires
        spec_fenced(t),
        spec_fenced(s),
    ensures
        spec_fenced(t + s),
{
    let n = t.len() as int;
    let u = t + s;
    assert forall|i: int| 0 <= i < u.len() implies #[trigger] spec_fenced_at(u, i) by {
        if i < n {
            assert(spec_fenced_at(t, i));
        } else {
            assert(spec_fenced_at(s, i - n));
        }
    }
}

/// The steps of each operation of a sender are a fenced trace.
pub proof fn lemma_fenced_ops(base: MBPtrT, entry: MBPtrT)
    ensures
        spec_fenced(Seq::<MBTraceOp>::empty()),
        spec_fenced(spec_trace_blocked(base)),
        spec_fenced(spec_trace_send(base, entry)),
        spec_fenced(spec_trace_recv(base)),
        spec_fenced(spec_trace_reset(base)),
{
}

/// Where a call that waits for its response stands.
#[derive(Debug, Clone, Copy, PartialEq, Eq, Structural)]
pub enum MBNbSendPhase {
    /// The request is still to be sent.
    Post,
    /// The request is sent; the response is awaited.
    Wait,
}

/// What an attempt at a call that waits for its response came to.
#[derive(Debug, Clone, Copy, PartialEq, Eq)]
pub enum MBNbSendStep<RESP> {
    /// The call is done; this is its response.
    Done(RESP),
    /// The call is to be taken up again in this phase.
    Retry(MBNbSendPhase),
}

/// What an attempt to send the request `entry` comes to, from the channel
/// `v0` to the channel `v1`: where the channel is ready and the request
/// ring is not full, the entry is written to the producer's slot and
/// committed; else nothing changes and the attempt would block.
pub open spec fn spec_send_nb_post(
    v0: MBChannelView,
    v1: MBChannelView,
    r: Result<(), MBNbError<()>>,
    entry: MBReqView,
) -> bool {
    &&& r is Ok <==> v0.is_ready() && v0.req_can_put()
    &&& r is Ok ==> v1 == v0.after_put_req(v1.req_slots[v0.req_slot_p()]).after_commit_req()
        && v1.req_slots[v0.req_slot_p()]@ == entry
    &&& r is Err ==> r == Err::<(), _>(MBNbError::<()>::WouldBlock) && v1 == v0
}

/// What an attempt at a call that waits for its response comes to, from
/// the channel `v0` to the channel `v1`. In phase `Post` the request
/// `entry` is sent first; where that would block, the call stays in phase
/// `Post` and nothing changes. Then, or in phase `Wait` at once, the oldest
/// response is taken: the call is done with `resp`, which is the answer
/// that this response carries, and the response is acknowledged. Where the
/// channel is not ready or has no response, the call goes on in phase
/// `Wait`.
pub open spec fn spec_send_post<RESP>(
    v0: MBChannelView,
    v1: MBChannelView,
    phase: MBNbSendPhase,
    step: MBNbSendStep<RESP>,
    entry: MBReqView,
    resp: RESP,
) -> bool {
    if phase == MBNbSendPhase::Post && !(v0.is_ready() && v0.req_can_put()) {
        step == MBNbSendStep::<RESP>::Retry(MBNbSendPhase::Post) && v1 == v0
    } else {
        let vw = spec_send_waits(v0, v1, phase);
        &&& phase == MBNbSendPhase::Post ==> v1.req_slots[v0.req_slot_p()]@ == entry
        &&& if vw.is_ready() && vw.resp_can_get() {
            step == MBNbSendStep::Done(resp) && v1 == vw.after_ack_resp()
        } else {
            step == MBNbSendStep::<RESP>::Retry(MBNbSendPhase::Wait) && v1 == vw
        }
    }
}

/// The channel on which a call waits for its response: in phase `Post` the
/// channel after the request was sent, in phase `Wait` the channel as it
/// is.
pub open spec fn spec_send_waits(v0: MBChannelView, v1: MBChannelView, phase: MBNbSendPhase)
    -> MBChannelView {
    if phase == MBNbSendPhase::Post {
        v0.after_put_req(v1.req_slots[v0.req_slot_p()]).after_commit_req()
    } else {
        v0
    }
}

/// The response that a call takes where it is done: the oldest one of the
/// channel on which it waits.
pub open spec fn spec_send_takes(v0: MBChannelView, v1: MBChannelView, phase: MBNbSendPhase)
    -> MBRespEntry {
    let vw = spec_send_waits(v0, v1, phase);
    vw.resp_slots[vw.resp_slot_c()]
}

/// A sender of a client. Every call is one attempt, bracketed by the
/// saving and restoring of the interrupt flags.
pub trait MBNbSender {
    /// What the sender needs to work at all.
    spec fn inv(&self) -> bool;

    /// What can be observed of the channel.
    spec fn view(&self) -> MBChannelView;

    /// The entry that the next request is written over.
    spec fn staged(&self) -> MBReqEntry;

    /// Tries to send a request for which no response is awaited.
    fn send_nb<REQ: Copy, RPC: MBRpc<REQ = REQ>>(&mut self, rpc: &RPC, req: REQ) -> (r: Result<
        (),
        MBNbError<()>,
    >)
        requires
            old(self).inv(),
            rpc.req_valid(req),
        ensures
            final(self).inv(),
            spec_send_nb_post(
                old(self).view(),
                final(self).view(),
                r,
                rpc.spec_put_req(req, old(self).staged()@),
            ),
            r is Err ==> final(self).staged() == old(self).staged(),
    ;

    /// Goes on with a call that waits for its response.
    fn send<REQ: Copy, RESP, RPC: MBRpc<REQ = REQ, RESP = RESP>>(
        &mut self,
        rpc: &RPC,
        req: REQ,
        phase: MBNbSendPhase,
    ) -> (step: MBNbSendStep<RESP>)
        requires
            old(self).inv(),
            rpc.req_valid(req),
        ensures
            final(self).inv(),
            spec_send_post(
                old(self).view(),
                final(self).view(),
                phase,
                step,
                rpc.spec_put_req(req, old(self).staged()@),
                rpc.spec_get_resp(spec_send_takes(old(self).view(), final(self).view(), phase)),
            ),
    ;

    /// Asks for a reset: state `INIT`, all four indices zero.
    fn reset(&mut self)
        requires
            old(self).inv(),
        ensures
            final(self).inv(),
            final(self).view() == old(self).view().after_reset_req(),
    ;
}

/// The sender that owns the channel.
pub struct MBNbRefSender<CH: MBChannelIf, H: MBHooks> {
    pub ch: CH,
    pub hooks: H,
    pub trace: Ghost<Seq<MBTraceOp>>,
}

impl<CH: MBChannelIf, H: MBHooks> MBNbRefSender<CH, H> {
    /// A sender on the channel `ch` with the hooks of the platform.
    pub fn new(ch: CH, hooks: H) -> (s: MBNbRefSender<CH, H>)
        requires
            ch.inv(),
        ensures
            s.inv(),
            s.ch == ch,
            s.trace@.len() == 0,
            s.hooks == hooks,
    {
        MBNbRefSender { ch, hooks, trace: Ghost(Seq::empty()) }
    }
}

impl<CH: MBChannelIf, H: MBHooks> MBNbRefSender<CH, H> {
    /// Fences the block for reading.
    fn rfence_block(&mut self)
        requires
            old(self).ch.inv(),
        ensures
            final(self).ch == old(self).ch,
            final(self).trace@ == old(self).trace@.push(
                MBTraceOp::RFence {
                    start: old(self).ch.view().base,
                    size: MB_CHANNEL_SIZE as usize,
                },
            ),
    {
        let base = self.base();
        self.hooks.rfence(base, MB_CHANNEL_SIZE as usize);
        proof {
            self.trace@ = self.trace@.push(
                MBTraceOp::RFence { start: base, size: MB_CHANNEL_SIZE as usize },
            );
        }
    }

    /// Fences `size` bytes at `start` after a write.
    fn wfence(&mut self, start: MBPtrT, size: usize)
        ensures
            final(self).ch == old(self).ch,
            final(self).trace@ == old(self).trace@.push(MBTraceOp::WFence { start, size }),
    {
        self.hooks.wfence(start, size);
        proof {
            self.trace@ = self.trace@.push(MBTraceOp::WFence { start, size });
        }
    }

    /// Saves the interrupt flags.
    fn save_flag(&mut self) -> (flag: MBPtrT)
        ensures
            final(self).ch == old(self).ch,
            final(self).trace@ == old(self).trace@.push(MBTraceOp::SaveFlag),
    {
        let flag = self.hooks.save_flag();
        proof {
            self.trace@ = self.trace@.push(MBTraceOp::SaveFlag);
        }
        flag
    }

    /// Restores the interrupt flags.
    fn restore_flag(&mut self, flag: MBPtrT)
        ensures
            final(self).ch == old(self).ch,
            final(self).trace@ == old(self).trace@.push(MBTraceOp::RestoreFlag),
    {
        self.hooks.restore_flag(flag);
        proof {
            self.trace@ = self.trace@.push(MBTraceOp::RestoreFlag);
        }
    }

    /// The address of the control block.
    fn base(&self) -> (b: MBPtrT)
        requires
            self.ch.inv(),
        ensures
            b == self.ch.view().base,
    {
        self.ch.base()
    }
}

impl<CH: MBChannelIf, H: MBHooks> MBNbRefSender<CH, H> {
    /// Tries to send a request: where the channel is ready and the request
    /// ring is not full, the request is written and committed; else
    /// nothing changes and the attempt would block. The block is fenced
    /// for reading first; the entry is fenced before its index is
    /// advanced, and the index behind that.
    pub fn try_send<REQ: Copy, RPC: MBRpc<REQ = REQ>>(&mut self, rpc: &RPC, req: REQ) -> (r:
        Result<(), MBNbError<()>>)
        requires
            old(self).ch.inv(),
            rpc.req_valid(req),
        ensures
            final(self).ch.inv(),
            spec_send_nb_post(
                old(self).ch.view(),
                final(self).ch.view(),
                r,
                rpc.spec_put_req(req, old(self).ch.req_staged()@),
            ),
            r is Err ==> final(self).ch.req_staged() == old(self).ch.req_staged(),
            r is Err ==> final(self).trace@ == old(self).trace@ + spec_trace_blocked(
                old(self).ch.view().base,
            ),
            r is Ok ==> final(self).trace@ == old(self).trace@ + spec_trace_send(
                old(self).ch.view().base,
                spec_req_entry_addr(
                    old(self).ch.view().base,
                    crate::mb_channel::spec_idx_masked(old(self).ch.view().req_idx_p),
                ) as MBPtrT,
            ),
            spec_fenced(old(self).trace@) ==> spec_fenced(final(self).trace@),
    {
        proof {
            self.ch.lemma_inv();
            lemma_fenced_ops(
                self.ch.view().base,
                spec_req_entry_addr(
                    self.ch.view().base,
                    crate::mb_channel::spec_idx_masked(self.ch.view().req_idx_p),
                ) as MBPtrT,
            );
            if spec_fenced(self.trace@) {
                lemma_fenced_concat(self.trace@, spec_trace_blocked(self.ch.view().base));
                lemma_fenced_concat(
                    self.trace@,
                    spec_trace_send(
                        self.ch.view().base,
                        spec_req_entry_addr(
                            self.ch.view().base,
                            crate::mb_channel::spec_idx_masked(self.ch.view().req_idx_p),
                        ) as MBPtrT,
                    ),
                );
            }
        }
        self.rfence_block();
        if !self.ch.is_ready() || !self.ch.req_can_put() {
            assert(self.trace@ =~= old(self).trace@ + spec_trace_blocked(old(self).ch.view().base));
            return Err(MBNbError::WouldBlock);
        }
        let entry = self.ch.put_req(rpc, req);
        proof {
            self.trace@ = self.trace@.push(MBTraceOp::PutReq { addr: entry });
        }
        self.wfence(entry, MB_REQ_ENTRY_SIZE as usize);
        let idx = self.ch.commit_req();
        proof {
            self.trace@ = self.trace@.push(MBTraceOp::CommitReq { addr: idx });
        }
        self.wfence(idx, 4);
        assert(self.trace@ =~= old(self).trace@ + spec_trace_send(old(self).ch.view().base, entry));
        Ok(())
    }

    /// Tries to take a response: where the channel is ready and the
    /// response ring is not empty, the oldest response is decoded and
    /// acknowledged. Else nothing changes: the channel is not ready, or
    /// the attempt would block. The block is fenced for reading first, and
    /// the index behind its advance.
    pub fn try_recv<RESP, RPC: MBRpc<RESP = RESP>>(&mut self, rpc: &RPC) -> (r: Result<
        RESP,
        MBNbError<MBNbSenderErr>,
    >)
        requires
            old(self).ch.inv(),
        ensures
            final(self).ch.inv(),
            final(self).ch.req_staged() == old(self).ch.req_staged(),
            !old(self).ch.view().is_ready() ==> r == Err::<RESP, _>(
                MBNbError::Other(MBNbSenderErr::NotReady),
            ) && final(self).ch.view() == old(self).ch.view(),
            old(self).ch.view().is_ready() && !old(self).ch.view().resp_can_get() ==> r == Err::<
                RESP,
                _,
            >(MBNbError::<MBNbSenderErr>::WouldBlock) && final(self).ch.view() == old(
                self,
            ).ch.view(),
            old(self).ch.view().is_ready() && old(self).ch.view().resp_can_get() ==> r == Ok::<
                RESP,
                MBNbError<MBNbSenderErr>,
            >(
                rpc.spec_get_resp(
                    old(self).ch.view().resp_slots[old(self).ch.view().resp_slot_c()],
                ),
            ) && final(self).ch.view() == old(self).ch.view().after_ack_resp(),
            r is Err ==> final(self).trace@ == old(self).trace@ + spec_trace_blocked(
                old(self).ch.view().base,
            ),
            r is Ok ==> final(self).trace@ == old(self).trace@ + spec_trace_recv(
                old(self).ch.view().base,
            ),
            spec_fenced(old(self).trace@) ==> spec_fenced(final(self).trace@),
    {
        proof {
            self.ch.lemma_inv();
            lemma_fenced_ops(self.ch.view().base, 0);
            if spec_fenced(self.trace@) {
                lemma_fenced_concat(self.trace@, spec_trace_blocked(self.ch.view().base));
                lemma_fenced_concat(self.trace@, spec_trace_recv(self.ch.view().base));
            }
        }
        self.rfence_block();
        if !self.ch.is_ready() {
            assert(self.trace@ =~= old(self).trace@ + spec_trace_blocked(old(self).ch.view().base));
            return Err(MBNbError::Other(MBNbSenderErr::NotReady));
        }
        if !self.ch.resp_can_get() {
            assert(self.trace@ =~= old(self).trace@ + spec_trace_blocked(old(self).ch.view().base));
            return Err(MBNbError::WouldBlock);
        }
        let ret = self.ch.get_resp(rpc);
        proof {
            self.trace@ = self.trace@.push(MBTraceOp::GetResp);
        }
        let idx = self.ch.ack_resp();
        proof {
            self.trace@ = self.trace@.push(MBTraceOp::AckResp { addr: idx });
        }
        self.wfence(idx, 4);
        assert(self.trace@ =~= old(self).trace@ + spec_trace_recv(old(self).ch.view().base));
        Ok(ret)
    }
}

/// Whether the trace `t1` begins with the trace `t0`.
pub open spec fn spec_extends(t0: Seq<MBTraceOp>, t1: Seq<MBTraceOp>) -> bool {
    t0.len() <= t1.len() && t1.subrange(0, t0.len() as int) == t0
}

/// A trace with steps behind it begins with itself.
pub proof fn lemma_extends_concat(t0: Seq<MBTraceOp>, ops: Seq<MBTraceOp>)
    ensures
        spec_extends(t0, t0 + ops),
{
    assert((t0 + ops).subrange(0, t0.len() as int) =~= t0);
}

/// What begins with a trace that begins with `t0` begins with `t0`.
pub proof fn lemma_extends_twice(t0: Seq<MBTraceOp>, t1: Seq<MBTraceOp>, t2: Seq<MBTraceOp>)
    requires
        spec_extends(t0, t1),
        spec_extends(t1, t2),
    ensures
        spec_extends(t0, t2),
{
    assert(t2.subrange(0, t0.len() as int) =~= t0);
}

/// Whether the steps that `t1` has behind `t0` begin with the saving of
/// the interrupt flags and end with their restoring.
pub open spec fn spec_bracketed(t0: Seq<MBTraceOp>, t1: Seq<MBTraceOp>) -> bool {
    &&& t0.len() + 2 <= t1.len()
    &&& t1.subrange(0, t0.len() as int) == t0
    &&& t1[t0.len() as int] is SaveFlag
    &&& t1.last() is RestoreFlag
}

/// A trace that grows by a saving of the flags, by steps that keep it
/// fenced, and by a restoring of the flags, is bracketed and stays fenced.
pub proof fn lemma_bracket(
    t0: Seq<MBTraceOp>,
    t1: Seq<MBTraceOp>,
    t2: Seq<MBTraceOp>,
    t3: Seq<MBTraceOp>,
)
    requires
        t1 == t0.push(MBTraceOp::SaveFlag),
        spec_extends(t1, t2),
        t3 == t2.push(MBTraceOp::RestoreFlag),
        spec_fenced(t1) ==> spec_fenced(t2),
    ensures
        spec_bracketed(t0, t3),
        spec_fenced(t0) ==> spec_fenced(t3),
{
    assert(t3.subrange(0, t0.len() as int) =~= t0) by {
        assert forall|i: int| 0 <= i < t0.len() implies t3[i] == t0[i] by {
            assert(t2.subrange(0, t1.len() as int)[i] == t1[i]);
        }
    }
    assert(t3[t0.len() as int] is SaveFlag) by {
        assert(t2.subrange(0, t1.len() as int)[t0.len() as int] == t1[t0.len() as int]);
    }
    if spec_fenced(t0) {
        lemma_fenced_concat(t0, seq![MBTraceOp::SaveFlag]);
        assert(t0 + seq![MBTraceOp::SaveFlag] =~= t1);
        lemma_fenced_concat(t2, seq![MBTraceOp::RestoreFlag]);
        assert(t2 + seq![MBTraceOp::RestoreFlag] =~= t3);
    }
}

impl<CH: MBChannelIf, H: MBHooks> MBNbSender for MBNbRefSender<CH, H> {
    open spec fn inv(&self) -> bool {
        self.ch.inv()
    }

    open spec fn view(&self) -> MBChannelView {
        self.ch.view()
    }

    open spec fn staged(&self) -> MBReqEntry {
        self.ch.req_staged()
    }

    /// The interrupt flags are saved, the request is sent where that does
    /// not block, and the flags are restored.
    fn send_nb<REQ: Copy, RPC: MBRpc<REQ = REQ>>(&mut self, rpc: &RPC, req: REQ) -> (r: Result<
        (),
        MBNbError<()>,
    >)
        ensures
            spec_bracketed(old(self).trace@, final(self).trace@),
            spec_fenced(old(self).trace@) ==> spec_fenced(final(self).trace@),
    {
        let flag = self.save_flag();
        let ghost t1 = self.trace@;
        let r = self.try_send(rpc, req);
        let ghost t2 = self.trace@;
        self.restore_flag(flag);
        proof {
            lemma_extends_concat(t1, spec_trace_blocked(old(self).view().base));
            lemma_extends_concat(
                t1,
                spec_trace_send(
                    old(self).view().base,
                    spec_req_entry_addr(
                        old(self).view().base,
                        crate::mb_channel::spec_idx_masked(old(self).view().req_idx_p),
                    ) as MBPtrT,
                ),
            );
            lemma_bracket(old(self).trace@, t1, t2, self.trace@);
        }
        r
    }

    /// The interrupt flags are saved; in phase `Post` the request is sent
    /// and, where that did not block or in phase `Wait`, a response is
    /// taken; and the flags are restored.
    fn send<REQ: Copy, RESP, RPC: MBRpc<REQ = REQ, RESP = RESP>>(
        &mut self,
        rpc: &RPC,
        req: REQ,
        phase: MBNbSendPhase,
    ) -> (step: MBNbSendStep<RESP>)
        ensures
            spec_bracketed(old(self).trace@, final(self).trace@),
            spec_fenced(old(self).trace@) ==> spec_fenced(final(self).trace@),
    {
        let flag = self.save_flag();
        let ghost t1 = self.trace@;
        let posted = match phase {
            MBNbSendPhase::Post => self.try_send(rpc, req).is_ok(),
            MBNbSendPhase::Wait => true,
        };
        let ghost tm = self.trace@;
        let ghost vm = self.view();
        proof {
            lemma_extends_concat(t1, Seq::empty());
            lemma_extends_concat(t1, spec_trace_blocked(old(self).view().base));
            lemma_extends_concat(
                t1,
                spec_trace_send(
                    old(self).view().base,
                    spec_req_entry_addr(
                        old(self).view().base,
                        crate::mb_channel::spec_idx_masked(old(self).view().req_idx_p),
                    ) as MBPtrT,
                ),
            );
        }
        let step = if posted {
            match self.try_recv(rpc) {
                Ok(resp) => MBNbSendStep::Done(resp),
                Err(_) => MBNbSendStep::Retry(MBNbSendPhase::Wait),
            }
        } else {
            MBNbSendStep::Retry(MBNbSendPhase::Post)
        };
        let ghost t2 = self.trace@;
        self.restore_flag(flag);
        proof {
            lemma_extends_concat(tm, Seq::empty());
            lemma_extends_concat(tm, spec_trace_blocked(vm.base));
            lemma_extends_concat(tm, spec_trace_recv(vm.base));
            lemma_extends_twice(t1, tm, t2);
            lemma_bracket(old(self).trace@, t1, t2, self.trace@);
        }
        step
    }

    /// The interrupt flags are saved, the reset is asked for and the block
    /// is fenced, and the flags are restored.
    fn reset(&mut self)
        ensures
            final(self).trace@ == old(self).trace@ + spec_trace_reset(old(self).view().base),
            spec_bracketed(old(self).trace@, final(self).trace@),
            spec_fenced(old(self).trace@) ==> spec_fenced(final(self).trace@),
    {
        proof {
            self.ch.lemma_inv();
            lemma_fenced_ops(self.view().base, 0);
            if spec_fenced(self.trace@) {
                lemma_fenced_concat(self.trace@, spec_trace_reset(self.view().base));
            }
        }
        let flag = self.save_flag();
        let base = self.base();
        self.ch.reset_req();
        proof {
            self.trace@ = self.trace@.push(MBTraceOp::ResetReq);
        }
        self.wfence(base, MB_CHANNEL_SIZE as usize);
        self.restore_flag(flag);
        assert(self.trace@ =~= old(self).trace@ + spec_trace_reset(old(self).view().base));
        assert(self.trace@.subrange(0, old(self).trace@.len() as int) =~= old(self).trace@);
    }
}

} // verus!
