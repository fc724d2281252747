//! A channel with one waker slot for each side. An operation that cannot
//! make progress leaves its waker in the slot of its side and is pending;
//! an operation that changes the channel hands out the waker of the other
//! side, which is then to be woken.

use vstd::prelude::*;
use crate::mb_channel::MBChannelIf;
use crate::mb_channel::MBReqEntry;
use crate::mb_channel::MBRespEntry;
use crate::mb_rpcs::MBRpc;
use crate::mb_std::mb_rpcs::MBPoll;

verus! {

/// Why an operation ended without progress.
#[derive(Debug, Clone, Copy, PartialEq, Eq, Structural)]
pub enum MBAsyncErr {
    /// The channel is in state `INIT`: a reset is asked for and not yet
    /// acknowledged.
    NotReady,
}

/// What an operation came to, and the waker that is to be woken.
pub struct MBAsyncStep<T, W> {
    pub poll: MBPoll<Result<T, MBAsyncErr>>,
    pub wake: Option<W>,
}

/// A channel with the waker of the client side, `c_waker`, and the waker
/// of the server side, `s_waker`.
pub struct MBAsyncChannel<CH: MBChannelIf, W> {
    pub channel: CH,
    pub c_waker: Option<W>,
    pub s_waker: Option<W>,
}

impl<CH: MBChannelIf, W> MBAsyncChannel<CH, W> {
    pub fn new(ch: CH) -> (a: MBAsyncChannel<CH, W>)
        ensures
            a.channel == ch,
            a.c_waker is None,
            a.s_waker is None,
    {
        MBAsyncChannel { channel: ch, c_waker: None, s_waker: None }
    }

    /// The client sends a request. Not ready: the channel is in state
    /// `INIT`; the server is woken to serve the reset. Pending: the
    /// request ring is full; the waker waits in the slot of the client.
    /// Else the request is written and committed, and the server is woken.
    pub fn poll_send_req<REQ: Copy, RPC: MBRpc<REQ = REQ>>(
        &mut self,
        rpc: &RPC,
        req: REQ,
        waker: W,
    ) -> (step: MBAsyncStep<(), W>)
        requires
            old(self).channel.inv(),
            rpc.req_valid(req),
        ensures
            final(self).channel.inv(),
            !old(self).channel.view().is_ready() ==> step.poll == MBPoll::Ready(
                Err::<(), _>(MBAsyncErr::NotReady),
            ) && final(self).channel.view() == old(self).channel.view()
                && step.wake == old(self).s_waker && final(self).s_waker is None
                && final(self).c_waker == old(self).c_waker,
            old(self).channel.view().is_ready() && !old(self).channel.view().req_can_put()
                ==> step.poll is Pending && final(self).channel.view() == old(self).channel.view()
                && step.wake is None && final(self).c_waker == Some(waker) && final(self).s_waker
                == old(self).s_waker,
            old(self).channel.view().is_ready() && old(self).channel.view().req_can_put()
                ==> step.poll == MBPoll::Ready(Ok::<(), MBAsyncErr>(()))
                    && final(self).channel.view() == old(self).channel.view().after_put_req(
                final(self).channel.view().req_slots[old(self).channel.view().req_slot_p()],
            ).after_commit_req()
                && final(self).channel.view().req_slots[old(self).channel.view().req_slot_p()]@ == rpc.spec_put_req(
                req,
                old(self).channel.req_staged()@,
            ) && step.wake == old(self).s_waker && final(self).s_waker is None
                && final(self).c_waker == old(self).c_waker,
    {
        if !self.channel.is_ready() {
            return MBAsyncStep {
                poll: MBPoll::Ready(Err(MBAsyncErr::NotReady)),
                wake: self.s_waker.take(),
            };
        }
        if !self.channel.req_can_put() {
            self.c_waker = Some(waker);
            return MBAsyncStep { poll: MBPoll::Pending, wake: None };
        }
        let _ = self.channel.put_req(rpc, req);
        let _ = self.channel.commit_req();
        MBAsyncStep { poll: MBPoll::Ready(Ok(())), wake: self.s_waker.take() }
    }

    /// The client takes a response. Not ready: the channel is in state
    /// `INIT`; the server is woken. Pending: the response ring is empty;
    /// the waker waits in the slot of the client. Else the oldest response
    /// is decoded and acknowledged, and the server is woken.
    pub fn poll_recv_resp<RESP, RPC: MBRpc<RESP = RESP>>(&mut self, rpc: &RPC, waker: W) -> (step:
        MBAsyncStep<RESP, W>)
        requires
            old(self).channel.inv(),
        ensures
            final(self).channel.inv(),
            !old(self).channel.view().is_ready() ==> step.poll == MBPoll::Ready(
                Err::<RESP, _>(MBAsyncErr::NotReady),
            ) && final(self).channel.view() == old(self).channel.view()
                && step.wake == old(self).s_waker && final(self).s_waker is None
                && final(self).c_waker == old(self).c_waker,
            old(self).channel.view().is_ready() && !old(self).channel.view().resp_can_get()
                ==> step.poll is Pending && final(self).channel.view() == old(self).channel.view()
                && step.wake is None && final(self).c_waker == Some(waker) && final(self).s_waker
                == old(self).s_waker,
            old(self).channel.view().is_ready() && old(self).channel.view().resp_can_get()
                ==> step.poll == MBPoll::Ready(
                Ok::<RESP, MBAsyncErr>(
                    rpc.spec_get_resp(
                        old(self).channel.view().resp_slots[old(self).channel.view().resp_slot_c()],
                    ),
                ),
            ) && final(self).channel.view() == old(self).channel.view().after_ack_resp()
                && step.wake == old(self).s_waker && final(self).s_waker is None
                    && final(self).c_waker == old(self).c_waker,
    {
        if !self.channel.is_ready() {
            return MBAsyncStep {
                poll: MBPoll::Ready(Err(MBAsyncErr::NotReady)),
                wake: self.s_waker.take(),
            };
        }
        if !self.channel.resp_can_get() {
            self.c_waker = Some(waker);
            return MBAsyncStep { poll: MBPoll::Pending, wake: None };
        }
        let ret = self.channel.get_resp(rpc);
        let _ = self.channel.ack_resp();
        MBAsyncStep { poll: MBPoll::Ready(Ok(ret)), wake: self.s_waker.take() }
    }

    /// The client asks for a reset: state `INIT`, all four indices zero.
    /// The server is woken.
    pub fn reset(&mut self) -> (wake: Option<W>)
        requires
            old(self).channel.inv(),
        ensures
            final(self).channel.inv(),
            final(self).channel.view() == old(self).channel.view().after_reset_req(),
            wake == old(self).s_waker,
            final(self).s_waker is None,
            final(self).c_waker == old(self).c_waker,
    {
        self.channel.reset_req();
        self.s_waker.take()
    }

    /// The server takes a request. Not ready: the channel is in state
    /// `INIT`; the client is woken. Pending: the request ring is empty;
    /// the waker waits in the slot of the server. Else the oldest request
    /// is copied and acknowledged, and the client is woken.
    pub fn poll_recv_req(&mut self, waker: W) -> (step: MBAsyncStep<MBReqEntry, W>)
        requires
            old(self).channel.inv(),
        ensures
            final(self).channel.inv(),
            !old(self).channel.view().is_ready() ==> step.poll == MBPoll::Ready(
                Err::<MBReqEntry, _>(MBAsyncErr::NotReady),
            ) && final(self).channel.view() == old(self).channel.view()
                && step.wake == old(self).c_waker && final(self).c_waker is None
                && final(self).s_waker == old(self).s_waker,
            old(self).channel.view().is_ready() && !old(self).channel.view().req_can_get()
                ==> step.poll is Pending && final(self).channel.view() == old(self).channel.view()
                && step.wake is None && final(self).s_waker == Some(waker) && final(self).c_waker
                == old(self).c_waker,
            old(self).channel.view().is_ready() && old(self).channel.view().req_can_get()
                ==> step.poll == MBPoll::Ready(
                Ok::<MBReqEntry, MBAsyncErr>(
                    old(self).channel.view().req_slots[old(self).channel.view().req_slot_c()],
                ),
            ) && final(self).channel.view() == old(self).channel.view().after_ack_req()
                && step.wake == old(self).c_waker && final(self).c_waker is None
                    && final(self).s_waker == old(self).s_waker,
    {
        if !self.channel.is_ready() {
            return MBAsyncStep {
                poll: MBPoll::Ready(Err(MBAsyncErr::NotReady)),
                wake: self.c_waker.take(),
            };
        }
        if !self.channel.req_can_get() {
            self.s_waker = Some(waker);
            return MBAsyncStep { poll: MBPoll::Pending, wake: None };
        }
        let req = self.channel.get_req();
        let _ = self.channel.ack_req();
        MBAsyncStep { poll: MBPoll::Ready(Ok(req)), wake: self.c_waker.take() }
    }

    /// The server sends a response. Not ready: the channel is in state
    /// `INIT`; the client is woken. Pending: the response ring is full;
    /// the waker waits in the slot of the server. Else the response is
    /// written and committed, and the client is woken.
    pub fn poll_send_resp(&mut self, resp: MBRespEntry, waker: W) -> (step: MBAsyncStep<(), W>)
        requires
            old(self).channel.inv(),
        ensures
            final(self).channel.inv(),
            !old(self).channel.view().is_ready() ==> step.poll == MBPoll::Ready(
                Err::<(), _>(MBAsyncErr::NotReady),
            ) && final(self).channel.view() == old(self).channel.view()
                && step.wake == old(self).c_waker && final(self).c_waker is None
                && final(self).s_waker == old(self).s_waker,
            old(self).channel.view().is_ready() && !old(self).channel.view().resp_can_put()
                ==> step.poll is Pending && final(self).channel.view() == old(self).channel.view()
                && step.wake is None && final(self).s_waker == Some(waker) && final(self).c_waker
                == old(self).c_waker,
            old(self).channel.view().is_ready() && old(self).channel.view().resp_can_put()
                ==> step.poll == MBPoll::Ready(Ok::<(), MBAsyncErr>(()))
                    && final(self).channel.view() == old(self).channel.view().after_put_resp(resp).after_commit_resp()
                && step.wake == old(self).c_waker && final(self).c_waker is None
                    && final(self).s_waker == old(self).s_waker,
    {
        if !self.channel.is_ready() {
            return MBAsyncStep {
                poll: MBPoll::Ready(Err(MBAsyncErr::NotReady)),
                wake: self.c_waker.take(),
            };
        }
        if !self.channel.resp_can_put() {
            self.s_waker = Some(waker);
            return MBAsyncStep { poll: MBPoll::Pending, wake: None };
        }
        let _ = self.channel.put_resp(resp);
        let _ = self.channel.commit_resp();
        MBAsyncStep { poll: MBPoll::Ready(Ok(())), wake: self.c_waker.take() }
    }

    /// The server waits for a reset. Once all four indices are zero it
    /// writes state `READY` and the client is woken; until then the waker
    /// waits in the slot of the server.
    pub fn poll_wait_reset(&mut self, waker: W) -> (step: MBAsyncStep<(), W>)
        requires
            old(self).channel.inv(),
        ensures
            final(self).channel.inv(),
            old(self).channel.view().reset_ready() ==> step.poll == MBPoll::Ready(
                Ok::<(), MBAsyncErr>(()),
            ) && final(self).channel.view() == old(self).channel.view().after_reset_ack()
                && step.wake == old(self).c_waker && final(self).c_waker is None
                    && final(self).s_waker == old(self).s_waker,
            !old(self).channel.view().reset_ready() ==> step.poll is Pending
                && final(self).channel.view() == old(self).channel.view() && step.wake is None
                && final(self).s_waker == Some(waker) && final(self).c_waker == old(self).c_waker,
    {
        if self.channel.reset_ready() {
            self.channel.reset_ack();
            MBAsyncStep { poll: MBPoll::Ready(Ok(())), wake: self.c_waker.take() }
        } else {
            self.s_waker = Some(waker);
            MBAsyncStep { poll: MBPoll::Pending, wake: None }
        }
    }

    /// Takes both wakers out of their slots: the one of the server and
    /// the one of the client, which are then to be woken.
    pub fn take_wakers(&mut self) -> (w: (Option<W>, Option<W>))
        ensures
            w.0 == old(self).s_waker,
            w.1 == old(self).c_waker,
            final(self).s_waker is None,
            final(self).c_waker is None,
            final(self).channel == old(self).channel,
    {
        (self.s_waker.take(), self.c_waker.take())
    }
}

} // verus!
