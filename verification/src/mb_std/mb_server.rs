//! The dispatcher: it hands each request to the handler of its action.

use vstd::prelude::*;
use crate::mb_channel::MBChannelIf;
use crate::mb_channel::MBReqEntry;
use crate::mb_channel::MBRespEntry;
use crate::mb_rpcs::MBAction;
use crate::mb_rpcs::MBExit;
use crate::mb_rpcs::MBMemCmp;
use crate::mb_rpcs::MBMemMove;
use crate::mb_rpcs::MBMemSet;
use crate::mb_rpcs::MBStopServer;
use crate::mb_std::mb_fs::MBFileOpener;
use crate::mb_std::mb_fs::MBFs;
use crate::mb_std::mb_ptr_resolver::MBPtrReader;
use crate::mb_std::mb_ptr_resolver::MBPtrResolver;
use crate::mb_std::mb_ptr_resolver::MBSMPtrResolver;
use crate::mb_std::mb_rpcs::CustomAsycRPC;
use crate::mb_std::mb_rpcs::MBAsyncRPC;
use crate::mb_std::mb_rpcs::MBAsyncRPCError;
use crate::mb_std::mb_rpcs::MBAsyncRPCResult;
use crate::mb_std::mb_rpcs::MBPoll;
use crate::mb_std::mb_rpcs::c_print::MBCPrint;
use crate::mb_std::mb_rpcs::c_print::MBFloatFormat;
use crate::mb_std::mb_rpcs::c_print::spec_cprint_post;
use crate::mb_std::mb_rpcs::call::MBCallCmd;
use crate::mb_std::mb_rpcs::call::MBCallHook;
use crate::mb_std::mb_rpcs::call::spec_call_post;
use crate::mb_std::mb_rpcs::exit::exit_code;
use crate::mb_std::mb_rpcs::file_access::spec_file_post;
use crate::mb_std::mb_rpcs::memcmp::spec_memcmp_args;
use crate::mb_std::mb_rpcs::memcmp::spec_memcmp_result;
use crate::mb_std::mb_rpcs::memmove::spec_memmove_args;
use crate::mb_std::mb_rpcs::memmove::spec_memmove_mem;
use crate::mb_std::mb_rpcs::memmove::spec_memmove_result;
use crate::mb_std::mb_rpcs::memset::spec_memset_args;
use crate::mb_std::mb_rpcs::memset::spec_memset_mem;
use crate::mb_std::mb_rpcs::memset::spec_memset_result;
use crate::mb_std::mb_rpcs::print::MBPrint;
use crate::mb_std::mb_rpcs::print::spec_print_post;
use crate::mb_std::mb_share_mem::share_mem::MBShareMem;

verus! {

/// What the deployment does when a client exits.
pub trait MBExitHook {
    fn exit(&mut self, ch_name: &[u8], code: u32);
}

/// Does nothing when a client exits.
pub struct MBNoExit;

impl MBExitHook for MBNoExit {
    fn exit(&mut self, ch_name: &[u8], code: u32) {
    }
}

/// What the deployment provides to a server: what to do on `EXIT` and
/// whether it stops the server, the functions of the host, the files, and
/// the renderer of floating point. `exits` records what was handed to the
/// deployment on each `EXIT`: the name of the channel and the exit code.
pub struct MBServerInner<
    O: MBFileOpener,
    C,
    H: MBCallHook,
    X: MBExitHook,
    F: MBFloatFormat,
> {
    pub exit: MBExit,
    pub exit_hook: X,
    pub exits: Ghost<Seq<(Seq<u8>, u32)>>,
    pub stop_on_exit: bool,
    pub stop_server: MBStopServer,
    pub print: MBPrint<'static>,
    pub cprint: MBCPrint<'static, F>,
    pub memmove: MBMemMove<'static>,
    pub memset: MBMemSet<'static>,
    pub memcmp: MBMemCmp<'static>,
    pub call: MBCallCmd<H>,
    pub fs: Option<MBFs<O>>,
    pub other_cmds: Vec<C>,
}

impl<O: MBFileOpener, C, H: MBCallHook, X: MBExitHook, F: MBFloatFormat> MBServerInner<
    O,
    C,
    H,
    X,
    F,
> {
    /// A dispatcher without files and without handlers of the deployment.
    /// `stop_on_exit` says whether `EXIT` stops the server.
    pub fn new(exit_hook: X, stop_on_exit: bool, call_hook: H, float: F) -> (s: Self)
        ensures
            s.fs is None,
            s.other_cmds@.len() == 0,
            s.stop_on_exit == stop_on_exit,
            s.held().len() == 0,
            s.exits@.len() == 0,
            s.call.made@.len() == 0,
            s.exit_hook == exit_hook,
            s.call.hook == call_hook,
            s.cprint.float == float,
    {
        MBServerInner {
            exit: MBExit,
            exit_hook,
            exits: Ghost(Seq::empty()),
            stop_on_exit,
            stop_server: MBStopServer,
            print: MBPrint::new(),
            cprint: MBCPrint::new(float),
            memmove: MBMemMove::new(),
            memset: MBMemSet::new(),
            memcmp: MBMemCmp::new(),
            call: MBCallCmd::new(call_hook),
            fs: None,
            other_cmds: Vec::new(),
        }
    }

    /// Adds a handler of the deployment behind those that are there.
    pub fn add_cmd(&mut self, cmd: C)
        ensures
            final(self).other_cmds@ == old(self).other_cmds@.push(cmd),
            final(self).fs == old(self).fs,
            final(self).stop_on_exit == old(self).stop_on_exit,
            final(self).held() == old(self).held(),
    {
        self.other_cmds.push(cmd);
    }

    /// Gives the server its files.
    pub fn set_fs(&mut self, fs: MBFs<O>)
        ensures
            final(self).fs == Some(fs),
            final(self).other_cmds == old(self).other_cmds,
            final(self).stop_on_exit == old(self).stop_on_exit,
            final(self).held() == old(self).held(),
    {
        self.fs = Some(fs);
    }

    /// What the dispatcher needs to work at all: its files and the
    /// handlers of the deployment are in order.
    pub open spec fn wf<R: MBPtrResolver>(&self) -> bool where C: CustomAsycRPC<R> {
        &&& self.fs matches Some(fs) ==> MBFs::inv(&fs)
        &&& forall|i: int| 0 <= i < self.other_cmds@.len()
            ==> (#[trigger] self.other_cmds@[i]).inv()
    }

    /// Whether a handler of the deployment serves the code `sub`.
    pub open spec fn claimed<R: MBPtrResolver>(&self, sub: u32) -> bool where C: CustomAsycRPC<R> {
        exists|i: int|
            0 <= i < self.other_cmds@.len() && (#[trigger] self.other_cmds@[i]).spec_is_me(sub)
    }

    /// The text that the prints of the channel hold back until a line is
    /// complete.
    pub open spec fn held(&self) -> Seq<u8> {
        self.print.buf@ + self.cprint.buf@
    }

    /// What serving `req` comes to, action by action: the built-in actions
    /// as their handlers say; `EXIT` stops the server or has no response,
    /// as the deployment chose; `STOPSERVER` stops the server;
    /// `FILEACCESS` without files, `IDLE` and an `OTHER` that no handler
    /// claims are illegal. Only `MEMMOVE`, `MEMSET` and a read of a file
    /// change the client's memory; only `PRINT` and `CPRINT` emit text,
    /// and both hold back the same text of the channel.
    pub open spec fn poll_post<R: MBPtrResolver>(
        &self,
        after: &Self,
        name: Seq<u8>,
        r0: &R,
        r1: &R,
        req: &MBReqEntry,
        out0: Seq<u8>,
        out1: Seq<u8>,
        p: MBPoll<MBAsyncRPCResult>,
    ) -> bool where C: CustomAsycRPC<R> {
        let buffers_kept = after.held() == self.held();
        let calls_kept = after.call.made@ == self.call.made@;
        let exits_kept = after.exits@ == self.exits@;
        let quiet = buffers_kept && out1 == out0 && calls_kept && exits_kept;
        match req.action {
            MBAction::EXIT => buffers_kept && out1 == out0 && calls_kept && r1.mem() == r0.mem()
                && after.exits@ == self.exits@.push((name, req@.args[0])) && p == MBPoll::Ready(
                Err::<MBRespEntry, _>(
                    if self.stop_on_exit {
                        MBAsyncRPCError::Stop
                    } else {
                        MBAsyncRPCError::NoResp
                    },
                ),
            ),
            MBAction::STOPSERVER => quiet && r1.mem() == r0.mem() && p == MBPoll::Ready(
                Err::<MBRespEntry, _>(MBAsyncRPCError::Stop),
            ),
            MBAction::IDLE => quiet && r1.mem() == r0.mem() && p == MBPoll::Ready(
                Err::<MBRespEntry, _>(MBAsyncRPCError::Illegal(MBAction::IDLE)),
            ),
            MBAction::PRINT => calls_kept && exits_kept && r1.mem() == r0.mem() && spec_print_post(
                r0,
                name,
                req@,
                self.held(),
                after.held(),
                out0,
                out1,
                p,
            ),
            MBAction::CPRINT => calls_kept && exits_kept && r1.mem() == r0.mem()
                && spec_cprint_post(
                r0,
                &self.cprint.float,
                name,
                req@,
                self.held(),
                after.held(),
                out0,
                out1,
                p,
            ),
            MBAction::MEMMOVE => quiet && r1.mem() == spec_memmove_mem(
                r0,
                spec_memmove_args(req@),
            ) && p == MBPoll::Ready(spec_memmove_result(r0, spec_memmove_args(req@))),
            MBAction::MEMSET => quiet && r1.mem() == spec_memset_mem(r0, spec_memset_args(req@))
                && p == MBPoll::Ready(spec_memset_result(r0, spec_memset_args(req@))),
            MBAction::MEMCMP => quiet && r1.mem() == r0.mem() && p == MBPoll::Ready(
                spec_memcmp_result(r0, spec_memcmp_args(req@)),
            ),
            MBAction::CALL => buffers_kept && out1 == out0 && exits_kept && r1.mem() == r0.mem()
                && spec_call_post(r0, name, req@, self.call.made@, after.call.made@, p),
            MBAction::FILEACCESS => quiet && match (self.fs, after.fs) {
                (Some(fs0), Some(fs1)) => spec_file_post(&fs0, &fs1, r0, r1, req@, p),
                (None, None) => r1.mem() == r0.mem() && p == MBPoll::Ready(
                    Err::<MBRespEntry, _>(MBAsyncRPCError::Illegal(MBAction::FILEACCESS)),
                ),
                _ => false,
            },
            MBAction::OTHER => buffers_kept && calls_kept && exits_kept && out0.is_prefix_of(out1)
                && (self.claimed::<R>(
                req@.args[0],
            ) || (out1 == out0 && r1.mem() == r0.mem() && p == MBPoll::Ready(
                Err::<MBRespEntry, _>(MBAsyncRPCError::Illegal(MBAction::OTHER)),
            ))),
        }
    }

    /// Serves `req`.
    pub fn poll_cmd<R: MBPtrResolver>(
        &mut self,
        server_name: &[u8],
        r: &mut R,
        req: &MBReqEntry,
        out: &mut Vec<u8>,
    ) -> (p: MBPoll<MBAsyncRPCResult>) where C: CustomAsycRPC<R>
        requires
            old(self).wf::<R>(),
            old(r).inv(),
        ensures
            final(self).wf::<R>(),
            final(r).inv(),
            forall|a: int, l: int| final(r).covers(a, l) == old(r).covers(a, l),
            final(self).stop_on_exit == old(self).stop_on_exit,
            final(self).other_cmds@.len() == old(self).other_cmds@.len(),
            final(self).fs is Some == old(self).fs is Some,
            old(self).poll_post(
                final(self),
                server_name@,
                old(r),
                final(r),
                req,
                old(out)@,
                final(out)@,
                p,
            ),
    {
        match req.action {
            MBAction::EXIT => {
                self.exit_hook.exit(server_name, exit_code(req));
                proof {
                    self.exits@ = self.exits@.push((server_name@, req@.args[0]));
                }
                if self.stop_on_exit {
                    MBPoll::Ready(Err(MBAsyncRPCError::Stop))
                } else {
                    MBPoll::Ready(Err(MBAsyncRPCError::NoResp))
                }
            },
            MBAction::PRINT => {
                self.print.buf.append(&mut self.cprint.buf);
                self.print.poll_cmd(server_name, r, req, out)
            },
            MBAction::CPRINT => {
                let mut text: Vec<u8> = Vec::new();
                text.append(&mut self.print.buf);
                text.append(&mut self.cprint.buf);
                self.cprint.buf = text;
                self.cprint.poll_cmd(server_name, r, req, out)
            },
            MBAction::MEMMOVE => self.memmove.poll_cmd(server_name, r, req, out),
            MBAction::MEMSET => self.memset.poll_cmd(server_name, r, req, out),
            MBAction::MEMCMP => self.memcmp.poll_cmd(server_name, r, req, out),
            MBAction::CALL => self.call.poll_cmd(server_name, r, req, out),
            MBAction::FILEACCESS => {
                match self.fs.take() {
                    Some(mut fs) => {
                        let p = fs.poll_cmd(server_name, r, req, out);
                        self.fs = Some(fs);
                        p
                    },
                    None => MBPoll::Ready(Err(MBAsyncRPCError::Illegal(MBAction::FILEACCESS))),
                }
            },
            MBAction::STOPSERVER => self.stop_server.poll_cmd(server_name, r, req, out),
            MBAction::OTHER => {
                let sub = req.args[0];
                let mut k: usize = 0;
                while k < self.other_cmds.len()
                    invariant
                        k <= self.other_cmds.len(),
                        *self == *old(self),
                        self.wf::<R>(),
                        *r == *old(r),
                        r.inv(),
                        out@ == old(out)@,
                        req.action == MBAction::OTHER,
                        sub == req@.args[0],
                        forall|i: int|
                            0 <= i < k ==> !(#[trigger] self.other_cmds@[i]).spec_is_me(sub),
                    decreases self.other_cmds.len() - k,
                {
                    if self.other_cmds[k].is_me(sub) {
                        let mut cmd = self.other_cmds.remove(k);
                        let p = cmd.poll_cmd(server_name, r, req, out);
                        self.other_cmds.insert(k, cmd);
                        return p;
                    }
                    k = k + 1;
                }
                MBPoll::Ready(Err(MBAsyncRPCError::Illegal(MBAction::OTHER)))
            },
            MBAction::IDLE => MBPoll::Ready(Err(MBAsyncRPCError::Illegal(MBAction::IDLE))),
        }
    }
}

/// A server for a client whose memory is shared memory.
pub struct MBSMServer<
    SM: MBShareMem,
    O: MBFileOpener,
    C,
    H: MBCallHook,
    X: MBExitHook,
    F: MBFloatFormat,
> {
    pub name: Vec<u8>,
    pub resolver: MBSMPtrResolver<SM>,
    pub inner: MBServerInner<O, C, H, X, F>,
}

impl<
    SM: MBShareMem,
    O: MBFileOpener,
    C: CustomAsycRPC<MBSMPtrResolver<SM>>,
    H: MBCallHook,
    X: MBExitHook,
    F: MBFloatFormat,
> MBSMServer<SM, O, C, H, X, F> {
    /// What the server needs to work at all.
    pub open spec fn inv(&self) -> bool {
        self.resolver.inv() && self.inner.wf::<MBSMPtrResolver<SM>>()
    }

    /// The server `name` on the memory `sm` with the dispatcher `inner`.
    pub fn new(name: Vec<u8>, sm: SM, inner: MBServerInner<O, C, H, X, F>) -> (s: Self)
        requires
            sm.inv(),
            inner.wf::<MBSMPtrResolver<SM>>(),
        ensures
            s.inv(),
            s.name == name,
            s.resolver.sm == sm,
            s.inner == inner,
    {
        MBSMServer { name, resolver: MBSMPtrResolver::new(sm), inner }
    }

    /// Serves `req`: the dispatcher decides, on the memory of the server
    /// and under its name.
    pub fn do_cmd(&mut self, req: &MBReqEntry, out: &mut Vec<u8>) -> (p: MBPoll<MBAsyncRPCResult>)
        requires
            old(self).inv(),
        ensures
            final(self).inv(),
            final(self).name == old(self).name,
            forall|a: int, l: int|
                final(self).resolver.covers(a, l) == old(self).resolver.covers(a, l),
            old(self).inner.poll_post(
                &final(self).inner,
                old(self).name@,
                &old(self).resolver,
                &final(self).resolver,
                req,
                old(out)@,
                final(out)@,
                p,
            ),
    {
        self.inner.poll_cmd(self.name.as_slice(), &mut self.resolver, req, out)
    }

    /// Adds a handler of the deployment behind those that are there.
    pub fn add_cmd(&mut self, cmd: C)
        requires
            old(self).inv(),
            cmd.inv(),
        ensures
            final(self).inv(),
            final(self).inner.other_cmds@ == old(self).inner.other_cmds@.push(cmd),
            final(self).resolver == old(self).resolver,
            final(self).name == old(self).name,
    {
        self.inner.add_cmd(cmd);
    }
}

/// Where the server of a channel stands between two steps.
pub enum MBServeState {
    /// It waits for a request.
    Idle,
    /// It serves the request.
    Serving(MBReqEntry),
    /// It has the response and waits for a free slot.
    Responding(MBRespEntry),
    /// The client asked for a reset; it waits until it can acknowledge.
    Resetting,
    /// It has stopped.
    Stopped,
    /// It gave up on an illegal request.
    Failed(MBAction),
}

/// What follows on the outcome of a request: a response is to be sent; a
/// request without response is done; a pending request is served again;
/// `Stop` stops the server; an illegal request makes it give up.
pub open spec fn spec_after_cmd(req: MBReqEntry, p: MBPoll<MBAsyncRPCResult>) -> MBServeState {
    match p {
        MBPoll::Pending => MBServeState::Serving(req),
        MBPoll::Ready(Ok(resp)) => MBServeState::Responding(resp),
        MBPoll::Ready(Err(MBAsyncRPCError::NoResp)) => MBServeState::Idle,
        MBPoll::Ready(Err(MBAsyncRPCError::Stop)) => MBServeState::Stopped,
        MBPoll::Ready(Err(MBAsyncRPCError::Illegal(a))) => MBServeState::Failed(a),
    }
}

/// What follows on the outcome of a request.
pub fn after_cmd(req: MBReqEntry, p: MBPoll<MBAsyncRPCResult>) -> (s: MBServeState)
    ensures
        s == spec_after_cmd(req, p),
{
    match p {
        MBPoll::Pending => MBServeState::Serving(req),
        MBPoll::Ready(Ok(resp)) => MBServeState::Responding(resp),
        MBPoll::Ready(Err(MBAsyncRPCError::NoResp)) => MBServeState::Idle,
        MBPoll::Ready(Err(MBAsyncRPCError::Stop)) => MBServeState::Stopped,
        MBPoll::Ready(Err(MBAsyncRPCError::Illegal(a))) => MBServeState::Failed(a),
    }
}

/// What follows on an attempt to take a request: the request is served; a
/// channel that is not ready is reset; else the server waits on.
pub open spec fn spec_after_recv(
    p: MBPoll<Result<MBReqEntry, crate::mb_std::mb_async_channel::MBAsyncErr>>,
) -> MBServeState {
    match p {
        MBPoll::Pending => MBServeState::Idle,
        MBPoll::Ready(Ok(req)) => MBServeState::Serving(req),
        MBPoll::Ready(Err(_)) => MBServeState::Resetting,
    }
}

/// What follows on an attempt to take a request.
pub fn after_recv(p: MBPoll<Result<MBReqEntry, crate::mb_std::mb_async_channel::MBAsyncErr>>) -> (s:
    MBServeState)
    ensures
        s == spec_after_recv(p),
{
    match p {
        MBPoll::Pending => MBServeState::Idle,
        MBPoll::Ready(Ok(req)) => MBServeState::Serving(req),
        MBPoll::Ready(Err(_)) => MBServeState::Resetting,
    }
}

/// What follows on an attempt to send a response: the server waits for
/// the next request; a channel that is not ready is reset, and the
/// response is dropped; else the response waits on.
pub open spec fn spec_after_send(
    resp: MBRespEntry,
    p: MBPoll<Result<(), crate::mb_std::mb_async_channel::MBAsyncErr>>,
) -> MBServeState {
    match p {
        MBPoll::Pending => MBServeState::Responding(resp),
        MBPoll::Ready(Ok(_)) => MBServeState::Idle,
        MBPoll::Ready(Err(_)) => MBServeState::Resetting,
    }
}

/// What follows on an attempt to send a response.
pub fn after_send(
    resp: MBRespEntry,
    p: MBPoll<Result<(), crate::mb_std::mb_async_channel::MBAsyncErr>>,
) -> (s: MBServeState)
    ensures
        s == spec_after_send(resp, p),
{
    match p {
        MBPoll::Pending => MBServeState::Responding(resp),
        MBPoll::Ready(Ok(_)) => MBServeState::Idle,
        MBPoll::Ready(Err(_)) => MBServeState::Resetting,
    }
}

impl<O: MBFileOpener, C, H: MBCallHook, X: MBExitHook, F: MBFloatFormat> MBServerInner<
    O,
    C,
    H,
    X,
    F,
> {
    /// What a step of the server comes to, from state `state` to `next`.
    /// Waiting for a request, the server takes the oldest one, where the
    /// channel is ready and has one. Serving a request, it lets the
    /// dispatcher decide, and the channel stays as it is. Holding a
    /// response, it sends it, where the channel is ready and has a free
    /// slot. On a channel that is not ready it turns to the reset, which
    /// it acknowledges once all indices are zero. A server that has
    /// stopped or given up stays so. Only the serving of a request changes
    /// the client's memory, the dispatcher or the output.
    pub open spec fn serve_post<R: MBPtrResolver>(
        &self,
        after: &Self,
        name: Seq<u8>,
        r0: &R,
        r1: &R,
        v: crate::mb_channel::MBChannelView,
        v1: crate::mb_channel::MBChannelView,
        state: MBServeState,
        next: MBServeState,
        no_wake: bool,
        out0: Seq<u8>,
        out1: Seq<u8>,
    ) -> bool where C: CustomAsycRPC<R> {
        let quiet = r1.mem() == r0.mem() && *after == *self && out1 == out0;
        match state {
            MBServeState::Idle => {
                &&& quiet
                &&& !v.is_ready() ==> next == MBServeState::Resetting && v1 == v
                &&& v.is_ready() && !v.req_can_get() ==> next == MBServeState::Idle && v1 == v
                &&& v.is_ready() && v.req_can_get() ==> next == MBServeState::Serving(
                    v.req_slots[v.req_slot_c()],
                ) && v1 == v.after_ack_req()
            },
            MBServeState::Serving(req) => {
                &&& v1 == v
                &&& no_wake
                &&& exists|p: MBPoll<MBAsyncRPCResult>|
                    next == spec_after_cmd(req, p) && self.poll_post(
                        after,
                        name,
                        r0,
                        r1,
                        &req,
                        out0,
                        out1,
                        p,
                    )
            },
            MBServeState::Responding(resp) => {
                &&& quiet
                &&& !v.is_ready() ==> next == MBServeState::Resetting && v1 == v
                &&& v.is_ready() && !v.resp_can_put() ==> next == MBServeState::Responding(resp)
                    && v1 == v
                &&& v.is_ready() && v.resp_can_put() ==> next == MBServeState::Idle && v1
                    == v.after_put_resp(resp).after_commit_resp()
            },
            MBServeState::Resetting => {
                &&& quiet
                &&& v.reset_ready() ==> next == MBServeState::Idle && v1 == v.after_reset_ack()
                &&& !v.reset_ready() ==> next == MBServeState::Resetting && v1 == v
            },
            _ => quiet && next == state && no_wake && v1 == v,
        }
    }

    /// One step of the server of a channel. Waiting for a request, it
    /// tries to take one. Serving a request, it lets the dispatcher
    /// decide. Holding a response, it tries to send it. After a reset was
    /// asked for, it tries to acknowledge. A server that has stopped or
    /// given up stays so. Returns where the server stands then, and the
    /// waker that is to be woken. The server takes a request only when it
    /// holds none, and sends no response but that of the request it took
    /// last.
    pub fn serve_step<CH: MBChannelIf, R: MBPtrResolver, W>(
        &mut self,
        server_name: &[u8],
        r: &mut R,
        ch: &mut crate::mb_std::mb_async_channel::MBAsyncChannel<CH, W>,
        state: MBServeState,
        waker: W,
        out: &mut Vec<u8>,
    ) -> (next: (MBServeState, Option<W>)) where C: CustomAsycRPC<R>
        requires
            old(self).wf::<R>(),
            old(r).inv(),
            old(ch).channel.inv(),
        ensures
            final(self).wf::<R>(),
            final(r).inv(),
            forall|a: int, l: int| final(r).covers(a, l) == old(r).covers(a, l),
            final(ch).channel.inv(),
            old(self).serve_post(
                final(self),
                server_name@,
                old(r),
                final(r),
                old(ch).channel.view(),
                final(ch).channel.view(),
                state,
                next.0,
                next.1 is None,
                old(out)@,
                final(out)@,
            ),
    {
        match state {
            MBServeState::Idle => {
                let step = ch.poll_recv_req(waker);
                (after_recv(step.poll), step.wake)
            },
            MBServeState::Serving(req) => {
                let p = self.poll_cmd(server_name, r, &req, out);
                (after_cmd(req, p), None)
            },
            MBServeState::Responding(resp) => {
                let step = ch.poll_send_resp(resp, waker);
                (after_send(resp, step.poll), step.wake)
            },
            MBServeState::Resetting => {
                let step = ch.poll_wait_reset(waker);
                match step.poll {
                    MBPoll::Ready(_) => (MBServeState::Idle, step.wake),
                    MBPoll::Pending => (MBServeState::Resetting, step.wake),
                }
            },
            MBServeState::Stopped => (MBServeState::Stopped, None),
            MBServeState::Failed(a) => (MBServeState::Failed(a), None),
        }
    }
}

impl<
    SM: MBShareMem,
    O: MBFileOpener,
    C: CustomAsycRPC<MBSMPtrResolver<SM>>,
    H: MBCallHook,
    X: MBExitHook,
    F: MBFloatFormat,
> MBSMServer<SM, O, C, H, X, F> {
    /// One step of the server on a channel that lies apart from the
    /// client's memory: the step of its dispatcher, under its name and on
    /// its memory.
    pub fn serve_step<CH: MBChannelIf, W>(
        &mut self,
        ch: &mut crate::mb_std::mb_async_channel::MBAsyncChannel<CH, W>,
        state: MBServeState,
        waker: W,
        out: &mut Vec<u8>,
    ) -> (next: (MBServeState, Option<W>))
        requires
            old(self).inv(),
            old(ch).channel.inv(),
        ensures
            final(self).inv(),
            final(ch).channel.inv(),
            final(self).name == old(self).name,
            old(self).inner.serve_post(
                &final(self).inner,
                old(self).name@,
                &old(self).resolver,
                &final(self).resolver,
                old(ch).channel.view(),
                final(ch).channel.view(),
                state,
                next.0,
                next.1 is None,
                old(out)@,
                final(out)@,
            ),
    {
        self.inner.serve_step(self.name.as_slice(), &mut self.resolver, ch, state, waker, out)
    }
}

impl<O: MBFileOpener, C, H: MBCallHook, X: MBExitHook, F: MBFloatFormat> MBServerInner<
    O,
    C,
    H,
    X,
    F,
> {
    /// One step of the server on a channel that lies in the client's
    /// memory: the step of the dispatcher, which reaches the client's
    /// memory through the channel.
    pub fn serve_shared<SM: MBShareMem, W>(
        &mut self,
        server_name: &[u8],
        ch: &mut crate::mb_std::mb_async_channel::MBAsyncChannel<
            crate::mb_std::mb_share_mem::channel::MBChannelShareMem<SM>,
            W,
        >,
        state: MBServeState,
        waker: W,
        out: &mut Vec<u8>,
    ) -> (next: (MBServeState, Option<W>)) where C: CustomAsycRPC<MBSMPtrResolver<SM>>
        requires
            old(self).wf::<MBSMPtrResolver<SM>>(),
            old(ch).channel.inv(),
        ensures
            final(self).wf::<MBSMPtrResolver<SM>>(),
            final(ch).channel.inv(),
            match state {
                MBServeState::Idle => {
                    let v = old(ch).channel.view();
                    &&& final(out)@ == old(out)@
                    &&& !v.is_ready() ==> next.0 == MBServeState::Resetting
                        && final(ch).channel.view() == v
                    &&& v.is_ready() && !v.req_can_get() ==> next.0 == MBServeState::Idle
                        && final(ch).channel.view() == v
                    &&& v.is_ready() && v.req_can_get() ==> next.0 == MBServeState::Serving(
                        v.req_slots[v.req_slot_c()],
                    ) && final(ch).channel.view() == v.after_ack_req()
                },
                MBServeState::Serving(req) => {
                    &&& next.1 is None
                    &&& exists|p: MBPoll<MBAsyncRPCResult>|
                        next.0 == spec_after_cmd(req, p) && old(self).poll_post(
                            final(self),
                            server_name@,
                            &old(ch).channel.mem,
                            &final(ch).channel.mem,
                            &req,
                            old(out)@,
                            final(out)@,
                            p,
                        )
                },
                MBServeState::Responding(resp) => {
                    let v = old(ch).channel.view();
                    &&& final(out)@ == old(out)@
                    &&& !v.is_ready() ==> next.0 == MBServeState::Resetting
                        && final(ch).channel.view() == v
                    &&& v.is_ready() && !v.resp_can_put() ==> next.0 == MBServeState::Responding(
                        resp,
                    ) && final(ch).channel.view() == v
                    &&& v.is_ready() && v.resp_can_put() ==> next.0 == MBServeState::Idle
                        && final(ch).channel.view() == v.after_put_resp(resp).after_commit_resp()
                },
                MBServeState::Resetting => {
                    let v = old(ch).channel.view();
                    &&& final(out)@ == old(out)@
                    &&& v.reset_ready() ==> next.0 == MBServeState::Idle
                        && final(ch).channel.view() == v.after_reset_ack()
                    &&& !v.reset_ready() ==> next.0 == MBServeState::Resetting
                        && final(ch).channel.view() == v
                },
                _ => {
                    &&& next.0 == state
                    &&& next.1 is None
                    &&& final(ch).channel.view() == old(ch).channel.view()
                    &&& final(out)@ == old(out)@
                },
            },
    {
        match state {
            MBServeState::Idle => {
                let step = ch.poll_recv_req(waker);
                (after_recv(step.poll), step.wake)
            },
            MBServeState::Serving(req) => {
                let p = self.poll_cmd(server_name, &mut ch.channel.mem, &req, out);
                assert(ch.channel.mem.covers(
                    ch.channel.base as int,
                    crate::mb_channel::MB_CHANNEL_SIZE as int,
                ) == old(ch).channel.mem.covers(
                    ch.channel.base as int,
                    crate::mb_channel::MB_CHANNEL_SIZE as int,
                ));
                (after_cmd(req, p), None)
            },
            MBServeState::Responding(resp) => {
                let step = ch.poll_send_resp(resp, waker);
                (after_send(resp, step.poll), step.wake)
            },
            MBServeState::Resetting => {
                let step = ch.poll_wait_reset(waker);
                match step.poll {
                    MBPoll::Ready(_) => (MBServeState::Idle, step.wake),
                    MBPoll::Pending => (MBServeState::Resetting, step.wake),
                }
            },
            MBServeState::Stopped => (MBServeState::Stopped, None),
            MBServeState::Failed(a) => (MBServeState::Failed(a), None),
        }
    }
}

/// The version of the protocol that a peer speaks.
#[derive(Debug, Clone, Copy, PartialEq, Eq, Structural)]
pub struct MBVersion {
    pub major: u32,
    pub minor: u32,
    pub patch: u32,
}

pub const MB_VERSION_MAJOR: u32 = 0;

pub const MB_VERSION_MINOR: u32 = 1;

pub const MB_VERSION_PATCH: u32 = 0;

/// The version that this server speaks.
pub fn mb_version() -> (v: MBVersion)
    ensures
        v == (MBVersion {
            major: MB_VERSION_MAJOR,
            minor: MB_VERSION_MINOR,
            patch: MB_VERSION_PATCH,
        }),
{
    MBVersion { major: MB_VERSION_MAJOR, minor: MB_VERSION_MINOR, patch: MB_VERSION_PATCH }
}

/// A peer whose version the server does not serve.
#[derive(Debug, Clone, Copy, PartialEq, Eq, Structural)]
pub struct MBVersionMismatch {
    pub own: MBVersion,
    pub peer: MBVersion,
}

/// Whether a server of version `own` serves a peer of version `peer`:
/// major and minor numbers are the same.
pub open spec fn spec_version_served(own: MBVersion, peer: MBVersion) -> bool {
    own.major == peer.major && own.minor == peer.minor
}

/// The check at first contact: the version record of the peer is held
/// against the server's own. A peer with another major or minor number is
/// refused, which is fatal for its channel.
pub fn check_version(own: MBVersion, peer: MBVersion) -> (r: Result<(), MBVersionMismatch>)
    ensures
        r is Ok <==> spec_version_served(own, peer),
        r matches Err(e) ==> e == (MBVersionMismatch { own, peer }),
{
    if own.major == peer.major && own.minor == peer.minor {
        Ok(())
    } else {
        Err(MBVersionMismatch { own, peer })
    }
}

} // verus!
