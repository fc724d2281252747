//! `CALL`: calls a function of the host by its name.

use vstd::prelude::*;
use super::MBAsyncRPC;
use super::MBAsyncRPCError;
use super::MBAsyncRPCResult;
use super::MBPoll;
use super::spec_word_resp;
use super::word_resp;
use crate::mb_channel::MBReqEntry;
use crate::mb_channel::MBReqView;
use crate::mb_channel::MBRespEntry;
use crate::mb_channel::MB_MAX_ARGS;
use crate::mb_rpcs::MBAction;
use crate::mb_rpcs::MBCall;
use crate::mb_rpcs::MBCallArgs;
use crate::mb_rpcs::MBCallStatus;
use crate::mb_rpcs::MBPtrT;
use crate::mb_rpcs::MBRpc;
use crate::mb_rpcs::MB_CALL_ARGS;
use crate::mb_std::mb_ptr_resolver::MBPtrReader;
use crate::mb_std::mb_ptr_resolver::MBPtrResolver;
use crate::mb_std::mb_ptr_resolver::spec_read_c_str;

verus! {

/// The functions of the host that a client can call. A call returns a
/// value and a status code: 0 where the value is ready, 1 where the call
/// has to be made again later.
pub trait MBCallHook {
    fn call(&mut self, ch_name: &[u8], method: &[u8], args: &[MBPtrT]) -> (r: (MBPtrT, u32));
}

/// A host without functions: every call ends in a status that is neither
/// ready nor pending.
pub struct MBNoCall;

impl MBCallHook for MBNoCall {
    fn call(&mut self, ch_name: &[u8], method: &[u8], args: &[MBPtrT]) -> (r: (MBPtrT, u32))
        ensures
            r == (0u32, u32::MAX),
    {
        (0, u32::MAX)
    }
}

/// Whether a request is a well-formed `CALL`: the method and no more
/// arguments than fit.
pub open spec fn spec_call_valid(req: MBReqView) -> bool {
    1 <= req.words <= MB_MAX_ARGS
}

/// The arguments that a `CALL` request carries.
pub open spec fn spec_call_args(req: MBReqView) -> Seq<MBPtrT> {
    req.args.subrange(1, req.words as int)
}

/// Reads a `CALL` request: its count of arguments, its method, its
/// arguments. Nothing where the count of words is out of range.
pub fn call_args(req: &MBReqEntry) -> (r: Option<MBCallArgs>)
    ensures
        r is Some <==> spec_call_valid(req@),
        r matches Some(a) ==> a.len == req@.words - 1 && a.method == req@.args[0]
            && a.args@.subrange(0, a.len as int) == spec_call_args(req@),
{
    if req.words < 1 || req.words as usize > MB_MAX_ARGS {
        return None;
    }
    let n: usize = (req.words - 1) as usize;
    let mut args: [MBPtrT; MB_CALL_ARGS] = [0;MB_CALL_ARGS];
    let mut k: usize = 0;
    while k < n
        invariant
            k <= n,
            n == req.words - 1,
            n <= MB_CALL_ARGS,
            forall|i: int| 0 <= i < k ==> args@[i] == req.args@[i + 1],
        decreases n - k,
    {
        args[k] = req.args[k + 1];
        k = k + 1;
    }
    let a = MBCallArgs { len: req.words - 1, method: req.args[0], args };
    Some(a)
}

/// What was encoded is what is decoded, and the value of the call comes
/// back as it was given.
pub proof fn lemma_call_round_trip(rpc: MBCall, req: &MBCallArgs, entry: MBReqView, v: MBPtrT)
    requires
        entry.args.len() == MB_MAX_ARGS,
        rpc.req_valid(req),
    ensures
        rpc.spec_put_req(req, entry).action == MBAction::CALL,
        rpc.spec_put_req(req, entry).words == req.len + 1,
        spec_call_valid(rpc.spec_put_req(req, entry)),
        rpc.spec_put_req(req, entry).args[0] == req.method,
        spec_call_args(rpc.spec_put_req(req, entry)) == req.args@.subrange(0, req.len as int),
        rpc.spec_get_resp(spec_word_resp(v)) == v,
{
}

/// What a call of the host comes to, by value and status: status 0 gives
/// the response with the value, status 1 leaves the request pending, any
/// other status makes it illegal.
pub open spec fn spec_call_outcome(ret: MBPtrT, status: u32) -> MBPoll<MBAsyncRPCResult> {
    match MBCallStatus::spec_from_code(status) {
        Some(MBCallStatus::Ready) => MBPoll::Ready(Ok(spec_word_resp(ret))),
        Some(MBCallStatus::Pending) => MBPoll::Pending,
        None => MBPoll::Ready(Err(MBAsyncRPCError::Illegal(MBAction::CALL))),
    }
}

/// What a call of the host comes to, by value and status.
pub fn call_outcome(ret: MBPtrT, status: u32) -> (p: MBPoll<MBAsyncRPCResult>)
    ensures
        p == spec_call_outcome(ret, status),
{
    match MBCallStatus::from_code(status) {
        Some(MBCallStatus::Ready) => MBPoll::Ready(Ok(word_resp(ret))),
        Some(MBCallStatus::Pending) => MBPoll::Pending,
        None => MBPoll::Ready(Err(MBAsyncRPCError::Illegal(MBAction::CALL))),
    }
}

/// What was handed to the host in one call: the name of the channel, the
/// name of the method and the arguments.
pub struct MBCallRecord {
    pub ch_name: Seq<u8>,
    pub method: Seq<u8>,
    pub args: Seq<MBPtrT>,
}

/// The handler of `CALL`, with the functions of the host and the record
/// of the calls that it made.
pub struct MBCallCmd<H: MBCallHook> {
    pub hook: H,
    pub made: Ghost<Seq<MBCallRecord>>,
}

impl<H: MBCallHook> MBCallCmd<H> {
    pub fn new(hook: H) -> (c: MBCallCmd<H>)
        ensures
            c.hook == hook,
            c.made@.len() == 0,
    {
        MBCallCmd { hook, made: Ghost(Seq::empty()) }
    }
}

/// What serving a `CALL` comes to. The request is illegal, and the host is
/// not called, where the request is malformed or the name of the method
/// cannot be read. Else the host is called once, with the name of the
/// channel, the name of the method and the arguments of the request, and
/// the request comes to what the value and the status of the call say.
pub open spec fn spec_call_post<R: MBPtrReader>(
    r: &R,
    name: Seq<u8>,
    req: MBReqView,
    made0: Seq<MBCallRecord>,
    made1: Seq<MBCallRecord>,
    p: MBPoll<MBAsyncRPCResult>,
) -> bool {
    if !spec_call_valid(req) || spec_read_c_str(r, req.args[0] as int) is Err {
        &&& p == MBPoll::Ready(Err::<MBRespEntry, _>(MBAsyncRPCError::Illegal(MBAction::CALL)))
        &&& made1 == made0
    } else {
        &&& exists|ret: MBPtrT, status: u32| p == spec_call_outcome(ret, status)
        &&& made1 == made0.push(
            MBCallRecord {
                ch_name: name,
                method: spec_read_c_str(r, req.args[0] as int)->Ok_0,
                args: spec_call_args(req),
            },
        )
    }
}

impl<H: MBCallHook, R: MBPtrResolver> MBAsyncRPC<R> for MBCallCmd<H> {
    open spec fn inv(&self) -> bool {
        true
    }

    /// Reads the name of the method and calls the host with the name of
    /// the channel, the method and the arguments. The request is illegal
    /// where it is malformed or the name cannot be read; else it comes to
    /// what the value and the status of the call say.
    fn poll_cmd(
        &mut self,
        server_name: &[u8],
        r: &mut R,
        req: &MBReqEntry,
        out: &mut Vec<u8>,
    ) -> (p: MBPoll<MBAsyncRPCResult>)
        ensures
            final(r).mem() == old(r).mem(),
            final(out)@ == old(out)@,
            spec_call_post(old(r), server_name@, req@, old(self).made@, final(self).made@, p),
    {
        let args = match call_args(req) {
            Some(a) => a,
            None => {
                return MBPoll::Ready(Err(MBAsyncRPCError::Illegal(MBAction::CALL)));
            },
        };
        let method = match r.read_c_str(args.method) {
            Ok(m) => m,
            Err(_) => {
                return MBPoll::Ready(Err(MBAsyncRPCError::Illegal(MBAction::CALL)));
            },
        };
        let handed = vstd::slice::slice_subrange(args.args.as_slice(), 0, args.len as usize);
        let (ret, status) = self.hook.call(server_name, method.as_slice(), handed);
        proof {
            self.made@ = self.made@.push(
                MBCallRecord { ch_name: server_name@, method: method@, args: handed@ },
            );
        }
        call_outcome(ret, status)
    }
}

} // verus!
