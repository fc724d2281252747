//! `MEMSET`: fills bytes of the client's memory.

use vstd::prelude::*;
use super::MBAsyncRPC;
use super::MBAsyncRPCError;
use super::MBAsyncRPCResult;
use super::MBPoll;
use super::empty_resp;
use super::spec_empty_resp;
use crate::mb_channel::MBReqEntry;
use crate::mb_channel::MBReqView;
use crate::mb_rpcs::MBAction;
use crate::mb_rpcs::MBMemSet;
use crate::mb_rpcs::MBMemSetArgs;
use crate::mb_rpcs::MBRpc;
use crate::mb_rpcs::low_byte;
use crate::mb_rpcs::spec_low_byte;
use crate::mb_std::mb_ptr_resolver::MBPtrReader;
use crate::mb_std::mb_ptr_resolver::MBPtrResolver;
use crate::mb_std::mb_rpcs::c_print::sprintf::format::push_n;
use crate::mb_std::mb_rpcs::c_print::sprintf::format::spec_repeat;
use crate::mb_std::mb_share_mem::share_mem::write_bytes;

verus! {

/// The arguments that a `MEMSET` request carries.
pub open spec fn spec_memset_args(req: MBReqView) -> MBMemSetArgs {
    MBMemSetArgs { dest: req.args[0], data: req.args[1], len: req.args[2] }
}

/// Reads the arguments of a `MEMSET` request.
pub fn memset_args(req: &MBReqEntry) -> (args: MBMemSetArgs)
    ensures
        args == spec_memset_args(req@),
{
    MBMemSetArgs { dest: req.args[0], data: req.args[1], len: req.args[2] }
}

/// What was encoded is what is decoded.
pub proof fn lemma_memset_round_trip(rpc: MBMemSet, req: &MBMemSetArgs, entry: MBReqView)
    requires
        entry.args.len() == crate::mb_channel::MB_MAX_ARGS,
    ensures
        rpc.spec_put_req(req, entry).action == MBAction::MEMSET,
        rpc.spec_put_req(req, entry).words == 3,
        spec_memset_args(rpc.spec_put_req(req, entry)) == *req,
{
}

/// Whether the fill can be made: the destination is covered.
pub open spec fn spec_memset_ok<R: MBPtrReader>(r: &R, args: MBMemSetArgs) -> bool {
    args.len == 0 || r.covers(args.dest as int, args.len as int)
}

/// What the request comes to: a response without result word, or, where
/// the memory does not cover it, an illegal request.
pub open spec fn spec_memset_result<R: MBPtrReader>(r: &R, args: MBMemSetArgs) -> MBAsyncRPCResult {
    if spec_memset_ok(r, args) {
        Ok(spec_empty_resp())
    } else {
        Err(MBAsyncRPCError::Illegal(MBAction::MEMSET))
    }
}

/// The memory after the fill: `len` bytes from `dest` on hold the low
/// eight bits of `data`.
pub open spec fn spec_memset_mem<R: MBPtrReader>(r: &R, args: MBMemSetArgs) -> Map<int, u8> {
    if spec_memset_ok(r, args) {
        write_bytes(
            r.mem(),
            args.dest as int,
            spec_repeat(spec_low_byte(args.data), args.len as int),
        )
    } else {
        r.mem()
    }
}

/// Fills `len` bytes from `dest` on with the low eight bits of `data`.
/// Where the destination is not covered, nothing is written and the
/// request is illegal.
pub fn memset<R: MBPtrResolver>(r: &mut R, args: &MBMemSetArgs) -> (res: MBAsyncRPCResult)
    requires
        old(r).inv(),
    ensures
        final(r).inv(),
        forall|a: int, l: int| final(r).covers(a, l) == old(r).covers(a, l),
        final(r).mem() == spec_memset_mem(old(r), *args),
        res == spec_memset_result(old(r), *args),
{
    let mut buf: Vec<u8> = Vec::new();
    push_n(&mut buf, low_byte(args.data), args.len as usize);
    match r.write_slice(args.dest, buf.as_slice()) {
        Ok(()) => Ok(empty_resp()),
        Err(_) => Err(MBAsyncRPCError::Illegal(MBAction::MEMSET)),
    }
}

impl<'a, R: MBPtrResolver> MBAsyncRPC<R> for MBMemSet<'a> {
    open spec fn inv(&self) -> bool {
        true
    }

    fn poll_cmd(
        &mut self,
        server_name: &[u8],
        r: &mut R,
        req: &MBReqEntry,
        out: &mut Vec<u8>,
    ) -> (p: MBPoll<MBAsyncRPCResult>)
        ensures
            final(out)@ == old(out)@,
            final(r).mem() == spec_memset_mem(old(r), spec_memset_args(req@)),
            p == MBPoll::Ready(spec_memset_result(old(r), spec_memset_args(req@))),
    {
        let args = memset_args(req);
        MBPoll::Ready(memset(r, &args))
    }
}

} // verus!
