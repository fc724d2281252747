//! `MEMMOVE`: copies bytes within the client's memory.

use vstd::prelude::*;
use super::MBAsyncRPC;
use super::MBAsyncRPCError;
use super::MBAsyncRPCResult;
use super::MBPoll;
use super::empty_resp;
use super::spec_empty_resp;
use crate::mb_channel::MBReqEntry;
use crate::mb_channel::MBReqView;
use crate::mb_rpcs::MBAction;
use crate::mb_rpcs::MBMemMove;
use crate::mb_rpcs::MBMemMoveArgs;
use crate::mb_rpcs::MBRpc;
use crate::mb_std::mb_ptr_resolver::MBPtrReader;
use crate::mb_std::mb_ptr_resolver::MBPtrResolver;
use crate::mb_std::mb_share_mem::share_mem::read_bytes;
use crate::mb_std::mb_share_mem::share_mem::write_bytes;

verus! {

/// The arguments that a `MEMMOVE` request carries.
pub open spec fn spec_memmove_args(req: MBReqView) -> MBMemMoveArgs {
    MBMemMoveArgs { dest: req.args[0], src: req.args[1], len: req.args[2] }
}

/// Reads the arguments of a `MEMMOVE` request.
pub fn memmove_args(req: &MBReqEntry) -> (args: MBMemMoveArgs)
    ensures
        args == spec_memmove_args(req@),
{
    MBMemMoveArgs { dest: req.args[0], src: req.args[1], len: req.args[2] }
}

/// What was encoded is what is decoded.
pub proof fn lemma_memmove_round_trip(rpc: MBMemMove, req: &MBMemMoveArgs, entry: MBReqView)
    requires
        entry.args.len() == crate::mb_channel::MB_MAX_ARGS,
    ensures
        rpc.spec_put_req(req, entry).action == MBAction::MEMMOVE,
        rpc.spec_put_req(req, entry).words == 3,
        spec_memmove_args(rpc.spec_put_req(req, entry)) == *req,
{
}

/// Whether the move can be made: source and destination are covered.
pub open spec fn spec_memmove_ok<R: MBPtrReader>(r: &R, args: MBMemMoveArgs) -> bool {
    args.len == 0 || (r.covers(args.src as int, args.len as int) && r.covers(
        args.dest as int,
        args.len as int,
    ))
}

/// What the request comes to: a response without result word, or, where
/// the memory does not cover it, an illegal request.
pub open spec fn spec_memmove_result<R: MBPtrReader>(r: &R, args: MBMemMoveArgs) -> MBAsyncRPCResult {
    if spec_memmove_ok(r, args) {
        Ok(spec_empty_resp())
    } else {
        Err(MBAsyncRPCError::Illegal(MBAction::MEMMOVE))
    }
}

/// The memory after the move: the destination holds what the source held
/// before.
pub open spec fn spec_memmove_mem<R: MBPtrReader>(r: &R, args: MBMemMoveArgs) -> Map<int, u8> {
    if spec_memmove_ok(r, args) {
        write_bytes(
            r.mem(),
            args.dest as int,
            read_bytes(r.mem(), args.src as int, args.len as int),
        )
    } else {
        r.mem()
    }
}

/// Copies `len` bytes from `src` to `dest` by way of a buffer, so that
/// ranges that overlap come out right. Where source or destination is not
/// covered, nothing is written and the request is illegal.
pub fn memmove<R: MBPtrResolver>(r: &mut R, args: &MBMemMoveArgs) -> (res: MBAsyncRPCResult)
    requires
        old(r).inv(),
    ensures
        final(r).inv(),
        forall|a: int, l: int| final(r).covers(a, l) == old(r).covers(a, l),
        final(r).mem() == spec_memmove_mem(old(r), *args),
        res == spec_memmove_result(old(r), *args),
{
    let buf = match r.read_slice(args.src, args.len as usize) {
        Ok(b) => b,
        Err(_) => {
            return Err(MBAsyncRPCError::Illegal(MBAction::MEMMOVE));
        },
    };
    match r.write_slice(args.dest, buf.as_slice()) {
        Ok(()) => Ok(empty_resp()),
        Err(_) => Err(MBAsyncRPCError::Illegal(MBAction::MEMMOVE)),
    }
}

/// After a move the destination holds what the source held before it,
/// however the two ranges overlap, and every byte outside the destination
/// is as it was.
pub proof fn lemma_memmove_is_memmove<R: MBPtrReader>(r: &R, args: MBMemMoveArgs)
    requires
        r.inv(),
        spec_memmove_ok(r, args),
    ensures
        read_bytes(spec_memmove_mem(r, args), args.dest as int, args.len as int) == read_bytes(
            r.mem(),
            args.src as int,
            args.len as int,
        ),
        forall|a: int|
            r.mem().dom().contains(a) && !(args.dest <= a < args.dest + args.len)
                ==> spec_memmove_mem(r, args)[a] == r.mem()[a],
        spec_memmove_mem(r, args).dom() == r.mem().dom(),
{
    if args.len > 0 {
        r.lemma_covers(args.dest as int, args.len as int);
    }
}

impl<'a, R: MBPtrResolver> MBAsyncRPC<R> for MBMemMove<'a> {
    open spec fn inv(&self) -> bool {
        true
    }

    fn poll_cmd(
        &mut self,
        server_name: &[u8],
        r: &mut R,
        req: &MBReqEntry,
        out: &mut Vec<u8>,
    ) -> (p: MBPoll<MBAsyncRPCResult>)
        ensures
            final(out)@ == old(out)@,
            final(r).mem() == spec_memmove_mem(old(r), spec_memmove_args(req@)),
            p == MBPoll::Ready(spec_memmove_result(old(r), spec_memmove_args(req@))),
    {
        let args = memmove_args(req);
        MBPoll::Ready(memmove(r, &args))
    }
}

} // verus!
