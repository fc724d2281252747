//! `EXIT`: the client is done.

use vstd::prelude::*;
use super::MBAsyncRPC;
use super::MBAsyncRPCError;
use super::MBAsyncRPCResult;
use super::MBPoll;
use crate::mb_channel::MBReqEntry;
use crate::mb_channel::MBReqView;
use crate::mb_channel::MBRespEntry;
use crate::mb_rpcs::MBExit;
use crate::mb_rpcs::MBRpc;
use crate::mb_std::mb_ptr_resolver::MBPtrResolver;

verus! {

/// The exit code that an `EXIT` request carries.
pub open spec fn spec_exit_code(req: MBReqView) -> u32 {
    req.args[0]
}

/// Reads the exit code of an `EXIT` request.
pub fn exit_code(req: &MBReqEntry) -> (code: u32)
    ensures
        code == spec_exit_code(req@),
{
    req.args[0]
}

/// What was encoded is what is decoded.
pub proof fn lemma_exit_round_trip(code: u32, entry: MBReqView)
    requires
        entry.args.len() == crate::mb_channel::MB_MAX_ARGS,
    ensures
        MBExit.spec_put_req(code, entry).action == crate::mb_rpcs::MBAction::EXIT,
        MBExit.spec_put_req(code, entry).words == 1,
        spec_exit_code(MBExit.spec_put_req(code, entry)) == code,
{
}

impl<R: MBPtrResolver> MBAsyncRPC<R> for MBExit {
    open spec fn inv(&self) -> bool {
        true
    }

    /// Stops the server of the channel.
    fn poll_cmd(
        &mut self,
        server_name: &[u8],
        r: &mut R,
        req: &MBReqEntry,
        out: &mut Vec<u8>,
    ) -> (p: MBPoll<MBAsyncRPCResult>)
        ensures
            final(r).mem() == old(r).mem(),
            final(out)@ == old(out)@,
            p matches MBPoll::Ready(res) && res == Err::<MBRespEntry, _>(MBAsyncRPCError::Stop),
    {
        MBPoll::Ready(Err(MBAsyncRPCError::Stop))
    }
}

} // verus!
