//! `STOPSERVER`: the server of the channel shall stop.

use vstd::prelude::*;
use super::MBAsyncRPC;
use super::MBAsyncRPCError;
use super::MBAsyncRPCResult;
use super::MBPoll;
use crate::mb_channel::MBReqEntry;
use crate::mb_channel::MBReqView;
use crate::mb_channel::MBRespEntry;
use crate::mb_rpcs::MBRpc;
use crate::mb_rpcs::MBStopServer;
use crate::mb_std::mb_ptr_resolver::MBPtrResolver;

verus! {

/// A `STOPSERVER` request carries its action and no word.
pub proof fn lemma_stop_server_round_trip(entry: MBReqView)
    requires
        entry.args.len() == crate::mb_channel::MB_MAX_ARGS,
    ensures
        MBStopServer.spec_put_req((), entry).action == crate::mb_rpcs::MBAction::STOPSERVER,
        MBStopServer.spec_put_req((), entry).words == 0,
        MBStopServer.spec_put_req((), entry).args == entry.args,
{
}

impl<R: MBPtrResolver> MBAsyncRPC<R> for MBStopServer {
    open spec fn inv(&self) -> bool {
        true
    }

    /// Stops the server of the channel.
    fn poll_cmd(
        &mut self,
        server_name: &[u8],
        r: &mut R,
        req: &MBReqEntry,
        out: &mut Vec<u8>,
    ) -> (p: MBPoll<MBAsyncRPCResult>)
        ensures
            final(r).mem() == old(r).mem(),
            final(out)@ == old(out)@,
            p matches MBPoll::Ready(res) && res == Err::<MBRespEntry, _>(MBAsyncRPCError::Stop),
    {
        MBPoll::Ready(Err(MBAsyncRPCError::Stop))
    }
}

} // verus!
