//! `PRINT`: prints a string of the client, line by line.

use vstd::prelude::*;
use super::MBAsyncRPC;
use super::MBAsyncRPCError;
use super::MBAsyncRPCResult;
use super::MBPoll;
use super::emit_lines;
use super::empty_resp;
use super::spec_buf_after;
use super::spec_empty_resp;
use super::spec_out_after;
use crate::mb_channel::MBReqEntry;
use crate::mb_channel::MBReqView;
use crate::mb_channel::MBRespEntry;
use crate::mb_rpcs::MBAction;
use crate::mb_rpcs::MBRpc;
use crate::mb_rpcs::MBStringArgs;
use crate::mb_rpcs::spec_print_entry;
use crate::mb_std::mb_ptr_resolver::MBPtrReader;
use crate::mb_std::mb_ptr_resolver::MBPtrResolver;
use crate::mb_std::mb_ptr_resolver::spec_read_slice;

verus! {

/// `PRINT(len, ptr)` with the text that the server holds back until a line
/// is complete.
pub struct MBPrint<'a> {
    pub buf: Vec<u8>,
    pub _marker: core::marker::PhantomData<&'a u8>,
}

impl<'a> MBPrint<'a> {
    pub fn new() -> (p: MBPrint<'a>)
        ensures
            p.buf@.len() == 0,
    {
        MBPrint { buf: Vec::new(), _marker: core::marker::PhantomData }
    }
}

impl<'a> MBRpc for MBPrint<'a> {
    type REQ = &'a MBStringArgs;

    type RESP = ();

    open spec fn req_valid(&self, req: &'a MBStringArgs) -> bool {
        true
    }

    open spec fn spec_put_req(&self, req: &'a MBStringArgs, entry: MBReqView) -> MBReqView {
        spec_print_entry(req, entry)
    }

    open spec fn spec_get_resp(&self, entry: MBRespEntry) -> () {
        ()
    }

    fn put_req(&self, req: &'a MBStringArgs, entry: &mut MBReqEntry) {
        entry.set_words(2);
        entry.set_action(MBAction::PRINT);
        entry.set_args(0, req.len);
        entry.set_args(1, req.ptr);
    }

    fn get_resp(&self, _entry: &MBRespEntry) -> (resp: ()) {
    }
}

/// The arguments that a `PRINT` request carries.
pub open spec fn spec_print_args(req: MBReqView) -> MBStringArgs {
    MBStringArgs { len: req.args[0], ptr: req.args[1] }
}

/// Reads the arguments of a `PRINT` request.
pub fn print_args(req: &MBReqEntry) -> (args: MBStringArgs)
    ensures
        args == spec_print_args(req@),
{
    MBStringArgs { len: req.args[0], ptr: req.args[1] }
}

/// What was encoded is what is decoded.
pub proof fn lemma_print_round_trip(req: &MBStringArgs, entry: MBReqView)
    requires
        entry.args.len() == crate::mb_channel::MB_MAX_ARGS,
    ensures
        spec_print_entry(req, entry).action == MBAction::PRINT,
        spec_print_entry(req, entry).words == 2,
        spec_print_args(spec_print_entry(req, entry)) == *req,
{
}

/// What serving a `PRINT` comes to. Where the string can be read, it is
/// taken into the line buffer, what the buffer holds is emitted once it
/// ends in a newline, and the response has no result word. Where it cannot
/// be read, the request is illegal and nothing changes.
pub open spec fn spec_print_post<R: MBPtrReader>(
    r: &R,
    name: Seq<u8>,
    req: MBReqView,
    buf0: Seq<u8>,
    buf1: Seq<u8>,
    out0: Seq<u8>,
    out1: Seq<u8>,
    p: MBPoll<MBAsyncRPCResult>,
) -> bool {
    match spec_read_slice(r, req.args[1] as int, req.args[0] as int) {
        Ok(s) => {
            &&& p == MBPoll::Ready(Ok::<_, MBAsyncRPCError>(spec_empty_resp()))
            &&& buf1 == spec_buf_after(buf0, s)
            &&& out1 == out0 + spec_out_after(name, buf0, s)
        },
        Err(_) => {
            &&& p == MBPoll::Ready(
                Err::<MBRespEntry, _>(MBAsyncRPCError::Illegal(MBAction::PRINT)),
            )
            &&& buf1 == buf0
            &&& out1 == out0
        },
    }
}

impl<'a, R: MBPtrResolver> MBAsyncRPC<R> for MBPrint<'a> {
    open spec fn inv(&self) -> bool {
        true
    }

    /// Reads the string and takes it into the line buffer; what the buffer
    /// holds is emitted once it ends in a newline. The response has no
    /// result word. The request is illegal where the string cannot be
    /// read.
    fn poll_cmd(
        &mut self,
        server_name: &[u8],
        r: &mut R,
        req: &MBReqEntry,
        out: &mut Vec<u8>,
    ) -> (p: MBPoll<MBAsyncRPCResult>)
        ensures
            final(r).mem() == old(r).mem(),
            spec_print_post(
                old(r),
                server_name@,
                req@,
                old(self).buf@,
                final(self).buf@,
                old(out)@,
                final(out)@,
                p,
            ),
    {
        let str_args = print_args(req);
        match r.read_str(&str_args) {
            Ok(s) => {
                emit_lines(server_name, &mut self.buf, s.as_slice(), out);
                MBPoll::Ready(Ok(empty_resp()))
            },
            Err(_) => MBPoll::Ready(Err(MBAsyncRPCError::Illegal(MBAction::PRINT))),
        }
    }
}

} // verus!
