//! The handlers of the built-in actions.

pub mod c_print;
pub mod memcmp;
pub mod memmove;
pub mod memset;
pub mod print;
pub mod exit;
pub mod stop_server;
pub mod call;
pub mod file_access;

use vstd::prelude::*;
use crate::mb_channel::MBReqEntry;
use crate::mb_channel::MBReqView;
use crate::mb_channel::MBRespEntry;
use crate::mb_rpcs::MBAction;
use crate::mb_std::mb_ptr_resolver::MBPtrResolver;

verus! {

/// Why a request has no response.
#[derive(Debug, Clone, Copy, PartialEq, Eq, Structural)]
pub enum MBAsyncRPCError {
    /// The request is served and has no response.
    NoResp,
    /// The server of this channel shall stop.
    Stop,
    /// The request cannot be served; the dispatcher gives up.
    Illegal(MBAction),
}

/// What serving a request comes to: a response to send, or the reason why
/// there is none.
pub type MBAsyncRPCResult = Result<MBRespEntry, MBAsyncRPCError>;

/// The state of work that may have to wait.
#[derive(Debug, Clone, Copy)]
pub enum MBPoll<T> {
    /// The work is done.
    Ready(T),
    /// The work has to be taken up again later.
    Pending,
}

/// The response without result words.
pub open spec fn spec_empty_resp() -> MBRespEntry {
    MBRespEntry { words: 0, rets: 0 }
}

/// The response with one result word.
pub open spec fn spec_word_resp(v: u32) -> MBRespEntry {
    MBRespEntry { words: 1, rets: v }
}

/// The response with one result word.
pub fn word_resp(v: u32) -> (resp: MBRespEntry)
    ensures
        resp == spec_word_resp(v),
{
    MBRespEntry { words: 1, rets: v }
}

/// The response without result words.
pub fn empty_resp() -> (resp: MBRespEntry)
    ensures
        resp == spec_empty_resp(),
{
    MBRespEntry { words: 0, rets: 0 }
}

/// The handler of an action. `out` takes the text that the handler emits;
/// the coverage of the client's memory does not change.
pub trait MBAsyncRPC<R: MBPtrResolver> {
    /// What the handler needs to work at all.
    spec fn inv(&self) -> bool;

    fn poll_cmd(
        &mut self,
        server_name: &[u8],
        r: &mut R,
        req: &MBReqEntry,
        out: &mut Vec<u8>,
    ) -> (p: MBPoll<MBAsyncRPCResult>)
        requires
            old(self).inv(),
            old(r).inv(),
        ensures
            final(self).inv(),
            final(r).inv(),
            forall|a: int, l: int| final(r).covers(a, l) == old(r).covers(a, l),
            old(out)@.is_prefix_of(final(out)@),
    ;
}

/// A handler that the deployment adds. Requests of action `OTHER` go to
/// the first such handler that claims the code in their first slot.
pub trait CustomAsycRPC<R: MBPtrResolver>: MBAsyncRPC<R> {
    /// Whether the handler serves the code.
    spec fn spec_is_me(&self, action: u32) -> bool;

    fn is_me(&self, action: u32) -> (b: bool)
        requires
            self.inv(),
        ensures
            b == self.spec_is_me(action),
    ;
}

/// A line of output as the server emits it: the name of the channel in
/// brackets, a space, the text.
pub open spec fn spec_line_out(name: Seq<u8>, text: Seq<u8>) -> Seq<u8> {
    seq![0x5bu8] + name + seq![0x5du8, 0x20u8] + text
}

/// Whether text is held back: it does not end in a newline.
pub open spec fn spec_held(text: Seq<u8>) -> bool {
    text.len() == 0 || text.last() != 0x0a
}

/// What is held back after `s` arrived behind `buf`: both, as long as they
/// do not end in a newline.
pub open spec fn spec_buf_after(buf: Seq<u8>, s: Seq<u8>) -> Seq<u8> {
    if spec_held(buf + s) {
        buf + s
    } else {
        Seq::<u8>::empty()
    }
}

/// What is emitted when `s` arrives behind `buf`: nothing as long as the
/// text does not end in a newline, else all that was held back and `s`,
/// behind the name of the channel.
pub open spec fn spec_out_after(name: Seq<u8>, buf: Seq<u8>, s: Seq<u8>) -> Seq<u8> {
    if spec_held(buf + s) {
        Seq::<u8>::empty()
    } else {
        spec_line_out(name, buf + s)
    }
}

/// Takes the text `s` of a print into the line buffer `buf` and emits the
/// buffer to `out` once it ends in a newline.
pub fn emit_lines(server_name: &[u8], buf: &mut Vec<u8>, s: &[u8], out: &mut Vec<u8>)
    ensures
        final(buf)@ == spec_buf_after(old(buf)@, s@),
        final(out)@ == old(out)@ + spec_out_after(server_name@, old(buf)@, s@),
{
    buf.extend_from_slice(s);
    if buf.len() > 0 && buf[buf.len() - 1] == 0x0a {
        out.push(0x5b);
        out.extend_from_slice(server_name);
        out.push(0x5d);
        out.push(0x20);
        out.extend_from_slice(buf.as_slice());
        buf.clear();
    }
}

/// What a deployment provides to serve requests of action `OTHER`.
pub trait MBCustomHandler {
    fn serve(&mut self, server_name: &[u8], req: &MBReqEntry) -> MBPoll<MBAsyncRPCResult>;
}

/// What was handed to the handler of the deployment for one request, the
/// name of the channel and the request, and what the handler answered.
pub struct MBServedRecord {
    pub ch_name: Seq<u8>,
    pub req: MBReqView,
    pub answer: MBPoll<MBAsyncRPCResult>,
}

/// A handler of the deployment for the requests of action `OTHER` that
/// carry `code` in their first slot, with the record of what it served.
pub struct MBCustomCmd<H: MBCustomHandler> {
    pub code: u32,
    pub handler: H,
    pub served: Ghost<Seq<MBServedRecord>>,
}

impl<H: MBCustomHandler> MBCustomCmd<H> {
    pub fn new(code: u32, handler: H) -> (c: MBCustomCmd<H>)
        ensures
            c.code == code,
            c.handler == handler,
            c.served@.len() == 0,
    {
        MBCustomCmd { code, handler, served: Ghost(Seq::empty()) }
    }
}

impl<H: MBCustomHandler, R: MBPtrResolver> MBAsyncRPC<R> for MBCustomCmd<H> {
    open spec fn inv(&self) -> bool {
        true
    }

    /// Lets the handler of the deployment serve the request: the handler
    /// is handed the name of the channel and the request, once, and what
    /// it answers is returned. Neither the client's memory nor the output
    /// changes.
    fn poll_cmd(
        &mut self,
        server_name: &[u8],
        r: &mut R,
        req: &MBReqEntry,
        out: &mut Vec<u8>,
    ) -> (p: MBPoll<MBAsyncRPCResult>)
        ensures
            final(r).mem() == old(r).mem(),
            final(out)@ == old(out)@,
            final(self).code == old(self).code,
            final(self).served@ == old(self).served@.push(
                MBServedRecord { ch_name: server_name@, req: req@, answer: p },
            ),
    {
        let p = self.handler.serve(server_name, req);
        proof {
            self.served@ = self.served@.push(
                MBServedRecord { ch_name: server_name@, req: req@, answer: p },
            );
        }
        p
    }
}

impl<H: MBCustomHandler, R: MBPtrResolver> CustomAsycRPC<R> for MBCustomCmd<H> {
    open spec fn spec_is_me(&self, action: u32) -> bool {
        action == self.code
    }

    fn is_me(&self, action: u32) -> (b: bool) {
        action == self.code
    }
}

} // verus!
