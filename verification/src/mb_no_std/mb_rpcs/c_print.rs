use vstd::prelude::*;
use crate::mb_no_std::mb_nb_channel::MBNbSendPhase;
use crate::mb_no_std::mb_nb_channel::MBNbSendStep;
use crate::mb_no_std::mb_nb_channel::spec_send_nb_post;
use crate::mb_no_std::mb_nb_channel::spec_send_post;
use crate::mb_channel::MBReqEntry;
use crate::mb_channel::MBReqView;
use crate::mb_channel::MBRespEntry;
use crate::mb_no_std::mb_nb_channel::MBNbError;
use crate::mb_no_std::mb_nb_channel::MBNbSender;
use crate::mb_rpcs::MBCStringArgs;
use crate::mb_rpcs::MBPtrT;
use crate::mb_rpcs::MBRpc;
use crate::mb_rpcs::MB_CPRINT_ARGS;
use crate::mb_rpcs::MB_CPRINT_DIRECT;
use crate::mb_rpcs::put_cprint_req;
use crate::mb_rpcs::spec_cprint_entry;

verus! {

/// The arguments of a `CPRINT` as they travel. `args` are the values of
/// the arguments and `args_addr` is where they lie in the client's memory,
/// one 32-bit word each: the arguments that do not travel in the entry are
/// read from there.
pub open spec fn spec_to_cstr_args(
    file: MBPtrT,
    pos: u32,
    fmt_str: MBPtrT,
    args: Seq<MBPtrT>,
    args_addr: MBPtrT,
    r: MBCStringArgs,
) -> bool {
    let dir = if args.len() <= MB_CPRINT_ARGS {
        args.len() as int
    } else {
        MB_CPRINT_DIRECT as int
    };
    &&& r.len == args.len() + 3
    &&& r.file == file
    &&& r.pos == pos
    &&& r.fmt_str == fmt_str
    &&& r.args@.subrange(0, dir) == args.subrange(0, dir)
    &&& r.rest_args == ((args_addr + 4 * dir) % 0x1_0000_0000) as MBPtrT
}

/// Goes on with a `CPRINT` of the format at `fmt_str`, printed at line
/// `pos` of the file whose name is at `file`. Where all arguments travel in
/// the entry, the call is done once the request is sent; else it waits for
/// the response, after which the arguments in memory are free again.
pub fn mb_cprint<SENDER: MBNbSender>(
    sender: &mut SENDER,
    fmt_str: MBPtrT,
    file: MBPtrT,
    pos: u32,
    args: &[MBPtrT],
    args_addr: MBPtrT,
    phase: MBNbSendPhase,
) -> (step: MBNbSendStep<()>)
    requires
        old(sender).inv(),
        args.len() + 3 <= u32::MAX,
    ensures
        final(sender).inv(),
        exists|c: MBCStringArgs|
            spec_to_cstr_args(file, pos, fmt_str, args@, args_addr, c) && if args@.len()
                > MB_CPRINT_ARGS {
                spec_send_post(
                    old(sender).view(),
                    final(sender).view(),
                    phase,
                    step,
                    spec_cprint_entry(&c, old(sender).staged()@),
                    (),
                )
            } else {
                &&& spec_send_nb_post(
                    old(sender).view(),
                    final(sender).view(),
                    if step is Done {
                        Ok(())
                    } else {
                        Err(MBNbError::<()>::WouldBlock)
                    },
                    spec_cprint_entry(&c, old(sender).staged()@),
                )
                &&& step is Retry ==> step == MBNbSendStep::<()>::Retry(MBNbSendPhase::Post)
            },
{
    let cprint_rpc = MBCPrint::new();
    let c_str_args = cprint_rpc.to_cstr_args(file, pos, fmt_str, args, args_addr);
    if c_str_args.rest_args_len() > 0 {
        sender.send(&cprint_rpc, &c_str_args, phase)
    } else {
        match sender.send_nb(&cprint_rpc, &c_str_args) {
            Ok(()) => MBNbSendStep::Done(()),
            Err(_) => MBNbSendStep::Retry(MBNbSendPhase::Post),
        }
    }
}

/// `CPRINT(fmt, file, pos, args..)`.
pub struct MBCPrint<'a> {
    _marker: core::marker::PhantomData<&'a u8>,
}

impl<'a> MBCPrint<'a> {
    pub fn new() -> MBCPrint<'a> {
        MBCPrint { _marker: core::marker::PhantomData }
    }

    /// The arguments of a `CPRINT` as they travel.
    pub fn to_cstr_args(
        &self,
        file: MBPtrT,
        pos: u32,
        fmt_str: MBPtrT,
        args: &[MBPtrT],
        args_addr: MBPtrT,
    ) -> (r: MBCStringArgs)
        requires
            args.len() + 3 <= u32::MAX,
        ensures
            spec_to_cstr_args(file, pos, fmt_str, args@, args_addr, r),
    {
        let n = args.len();
        let dir: usize = if n <= MB_CPRINT_ARGS {
            n
        } else {
            MB_CPRINT_DIRECT
        };
        let mut direct: [MBPtrT; MB_CPRINT_ARGS] = [0;MB_CPRINT_ARGS];
        let mut k: usize = 0;
        while k < dir
            invariant
                k <= dir <= MB_CPRINT_ARGS,
                dir <= args.len(),
                forall|i: int| 0 <= i < k ==> direct@[i] == args@[i],
            decreases dir - k,
        {
            direct[k] = args[k];
            k = k + 1;
        }
        assert(direct@.subrange(0, dir as int) =~= args@.subrange(0, dir as int));
        MBCStringArgs {
            len: n as u32 + 3,
            fmt_str,
            file,
            pos,
            args: direct,
            rest_args: args_addr.wrapping_add(4 * dir as u32),
        }
    }
}

impl<'a> MBRpc for MBCPrint<'a> {
    type REQ = &'a MBCStringArgs;

    type RESP = ();

    open spec fn req_valid(&self, req: &'a MBCStringArgs) -> bool {
        req.len >= 3
    }

    open spec fn spec_put_req(&self, req: &'a MBCStringArgs, entry: MBReqView) -> MBReqView {
        spec_cprint_entry(req, entry)
    }

    open spec fn spec_get_resp(&self, entry: MBRespEntry) -> () {
        ()
    }

    fn put_req(&self, req: &'a MBCStringArgs, entry: &mut MBReqEntry) {
        put_cprint_req(req, entry);
    }

    fn get_resp(&self, _entry: &MBRespEntry) -> (resp: ()) {
    }
}

} // verus!
