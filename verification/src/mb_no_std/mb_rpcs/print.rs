use vstd::prelude::*;
use crate::mb_no_std::mb_nb_channel::MBNbSendPhase;
use crate::mb_no_std::mb_nb_channel::MBNbSendStep;
use crate::mb_no_std::mb_nb_channel::MBNbSender;
use crate::mb_no_std::mb_nb_channel::spec_send_post;
use crate::mb_channel::MBReqEntry;
use crate::mb_channel::MBReqView;
use crate::mb_channel::MBRespEntry;
use crate::mb_rpcs::MBAction;
use crate::mb_rpcs::MBPtrT;
use crate::mb_rpcs::MBRpc;
use crate::mb_rpcs::MBStringArgs;
use crate::mb_rpcs::spec_print_entry;

verus! {

/// Goes on with `PRINT(len, ptr)` for the string of `len` bytes at `ptr`.
pub fn mb_print<SENDER: MBNbSender>(
    sender: &mut SENDER,
    len: u32,
    ptr: MBPtrT,
    phase: MBNbSendPhase,
) -> (step: MBNbSendStep<()>)
    requires
        old(sender).inv(),
    ensures
        final(sender).inv(),
        spec_send_post(
            old(sender).view(),
            final(sender).view(),
            phase,
            step,
            spec_print_entry(&(MBStringArgs { len, ptr }), old(sender).staged()@),
            (),
        ),
{
    let print_rpc = MBPrint::new();
    let str_args = MBStringArgs { len, ptr };
    sender.send(&print_rpc, &str_args, phase)
}

/// `PRINT(len, ptr)`: two words.
pub struct MBPrint<'a> {
    _marker: core::marker::PhantomData<&'a u8>,
}

impl<'a> MBPrint<'a> {
    pub fn new() -> MBPrint<'a> {
        MBPrint { _marker: core::marker::PhantomData }
    }
}

impl<'a> MBRpc for MBPrint<'a> {
    type REQ = &'a MBStringArgs;

    type RESP = ();

    open spec fn req_valid(&self, req: &'a MBStringArgs) -> bool {
        true
    }

    open spec fn spec_put_req(&self, req: &'a MBStringArgs, entry: MBReqView) -> MBReqView {
        spec_print_entry(req, entry)
    }

    open spec fn spec_get_resp(&self, entry: MBRespEntry) -> () {
        ()
    }

    fn put_req(&self, req: &'a MBStringArgs, entry: &mut MBReqEntry) {
        entry.set_words(2);
        entry.set_action(MBAction::PRINT);
        entry.set_args(0, req.len);
        entry.set_args(1, req.ptr);
    }

    fn get_resp(&self, _entry: &MBRespEntry) -> (resp: ()) {
    }
}

} // verus!
