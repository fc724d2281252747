use vstd::prelude::*;
use crate::mb_no_std::mb_nb_channel::MBNbSendPhase;
use crate::mb_no_std::mb_nb_channel::MBNbSendStep;
use crate::mb_no_std::mb_nb_channel::MBNbSender;
use crate::mb_no_std::mb_nb_channel::spec_send_post;
use crate::mb_rpcs::MBAction;
use crate::mb_rpcs::MBMemSet;
use crate::mb_rpcs::MBMemSetArgs;
use crate::mb_rpcs::MBPtrT;
use crate::mb_rpcs::encode_entry;

verus! {

/// Goes on with `MEMSET(dest, data, len)`; done, it returns `dest`.
pub fn mb_memset<SENDER: MBNbSender>(
    sender: &mut SENDER,
    dest: MBPtrT,
    data: MBPtrT,
    len: MBPtrT,
    phase: MBNbSendPhase,
) -> (step: MBNbSendStep<MBPtrT>)
    requires
        old(sender).inv(),
    ensures
        final(sender).inv(),
        spec_send_post(
            old(sender).view(),
            final(sender).view(),
            phase,
            step,
            encode_entry(MBAction::MEMSET, seq![dest, data, len], old(sender).staged()@),
            dest,
        ),
{
    let memset_rpc = MBMemSet::new();
    let args = MBMemSetArgs { dest, data, len };
    match sender.send(&memset_rpc, &args, phase) {
        MBNbSendStep::Done(_) => MBNbSendStep::Done(dest),
        MBNbSendStep::Retry(p) => MBNbSendStep::Retry(p),
    }
}

} // verus!
