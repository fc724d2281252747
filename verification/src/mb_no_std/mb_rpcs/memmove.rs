use vstd::prelude::*;
use crate::mb_no_std::mb_nb_channel::MBNbSendPhase;
use crate::mb_no_std::mb_nb_channel::MBNbSendStep;
use crate::mb_no_std::mb_nb_channel::MBNbSender;
use crate::mb_no_std::mb_nb_channel::spec_send_post;
use crate::mb_rpcs::MBAction;
use crate::mb_rpcs::MBMemMove;
use crate::mb_rpcs::MBMemMoveArgs;
use crate::mb_rpcs::MBPtrT;
use crate::mb_rpcs::encode_entry;

verus! {

/// Goes on with `MEMMOVE(dest, src, len)`; done, it returns `dest`.
pub fn mb_memmove<SENDER: MBNbSender>(
    sender: &mut SENDER,
    dest: MBPtrT,
    src: MBPtrT,
    len: MBPtrT,
    phase: MBNbSendPhase,
) -> (step: MBNbSendStep<MBPtrT>)
    requires
        old(sender).inv(),
    ensures
        final(sender).inv(),
        spec_send_post(
            old(sender).view(),
            final(sender).view(),
            phase,
            step,
            encode_entry(MBAction::MEMMOVE, seq![dest, src, len], old(sender).staged()@),
            dest,
        ),
{
    let memmove_rpc = MBMemMove::new();
    let args = MBMemMoveArgs { dest, src, len };
    match sender.send(&memmove_rpc, &args, phase) {
        MBNbSendStep::Done(_) => MBNbSendStep::Done(dest),
        MBNbSendStep::Retry(p) => MBNbSendStep::Retry(p),
    }
}

} // verus!
