use vstd::prelude::*;
use crate::mb_no_std::mb_nb_channel::MBNbSendPhase;
use crate::mb_no_std::mb_nb_channel::MBNbSendStep;
use crate::mb_no_std::mb_nb_channel::MBNbSender;
use crate::mb_no_std::mb_nb_channel::spec_send_post;
use crate::mb_no_std::mb_nb_channel::spec_send_takes;
use crate::mb_rpcs::MBAction;
use crate::mb_rpcs::MBMemCmp;
use crate::mb_rpcs::MBMemCmpArgs;
use crate::mb_rpcs::MBPtrT;
use crate::mb_rpcs::encode_entry;
use crate::mb_rpcs::spec_ptr_to_i32;

verus! {

/// Goes on with `MEMCMP(s1, s2, len)`; done, it returns the signed
/// difference of the first pair of bytes that differ.
pub fn mb_memcmp<SENDER: MBNbSender>(
    sender: &mut SENDER,
    s1: MBPtrT,
    s2: MBPtrT,
    len: MBPtrT,
    phase: MBNbSendPhase,
) -> (step: MBNbSendStep<i32>)
    requires
        old(sender).inv(),
    ensures
        final(sender).inv(),
        spec_send_post(
            old(sender).view(),
            final(sender).view(),
            phase,
            step,
            encode_entry(MBAction::MEMCMP, seq![s1, s2, len], old(sender).staged()@),
            spec_ptr_to_i32(spec_send_takes(old(sender).view(), final(sender).view(), phase).rets),
        ),
{
    let memcmp_rpc = MBMemCmp::new();
    let args = MBMemCmpArgs { s1, s2, len };
    sender.send(&memcmp_rpc, &args, phase)
}

} // verus!
