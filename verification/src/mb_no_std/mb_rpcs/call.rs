use vstd::prelude::*;
use crate::mb_no_std::mb_nb_channel::MBNbSendPhase;
use crate::mb_no_std::mb_nb_channel::MBNbSendStep;
use crate::mb_no_std::mb_nb_channel::MBNbSender;
use crate::mb_no_std::mb_nb_channel::spec_send_post;
use crate::mb_no_std::mb_nb_channel::spec_send_takes;
use crate::mb_rpcs::MBAction;
use crate::mb_rpcs::MBCall;
use crate::mb_rpcs::MBCallArgs;
use crate::mb_rpcs::MBPtrT;
use crate::mb_rpcs::MB_CALL_ARGS;
use crate::mb_rpcs::encode_entry;

verus! {

/// Goes on with `CALL(method, args..)` for the function of the host whose
/// name is at `method`; done, it returns the value of the call.
pub fn mb_call<SENDER: MBNbSender>(
    sender: &mut SENDER,
    method: MBPtrT,
    args: &[MBPtrT],
    phase: MBNbSendPhase,
) -> (step: MBNbSendStep<MBPtrT>)
    requires
        old(sender).inv(),
        args.len() <= MB_CALL_ARGS,
    ensures
        final(sender).inv(),
        spec_send_post(
            old(sender).view(),
            final(sender).view(),
            phase,
            step,
            encode_entry(MBAction::CALL, seq![method] + args@, old(sender).staged()@),
            spec_send_takes(old(sender).view(), final(sender).view(), phase).rets,
        ),
{
    let call_rpc = MBCall::new();
    let mut call_args = MBCallArgs { len: args.len() as u32, method, args: [0;MB_CALL_ARGS] };
    let mut k: usize = 0;
    while k < args.len()
        invariant
            k <= args.len() <= MB_CALL_ARGS,
            call_args.len == args.len(),
            call_args.method == method,
            forall|i: int| 0 <= i < k ==> call_args.args@[i] == args@[i],
        decreases args.len() - k,
    {
        call_args.args[k] = args[k];
        k = k + 1;
    }
    assert(call_args.args@.subrange(0, call_args.len as int) =~= args@);
    sender.send(&call_rpc, &call_args, phase)
}

} // verus!
