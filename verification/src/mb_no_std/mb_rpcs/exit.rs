use vstd::prelude::*;
use crate::mb_no_std::mb_nb_channel::MBNbError;
use crate::mb_no_std::mb_nb_channel::MBNbSender;
use crate::mb_no_std::mb_nb_channel::spec_send_nb_post;
use crate::mb_rpcs::MBAction;
use crate::mb_rpcs::MBExit;
use crate::mb_rpcs::encode_entry;

verus! {

/// Tries to send `EXIT(code)`; no response is awaited.
pub fn mb_exit<SENDER: MBNbSender>(sender: &mut SENDER, code: u32) -> (r: Result<
    (),
    MBNbError<()>,
>)
    requires
        old(sender).inv(),
    ensures
        final(sender).inv(),
        spec_send_nb_post(
            old(sender).view(),
            final(sender).view(),
            r,
            encode_entry(MBAction::EXIT, seq![code], old(sender).staged()@),
        ),
{
    sender.send_nb(&MBExit, code)
}

} // verus!
