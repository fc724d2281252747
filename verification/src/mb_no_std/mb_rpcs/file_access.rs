use vstd::prelude::*;
use crate::mb_no_std::mb_nb_channel::MBNbError;
use crate::mb_no_std::mb_nb_channel::MBNbSendPhase;
use crate::mb_no_std::mb_nb_channel::MBNbSendStep;
use crate::mb_no_std::mb_nb_channel::MBNbSender;
use crate::mb_no_std::mb_nb_channel::spec_send_nb_post;
use crate::mb_no_std::mb_nb_channel::spec_send_post;
use crate::mb_no_std::mb_nb_channel::spec_send_takes;
use crate::mb_rpcs::MBAction;
use crate::mb_rpcs::MBFClose;
use crate::mb_rpcs::MBFOpen;
use crate::mb_rpcs::MBFOpenArgs;
use crate::mb_rpcs::MBFRead;
use crate::mb_rpcs::MBFReadArgs;
use crate::mb_rpcs::MBFSeek;
use crate::mb_rpcs::MBFSeekArgs;
use crate::mb_rpcs::MBFWrite;
use crate::mb_rpcs::MBFWriteArgs;
use crate::mb_rpcs::MBFileAction;
use crate::mb_rpcs::MBPtrT;
use crate::mb_rpcs::encode_entry;

verus! {

/// Goes on with `OPEN(path, flags)`; done, it returns the descriptor.
pub fn mb_fopen<SENDER: MBNbSender>(
    sender: &mut SENDER,
    path: MBPtrT,
    flags: u32,
    phase: MBNbSendPhase,
) -> (step: MBNbSendStep<u32>)
    requires
        old(sender).inv(),
    ensures
        final(sender).inv(),
        spec_send_post(
            old(sender).view(),
            final(sender).view(),
            phase,
            step,
            encode_entry(
                MBAction::FILEACCESS,
                seq![MBFileAction::OPEN.spec_code(), path, flags],
                old(sender).staged()@,
            ),
            spec_send_takes(old(sender).view(), final(sender).view(), phase).rets,
        ),
{
    let fopen_rpc = MBFOpen::new();
    let args = MBFOpenArgs { path, flags };
    sender.send(&fopen_rpc, &args, phase)
}

/// Tries to send `CLOSE(fd)`; no response is awaited.
pub fn mb_fclose<SENDER: MBNbSender>(sender: &mut SENDER, fd: u32) -> (r: Result<(), MBNbError<()>>)
    requires
        old(sender).inv(),
    ensures
        final(sender).inv(),
        spec_send_nb_post(
            old(sender).view(),
            final(sender).view(),
            r,
            encode_entry(
                MBAction::FILEACCESS,
                seq![MBFileAction::CLOSE.spec_code(), fd],
                old(sender).staged()@,
            ),
        ),
{
    let fclose_rpc = MBFClose;
    sender.send_nb(&fclose_rpc, fd)
}

/// Goes on with `READ(fd, ptr, len)`; done, it returns the number of bytes
/// read.
pub fn mb_fread<SENDER: MBNbSender>(
    sender: &mut SENDER,
    fd: u32,
    ptr: MBPtrT,
    len: MBPtrT,
    phase: MBNbSendPhase,
) -> (step: MBNbSendStep<usize>)
    requires
        old(sender).inv(),
    ensures
        final(sender).inv(),
        spec_send_post(
            old(sender).view(),
            final(sender).view(),
            phase,
            step,
            encode_entry(
                MBAction::FILEACCESS,
                seq![MBFileAction::READ.spec_code(), fd, ptr, len],
                old(sender).staged()@,
            ),
            spec_send_takes(old(sender).view(), final(sender).view(), phase).rets as usize,
        ),
{
    let fread_rpc = MBFRead::new();
    let args = MBFReadArgs { fd, ptr, len };
    sender.send(&fread_rpc, &args, phase)
}

/// Goes on with `WRITE(fd, ptr, len)`; done, it returns the number of
/// bytes written.
pub fn mb_fwrite<SENDER: MBNbSender>(
    sender: &mut SENDER,
    fd: u32,
    ptr: MBPtrT,
    len: MBPtrT,
    phase: MBNbSendPhase,
) -> (step: MBNbSendStep<usize>)
    requires
        old(sender).inv(),
    ensures
        final(sender).inv(),
        spec_send_post(
            old(sender).view(),
            final(sender).view(),
            phase,
            step,
            encode_entry(
                MBAction::FILEACCESS,
                seq![MBFileAction::WRITE.spec_code(), fd, ptr, len],
                old(sender).staged()@,
            ),
            spec_send_takes(old(sender).view(), final(sender).view(), phase).rets as usize,
        ),
{
    let fwrite_rpc = MBFWrite::new();
    let args = MBFWriteArgs { fd, ptr, len };
    sender.send(&fwrite_rpc, &args, phase)
}

/// Goes on with `SEEK(fd, pos)`; done, it returns the new position.
pub fn mb_fseek<SENDER: MBNbSender>(
    sender: &mut SENDER,
    fd: u32,
    pos: MBPtrT,
    phase: MBNbSendPhase,
) -> (step: MBNbSendStep<MBPtrT>)
    requires
        old(sender).inv(),
    ensures
        final(sender).inv(),
        spec_send_post(
            old(sender).view(),
            final(sender).view(),
            phase,
            step,
            encode_entry(
                MBAction::FILEACCESS,
                seq![MBFileAction::SEEK.spec_code(), fd, pos],
                old(sender).staged()@,
            ),
            spec_send_takes(old(sender).view(), final(sender).view(), phase).rets,
        ),
{
    let fseek_rpc = MBFSeek::new();
    let args = MBFSeekArgs { fd, pos };
    sender.send(&fseek_rpc, &args, phase)
}

} // verus!
