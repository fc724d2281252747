//! `FILEACCESS`: open, close, read, write and seek on files of the host.

use vstd::prelude::*;
use vstd::utf8::valid_utf8;
use super::MBAsyncRPC;
use super::MBAsyncRPCError;
use super::MBAsyncRPCResult;
use super::MBPoll;
use super::spec_word_resp;
use super::word_resp;
use crate::mb_channel::MBReqEntry;
use crate::mb_channel::MBReqView;
use crate::mb_channel::MBRespEntry;
use crate::mb_channel::MB_MAX_ARGS;
use crate::mb_rpcs::MBAction;
use crate::mb_rpcs::MBFClose;
use crate::mb_rpcs::MBFOpen;
use crate::mb_rpcs::MBFOpenArgs;
use crate::mb_rpcs::MBFRead;
use crate::mb_rpcs::MBFReadArgs;
use crate::mb_rpcs::MBFSeek;
use crate::mb_rpcs::MBFSeekArgs;
use crate::mb_rpcs::MBFWrite;
use crate::mb_rpcs::MBFWriteArgs;
use crate::mb_rpcs::MBFileAction;
use crate::mb_rpcs::MBPtrT;
use crate::mb_rpcs::MBRpc;
use crate::mb_std::mb_fs::MBFileOpener;
use crate::mb_std::mb_fs::MBFs;
use crate::mb_std::mb_fs::MBFsOp;
use crate::mb_std::mb_fs::spec_client_bytes;
use crate::mb_std::mb_fs::MBIoError;
use crate::mb_std::mb_fs::MBIoErrorKind;
use crate::mb_std::mb_ptr_resolver::MBPtrResolver;
use crate::mb_std::mb_ptr_resolver::spec_read_c_str;

verus! {

/// The result word that stands for a failed file operation.
pub const MB_FILE_ERR: MBPtrT = 0xffff_ffff;

/// What a `FILEACCESS` request asks for.
pub open spec fn spec_file_action(req: MBReqView) -> Option<MBFileAction> {
    MBFileAction::spec_from_code(req.args[0])
}

pub open spec fn spec_fopen_args(req: MBReqView) -> MBFOpenArgs {
    MBFOpenArgs { path: req.args[1], flags: req.args[2] }
}

pub open spec fn spec_fclose_fd(req: MBReqView) -> u32 {
    req.args[1]
}

pub open spec fn spec_fread_args(req: MBReqView) -> MBFReadArgs {
    MBFReadArgs { fd: req.args[1], ptr: req.args[2], len: req.args[3] }
}

pub open spec fn spec_fwrite_args(req: MBReqView) -> MBFWriteArgs {
    MBFWriteArgs { fd: req.args[1], ptr: req.args[2], len: req.args[3] }
}

pub open spec fn spec_fseek_args(req: MBReqView) -> MBFSeekArgs {
    MBFSeekArgs { fd: req.args[1], pos: req.args[2] }
}

/// Reads the arguments of an `OPEN`.
pub fn fopen_args(req: &MBReqEntry) -> (args: MBFOpenArgs)
    ensures
        args == spec_fopen_args(req@),
{
    MBFOpenArgs { path: req.args[1], flags: req.args[2] }
}

/// Reads the arguments of a `READ`.
pub fn fread_args(req: &MBReqEntry) -> (args: MBFReadArgs)
    ensures
        args == spec_fread_args(req@),
{
    MBFReadArgs { fd: req.args[1], ptr: req.args[2], len: req.args[3] }
}

/// Reads the arguments of a `WRITE`.
pub fn fwrite_args(req: &MBReqEntry) -> (args: MBFWriteArgs)
    ensures
        args == spec_fwrite_args(req@),
{
    MBFWriteArgs { fd: req.args[1], ptr: req.args[2], len: req.args[3] }
}

/// Reads the arguments of a `SEEK`.
pub fn fseek_args(req: &MBReqEntry) -> (args: MBFSeekArgs)
    ensures
        args == spec_fseek_args(req@),
{
    MBFSeekArgs { fd: req.args[1], pos: req.args[2] }
}

/// For each file operation, what was encoded is what is decoded, and the
/// result word comes back as it was given.
pub proof fn lemma_file_round_trip(
    rpc_open: MBFOpen,
    rpc_read: MBFRead,
    rpc_write: MBFWrite,
    rpc_seek: MBFSeek,
    open: &MBFOpenArgs,
    fd: u32,
    read: &MBFReadArgs,
    write: &MBFWriteArgs,
    seek: &MBFSeekArgs,
    entry: MBReqView,
    v: MBPtrT,
)
    requires
        entry.args.len() == MB_MAX_ARGS,
    ensures
        ({
            let e = rpc_open.spec_put_req(open, entry);
            e.action == MBAction::FILEACCESS && e.words == 3 && spec_file_action(e) == Some(
                MBFileAction::OPEN,
            ) && spec_fopen_args(e) == *open
        }),
        ({
            let e = MBFClose.spec_put_req(fd, entry);
            e.action == MBAction::FILEACCESS && e.words == 2 && spec_file_action(e) == Some(
                MBFileAction::CLOSE,
            ) && spec_fclose_fd(e) == fd
        }),
        ({
            let e = rpc_read.spec_put_req(read, entry);
            e.action == MBAction::FILEACCESS && e.words == 4 && spec_file_action(e) == Some(
                MBFileAction::READ,
            ) && spec_fread_args(e) == *read
        }),
        ({
            let e = rpc_write.spec_put_req(write, entry);
            e.action == MBAction::FILEACCESS && e.words == 4 && spec_file_action(e) == Some(
                MBFileAction::WRITE,
            ) && spec_fwrite_args(e) == *write
        }),
        ({
            let e = rpc_seek.spec_put_req(seek, entry);
            e.action == MBAction::FILEACCESS && e.words == 3 && spec_file_action(e) == Some(
                MBFileAction::SEEK,
            ) && spec_fseek_args(e) == *seek
        }),
        rpc_open.spec_get_resp(spec_word_resp(v)) == v,
        rpc_read.spec_get_resp(spec_word_resp(v)) == v,
        rpc_write.spec_get_resp(spec_word_resp(v)) == v,
        rpc_seek.spec_get_resp(spec_word_resp(v)) == v,
{
}

/// The low 32 bits of a count or a position.
pub open spec fn spec_low_word(v: u64) -> MBPtrT {
    (v % 0x1_0000_0000) as MBPtrT
}

/// The low 32 bits of a count or a position.
pub fn low_word(v: u64) -> (w: MBPtrT)
    ensures
        w == spec_low_word(v),
{
    assert(v & 0xffff_ffff == v % 0x1_0000_0000) by (bit_vector);
    (v & 0xffff_ffff) as MBPtrT
}

/// What a file operation with a response comes to: its value as the
/// result word; pending where the file would block; the result word
/// `MB_FILE_ERR` on any other failure.
pub open spec fn spec_file_outcome(value: Option<u64>, kind: MBIoErrorKind) -> MBPoll<
    MBAsyncRPCResult,
> {
    match value {
        Some(v) => MBPoll::Ready(Ok(spec_word_resp(spec_low_word(v)))),
        None => if kind == MBIoErrorKind::WouldBlock {
            MBPoll::Pending
        } else {
            MBPoll::Ready(Ok(spec_word_resp(MB_FILE_ERR)))
        },
    }
}

/// The value and the kind of failure that a result holds.
pub open spec fn spec_value_of(res: Result<u64, MBIoError>) -> Option<u64> {
    match res {
        Ok(v) => Some(v),
        Err(_) => None,
    }
}

/// The kind of failure that a result holds; `Other` where it holds none.
pub open spec fn spec_kind_of(res: Result<u64, MBIoError>) -> MBIoErrorKind {
    match res {
        Ok(_) => MBIoErrorKind::Other,
        Err(e) => e.kind,
    }
}

/// What a file operation with a response comes to.
pub fn file_outcome(res: Result<u64, MBIoError>) -> (p: MBPoll<MBAsyncRPCResult>)
    ensures
        p == spec_file_outcome(spec_value_of(res), spec_kind_of(res)),
{
    match res {
        Ok(v) => MBPoll::Ready(Ok(word_resp(low_word(v)))),
        Err(e) => match e.kind {
            MBIoErrorKind::WouldBlock => MBPoll::Pending,
            _ => MBPoll::Ready(Ok(word_resp(MB_FILE_ERR))),
        },
    }
}

/// A count of bytes as a result that `file_outcome` takes.
fn count_result(res: Result<usize, MBIoError>) -> (r: Result<u64, MBIoError>)
    ensures
        res matches Ok(n) ==> r == Ok::<u64, MBIoError>(n as u64),
        res matches Err(e) ==> r == Err::<u64, MBIoError>(e),
{
    match res {
        Ok(n) => Ok(n as u64),
        Err(e) => Err(e),
    }
}

/// The answer of a file operation that failed.
pub open spec fn spec_file_failed() -> MBPoll<MBAsyncRPCResult> {
    MBPoll::Ready(Ok(spec_word_resp(MB_FILE_ERR)))
}

/// What serving a `FILEACCESS` comes to, from the files `fs0` and the
/// client's memory in `r0` to `fs1` and `r1`. The request is illegal, and
/// nothing changes, where the first slot names no file operation. `CLOSE`
/// has no response, and its descriptor is closed after it. Every other
/// operation comes to what its value or the kind of its failure says; the
/// descriptor that an `OPEN` answers with is the next of the table and is
/// open after it. An `OPEN` whose path cannot be read or is no text fails
/// and asks no opener; else it asks none or asks as the opening of the
/// expanded path asks. A `READ`, a `WRITE` and a `SEEK` of a descriptor
/// that is not open fail; else the file is asked for the bytes, asked to
/// take the bytes of the client's memory, or asked to move. Only a `READ`
/// changes the client's memory; only `OPEN` and `CLOSE` change the table
/// of open files.
pub open spec fn spec_file_post<O: MBFileOpener, R: MBPtrResolver>(
    fs0: &MBFs<O>,
    fs1: &MBFs<O>,
    r0: &R,
    r1: &R,
    req: MBReqView,
    p: MBPoll<MBAsyncRPCResult>,
) -> bool {
    let asked0 = fs0.inner.asked@;
    let asked1 = fs1.inner.asked@;
    match spec_file_action(req) {
        None => {
            &&& p == MBPoll::Ready(
                Err::<MBRespEntry, _>(MBAsyncRPCError::Illegal(MBAction::FILEACCESS)),
            )
            &&& fs1.inner.fds@ == fs0.inner.fds@
            &&& r1.mem() == r0.mem()
            &&& asked1 == asked0
        },
        Some(MBFileAction::CLOSE) => {
            &&& p == MBPoll::Ready(Err::<MBRespEntry, _>(MBAsyncRPCError::NoResp))
            &&& !fs1.inner.is_open(spec_fclose_fd(req))
            &&& r1.mem() == r0.mem()
            &&& asked1 == asked0
        },
        Some(MBFileAction::OPEN) => {
            let args = spec_fopen_args(req);
            &&& exists|value: Option<u64>, kind: MBIoErrorKind| p == spec_file_outcome(value, kind)
            &&& r1.mem() == r0.mem()
            &&& p matches MBPoll::Ready(Ok(resp)) ==> (resp.rets != MB_FILE_ERR ==> resp.rets
                == fs0.inner.file_fd_cnt && fs1.inner.is_open(resp.rets))
            &&& match spec_read_c_str(r0, args.path as int) {
                Err(_) => p == spec_file_failed() && asked1 == asked0,
                Ok(path) => {
                    &&& !valid_utf8(path) ==> p == spec_file_failed() && asked1 == asked0
                    &&& asked1 == asked0 || exists|q: Seq<u8>|
                        asked1 == #[trigger] fs0.spec_asked_after_open(q, args.flags)
                },
            }
        },
        Some(MBFileAction::READ) => {
            let args = spec_fread_args(req);
            &&& exists|value: Option<u64>, kind: MBIoErrorKind| p == spec_file_outcome(value, kind)
            &&& fs1.inner.fds@ == fs0.inner.fds@
            &&& asked1 == fs0.inner.spec_asked_after(
                args.fd,
                MBFsOp::Read { fd: args.fd, len: args.len as usize },
            )
            &&& !fs0.inner.is_open(args.fd) ==> p == spec_file_failed() && r1.mem() == r0.mem()
        },
        Some(MBFileAction::WRITE) => {
            let args = spec_fwrite_args(req);
            &&& exists|value: Option<u64>, kind: MBIoErrorKind| p == spec_file_outcome(value, kind)
            &&& fs1.inner.fds@ == fs0.inner.fds@
            &&& r1.mem() == r0.mem()
            &&& asked1 == fs0.inner.spec_asked_after(
                args.fd,
                MBFsOp::Write {
                    fd: args.fd,
                    data: spec_client_bytes(r0, args.ptr, args.len as usize),
                },
            )
            &&& !fs0.inner.is_open(args.fd) ==> p == spec_file_failed()
        },
        Some(MBFileAction::SEEK) => {
            let args = spec_fseek_args(req);
            &&& exists|value: Option<u64>, kind: MBIoErrorKind| p == spec_file_outcome(value, kind)
            &&& fs1.inner.fds@ == fs0.inner.fds@
            &&& r1.mem() == r0.mem()
            &&& asked1 == fs0.inner.spec_asked_after(
                args.fd,
                MBFsOp::Seek { fd: args.fd, pos: args.pos as u64 },
            )
            &&& !fs0.inner.is_open(args.fd) ==> p == spec_file_failed()
        },
    }
}

impl<O: MBFileOpener, R: MBPtrResolver> MBAsyncRPC<R> for MBFs<O> {
    open spec fn inv(&self) -> bool {
        MBFs::inv(self)
    }

    /// Serves the file operation that the first slot names. `CLOSE` has no
    /// response. The others answer with one result word: the descriptor,
    /// the count of bytes or the position, or `MB_FILE_ERR` where the
    /// operation fails; a read or write that would block is pending. The
    /// request is illegal where the first slot names no file operation.
    fn poll_cmd(
        &mut self,
        server_name: &[u8],
        r: &mut R,
        req: &MBReqEntry,
        out: &mut Vec<u8>,
    ) -> (p: MBPoll<MBAsyncRPCResult>)
        ensures
            final(out)@ == old(out)@,
            spec_file_post(old(self), final(self), old(r), final(r), req@, p),
    {
        match MBFileAction::from_code(req.args[0]) {
            Some(MBFileAction::OPEN) => {
                let args = fopen_args(req);
                let path = match r.read_c_str(args.path) {
                    Ok(p) => p,
                    Err(_) => {
                        let p = MBPoll::Ready(Ok(word_resp(MB_FILE_ERR)));
                        assert(p == spec_file_outcome(None, MBIoErrorKind::Other));
                        return p;
                    },
                };
                let res = match self.open(path.as_slice(), args.flags) {
                    Ok(fd) => {
                        assert(self.inner.fds@[self.inner.fds@.len() - 1] == fd);
                        Ok(fd as u64)
                    },
                    Err(e) => Err(e),
                };
                file_outcome(res)
            },
            Some(MBFileAction::CLOSE) => {
                let _ = self.close(req.args[1]);
                MBPoll::Ready(Err(MBAsyncRPCError::NoResp))
            },
            Some(MBFileAction::READ) => {
                let args = fread_args(req);
                let res = count_result(self.read(r, args.fd, args.ptr, args.len as usize));
                file_outcome(res)
            },
            Some(MBFileAction::WRITE) => {
                let args = fwrite_args(req);
                let res = count_result(self.write(&*r, args.fd, args.ptr, args.len as usize));
                file_outcome(res)
            },
            Some(MBFileAction::SEEK) => {
                let args = fseek_args(req);
                let res = self.seek(args.fd, args.pos as u64);
                file_outcome(res)
            },
            None => MBPoll::Ready(Err(MBAsyncRPCError::Illegal(MBAction::FILEACCESS))),
        }
    }
}

} // verus!
