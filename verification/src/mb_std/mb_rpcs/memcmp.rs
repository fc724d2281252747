//! `MEMCMP`: compares bytes of the client's memory.

use vstd::prelude::*;
use super::MBAsyncRPC;
use super::MBAsyncRPCError;
use super::MBAsyncRPCResult;
use super::MBPoll;
use super::spec_word_resp;
use super::word_resp;
use crate::mb_channel::MBReqEntry;
use crate::mb_channel::MBReqView;
use crate::mb_rpcs::MBAction;
use crate::mb_rpcs::MBMemCmp;
use crate::mb_rpcs::MBMemCmpArgs;
use crate::mb_rpcs::MBRpc;
use crate::mb_rpcs::byte_diff;
use crate::mb_rpcs::i32_to_ptr;
use crate::mb_rpcs::spec_byte_diff;
use crate::mb_rpcs::spec_i32_to_ptr;
use crate::mb_rpcs::spec_int_to_ptr;
use crate::mb_rpcs::spec_word;
use crate::mb_rpcs::MBPtrT;
use crate::mb_std::mb_ptr_resolver::MBPtrReader;
use crate::mb_std::mb_ptr_resolver::MBPtrResolver;

verus! {

/// The arguments that a `MEMCMP` request carries.
pub open spec fn spec_memcmp_args(req: MBReqView) -> MBMemCmpArgs {
    MBMemCmpArgs { s1: req.args[0], s2: req.args[1], len: req.args[2] }
}

/// Reads the arguments of a `MEMCMP` request.
pub fn memcmp_args(req: &MBReqEntry) -> (args: MBMemCmpArgs)
    ensures
        args == spec_memcmp_args(req@),
{
    MBMemCmpArgs { s1: req.args[0], s2: req.args[1], len: req.args[2] }
}

/// What was encoded is what is decoded, and the answer comes back as it
/// was given.
pub proof fn lemma_memcmp_round_trip(rpc: MBMemCmp, req: &MBMemCmpArgs, entry: MBReqView, v: i32)
    requires
        entry.args.len() == crate::mb_channel::MB_MAX_ARGS,
    ensures
        rpc.spec_put_req(req, entry).action == MBAction::MEMCMP,
        rpc.spec_put_req(req, entry).words == 3,
        spec_memcmp_args(rpc.spec_put_req(req, entry)) == *req,
        rpc.spec_get_resp(spec_word_resp(spec_i32_to_ptr(v))) == v,
{
}

/// Whether byte `k` of the range at `s` can be read.
pub open spec fn spec_readable<R: MBPtrReader>(r: &R, s: MBPtrT, k: int) -> bool {
    r.covers(s + k, 1)
}

/// Byte `k` of the range at `s`.
pub open spec fn spec_byte<R: MBPtrReader>(r: &R, s: MBPtrT, k: int) -> u8 {
    r.mem()[s + k]
}

/// The result of comparing `len` bytes at `s1` and `s2` from byte `i` on:
/// the difference of the first pair of bytes that differ, 0 where none
/// does; nothing where a byte in front of that pair cannot be read.
pub open spec fn spec_memcmp_from<R: MBPtrReader>(
    r: &R,
    s1: MBPtrT,
    s2: MBPtrT,
    len: MBPtrT,
    i: int,
) -> Option<int>
    decreases len - i,
{
    if i < 0 || i >= len {
        Some(0)
    } else if !spec_readable(r, s1, i) || !spec_readable(r, s2, i) {
        None
    } else if spec_byte(r, s1, i) != spec_byte(r, s2, i) {
        Some(spec_byte_diff(spec_byte(r, s1, i), spec_byte(r, s2, i)))
    } else {
        spec_memcmp_from(r, s1, s2, len, i + 1)
    }
}

/// The result of comparing `len` bytes at `s1` and `s2`.
pub open spec fn spec_memcmp<R: MBPtrReader>(r: &R, s1: MBPtrT, s2: MBPtrT, len: MBPtrT) -> Option<
    int,
> {
    spec_memcmp_from(r, s1, s2, len, 0)
}

/// What a `MEMCMP` request comes to: one result word, the difference as
/// a signed number; illegal where a byte cannot be read.
pub open spec fn spec_memcmp_result<R: MBPtrReader>(r: &R, args: MBMemCmpArgs)
    -> MBAsyncRPCResult {
    match spec_memcmp(r, args.s1, args.s2, args.len) {
        Some(d) => Ok(spec_word_resp(spec_int_to_ptr(d))),
        None => Err(MBAsyncRPCError::Illegal(MBAction::MEMCMP)),
    }
}

/// Compares `len` bytes at `s1` and `s2`, byte by byte, up to the first
/// pair that differs. The request is illegal where a byte cannot be read.
pub fn memcmp<R: MBPtrResolver>(r: &R, args: &MBMemCmpArgs) -> (res: MBAsyncRPCResult)
    requires
        r.inv(),
    ensures
        res == spec_memcmp_result(r, *args),
{
    let mut i: u32 = 0;
    while i < args.len
        invariant
            i <= args.len,
            r.inv(),
            spec_memcmp(r, args.s1, args.s2, args.len) == spec_memcmp_from(
                r,
                args.s1,
                args.s2,
                args.len,
                spec_word(i),
            ),
        decreases args.len - i,
    {
        let a1 = args.s1.checked_add(i);
        let a2 = args.s2.checked_add(i);
        proof {
            if r.covers(args.s1 + i, 1) {
                r.lemma_covers(args.s1 + i, 1);
            }
            if r.covers(args.s2 + i, 1) {
                r.lemma_covers(args.s2 + i, 1);
            }
        }
        let (p1, p2) = match (a1, a2) {
            (Some(p1), Some(p2)) => (p1, p2),
            _ => {
                return Err(MBAsyncRPCError::Illegal(MBAction::MEMCMP));
            },
        };
        let b1 = match r.read_u8(p1) {
            Ok(b) => b,
            Err(_) => {
                return Err(MBAsyncRPCError::Illegal(MBAction::MEMCMP));
            },
        };
        let b2 = match r.read_u8(p2) {
            Ok(b) => b,
            Err(_) => {
                return Err(MBAsyncRPCError::Illegal(MBAction::MEMCMP));
            },
        };
        if b1 != b2 {
            let d = byte_diff(b1, b2);
            return Ok(word_resp(i32_to_ptr(d)));
        }
        i = i + 1;
    }
    let zero: i32 = 0;
    Ok(word_resp(i32_to_ptr(zero)))
}

/// Where all bytes can be read, the result is zero exactly if the two
/// ranges hold the same bytes; else it is the difference of the first pair
/// of bytes that differ, and so has the sign of that difference.
pub proof fn lemma_memcmp_law<R: MBPtrReader>(r: &R, s1: MBPtrT, s2: MBPtrT, len: MBPtrT, i: int)
    requires
        0 <= i <= len,
        forall|k: int| i <= k < len ==> #[trigger] spec_readable(r, s1, k),
        forall|k: int| i <= k < len ==> #[trigger] spec_readable(r, s2, k),
    ensures
        spec_memcmp_from(r, s1, s2, len, i) is Some,
        spec_memcmp_from(r, s1, s2, len, i) == Some(0int) <==> forall|k: int|
            i <= k < len ==> #[trigger] spec_byte(r, s1, k) == spec_byte(r, s2, k),
        spec_memcmp_from(r, s1, s2, len, i) != Some(0int) ==> exists|k: int|
            i <= k < len && #[trigger] spec_byte(r, s1, k) != spec_byte(r, s2, k) && (forall|
                j: int,
            |
                i <= j < k ==> #[trigger] spec_byte(r, s1, j) == spec_byte(r, s2, j))
                && spec_memcmp_from(r, s1, s2, len, i) == Some(
                spec_byte(r, s1, k) - spec_byte(r, s2, k),
            ),
    decreases len - i,
{
    if i < len {
        assert(spec_readable(r, s1, i) && spec_readable(r, s2, i));
        if spec_byte(r, s1, i) != spec_byte(r, s2, i) {
            assert(i <= i < len && spec_byte(r, s1, i) != spec_byte(r, s2, i));
        } else {
            lemma_memcmp_law(r, s1, s2, len, i + 1);
            if spec_memcmp_from(r, s1, s2, len, i + 1) != Some(0int) {
                let k = choose|k: int|
                    i + 1 <= k < len && #[trigger] spec_byte(r, s1, k) != spec_byte(r, s2, k) && (
                    forall|j: int|
                        i + 1 <= j < k ==> #[trigger] spec_byte(r, s1, j) == spec_byte(r, s2, j))
                        && spec_memcmp_from(r, s1, s2, len, i + 1) == Some(
                        spec_byte(r, s1, k) - spec_byte(r, s2, k),
                    );
                assert(i <= k < len && spec_byte(r, s1, k) != spec_byte(r, s2, k));
                assert forall|j: int| i <= j < k implies #[trigger] spec_byte(r, s1, j)
                    == spec_byte(r, s2, j) by {
                    if j > i {
                    }
                }
            }
        }
    }
}

impl<'a, R: MBPtrResolver> MBAsyncRPC<R> for MBMemCmp<'a> {
    open spec fn inv(&self) -> bool {
        true
    }

    fn poll_cmd(
        &mut self,
        server_name: &[u8],
        r: &mut R,
        req: &MBReqEntry,
        out: &mut Vec<u8>,
    ) -> (p: MBPoll<MBAsyncRPCResult>)
        ensures
            final(out)@ == old(out)@,
            final(r).mem() == old(r).mem(),
            p matches MBPoll::Ready(res) && res == spec_memcmp_result(
                old(r),
                spec_memcmp_args(req@),
            ),
    {
        let args = memcmp_args(req);
        MBPoll::Ready(memcmp(r, &args))
    }
}

} // verus!
