//! Access to what the addresses of the client point at: bytes, words,
//! strings by length and strings that end in a zero byte.

use vstd::prelude::*;
use vstd::bytes::spec_u16_from_le_bytes;
use vstd::bytes::spec_u16_to_le_bytes;
use vstd::bytes::spec_u32_from_le_bytes;
use vstd::bytes::spec_u32_to_le_bytes;
use vstd::bytes::spec_u64_from_le_bytes;
use vstd::bytes::spec_u64_to_le_bytes;
use vstd::bytes::u16_from_le_bytes;
use vstd::bytes::u16_to_le_bytes;
use vstd::bytes::u32_from_le_bytes;
use vstd::bytes::u32_to_le_bytes;
use vstd::bytes::u64_from_le_bytes;
use vstd::bytes::u64_to_le_bytes;
use crate::mb_rpcs::MBPtrT;
use crate::mb_rpcs::MBStringArgs;
use crate::mb_std::mb_share_mem::share_mem::MBShareMem;
use crate::mb_std::mb_share_mem::share_mem::read_bytes;
use crate::mb_std::mb_share_mem::share_mem::write_bytes;

verus! {

/// The most bytes that a string ending in a zero byte may have, the zero
/// byte counted.
pub const MB_C_STR_MAX: usize = 4096;

/// Why an address could not be followed.
#[derive(Debug, Clone, Copy, PartialEq, Eq, Structural)]
pub enum MBPtrError {
    /// The memory does not cover the access.
    OutOfRange,
    /// No zero byte ends the string within `MB_C_STR_MAX` bytes.
    Overrun,
}

/// A result with its bytes as a sequence.
pub open spec fn bytes_view(r: Result<Vec<u8>, MBPtrError>) -> Result<Seq<u8>, MBPtrError> {
    match r {
        Ok(v) => Ok(v@),
        Err(e) => Err(e),
    }
}

/// Reads through addresses of the client. A transfer moves all of its
/// bytes or none.
pub trait MBPtrReader: Sized {
    /// What the resolver needs to work at all.
    spec fn inv(&self) -> bool;

    /// The bytes that can be reached, by address.
    spec fn mem(&self) -> Map<int, u8>;

    /// Whether one transfer can move `len` bytes at `addr`.
    spec fn covers(&self, addr: int, len: int) -> bool;

    /// A transfer that is covered lies in the memory and within the
    /// address space, and so does every part of it.
    proof fn lemma_covers(&self, addr: int, len: int)
        requires
            self.inv(),
            self.covers(addr, len),
            len > 0,
        ensures
            0 <= addr,
            addr + len <= 0x1_0000_0000,
            forall|a: int| addr <= a < addr + len ==> self.mem().dom().contains(a),
            forall|a: int, l: int|
                addr <= a && a + l <= addr + len && l > 0 ==> #[trigger] self.covers(a, l),
    ;

    /// Reads `len` bytes at `ptr`: all of them or, where they are not
    /// covered, none.
    fn try_read_slice(&self, ptr: MBPtrT, len: usize) -> (data: Vec<u8>)
        requires
            self.inv(),
        ensures
            len > 0 && self.covers(ptr as int, len as int) ==> data@ == read_bytes(
                self.mem(),
                ptr as int,
                len as int,
            ),
            !(len > 0 && self.covers(ptr as int, len as int)) ==> data@.len() == 0,
    ;

    /// Reads `len` bytes at `ptr`. Fails where the memory does not cover
    /// them.
    fn read_slice(&self, ptr: MBPtrT, len: usize) -> (r: Result<Vec<u8>, MBPtrError>)
        requires
            self.inv(),
        ensures
            r is Ok <==> len == 0 || self.covers(ptr as int, len as int),
            r matches Ok(v) ==> v@ == read_bytes(self.mem(), ptr as int, len as int),
            r matches Err(e) ==> e == MBPtrError::OutOfRange,
    {
        let data = self.try_read_slice(ptr, len);
        if data.len() == len {
            Ok(data)
        } else {
            Err(MBPtrError::OutOfRange)
        }
    }

    /// Reads the byte at `ptr`.
    fn read_u8(&self, ptr: MBPtrT) -> (r: Result<u8, MBPtrError>)
        requires
            self.inv(),
        ensures
            self.covers(ptr as int, 1) ==> r == Ok::<u8, MBPtrError>(self.mem()[ptr as int]),
            !self.covers(ptr as int, 1) ==> r == Err::<u8, MBPtrError>(MBPtrError::OutOfRange),
    {
        let data = self.try_read_slice(ptr, 1);
        if data.len() == 1 {
            Ok(data[0])
        } else {
            Err(MBPtrError::OutOfRange)
        }
    }

    /// Reads the 16-bit word at `ptr`, least significant byte first.
    fn read_u16(&self, ptr: MBPtrT) -> (r: Result<u16, MBPtrError>)
        requires
            self.inv(),
        ensures
            self.covers(ptr as int, 2) ==> r == Ok::<u16, MBPtrError>(
                spec_u16_from_le_bytes(read_bytes(self.mem(), ptr as int, 2)),
            ),
            !self.covers(ptr as int, 2) ==> r == Err::<u16, MBPtrError>(MBPtrError::OutOfRange),
    {
        let data = self.try_read_slice(ptr, 2);
        if data.len() == 2 {
            Ok(u16_from_le_bytes(data.as_slice()))
        } else {
            Err(MBPtrError::OutOfRange)
        }
    }

    /// Reads the 32-bit word at `ptr`, least significant byte first.
    fn read_u32(&self, ptr: MBPtrT) -> (r: Result<u32, MBPtrError>)
        requires
            self.inv(),
        ensures
            self.covers(ptr as int, 4) ==> r == Ok::<u32, MBPtrError>(
                spec_u32_from_le_bytes(read_bytes(self.mem(), ptr as int, 4)),
            ),
            !self.covers(ptr as int, 4) ==> r == Err::<u32, MBPtrError>(MBPtrError::OutOfRange),
    {
        let data = self.try_read_slice(ptr, 4);
        if data.len() == 4 {
            Ok(u32_from_le_bytes(data.as_slice()))
        } else {
            Err(MBPtrError::OutOfRange)
        }
    }

    /// Reads the 64-bit word at `ptr`, least significant byte first.
    fn read_u64(&self, ptr: MBPtrT) -> (r: Result<u64, MBPtrError>)
        requires
            self.inv(),
        ensures
            self.covers(ptr as int, 8) ==> r == Ok::<u64, MBPtrError>(
                spec_u64_from_le_bytes(read_bytes(self.mem(), ptr as int, 8)),
            ),
            !self.covers(ptr as int, 8) ==> r == Err::<u64, MBPtrError>(MBPtrError::OutOfRange),
    {
        let data = self.try_read_slice(ptr, 8);
        if data.len() == 8 {
            Ok(u64_from_le_bytes(data.as_slice()))
        } else {
            Err(MBPtrError::OutOfRange)
        }
    }
}

/// Writes through addresses of the client. A transfer moves all of its
/// bytes or none.
pub trait MBPtrWriter: MBPtrReader {
    /// Writes `data` at `ptr`: all of it or, where it is not covered, none.
    /// Returns the number of bytes written.
    fn try_write_slice(&mut self, ptr: MBPtrT, data: &[u8]) -> (n: usize)
        requires
            old(self).inv(),
        ensures
            final(self).inv(),
            forall|a: int, l: int| final(self).covers(a, l) == old(self).covers(a, l),
            data.len() > 0 && old(self).covers(ptr as int, data.len() as int) ==> n == data.len()
                && final(self).mem() == write_bytes(old(self).mem(), ptr as int, data@),
            !(data.len() > 0 && old(self).covers(ptr as int, data.len() as int)) ==> n == 0
                && final(self).mem() == old(self).mem(),
    ;

    /// Writes `data` at `ptr`. Fails, and writes nothing, where the memory
    /// does not cover it.
    fn write_slice(&mut self, ptr: MBPtrT, data: &[u8]) -> (r: Result<(), MBPtrError>)
        requires
            old(self).inv(),
        ensures
            final(self).inv(),
            forall|a: int, l: int| final(self).covers(a, l) == old(self).covers(a, l),
            r is Ok <==> data.len() == 0 || old(self).covers(ptr as int, data.len() as int),
            r is Ok ==> final(self).mem() == write_bytes(old(self).mem(), ptr as int, data@),
            r is Err ==> r == Err::<(), MBPtrError>(MBPtrError::OutOfRange) && final(self).mem()
                == old(self).mem(),
    {
        let n = self.try_write_slice(ptr, data);
        if n == data.len() {
            Ok(())
        } else {
            Err(MBPtrError::OutOfRange)
        }
    }

    /// Writes the byte `v` at `ptr`.
    fn write_u8(&mut self, ptr: MBPtrT, v: u8) -> (r: Result<(), MBPtrError>)
        requires
            old(self).inv(),
        ensures
            final(self).inv(),
            forall|a: int, l: int| final(self).covers(a, l) == old(self).covers(a, l),
            r is Ok <==> old(self).covers(ptr as int, 1),
            r is Ok ==> final(self).mem() == write_bytes(old(self).mem(), ptr as int, seq![v]),
            r is Err ==> r == Err::<(), MBPtrError>(MBPtrError::OutOfRange) && final(self).mem()
                == old(self).mem(),
    {
        let mut data: Vec<u8> = Vec::new();
        data.push(v);
        self.write_slice(ptr, data.as_slice())
    }

    /// Writes the 16-bit word `v` at `ptr`, least significant byte first.
    fn write_u16(&mut self, ptr: MBPtrT, v: u16) -> (r: Result<(), MBPtrError>)
        requires
            old(self).inv(),
        ensures
            final(self).inv(),
            forall|a: int, l: int| final(self).covers(a, l) == old(self).covers(a, l),
            r is Ok <==> old(self).covers(ptr as int, 2),
            r is Ok ==> final(self).mem() == write_bytes(
                old(self).mem(),
                ptr as int,
                spec_u16_to_le_bytes(v),
            ),
            r is Err ==> r == Err::<(), MBPtrError>(MBPtrError::OutOfRange) && final(self).mem()
                == old(self).mem(),
    {
        let data = u16_to_le_bytes(v);
        proof {
            vstd::bytes::lemma_auto_spec_u16_to_from_le_bytes();
        }
        self.write_slice(ptr, data.as_slice())
    }

    /// Writes the 32-bit word `v` at `ptr`, least significant byte first.
    fn write_u32(&mut self, ptr: MBPtrT, v: u32) -> (r: Result<(), MBPtrError>)
        requires
            old(self).inv(),
        ensures
            final(self).inv(),
            forall|a: int, l: int| final(self).covers(a, l) == old(self).covers(a, l),
            r is Ok <==> old(self).covers(ptr as int, 4),
            r is Ok ==> final(self).mem() == write_bytes(
                old(self).mem(),
                ptr as int,
                spec_u32_to_le_bytes(v),
            ),
            r is Err ==> r == Err::<(), MBPtrError>(MBPtrError::OutOfRange) && final(self).mem()
                == old(self).mem(),
    {
        let data = u32_to_le_bytes(v);
        proof {
            vstd::bytes::lemma_auto_spec_u32_to_from_le_bytes();
        }
        self.write_slice(ptr, data.as_slice())
    }

    /// Writes the 64-bit word `v` at `ptr`, least significant byte first.
    fn write_u64(&mut self, ptr: MBPtrT, v: u64) -> (r: Result<(), MBPtrError>)
        requires
            old(self).inv(),
        ensures
            final(self).inv(),
            forall|a: int, l: int| final(self).covers(a, l) == old(self).covers(a, l),
            r is Ok <==> old(self).covers(ptr as int, 8),
            r is Ok ==> final(self).mem() == write_bytes(
                old(self).mem(),
                ptr as int,
                spec_u64_to_le_bytes(v),
            ),
            r is Err ==> r == Err::<(), MBPtrError>(MBPtrError::OutOfRange) && final(self).mem()
                == old(self).mem(),
    {
        let data = u64_to_le_bytes(v);
        proof {
            vstd::bytes::lemma_auto_spec_u64_to_from_le_bytes();
        }
        self.write_slice(ptr, data.as_slice())
    }
}

/// Where the string at `ptr` ends, looking from its byte `i` on: the
/// offset of the first zero byte. `OutOfRange` where a byte in front of it
/// cannot be read, `Overrun` where none of the first `MB_C_STR_MAX` bytes
/// is zero.
pub open spec fn spec_c_str_end<R: MBPtrReader>(r: &R, ptr: int, i: int) -> Result<int, MBPtrError>
    decreases MB_C_STR_MAX - i,
{
    if i < 0 || i >= MB_C_STR_MAX {
        Err(MBPtrError::Overrun)
    } else if !r.covers(ptr + i, 1) {
        Err(MBPtrError::OutOfRange)
    } else if r.mem()[ptr + i] == 0 {
        Ok(i)
    } else {
        spec_c_str_end(r, ptr, i + 1)
    }
}

/// The string at `ptr`: the bytes in front of the first zero byte.
pub open spec fn spec_read_c_str<R: MBPtrReader>(r: &R, ptr: int) -> Result<Seq<u8>, MBPtrError> {
    match spec_c_str_end(r, ptr, 0) {
        Ok(n) => Ok(read_bytes(r.mem(), ptr, n)),
        Err(e) => Err(e),
    }
}

/// The bytes at `ptr`, `len` of them; `OutOfRange` where the memory does
/// not cover them.
pub open spec fn spec_read_slice<R: MBPtrReader>(r: &R, ptr: int, len: int) -> Result<
    Seq<u8>,
    MBPtrError,
> {
    if len <= 0 || r.covers(ptr, len) {
        Ok(read_bytes(r.mem(), ptr, len))
    } else {
        Err(MBPtrError::OutOfRange)
    }
}

/// Reads and writes through addresses of the client, strings among them.
pub trait MBPtrResolver: MBPtrWriter {
    /// Reads the string that `str_args` gives by length and address.
    fn read_str(&self, str_args: &MBStringArgs) -> (r: Result<Vec<u8>, MBPtrError>)
        requires
            self.inv(),
        ensures
            bytes_view(r) == spec_read_slice(self, str_args.ptr as int, str_args.len as int),
    {
        self.read_slice(str_args.ptr, str_args.len as usize)
    }

    /// Reads the string at `ptr` up to the zero byte that ends it.
    fn read_c_str(&self, ptr: MBPtrT) -> (r: Result<Vec<u8>, MBPtrError>)
        requires
            self.inv(),
        ensures
            bytes_view(r) == spec_read_c_str(self, ptr as int),
            r matches Ok(v) ==> v.len() < MB_C_STR_MAX,
    {
        let mut buf: Vec<u8> = Vec::new();
        let mut i: usize = 0;
        while i < MB_C_STR_MAX
            invariant
                i <= MB_C_STR_MAX,
                self.inv(),
                spec_c_str_end(self, ptr as int, 0) == spec_c_str_end(self, ptr as int, i as int),
                buf@ == read_bytes(self.mem(), ptr as int, i as int),
            decreases MB_C_STR_MAX - i,
        {
            if i as u64 > (u32::MAX - ptr) as u64 {
                proof {
                    if self.covers(ptr + i, 1) {
                        self.lemma_covers(ptr + i, 1);
                    }
                }
                return Err(MBPtrError::OutOfRange);
            }
            match self.read_u8(ptr + i as u32) {
                Err(e) => {
                    return Err(e);
                },
                Ok(b) => {
                    if b == 0 {
                        return Ok(buf);
                    }
                    buf.push(b);
                    i = i + 1;
                },
            }
        }
        Err(MBPtrError::Overrun)
    }
}

/// A resolver over memory that both peers reach.
pub struct MBSMPtrResolver<SM: MBShareMem> {
    pub sm: SM,
}

impl<SM: MBShareMem> MBSMPtrResolver<SM> {
    pub fn new(sm: SM) -> (r: MBSMPtrResolver<SM>)
        ensures
            r.sm == sm,
    {
        MBSMPtrResolver { sm }
    }
}

impl<SM: MBShareMem> MBPtrReader for MBSMPtrResolver<SM> {
    open spec fn inv(&self) -> bool {
        self.sm.inv()
    }

    open spec fn mem(&self) -> Map<int, u8> {
        self.sm.mem()
    }

    open spec fn covers(&self, addr: int, len: int) -> bool {
        self.sm.covers(addr, len)
    }

    proof fn lemma_covers(&self, addr: int, len: int) {
        self.sm.lemma_covers(addr, len);
    }

    fn try_read_slice(&self, ptr: MBPtrT, len: usize) -> (data: Vec<u8>) {
        self.sm.read(ptr, len)
    }
}

impl<SM: MBShareMem> MBPtrWriter for MBSMPtrResolver<SM> {
    fn try_write_slice(&mut self, ptr: MBPtrT, data: &[u8]) -> (n: usize) {
        self.sm.write(ptr, data)
    }
}

impl<SM: MBShareMem> MBPtrResolver for MBSMPtrResolver<SM> {

}

} // verus!
