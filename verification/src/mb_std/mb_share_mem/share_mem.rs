//! Byte-addressed memory: the interface, a block that is a buffer of this
//! process, and a space that routes each access to the block that holds
//! the address.

use vstd::prelude::*;
use crate::mb_rpcs::MBPtrT;

verus! {

/// Memory `m` with `data` written from `addr` on.
pub open spec fn write_bytes(m: Map<int, u8>, addr: int, data: Seq<u8>) -> Map<int, u8> {
    Map::new(
        |a: int| m.dom().contains(a),
        |a: int|
            if addr <= a < addr + data.len() {
                data[a - addr]
            } else {
                m[a]
            },
    )
}

/// The `len` bytes of memory `m` from `addr` on.
pub open spec fn read_bytes(m: Map<int, u8>, addr: int, len: int) -> Seq<u8> {
    Seq::new(
        if len > 0 {
            len as nat
        } else {
            0
        },
        |i: int| m[addr + i],
    )
}

/// Byte-addressed memory. A transfer moves all of its bytes or none:
/// one that the memory cannot cover moves none.
pub trait MBShareMem {
    /// What the memory needs to work at all.
    spec fn inv(&self) -> bool;

    /// The bytes that the memory holds, by address.
    spec fn mem(&self) -> Map<int, u8>;

    /// Whether one transfer can move `len` bytes at `addr`.
    spec fn covers(&self, addr: int, len: int) -> bool;

    /// A transfer that is covered lies in the memory and within the
    /// address space; one of no bytes is covered nowhere less.
    proof fn lemma_covers(&self, addr: int, len: int)
        requires
            self.inv(),
            self.covers(addr, len),
            len > 0,
        ensures
            0 <= addr,
            addr + len <= 0x1_0000_0000,
            forall|a: int| addr <= a < addr + len ==> self.mem().dom().contains(a),
            forall|a: int, l: int|
                addr <= a && a + l <= addr + len && l > 0 ==> #[trigger] self.covers(a, l),
    ;

    /// Writes `data` at `addr`; returns the number of bytes written, which
    /// is all of them or, where the memory does not cover them, none.
    fn write(&mut self, addr: MBPtrT, data: &[u8]) -> (n: usize)
        requires
            old(self).inv(),
        ensures
            final(self).inv(),
            forall|a: int, l: int| final(self).covers(a, l) == old(self).covers(a, l),
            data.len() > 0 && old(self).covers(addr as int, data.len() as int) ==> n == data.len()
                && final(self).mem() == write_bytes(old(self).mem(), addr as int, data@),
            !(data.len() > 0 && old(self).covers(addr as int, data.len() as int)) ==> n == 0
                && final(self).mem() == old(self).mem(),
    ;

    /// Reads `len` bytes at `addr`: all of them or, where the memory does
    /// not cover them, none.
    fn read(&self, addr: MBPtrT, len: usize) -> (data: Vec<u8>)
        requires
            self.inv(),
        ensures
            len > 0 && self.covers(addr as int, len as int) ==> data@ == read_bytes(
                self.mem(),
                addr as int,
                len as int,
            ),
            !(len > 0 && self.covers(addr as int, len as int)) ==> data@.len() == 0,
    ;
}

/// A block of memory: the addresses from `base` to `base + size - 1`.
pub trait MBShareMemBlock: MBShareMem {
    spec fn spec_base(&self) -> MBPtrT;

    spec fn spec_size(&self) -> MBPtrT;

    /// A block holds at least one byte, lies within the address space,
    /// holds exactly the addresses of its range and covers exactly the
    /// transfers that lie in it.
    proof fn lemma_block(&self)
        requires
            self.inv(),
        ensures
            self.spec_size() >= 1,
            self.spec_base() + self.spec_size() <= 0x1_0000_0000,
            forall|a: int|
                self.mem().dom().contains(a) <==> self.spec_base() <= a < self.spec_base()
                    + self.spec_size(),
            forall|a: int, l: int|
                l > 0 ==> (#[trigger] self.covers(a, l) <==> self.spec_base() <= a && a + l
                    <= self.spec_base() + self.spec_size()),
    ;

    fn base(&self) -> (b: MBPtrT)
        requires
            self.inv(),
        ensures
            b == self.spec_base(),
    ;

    fn size(&self) -> (s: MBPtrT)
        requires
            self.inv(),
        ensures
            s == self.spec_size(),
    ;

    /// The last address of the block.
    fn end_addr(&self) -> (e: MBPtrT)
        requires
            self.inv(),
        ensures
            e == self.spec_base() + self.spec_size() - 1,
    {
        proof {
            self.lemma_block();
        }
        (self.size() - 1) + self.base()
    }

    /// Whether the block holds `addr`.
    fn in_range(&self, addr: MBPtrT) -> (b: bool)
        requires
            self.inv(),
        ensures
            b == (self.spec_base() <= addr < self.spec_base() + self.spec_size()),
    {
        addr >= self.base() && addr <= self.end_addr()
    }
}

/// A block that is a buffer of this process.
pub struct MBBufferMem {
    pub base: MBPtrT,
    pub data: Vec<u8>,
}

impl MBBufferMem {
    /// A block of `size` zero bytes at `base`; none where the block would
    /// be empty or reach beyond the address space.
    pub fn new(base: MBPtrT, size: MBPtrT) -> (r: Option<MBBufferMem>)
        ensures
            r is Some <==> size >= 1 && base + size <= 0x1_0000_0000,
            r matches Some(m) ==> m.inv() && m.spec_base() == base && m.spec_size() == size
                && forall|a: int| base <= a < base + size ==> m.mem()[a] == 0,
    {
        if size == 0 || size - 1 > u32::MAX - base {
            return None;
        }
        let mut data: Vec<u8> = Vec::new();
        let mut k: u32 = 0;
        while k < size
            invariant
                k <= size,
                data.len() == k,
                forall|i: int| 0 <= i < k ==> data@[i] == 0,
            decreases size - k,
        {
            data.push(0);
            k = k + 1;
        }
        Some(MBBufferMem { base, data })
    }
}

impl MBShareMem for MBBufferMem {
    open spec fn inv(&self) -> bool {
        1 <= self.data.len() <= u32::MAX && self.base + self.data.len() <= 0x1_0000_0000
    }

    open spec fn mem(&self) -> Map<int, u8> {
        Map::new(
            |a: int| self.base <= a < self.base + self.data.len(),
            |a: int| self.data@[a - self.base],
        )
    }

    open spec fn covers(&self, addr: int, len: int) -> bool {
        len > 0 ==> self.base <= addr && addr + len <= self.base + self.data.len()
    }

    proof fn lemma_covers(&self, addr: int, len: int) {
    }

    fn write(&mut self, addr: MBPtrT, data: &[u8]) -> (n: usize) {
        let len = data.len();
        if len == 0 || addr < self.base {
            return 0;
        }
        let off: usize = (addr - self.base) as usize;
        if off >= self.data.len() || len > self.data.len() - off {
            return 0;
        }
        let mut k: usize = 0;
        while k < len
            invariant
                k <= len,
                len == data.len(),
                off + len <= self.data.len(),
                self.base == old(self).base,
                self.data.len() == old(self).data.len(),
                forall|i: int|
                    0 <= i < self.data.len() ==> self.data@[i] == if off <= i < off + k {
                        data@[i - off]
                    } else {
                        old(self).data@[i]
                    },
            decreases len - k,
        {
            self.data[off + k] = data[k];
            k = k + 1;
        }
        len
    }

    fn read(&self, addr: MBPtrT, len: usize) -> (data: Vec<u8>) {
        let mut out: Vec<u8> = Vec::new();
        if len == 0 || addr < self.base {
            return out;
        }
        let off: usize = (addr - self.base) as usize;
        if off >= self.data.len() || len > self.data.len() - off {
            return out;
        }
        let mut k: usize = 0;
        while k < len
            invariant
                k <= len,
                off + len <= self.data.len(),
                out.len() == k,
                forall|i: int| 0 <= i < k ==> out@[i] == self.data@[off + i],
            decreases len - k,
        {
            out.push(self.data[off + k]);
            k = k + 1;
        }
        out
    }
}

impl MBShareMemBlock for MBBufferMem {
    open spec fn spec_base(&self) -> MBPtrT {
        self.base
    }

    open spec fn spec_size(&self) -> MBPtrT {
        self.data.len() as MBPtrT
    }

    proof fn lemma_block(&self) {
    }

    fn base(&self) -> (b: MBPtrT) {
        self.base
    }

    fn size(&self) -> (s: MBPtrT) {
        self.data.len() as MBPtrT
    }
}

/// Memory made of blocks that share no address. Each access goes to the
/// block that holds its first address.
pub struct MBShareMemSpace<M: MBShareMemBlock> {
    pub mems: Vec<M>,
}

impl<M: MBShareMemBlock> MBShareMemSpace<M> {
    /// Whether block `i` holds the address `a`.
    pub open spec fn holds(&self, i: int, a: int) -> bool {
        0 <= i < self.mems@.len() && self.mems@[i].mem().dom().contains(a)
    }

    /// The block that holds the address `a`.
    pub open spec fn owner(&self, a: int) -> int {
        choose|i: int| self.holds(i, a)
    }

    /// Whether block `i` covers a transfer.
    pub open spec fn block_covers(&self, i: int, addr: int, len: int) -> bool {
        0 <= i < self.mems@.len() && self.mems@[i].covers(addr, len)
    }

    /// A space without blocks.
    pub fn new() -> (s: MBShareMemSpace<M>)
        ensures
            s.inv(),
            s.mems@.len() == 0,
    {
        MBShareMemSpace { mems: Vec::new() }
    }

    /// The index of the block that holds `addr`.
    fn find_index(&self, addr: MBPtrT) -> (r: Option<usize>)
        requires
            self.inv(),
        ensures
            r matches Some(i) ==> self.holds(i as int, addr as int),
            r is None ==> forall|i: int| !self.holds(i, addr as int),
    {
        let mut k: usize = 0;
        while k < self.mems.len()
            invariant
                k <= self.mems.len(),
                self.inv(),
                forall|i: int| 0 <= i < k ==> !self.holds(i, addr as int),
            decreases self.mems.len() - k,
        {
            proof {
                self.mems@[k as int].lemma_block();
            }
            if self.mems[k].in_range(addr) {
                return Some(k);
            }
            k = k + 1;
        }
        None
    }

    /// The block that holds `addr`, if there is one.
    pub fn find_mem_by_addr(&self, addr: MBPtrT) -> (r: Option<&M>)
        requires
            self.inv(),
        ensures
            r matches Some(m) ==> self.holds(self.owner(addr as int), addr as int) && *m
                == self.mems@[self.owner(addr as int)],
            r is None ==> forall|i: int| !self.holds(i, addr as int),
    {
        match self.find_index(addr) {
            Some(i) => {
                proof {
                    self.lemma_owner(i as int, addr as int);
                }
                Some(&self.mems[i])
            },
            None => None,
        }
    }

    /// No address lies in two blocks: the block that holds an address is
    /// its owner.
    pub proof fn lemma_owner(&self, i: int, a: int)
        requires
            self.inv(),
            self.holds(i, a),
        ensures
            self.owner(a) == i,
    {
        let j = self.owner(a);
        assert(self.holds(j, a));
    }

    /// Adds a block. Fails with `"Overlapped!"`, and leaves the space as it
    /// is, where the block shares an address with one that is there.
    pub fn add_mem(&mut self, mem: M) -> (r: Result<(), &'static str>)
        requires
            old(self).inv(),
            mem.inv(),
        ensures
            final(self).inv(),
            r is Ok <==> forall|i: int, a: int|
                !(old(self).holds(i, a) && mem.mem().dom().contains(a)),
            r is Ok ==> final(self).mems@ == old(self).mems@.push(mem),
            r is Err ==> final(self).mems@ == old(self).mems@,
    {
        let base = mem.base();
        let end = mem.end_addr();
        proof {
            mem.lemma_block();
        }
        let mut k: usize = 0;
        while k < self.mems.len()
            invariant
                k <= self.mems.len(),
                self.inv(),
                *self == *old(self),
                mem.inv(),
                base == mem.spec_base(),
                end == mem.spec_base() + mem.spec_size() - 1,
                forall|i: int, a: int|
                    0 <= i < k ==> !(self.holds(i, a) && mem.mem().dom().contains(a)),
            decreases self.mems.len() - k,
        {
            proof {
                self.mems@[k as int].lemma_block();
                mem.lemma_block();
            }
            let b = self.mems[k].base();
            let e = self.mems[k].end_addr();
            if !(end < b || e < base) {
                proof {
                    let a: int = if base >= b {
                        base as int
                    } else {
                        b as int
                    };
                    assert(self.holds(k as int, a) && mem.mem().dom().contains(a));
                }
                return Err("Overlapped!");
            }
            k = k + 1;
        }
        self.mems.push(mem);
        proof {
            assert forall|i: int, j: int, a: int|
                !(i != j && self.holds(i, a) && self.holds(j, a)) by {
                if i != j && self.holds(i, a) && self.holds(j, a) {
                    if i < old(self).mems@.len() && j < old(self).mems@.len() {
                        assert(old(self).holds(i, a) && old(self).holds(j, a));
                    } else if i < old(self).mems@.len() {
                        assert(old(self).holds(i, a));
                    } else {
                        assert(old(self).holds(j, a));
                    }
                }
            }
        }
        Ok(())
    }
}

impl<M: MBShareMemBlock> MBShareMem for MBShareMemSpace<M> {
    open spec fn inv(&self) -> bool {
        &&& forall|i: int| 0 <= i < self.mems@.len() ==> (#[trigger] self.mems@[i]).inv()
        &&& forall|i: int, j: int, a: int|
            !(i != j && #[trigger] self.holds(i, a) && #[trigger] self.holds(j, a))
    }

    open spec fn mem(&self) -> Map<int, u8> {
        Map::new(
            |a: int| exists|i: int| self.holds(i, a),
            |a: int| self.mems@[self.owner(a)].mem()[a],
        )
    }

    open spec fn covers(&self, addr: int, len: int) -> bool {
        len > 0 ==> exists|i: int| self.block_covers(i, addr, len)
    }

    proof fn lemma_covers(&self, addr: int, len: int) {
        let i = choose|i: int| self.block_covers(i, addr, len);
        assert(self.block_covers(i, addr, len));
        self.mems@[i].lemma_covers(addr, len);
        assert forall|a: int| addr <= a < addr + len implies self.mem().dom().contains(a) by {
            assert(self.holds(i, a));
        }
        assert forall|a: int, l: int| addr <= a && a + l <= addr + len && l > 0 implies #[trigger]
            self.covers(a, l) by {
            assert(self.mems@[i].covers(a, l));
            assert(self.block_covers(i, a, l));
        }
    }

    fn write(&mut self, addr: MBPtrT, data: &[u8]) -> (n: usize) {
        match self.find_index(addr) {
            Some(i) => {
                let ghost before = self.mems@[i as int];
                let mut block = self.mems.remove(i);
                let n = block.write(addr, data);
                self.mems.insert(i, block);
                proof {
                    let after = self.mems@[i as int];
                    assert(self.mems@ =~= old(self).mems@.update(i as int, after));
                    assert(after.mem().dom() =~= before.mem().dom());
                    assert forall|j: int, a: int| self.holds(j, a) == old(self).holds(j, a) by {
                        if 0 <= j < self.mems@.len() {
                            if j != i {
                                assert(self.mems@[j] == old(self).mems@[j]);
                            }
                        }
                    }
                    assert(self.inv());
                    assert forall|a: int, l: int| self.covers(a, l) == old(self).covers(a, l) by {
                        assert forall|j: int|
                            self.block_covers(j, a, l) == old(self).block_covers(j, a, l) by {
                            if 0 <= j < self.mems@.len() && j != i {
                                assert(self.mems@[j] == old(self).mems@[j]);
                            }
                        }
                    }
                    old(self).lemma_owner(i as int, addr as int);
                    if data.len() > 0 && old(self).covers(addr as int, data.len() as int) {
                        let c = choose|c: int|
                            old(self).block_covers(c, addr as int, data.len() as int);
                        assert(old(self).block_covers(c, addr as int, data.len() as int));
                        old(self).mems@[c].lemma_covers(addr as int, data.len() as int);
                        assert(old(self).holds(c, addr as int));
                        assert(c == i);
                        before.lemma_covers(addr as int, data.len() as int);
                        assert forall|a: int| #[trigger]
                            self.mem().dom().contains(a) implies self.mem()[a] == write_bytes(
                            old(self).mem(),
                            addr as int,
                            data@,
                        )[a] by {
                            let o = self.owner(a);
                            assert(self.holds(o, a));
                            assert(old(self).holds(o, a));
                            old(self).lemma_owner(o, a);
                            if o != i {
                                assert(self.mems@[o] == old(self).mems@[o]);
                                if addr <= a < addr + data.len() {
                                    assert(old(self).holds(i as int, a));
                                }
                            }
                        }
                        assert(self.mem() =~= write_bytes(old(self).mem(), addr as int, data@));
                    } else {
                        if data.len() > 0 && before.covers(addr as int, data.len() as int) {
                            assert(old(self).block_covers(
                                i as int,
                                addr as int,
                                data.len() as int,
                            ));
                        }
                        assert forall|a: int| #[trigger]
                            self.mem().dom().contains(a) implies self.mem()[a] == old(
                            self,
                        ).mem()[a] by {
                            let o = self.owner(a);
                            assert(self.holds(o, a));
                            assert(old(self).holds(o, a));
                            old(self).lemma_owner(o, a);
                            if o != i {
                                assert(self.mems@[o] == old(self).mems@[o]);
                            }
                        }
                        assert(self.mem() =~= old(self).mem());
                    }
                }
                n
            },
            None => {
                proof {
                    if data.len() > 0 && self.covers(addr as int, data.len() as int) {
                        let c = choose|c: int|
                            self.block_covers(c, addr as int, data.len() as int);
                        assert(self.block_covers(c, addr as int, data.len() as int));
                        self.mems@[c].lemma_covers(addr as int, data.len() as int);
                        assert(self.holds(c, addr as int));
                    }
                }
                0
            },
        }
    }

    fn read(&self, addr: MBPtrT, len: usize) -> (data: Vec<u8>) {
        match self.find_index(addr) {
            Some(i) => {
                let data = self.mems[i].read(addr, len);
                proof {
                    self.lemma_owner(i as int, addr as int);
                    if len > 0 && self.covers(addr as int, len as int) {
                        let c = choose|c: int| self.block_covers(c, addr as int, len as int);
                        assert(self.block_covers(c, addr as int, len as int));
                        self.mems@[c].lemma_covers(addr as int, len as int);
                        assert(self.holds(c, addr as int));
                        assert(c == i);
                        let want = read_bytes(self.mem(), addr as int, len as int);
                        assert forall|k: int| 0 <= k < len implies data@[k] == #[trigger] want[k] by {
                            assert(self.holds(i as int, addr + k));
                            self.lemma_owner(i as int, addr + k);
                        }
                        assert(data@ =~= want);
                    } else if len > 0 && self.mems@[i as int].covers(addr as int, len as int) {
                        assert(self.block_covers(i as int, addr as int, len as int));
                    }
                }
                data
            },
            None => {
                proof {
                    if len > 0 && self.covers(addr as int, len as int) {
                        let c = choose|c: int| self.block_covers(c, addr as int, len as int);
                        assert(self.block_covers(c, addr as int, len as int));
                        self.mems@[c].lemma_covers(addr as int, len as int);
                        assert(self.holds(c, addr as int));
                    }
                }
                Vec::new()
            },
        }
    }
}

} // verus!
