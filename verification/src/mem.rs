use vstd::prelude::*;

verus! {

/// The bytes of `mem` with `data` written at offset `at`; offsets outside
/// `[at, at + data.len())` keep their old byte.
pub open spec fn spec_write_bytes(mem: Seq<u8>, at: int, data: Seq<u8>) -> Seq<u8> {
    Seq::new(mem.len(), |i: int| if at <= i < at + data.len() { data[i - at] } else { mem[i] })
}

/// The little-endian 32-bit value stored at offset `off` of `mem`.
pub open spec fn le32_at(mem: Seq<u8>, off: int) -> int {
    mem[off] + mem[off + 1] * 0x100 + mem[off + 2] * 0x10000 + mem[off + 3] * 0x1000000
}

/// The four little-endian bytes of `v`.
pub open spec fn le32_bytes(v: u32) -> Seq<u8> {
    seq![
        (v % 0x100) as u8,
        ((v / 0x100) % 0x100) as u8,
        ((v / 0x10000) % 0x100) as u8,
        ((v / 0x1000000) % 0x100) as u8,
    ]
}

/// Reading back the little-endian encoding of `v` yields `v`.
pub proof fn lemma_le32_round_trip(v: u32)
    ensures
        le32_at(le32_bytes(v), 0) == v,
{
    assert(v % 0x100 + ((v / 0x100) % 0x100) * 0x100 + ((v / 0x10000) % 0x100) * 0x10000 + ((v
        / 0x1000000) % 0x100) * 0x1000000 == v) by (bit_vector);
}

/// A span of host-process memory: `bytes.len()` bytes starting at address
/// `base`, with a per-byte mask saying which bytes the host will let the
/// engine write (the model of page protection).
///
/// This is the "foreign memory view" the rest of the engine is verified
/// against: every patch and hook states its effect as a transformation of
/// the byte sequence held here. The unverified host layer mirrors such a
/// transformation onto the real code pages.
pub struct MemoryImage {
    base: usize,
    bytes: Vec<u8>,
    writable: Vec<bool>,
}

impl MemoryImage {
    /// The first address of the span.
    pub closed spec fn base_addr(&self) -> int {
        self.base as int
    }

    /// The bytes of the span, indexed from `0` (address `base_addr() + i`).
    pub closed spec fn contents(&self) -> Seq<u8> {
        self.bytes@
    }

    /// The per-byte writability mask, indexed like `contents()`.
    pub closed spec fn wmask(&self) -> Seq<bool> {
        self.writable@
    }

    pub open spec fn size(&self) -> int {
        self.contents().len() as int
    }

    pub open spec fn wf(&self) -> bool {
        &&& self.wmask().len() == self.contents().len()
        &&& self.base_addr() + self.size() <= usize::MAX
    }

    /// Whether the address range `[addr, addr + len)` lies inside the span.
    pub open spec fn contains_range(&self, addr: int, len: int) -> bool {
        self.base_addr() <= addr && addr + len <= self.base_addr() + self.size()
    }

    /// Whether every byte of `[addr, addr + len)` may be written.
    pub open spec fn range_writable(&self, addr: int, len: int) -> bool {
        forall|j: int|
            addr - self.base_addr() <= j < addr - self.base_addr() + len
                ==> #[trigger] self.wmask()[j]
    }

    /// The byte stored at address `addr`.
    pub open spec fn byte_at(&self, addr: int) -> u8 {
        self.contents()[addr - self.base_addr()]
    }

    pub fn new(base: usize, contents: Vec<u8>, writable: Vec<bool>) -> (r: MemoryImage)
        requires
            writable.len() == contents.len(),
            base + contents.len() <= usize::MAX,
        ensures
            r.wf(),
            r.base_addr() == base,
            r.contents() == contents@,
            r.wmask() == writable@,
    {
        MemoryImage { base, bytes: contents, writable }
    }

    pub fn base(&self) -> (r: usize)
        ensures
            r == self.base_addr(),
    {
        self.base
    }

    pub fn len(&self) -> (r: usize)
        ensures
            r == self.size(),
    {
        self.bytes.len()
    }

    /// Whether `[addr, addr + len)` lies inside the span.
    pub fn contains(&self, addr: usize, len: usize) -> (r: bool)
        requires
            self.wf(),
        ensures
            r == self.contains_range(addr as int, len as int),
    {
        addr >= self.base && len <= self.bytes.len() && addr - self.base <= self.bytes.len() - len
    }

    /// Whether `[addr, addr + len)` lies inside the span and every byte of
    /// it may be written.
    pub fn is_range_writable(&self, addr: usize, len: usize) -> (r: bool)
        requires
            self.wf(),
        ensures
            r == (self.contains_range(addr as int, len as int) && self.range_writable(
                addr as int,
                len as int,
            )),
    {
        if !self.contains(addr, len) {
            return false;
        }
        let off = addr - self.base;
        let mut i: usize = 0;
        while i < len
            invariant
                self.wf(),
                self.contains_range(addr as int, len as int),
                off == addr - self.base_addr(),
                i <= len,
                forall|j: int| off <= j < off + i ==> #[trigger] self.wmask()[j],
            decreases len - i,
        {
            if !self.writable[off + i] {
                return false;
            }
            i += 1;
        }
        true
    }

    pub fn read_byte(&self, addr: usize) -> (r: u8)
        requires
            self.wf(),
            self.contains_range(addr as int, 1),
        ensures
            r == self.byte_at(addr as int),
    {
        self.bytes[addr - self.base]
    }

    /// Copy `len` bytes starting at address `addr` out of the span.
    pub fn read_bytes(&self, addr: usize, len: usize) -> (r: Vec<u8>)
        requires
            self.wf(),
            self.contains_range(addr as int, len as int),
        ensures
            r@ == self.contents().subrange(
                addr - self.base_addr(),
                addr - self.base_addr() + len,
            ),
    {
        let off = addr - self.base;
        let mut r: Vec<u8> = Vec::new();
        let mut i: usize = 0;
        while i < len
            invariant
                self.wf(),
                self.contains_range(addr as int, len as int),
                off == addr - self.base_addr(),
                i <= len,
                r@ =~= self.contents().subrange(off as int, off + i),
            decreases len - i,
        {
            r.push(self.bytes[off + i]);
            i += 1;
        }
        assert(r@ =~= self.contents().subrange(off as int, off + len));
        r
    }

    /// Write `data` at address `addr`. The mask is the model of page
    /// protection, so writing requires the whole range to be writable; the
    /// fallible operations of the engine check this first and surface an
    /// error instead of calling here.
    pub fn write_bytes(&mut self, addr: usize, data: &Vec<u8>)
        requires
            old(self).wf(),
            old(self).contains_range(addr as int, data@.len() as int),
            old(self).range_writable(addr as int, data@.len() as int),
        ensures
            final(self).wf(),
            final(self).base_addr() == old(self).base_addr(),
            final(self).wmask() == old(self).wmask(),
            final(self).contents() == spec_write_bytes(
                old(self).contents(),
                addr - old(self).base_addr(),
                data@,
            ),
    {
        let off = addr - self.base;
        let len = data.len();
        let mut i: usize = 0;
        while i < len
            invariant
                self.wf(),
                self.base_addr() == old(self).base_addr(),
                self.wmask() == old(self).wmask(),
                self.contents().len() == old(self).contents().len(),
                len == data@.len(),
                old(self).contains_range(addr as int, len as int),
                off == addr - old(self).base_addr(),
                i <= len,
                forall|j: int| off <= j < off + i ==> self.contents()[j] == data@[j - off],
                forall|j: int|
                    0 <= j < self.contents().len() && !(off <= j < off + i)
                        ==> self.contents()[j] == old(self).contents()[j],
            decreases len - i,
        {
            self.bytes.set(off + i, data[i]);
            i += 1;
        }
        assert(self.contents() =~= spec_write_bytes(old(self).contents(), off as int, data@));
    }

    /// Read the little-endian 32-bit value at address `addr`.
    pub fn read_u32_le(&self, addr: usize) -> (r: u32)
        requires
            self.wf(),
            self.contains_range(addr as int, 4),
        ensures
            r == le32_at(self.contents(), addr - self.base_addr()),
    {
        let off = addr - self.base;
        let b0 = self.bytes[off] as u32;
        let b1 = self.bytes[off + 1] as u32;
        let b2 = self.bytes[off + 2] as u32;
        let b3 = self.bytes[off + 3] as u32;
        b0 + b1 * 0x100 + b2 * 0x10000 + b3 * 0x1000000
    }

    /// Write `v` at address `addr` in little-endian order.
    pub fn write_u32_le(&mut self, addr: usize, v: u32)
        requires
            old(self).wf(),
            old(self).contains_range(addr as int, 4),
            old(self).range_writable(addr as int, 4),
        ensures
            final(self).wf(),
            final(self).base_addr() == old(self).base_addr(),
            final(self).wmask() == old(self).wmask(),
            final(self).contents() == spec_write_bytes(
                old(self).contents(),
                addr - old(self).base_addr(),
                le32_bytes(v),
            ),
            le32_at(final(self).contents(), addr - old(self).base_addr()) == v,
    {
        let mut data: Vec<u8> = Vec::new();
        data.push((v % 0x100) as u8);
        data.push(((v / 0x100) % 0x100) as u8);
        data.push(((v / 0x10000) % 0x100) as u8);
        data.push(((v / 0x1000000) % 0x100) as u8);
        assert(data@ =~= le32_bytes(v));
        self.write_bytes(addr, &data);
        proof {
            lemma_le32_round_trip(v);
            let off = addr - old(self).base_addr();
            assert(self.contents()[off] == le32_bytes(v)[0]);
            assert(self.contents()[off + 1] == le32_bytes(v)[1]);
            assert(self.contents()[off + 2] == le32_bytes(v)[2]);
            assert(self.contents()[off + 3] == le32_bytes(v)[3]);
        }
    }
}

} // verus!
