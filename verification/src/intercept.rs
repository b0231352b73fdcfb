use vstd::prelude::*;

use crate::errors::EngineError;
use crate::mem::{spec_write_bytes, MemoryImage};

verus! {

/// Number of code bytes a hook overwrites: a near-jump opcode and a 32-bit
/// displacement.
pub const JUMP_LEN: usize = 5;

/// The 32-bit displacement a near jump at `target` needs to land on
/// `callback`, reduced modulo the address-space size.
pub open spec fn rel32(target: int, callback: int) -> int {
    (callback - (target + JUMP_LEN)) % 0x1_0000_0000
}

/// The five bytes of the divert sequence written over `target`: the
/// near-jump opcode followed by the little-endian displacement.
pub open spec fn jump_code(target: int, callback: int) -> Seq<u8> {
    let r = rel32(target, callback);
    seq![
        0xE9u8,
        (r % 0x100) as u8,
        ((r / 0x100) % 0x100) as u8,
        ((r / 0x10000) % 0x100) as u8,
        ((r / 0x1000000) % 0x100) as u8,
    ]
}

/// A single-address trampoline hook.
///
/// Installation snapshots the `JUMP_LEN` original bytes at the target and
/// diverts nothing yet; enabling writes the divert sequence over them,
/// disabling restores the snapshot. The snapshot is what a trampoline
/// rebuilds so the original code path stays invocable while the hook is
/// enabled.
#[derive(Debug)]
pub struct InterceptHandle {
    target: usize,
    callback: usize,
    original: Vec<u8>,
    enabled: bool,
}

impl InterceptHandle {
    /// The intercepted address; a handle's identity.
    pub closed spec fn target_addr(&self) -> int {
        self.target as int
    }

    /// The address control is diverted to while enabled.
    pub closed spec fn callback_addr(&self) -> int {
        self.callback as int
    }

    /// The code bytes captured at the target before any diversion.
    pub closed spec fn original_code(&self) -> Seq<u8> {
        self.original@
    }

    /// Whether control is currently diverted.
    pub closed spec fn diverting(&self) -> bool {
        self.enabled
    }

    pub open spec fn wf(&self) -> bool {
        &&& self.original_code().len() == JUMP_LEN
        &&& self.target_addr() + JUMP_LEN <= 0x1_0000_0000
        &&& self.target_addr() + JUMP_LEN <= usize::MAX
        &&& self.callback_addr() < 0x1_0000_0000
    }

    /// The hook's byte range lies inside `mem`.
    pub open spec fn in_image(&self, mem: &MemoryImage) -> bool {
        mem.contains_range(self.target_addr(), JUMP_LEN as int)
    }

    /// Snapshot the original bytes at `target` and build a disabled handle.
    /// Memory is not modified.
    ///
    /// Fails with `InvalidAddress` when the target range is not mapped and
    /// with `MemoryProtectionFailed` when it cannot be written; whether the
    /// address is already intercepted is the registry's concern.
    pub fn install(mem: &MemoryImage, target: usize, callback: usize) -> (r: Result<
        InterceptHandle,
        EngineError,
    >)
        requires
            mem.wf(),
            mem.base_addr() + mem.size() <= 0x1_0000_0000,
            callback < 0x1_0000_0000,
        ensures
            r is Ok <==> (mem.contains_range(target as int, JUMP_LEN as int)
                && mem.range_writable(target as int, JUMP_LEN as int)),
            (r == Err::<InterceptHandle, EngineError>(EngineError::InvalidAddress)) <==> !mem.contains_range(
                target as int,
                JUMP_LEN as int,
            ),
            (r == Err::<InterceptHandle, EngineError>(EngineError::MemoryProtectionFailed)) <==> (
            mem.contains_range(target as int, JUMP_LEN as int) && !mem.range_writable(
                target as int,
                JUMP_LEN as int,
            )),
            r matches Ok(h) ==> {
                &&& h.wf()
                &&& h.in_image(mem)
                &&& h.target_addr() == target
                &&& h.callback_addr() == callback
                &&& !h.diverting()
                &&& h.original_code() == mem.contents().subrange(
                    target - mem.base_addr(),
                    target - mem.base_addr() + JUMP_LEN,
                )
            },
    {
        if !mem.contains(target, JUMP_LEN) {
            return Err(EngineError::InvalidAddress);
        }
        if !mem.is_range_writable(target, JUMP_LEN) {
            return Err(EngineError::MemoryProtectionFailed);
        }
        let original = mem.read_bytes(target, JUMP_LEN);
        Ok(InterceptHandle { target, callback, original, enabled: false })
    }

    pub fn target(&self) -> (r: usize)
        ensures
            r == self.target_addr(),
    {
        self.target
    }

    pub fn is_enabled(&self) -> (r: bool)
        ensures
            r == self.diverting(),
    {
        self.enabled
    }

    /// The preserved original code bytes.
    pub fn original_bytes(&self) -> (r: &Vec<u8>)
        ensures
            r@ == self.original_code(),
    {
        &self.original
    }

    /// Compute the divert sequence for this handle.
    fn divert_bytes(&self) -> (r: Vec<u8>)
        requires
            self.wf(),
        ensures
            r@ == jump_code(self.target_addr(), self.callback_addr()),
    {
        let end: u64 = self.target as u64 + JUMP_LEN as u64;
        let c: u64 = self.callback as u64;
        let rel_wide: u64 = (c + 0x1_0000_0000 - end) % 0x1_0000_0000;
        proof {
            vstd::arithmetic::div_mod::lemma_mod_multiples_vanish(
                1,
                c - end,
                0x1_0000_0000,
            );
            assert(rel_wide == rel32(self.target_addr(), self.callback_addr()));
        }
        let rel: u32 = rel_wide as u32;
        let mut r: Vec<u8> = Vec::new();
        r.push(0xE9);
        r.push((rel % 0x100) as u8);
        r.push(((rel / 0x100) % 0x100) as u8);
        r.push(((rel / 0x10000) % 0x100) as u8);
        r.push(((rel / 0x1000000) % 0x100) as u8);
        assert(r@ =~= jump_code(self.target_addr(), self.callback_addr()));
        r
    }

    /// Divert control by writing the jump sequence over the target.
    /// Enabling an already-enabled hook is a no-op success.
    pub fn enable(&mut self, mem: &mut MemoryImage) -> (r: Result<(), EngineError>)
        requires
            old(self).wf(),
            old(mem).wf(),
            old(self).in_image(old(mem)),
        ensures
            final(self).wf(),
            final(self).target_addr() == old(self).target_addr(),
            final(self).callback_addr() == old(self).callback_addr(),
            final(self).original_code() == old(self).original_code(),
            final(mem).wf(),
            final(mem).base_addr() == old(mem).base_addr(),
            final(mem).wmask() == old(mem).wmask(),
            final(mem).size() == old(mem).size(),
            final(self).in_image(final(mem)),
            r is Ok <==> (old(self).diverting() || old(mem).range_writable(
                old(self).target_addr(),
                JUMP_LEN as int,
            )),
            r is Err ==> r == Err::<(), EngineError>(EngineError::MemoryProtectionFailed)
                && final(mem).contents() == old(mem).contents() && final(self).diverting()
                == old(self).diverting(),
            old(self).diverting() ==> final(mem).contents() == old(mem).contents(),
            !old(self).diverting() && r is Ok ==> final(self).diverting() && final(mem).contents() == spec_write_bytes(
                old(mem).contents(),
                old(self).target_addr() - old(mem).base_addr(),
                jump_code(old(self).target_addr(), old(self).callback_addr()),
            ),
    {
        if self.enabled {
            return Ok(());
        }
        if !mem.is_range_writable(self.target, JUMP_LEN) {
            return Err(EngineError::MemoryProtectionFailed);
        }
        let code = self.divert_bytes();
        mem.write_bytes(self.target, &code);
        self.enabled = true;
        Ok(())
    }

    /// Restore the original bytes so control is no longer diverted.
    /// Disabling an already-disabled hook is a no-op success.
    pub fn disable(&mut self, mem: &mut MemoryImage) -> (r: Result<(), EngineError>)
        requires
            old(self).wf(),
            old(mem).wf(),
            old(self).in_image(old(mem)),
        ensures
            final(self).wf(),
            final(self).target_addr() == old(self).target_addr(),
            final(self).callback_addr() == old(self).callback_addr(),
            final(self).original_code() == old(self).original_code(),
            final(mem).wf(),
            final(mem).base_addr() == old(mem).base_addr(),
            final(mem).wmask() == old(mem).wmask(),
            final(mem).size() == old(mem).size(),
            final(self).in_image(final(mem)),
            r is Ok <==> (!old(self).diverting() || old(mem).range_writable(
                old(self).target_addr(),
                JUMP_LEN as int,
            )),
            r is Err ==> r == Err::<(), EngineError>(EngineError::MemoryProtectionFailed)
                && final(mem).contents() == old(mem).contents() && final(self).diverting()
                == old(self).diverting(),
            !old(self).diverting() ==> final(mem).contents() == old(mem).contents(),
            old(self).diverting() && r is Ok ==> !final(self).diverting() && final(mem).contents() == spec_write_bytes(
                old(mem).contents(),
                old(self).target_addr() - old(mem).base_addr(),
                old(self).original_code(),
            ),
    {
        if !self.enabled {
            return Ok(());
        }
        if !mem.is_range_writable(self.target, JUMP_LEN) {
            return Err(EngineError::MemoryProtectionFailed);
        }
        mem.write_bytes(self.target, &self.original);
        self.enabled = false;
        Ok(())
    }
}

/// Round trip: writing the divert sequence over a range and then writing
/// back the snapshot that was captured from that range reproduces the
/// memory span exactly.
pub proof fn lemma_hook_round_trip(mem: Seq<u8>, at: int, code: Seq<u8>, snapshot: Seq<u8>)
    requires
        0 <= at,
        at + snapshot.len() <= mem.len(),
        code.len() == snapshot.len(),
        snapshot == mem.subrange(at, at + snapshot.len()),
    ensures
        spec_write_bytes(spec_write_bytes(mem, at, code), at, snapshot) == mem,
{
    let m1 = spec_write_bytes(mem, at, code);
    let m2 = spec_write_bytes(m1, at, snapshot);
    assert forall|i: int| 0 <= i < mem.len() implies m2[i] == mem[i] by {
        if at <= i < at + snapshot.len() {
            assert(snapshot[i - at] == mem.subrange(at, at + snapshot.len())[i - at]);
        }
    }
    assert(m2 =~= mem);
}

} // verus!
