use vstd::prelude::*;
use crate::types::Chip8Error;

verus! {

/// The flat 4096-byte address space. Valid addresses for every operation
/// are 0x000 through 0xFFE; word operations additionally demand an even
/// address, since instructions are always fetched at even addresses.
pub struct RAM {
    mem: Vec<u8>,
}

/// The big-endian 16-bit word stored at `addr`.
pub open spec fn word_at(mem: Seq<u8>, addr: int) -> u16 {
    (mem[addr] * 0x100 + mem[addr + 1]) as u16
}

/// Memory after a big-endian 16-bit store of `val` at `addr`.
pub open spec fn store_word(mem: Seq<u8>, addr: int, val: u16) -> Seq<u8> {
    mem.update(addr, (val / 0x100) as u8).update(addr + 1, (val % 0x100) as u8)
}

/// A memory image of all zero bytes.
pub open spec fn blank_mem() -> Seq<u8> {
    Seq::new(0x1000, |i: int| 0u8)
}

impl View for RAM {
    type V = Seq<u8>;

    closed spec fn view(&self) -> Seq<u8> {
        self.mem@
    }
}

impl RAM {
    pub open spec fn wf(&self) -> bool {
        self@.len() == 0x1000
    }

    /// A fresh memory, all bytes zero.
    pub fn new() -> (r: RAM)
        ensures
            r.wf(),
            r@ == blank_mem(),
    {
        let r = RAM { mem: vec![0u8; 0x1000] };
        proof {
            assert(r@ =~= blank_mem());
        }
        r
    }

    /// Big-endian 16-bit load. Succeeds exactly on even addresses up to
    /// 0xFFE; fails `OutOfBounds` above that, `Misaligned` on odd ones.
    pub fn load_u16(&self, addr: u16) -> (r: Result<u16, Chip8Error>)
        requires
            self.wf(),
        ensures
            addr > 0xFFE ==> r == Result::<u16, Chip8Error>::Err(Chip8Error::OutOfBounds),
            addr <= 0xFFE && addr % 2 != 0 ==> r == Result::<u16, Chip8Error>::Err(
                Chip8Error::Misaligned,
            ),
            addr <= 0xFFE && addr % 2 == 0 ==> r == Result::<u16, Chip8Error>::Ok(
                word_at(self@, addr as int),
            ),
    {
        if addr > 0xFFE {
            return Err(Chip8Error::OutOfBounds);
        }
        if addr % 2 != 0 {
            return Err(Chip8Error::Misaligned);
        }
        let i = addr as usize;
        let word = (self.mem[i] as u16) * 0x100 + (self.mem[i + 1] as u16);
        Ok(word)
    }

    /// Big-endian 16-bit store; the same validity rule as `load_u16`.
    /// No byte other than the two targeted ones changes.
    pub fn store_u16(&mut self, addr: u16, val: u16) -> (r: Result<(), Chip8Error>)
        requires
            old(self).wf(),
        ensures
            final(self).wf(),
            addr > 0xFFE ==> r == Result::<(), Chip8Error>::Err(Chip8Error::OutOfBounds)
                && final(self)@ == old(self)@,
            addr <= 0xFFE && addr % 2 != 0 ==> r == Result::<(), Chip8Error>::Err(
                Chip8Error::Misaligned,
            ) && final(self)@ == old(self)@,
            addr <= 0xFFE && addr % 2 == 0 ==> r == Result::<(), Chip8Error>::Ok(())
                && final(self)@ == store_word(old(self)@, addr as int, val),
    {
        if addr > 0xFFE {
            return Err(Chip8Error::OutOfBounds);
        }
        if addr % 2 != 0 {
            return Err(Chip8Error::Misaligned);
        }
        let i = addr as usize;
        self.mem[i] = (val / 0x100) as u8;
        self.mem[i + 1] = (val % 0x100) as u8;
        Ok(())
    }

    /// Byte load. Succeeds exactly on addresses up to 0xFFE.
    pub fn load_u8(&self, addr: u16) -> (r: Result<u8, Chip8Error>)
        requires
            self.wf(),
        ensures
            addr > 0xFFE ==> r == Result::<u8, Chip8Error>::Err(Chip8Error::OutOfBounds),
            addr <= 0xFFE ==> r == Result::<u8, Chip8Error>::Ok(self@[addr as int]),
    {
        if addr > 0xFFE {
            return Err(Chip8Error::OutOfBounds);
        }
        Ok(self.mem[addr as usize])
    }

    /// Byte store. Succeeds exactly on addresses up to 0xFFE; no other
    /// byte changes.
    pub fn store_u8(&mut self, addr: u16, val: u8) -> (r: Result<(), Chip8Error>)
        requires
            old(self).wf(),
        ensures
            final(self).wf(),
            addr > 0xFFE ==> r == Result::<(), Chip8Error>::Err(Chip8Error::OutOfBounds)
                && final(self)@ == old(self)@,
            addr <= 0xFFE ==> r == Result::<(), Chip8Error>::Ok(())
                && final(self)@ == old(self)@.update(addr as int, val),
    {
        if addr > 0xFFE {
            return Err(Chip8Error::OutOfBounds);
        }
        self.mem[addr as usize] = val;
        Ok(())
    }
}

/// Storing a word and loading it back at the same valid address returns
/// the value stored, whatever the address's alignment; the word-level
/// operations accept exactly the even addresses among them.
pub proof fn lemma_word_round_trip(mem: Seq<u8>, addr: int, val: u16)
    requires
        mem.len() == 0x1000,
        0 <= addr <= 0xFFE,
    ensures
        word_at(store_word(mem, addr, val), addr) == val,
{
    let stored = store_word(mem, addr, val);
    assert(stored[addr] == (val / 0x100) as u8);
    assert(stored[addr + 1] == (val % 0x100) as u8);
    assert((val / 0x100) * 0x100 + (val % 0x100) == val) by (nonlinear_arith);
}

} // verus!
