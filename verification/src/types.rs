use vstd::prelude::*;

verus! {

/// The fatal errors the machine can raise. Every one aborts the current
/// cycle; the engine performs no internal recovery.
#[derive(Clone, Copy, Debug, PartialEq, Eq, Structural)]
pub enum Chip8Error {
    /// A memory access named an address beyond 0xFFE.
    OutOfBounds,
    /// A word-level memory operation named an odd address.
    Misaligned,
    /// A return was executed while the call stack was empty.
    StackUnderflow,
    /// A bit pattern inside a decoded family matched no instruction.
    InvalidOpcode,
    /// A sprite read would run past the addressable memory.
    IndexOverflow,
    /// A font lookup was asked for a digit above 15.
    InvalidDigit,
}

impl Chip8Error {
    /// A human-readable description, for diagnostic output.
    pub fn message(&self) -> (r: &'static str)
        ensures
            r@ == self.spec_message(),
    {
        match self {
            Chip8Error::OutOfBounds => "address out of bounds",
            Chip8Error::Misaligned => "word access at odd address",
            Chip8Error::StackUnderflow => "cannot return when the stack is empty",
            Chip8Error::InvalidOpcode => "invalid opcode",
            Chip8Error::IndexOverflow => "sprite read past end of memory",
            Chip8Error::InvalidDigit => "font lookup above digit 15",
        }
    }

    pub open spec fn spec_message(&self) -> Seq<char> {
        match self {
            Chip8Error::OutOfBounds => "address out of bounds"@,
            Chip8Error::Misaligned => "word access at odd address"@,
            Chip8Error::StackUnderflow => "cannot return when the stack is empty"@,
            Chip8Error::InvalidOpcode => "invalid opcode"@,
            Chip8Error::IndexOverflow => "sprite read past end of memory"@,
            Chip8Error::InvalidDigit => "font lookup above digit 15"@,
        }
    }
}

/// Most-significant nibble of an instruction word: the opcode family.
pub open spec fn op_family(w: u16) -> u8 {
    (w / 0x1000) as u8
}

/// Second nibble: the register index x.
pub open spec fn op_x(w: u16) -> u8 {
    ((w / 0x100) % 0x10) as u8
}

/// Third nibble: the register index y.
pub open spec fn op_y(w: u16) -> u8 {
    ((w / 0x10) % 0x10) as u8
}

/// Least-significant nibble: the short immediate n.
pub open spec fn op_n(w: u16) -> u8 {
    (w % 0x10) as u8
}

/// Low twelve bits: the address immediate nnn.
pub open spec fn op_nnn(w: u16) -> u16 {
    w % 0x1000
}

/// Low byte: the immediate kk.
pub open spec fn op_kk(w: u16) -> u8 {
    (w % 0x100) as u8
}

/// Nibble `i` of a word, numbered 0 (most significant) to 3 (least).
pub open spec fn spec_nibble(w: u16, i: u8) -> u8 {
    if i == 0 {
        op_family(w)
    } else if i == 1 {
        op_x(w)
    } else if i == 2 {
        op_y(w)
    } else {
        op_n(w)
    }
}

/// What an instruction word offers: its four nibbles by position, and
/// its assembly-text rendering.
pub trait Chip8Utils: Sized {
    /// Nibble `i` of the word, numbered 0 (most significant) to 3.
    spec fn spec_nibble_at(&self, i: u8) -> u8;

    /// The assembly text the word renders as.
    spec fn spec_disasm(&self) -> Seq<char>;

    fn nibble_at(&self, i: u8) -> (r: u8)
        requires
            i <= 3,
        ensures
            r == self.spec_nibble_at(i),
    ;

    fn disasm(&self) -> (r: String)
        ensures
            r@ == self.spec_disasm(),
    ;
}

impl Chip8Utils for u16 {
    open spec fn spec_nibble_at(&self, i: u8) -> u8 {
        spec_nibble(*self, i)
    }

    open spec fn spec_disasm(&self) -> Seq<char> {
        crate::disasm::spec_disasm(*self)
    }

    fn disasm(&self) -> (r: String) {
        crate::disasm::disasm(*self)
    }

    fn nibble_at(&self, i: u8) -> (r: u8) {
        if i == 0 {
            (*self / 0x1000) as u8
        } else if i == 1 {
            ((*self / 0x100) % 0x10) as u8
        } else if i == 2 {
            ((*self / 0x10) % 0x10) as u8
        } else {
            (*self % 0x10) as u8
        }
    }
}

} // verus!
