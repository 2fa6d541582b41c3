//! The register model: a bidirectional mapping between the sixteen
//! general-purpose 64-bit registers and their 4-bit machine encoding
//! (3 payload bits plus 1 extension bit carried by a prefix byte).

use vstd::prelude::*;

verus! {

/// One of the sixteen general-purpose 64-bit registers.
#[derive(Clone, Copy, Debug, PartialEq, Eq, Structural)]
pub enum Reg {
    Rax,
    Rcx,
    Rdx,
    Rbx,
    Rsp,
    Rbp,
    Rsi,
    Rdi,
    R8,
    R9,
    R10,
    R11,
    R12,
    R13,
    R14,
    R15,
}

/// The mask that isolates the 3-bit register payload of a byte.
pub const REG_MASK: u8 = 0b0000_0111;

/// The extension bit of the canonical 4-bit machine register number.
pub const HI_BIT: u8 = 0b1000;

/// The register whose canonical 4-bit machine number is `b`.
///
/// Numbers 0 through 7 name the base registers rax through rdi in the fixed
/// table order; numbers 8 through 15 name r8 through r15 against the same
/// 3-bit table, with the extension bit set.
pub open spec fn reg_of_bits(b: int) -> Reg {
    if b == 0 {
        Reg::Rax
    } else if b == 1 {
        Reg::Rcx
    } else if b == 2 {
        Reg::Rdx
    } else if b == 3 {
        Reg::Rbx
    } else if b == 4 {
        Reg::Rsp
    } else if b == 5 {
        Reg::Rbp
    } else if b == 6 {
        Reg::Rsi
    } else if b == 7 {
        Reg::Rdi
    } else if b == 8 {
        Reg::R8
    } else if b == 9 {
        Reg::R9
    } else if b == 10 {
        Reg::R10
    } else if b == 11 {
        Reg::R11
    } else if b == 12 {
        Reg::R12
    } else if b == 13 {
        Reg::R13
    } else if b == 14 {
        Reg::R14
    } else {
        Reg::R15
    }
}

impl Reg {
    /// True of the extended registers r8 through r15, whose encoding needs
    /// the extension prefix byte.
    pub open spec fn spec_is_hi(self) -> bool {
        match self {
            Reg::R8 | Reg::R9 | Reg::R10 | Reg::R11 | Reg::R12 | Reg::R13 | Reg::R14
                | Reg::R15 => true,
            _ => false,
        }
    }

    /// The shared 3-bit code, identical for a base register and its extended
    /// sibling.
    pub open spec fn spec_base_bits(self) -> int {
        match self {
            Reg::Rax => 0,
            Reg::Rcx => 1,
            Reg::Rdx => 2,
            Reg::Rbx => 3,
            Reg::Rsp => 4,
            Reg::Rbp => 5,
            Reg::Rsi => 6,
            Reg::Rdi => 7,
            Reg::R8 => 0,
            Reg::R9 => 1,
            Reg::R10 => 2,
            Reg::R11 => 3,
            Reg::R12 => 4,
            Reg::R13 => 5,
            Reg::R14 => 6,
            Reg::R15 => 7,
        }
    }

    /// The canonical 4-bit machine register number: the base bits, with the
    /// extension bit (0b1000) folded in for r8 through r15.
    pub open spec fn spec_bits(self) -> int {
        self.spec_base_bits() + if self.spec_is_hi() {
            8int
        } else {
            0int
        }
    }

    /// Attempt to parse a register from its canonical 4-bit machine number.
    ///
    /// Only the low 4 bits of `reg` are significant: the low 3 bits are the
    /// payload and bit 0b1000 is the extension bit. With a 3-bit payload the
    /// lookup cannot fail, so the result is always present.
    pub fn try_parse(reg: u8) -> (r: Option<Reg>)
        ensures
            r == Some(reg_of_bits((reg & 0x0F) as int)),
            r->Some_0.spec_is_hi() == ((reg & HI_BIT) != 0),
            r->Some_0.spec_base_bits() == (reg & REG_MASK) as int,
    {
        let is_hi = reg & HI_BIT != 0;
        let bits = reg & REG_MASK;

        proof {
            assert(reg & REG_MASK < 8) by (bit_vector);
            assert((reg & 0x0F) == (reg & REG_MASK) + (if reg & HI_BIT != 0 {
                8u8
            } else {
                0u8
            })) by (bit_vector);
            lemma_reg_bits_bijective(Reg::Rax, (reg & 0x0F) as int);
        }

        if is_hi {
            from_hi(bits)
        } else {
            from_lo(bits)
        }
    }

    /// True of the base registers rax through rdi.
    pub fn is_lo(self) -> (r: bool)
        ensures
            r == !self.spec_is_hi(),
    {
        !self.is_hi()
    }

    /// True of the extended registers r8 through r15.
    pub fn is_hi(self) -> (r: bool)
        ensures
            r == self.spec_is_hi(),
    {
        matches!(
            self,
            Reg::R8 | Reg::R9 | Reg::R10 | Reg::R11 | Reg::R12 | Reg::R13 | Reg::R14 | Reg::R15
        )
    }

    /// The shared 3-bit code (0 through 7).
    pub fn base_bits(self) -> (r: u8)
        ensures
            r as int == self.spec_base_bits(),
    {
        if self.is_hi() {
            to_hi(self)
        } else {
            to_lo(self)
        }
    }

    /// The canonical 4-bit machine register number (0 through 15).
    pub fn bits(self) -> (r: u8)
        ensures
            r as int == self.spec_bits(),
    {
        if self.is_hi() {
            to_hi(self) + HI_BIT
        } else {
            to_lo(self)
        }
    }
}

impl Reg {
    /// The register with the given 3-bit base code, base or extended: the
    /// "known-valid bits" constructor the codec uses once the opcode byte
    /// and the optional extension prefix have already been inspected.
    pub fn from_base_bits(bits: u8, extended: bool) -> (r: Reg)
        requires
            bits < 8,
        ensures
            r == reg_of_bits(bits + if extended {
                8int
            } else {
                0int
            }),
    {
        let parsed = if extended {
            from_hi(bits)
        } else {
            from_lo(bits)
        };

        match parsed {
            Some(reg) => reg,
            None => Reg::Rax,
        }
    }
}

/// The base-register half of the lookup table: 3-bit codes 0 through 7 name
/// rax through rdi; anything larger is refused.
fn from_lo(bits: u8) -> (r: Option<Reg>)
    ensures
        bits < 8 ==> r == Some(reg_of_bits(bits as int)),
        bits >= 8 ==> r is None,
{
    let reg = match bits {
        0 => Reg::Rax,
        1 => Reg::Rcx,
        2 => Reg::Rdx,
        3 => Reg::Rbx,
        4 => Reg::Rsp,
        5 => Reg::Rbp,
        6 => Reg::Rsi,
        7 => Reg::Rdi,
        _ => {
            return None;
        },
    };

    Some(reg)
}

/// The extended-register half of the lookup table: 3-bit codes 0 through 7
/// name r8 through r15; anything larger is refused.
fn from_hi(bits: u8) -> (r: Option<Reg>)
    ensures
        bits < 8 ==> r == Some(reg_of_bits(bits + 8)),
        bits >= 8 ==> r is None,
{
    let reg = match bits {
        0 => Reg::R8,
        1 => Reg::R9,
        2 => Reg::R10,
        3 => Reg::R11,
        4 => Reg::R12,
        5 => Reg::R13,
        6 => Reg::R14,
        7 => Reg::R15,
        _ => {
            return None;
        },
    };

    Some(reg)
}

/// The inverse lookup for a base register.
fn to_lo(reg: Reg) -> (r: u8)
    requires
        !reg.spec_is_hi(),
    ensures
        r as int == reg.spec_base_bits(),
{
    match reg {
        Reg::Rax => 0,
        Reg::Rcx => 1,
        Reg::Rdx => 2,
        Reg::Rbx => 3,
        Reg::Rsp => 4,
        Reg::Rbp => 5,
        Reg::Rsi => 6,
        Reg::Rdi => 7,
        _ => 0,
    }
}

/// The inverse lookup for an extended register.
fn to_hi(reg: Reg) -> (r: u8)
    requires
        reg.spec_is_hi(),
    ensures
        r as int == reg.spec_base_bits(),
{
    match reg {
        Reg::R8 => 0,
        Reg::R9 => 1,
        Reg::R10 => 2,
        Reg::R11 => 3,
        Reg::R12 => 4,
        Reg::R13 => 5,
        Reg::R14 => 6,
        Reg::R15 => 7,
        _ => 0,
    }
}

/// The register model's invariant: every register has a unique canonical
/// 4-bit machine number, and every 4-bit number names exactly one register.
pub proof fn lemma_reg_bits_bijective(r: Reg, b: int)
    ensures
        0 <= r.spec_base_bits() < 8,
        0 <= r.spec_bits() < 16,
        r.spec_is_hi() == (r.spec_bits() >= 8),
        reg_of_bits(r.spec_bits()) == r,
        0 <= b < 16 ==> reg_of_bits(b).spec_bits() == b,
{
}

} // verus!
