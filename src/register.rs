//! The two registers that instructions name.

use vstd::prelude::*;

verus! {

/// The register an instruction works on.
#[derive(Debug, Clone, Copy, PartialEq, Eq, Structural)]
pub enum Register {
    Accumulator,
    IndexRegister,
}

/// The one-bit code of a register.
pub open spec fn register_bit(r: Register) -> u8 {
    match r {
        Register::Accumulator => 0,
        Register::IndexRegister => 1,
    }
}

impl Register {
    pub fn as_byte(&self) -> (r: u8)
        ensures
            r == register_bit(*self),
    {
        match self {
            Self::Accumulator => 0,
            Self::IndexRegister => 1,
        }
    }
}

} // verus!
