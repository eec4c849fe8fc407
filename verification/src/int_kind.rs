use vstd::prelude::*;

verus! {

/// The width of a signed integer kind, in bits.
#[derive(Hash, Eq, PartialEq, Debug, Copy, Clone, Structural)]
pub enum IntSize {
    Signed8,
    Signed16,
    Signed32,
    Signed64,
    Signed128,
}

/// An integer type descriptor in the abstract syntax tree.
#[derive(Hash, Eq, PartialEq, Debug, Copy, Clone, Structural)]
pub struct IntKind {
    pub size: IntSize,
}

/// The number of bits a given `IntSize` stands for.
pub open spec fn spec_bit_width(size: IntSize) -> u32 {
    match size {
        IntSize::Signed8 => 8,
        IntSize::Signed16 => 16,
        IntSize::Signed32 => 32,
        IntSize::Signed64 => 64,
        IntSize::Signed128 => 128,
    }
}

impl IntKind {
    /// The bit width of this integer kind.
    pub fn bit_width(&self) -> (w: u32)
        ensures
            w == spec_bit_width(self.size),
    {
        match self.size {
            IntSize::Signed8 => 8,
            IntSize::Signed16 => 16,
            IntSize::Signed32 => 32,
            IntSize::Signed64 => 64,
            IntSize::Signed128 => 128,
        }
    }
}

} // verus!
