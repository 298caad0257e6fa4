use vstd::prelude::*;

verus! {

/// The flags that steer how an operation reads its operands and writes its
/// output. Each is independent of the others.
#[derive(Debug, Clone, Copy, PartialEq, Eq, Structural)]
pub struct Descriptor {
    /// Read the negation of what the mask reports.
    pub mask_complement: bool,
    /// Read only where the mask stores a value, not the value. Every mask
    /// of this library reports where values are stored and never reads
    /// them, so the flag changes nothing.
    pub mask_structural_only: bool,
    /// Clear the output where the mask does not admit a write.
    pub replace_output: bool,
    /// Read the first operand with rows and columns swapped.
    pub transpose_a: bool,
    /// Read the second operand with rows and columns swapped.
    pub transpose_b: bool,
}

impl Descriptor {
    /// The descriptor with every flag off.
    pub fn new() -> (d: Self)
        ensures
            d == Descriptor::none(),
    {
        Descriptor {
            mask_complement: false,
            mask_structural_only: false,
            replace_output: false,
            transpose_a: false,
            transpose_b: false,
        }
    }

    /// The descriptor with every flag off, as a value of specifications.
    pub open spec fn none() -> Self {
        Descriptor {
            mask_complement: false,
            mask_structural_only: false,
            replace_output: false,
            transpose_a: false,
            transpose_b: false,
        }
    }
}

impl Default for Descriptor {
    fn default() -> (d: Self)
        ensures
            d == Descriptor::none(),
    {
        Descriptor::new()
    }
}

} // verus!
