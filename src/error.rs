use vstd::prelude::*;

verus! {

/// The only way a decode step can fail: the buffer ends before the next field does.
#[derive(Debug, Clone, Copy, PartialEq, Eq, Structural)]
pub enum DecodeError {
    InsufficientInput,
}

} // verus!
