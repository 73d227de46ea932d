use vstd::prelude::*;

verus! {

/// Every way in which loading a class or running a method can fail.
#[derive(Debug, Clone, Copy, PartialEq, Eq, Structural)]
pub enum VmError {
    /// The input ended before a read of the requested width.
    TruncatedInput,
    /// A text constant does not hold valid UTF-8.
    MalformedText,
    /// The header does not start with the class-file signature.
    MagicMismatch,
    /// No method of the class has the requested name.
    MethodNotFound,
    /// The method has no `Code` attribute longer than its 8-byte header.
    CodeAttributeMissing,
    /// An instruction needed more operands than the stack held.
    StackUnderflow,
    /// The opcode is outside the supported subset.
    UnsupportedOpcode(u8),
    /// A load named a local slot that the arguments did not fill.
    LocalIndexOutOfRange(u8),
}

} // verus!
