//! The encoder interface shared by the per-architecture encoders.

use vstd::prelude::*;
use crate::encoding::{Architecture, TargetInstruction, TranslationError};
use crate::ir::{GuestAddr, IROp};

verus! {

/// Encodes IR operations as machine code of one target architecture.
pub trait ArchEncoder {
    /// The operations this encoder can be asked to encode without failing
    /// at run time.
    spec fn encodable(&self, op: IROp) -> bool;

    /// Encodes one IR operation at guest address `pc`.
    fn encode_op(&self, op: &IROp, pc: GuestAddr) -> Result<Vec<TargetInstruction>, TranslationError>
        requires
            self.encodable(*op),
    ;

    /// The target architecture.
    fn architecture(&self) -> Architecture;
}

/// The text that the derived `Debug` of `IROp` renders for an operation;
/// it depends on the operation's value alone.
pub uninterp spec fn ir_op_text(op: IROp) -> Seq<char>;

/// The `Debug` rendering of an IR operation, used as the text of
/// `UnsupportedOperation` errors. Calls `format!("{:?}")`; the text is
/// claimed to be `ir_op_text` of the operation and nothing more.
#[verifier::external_body]
pub(crate) fn ir_op_debug(op: &IROp) -> (s: String)
    ensures
        s@ == ir_op_text(*op),
{
    format!("{:?}", op)
}

} // verus!
