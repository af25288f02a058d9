use vstd::prelude::*;

verus! {

/// The failure kinds of the instruction database.
///
/// Absence of a symbolic name for a raw value is not among them: that case is
/// expected and recoverable, and is reported as `None` by the lookup instead.
#[derive(Debug)]
pub enum BBScriptError {
    /// No configuration source exists for the requested game; the payload is
    /// the path that was probed.
    GameDBNotFound(String),
    /// A lookup by opcode id or by name found no matching instruction record;
    /// the payload is the id (hex-formatted) or the name that was searched.
    UnknownFunction(String),
    /// A symbolic name has no bound raw value for its argument slot; the
    /// payload is the slot (decimal-formatted) and the name.
    NoAssociatedValue(String, String),
}

} // verus!
