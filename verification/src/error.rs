use vstd::prelude::*;

verus! {

/// The failures of the two sanitizers.
///
/// Every failure is returned to the caller; nothing is swallowed, and the
/// transforms are deterministic, so retrying an unchanged input cannot help.
#[derive(Clone, Copy, Debug, PartialEq, Eq, Structural)]
pub enum SanitizeError {
    /// The name handed to the name sanitizer had zero length.
    EmptyName,
    /// Re-rendering the documentation tree produced no output.
    Format,
    /// The re-rendered documentation was not valid UTF-8.
    Encoding,
}

} // verus!
