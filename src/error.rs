use vstd::prelude::*;

verus! {

/// Why a name could not be turned into a ref name.
#[derive(Debug, Clone, Copy, PartialEq, Eq, Structural)]
pub enum SanitizeGitRefError {
    /// Ref must contain at least one '/'
    DoesNotContainForwardSlash,
}

impl SanitizeGitRefError {
    /// The human-readable message of the error.
    pub fn message(&self) -> (r: &'static str)
        ensures
            r@ == "Ref must contain at least one '/'"@,
    {
        match self {
            SanitizeGitRefError::DoesNotContainForwardSlash => "Ref must contain at least one '/'",
        }
    }

    /// The error that caused this one; this error has none.
    pub fn source(&self) -> (r: Option<SanitizeGitRefError>)
        ensures
            r is None,
    {
        None
    }
}

} // verus!
