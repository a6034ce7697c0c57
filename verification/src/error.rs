use vstd::prelude::*;

verus! {

/// A format failure: the bytes handed to a decoding step are not a
/// well-formed archive. This is a distinct failure class from an I/O
/// error — it signals bad data, not a bad environment.
#[derive(Clone, Copy, Debug, PartialEq, Eq)]
pub enum FormatError {
    /// The input ended before a declared length or a fixed-width field
    /// was complete (covers overlong declared lengths).
    Truncated,
    /// A metadata presence bitmap sets a bit that no field is assigned.
    BadPresenceFlags,
    /// A boolean field holds a byte other than 0 or 1.
    BadBoolean,
    /// The leading scheme-id byte of an archive is not a defined id.
    UnknownSchemeId,
    /// Well-formed entries were followed by bytes that no entry accounts for.
    TrailingData,
}

impl FormatError {
    /// A short description of the failure, for reporting by callers.
    pub fn describe(&self) -> (r: &'static str)
    {
        match self {
            FormatError::Truncated => "truncated input",
            FormatError::BadPresenceFlags => "impossible presence flags",
            FormatError::BadBoolean => "malformed boolean field",
            FormatError::UnknownSchemeId => "undefined compression scheme id",
            FormatError::TrailingData => "trailing bytes after final entry",
        }
    }
}

} // verus!
