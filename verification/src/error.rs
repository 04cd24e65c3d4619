use vstd::prelude::*;

verus! {

/// The failures this library reports to its callers: malformed code strings,
/// unknown category letters, a failed parse of a source file, and calling
/// `apply` on a rule whose strategy does not support it. The first three
/// carry the text they complain about: the string that failed to parse as a
/// code, the letter group that names no category, the parser's own message.
#[derive(Clone, Debug, PartialEq, Eq)]
pub enum LintError {
    /// A code string does not match the letters-then-three-digits format.
    InvalidCode(String),
    /// A letter (or letter group) does not name any rule category.
    UnknownCategory(String),
    /// The parser could not parse the source a tree rule was applied to.
    ParseFailed(String),
    /// `apply` was called on a rule that must be invoked with a path instead.
    MethodMismatch,
}

impl LintError {
    /// The description of the failure, for user-facing reports.
    pub fn message(&self) -> (r: String)
        ensures
            self matches LintError::InvalidCode(code) ==> r@ == code@
                + " is not a valid error code."@,
            self matches LintError::UnknownCategory(category) ==> r@ == category@
                + " is not a rule category."@,
            self matches LintError::ParseFailed(reason) ==> r@ == reason@,
            *self is MethodMismatch ==> r@
                == "Apply may only be called for tree and text methods."@,
    {
        match self {
            LintError::InvalidCode(code) => {
                let mut s = code.clone();
                s.append(" is not a valid error code.");
                s
            },
            LintError::UnknownCategory(category) => {
                let mut s = category.clone();
                s.append(" is not a rule category.");
                s
            },
            LintError::ParseFailed(reason) => reason.clone(),
            LintError::MethodMismatch => String::from_str(
                "Apply may only be called for tree and text methods.",
            ),
        }
    }
}

} // verus!
