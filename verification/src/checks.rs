//! Checks that a scenario makes of the nodes it runs, and the errors they give.

use vstd::prelude::*;
use vstd::string::*;
use vstd::std_specs::cmp::PartialEqSpec;

verus! {

/// Why a scenario was given up.
#[derive(Debug)]
pub enum ErrorKind {
    /// A check did not hold; the text says which and on what values.
    AssertionFailed(String),
}

impl ErrorKind {
    /// The text that the error carries.
    pub open spec fn message(self) -> Seq<char> {
        match self {
            ErrorKind::AssertionFailed(text) => text@,
        }
    }

    /// The text that the error carries.
    pub fn to_string(&self) -> (text: String)
        ensures
            text@ == self.message(),
    {
        match self {
            ErrorKind::AssertionFailed(text) => text.clone(),
        }
    }
}

/// The text of a failed comparison: what was compared, then the two values.
pub open spec fn mismatch_text(info: Seq<char>, left: Seq<char>, right: Seq<char>) -> Seq<char> {
    info + ". "@ + left + " vs "@ + right
}

/// Writes the text of a failed comparison from the rendered values.
pub fn mismatch_message(info: &str, left: &str, right: &str) -> (message: String)
    ensures
        message@ == mismatch_text(info@, left@, right@),
{
    let mut message = String::from_str(info);
    message.append(". ");
    message.append(left);
    message.append(" vs ");
    message.append(right);
    message
}

/// Renders a value with `std::fmt::Debug`, as `{:?}` does. What the text holds is
/// up to the type's own `Debug`, so nothing is claimed of it.
#[verifier::external_body]
pub(crate) fn debug_text<A: std::fmt::Debug>(value: &A) -> (text: String) {
    format!("{:?}", value)
}

/// Fails with the text of the mismatch unless `left` equals `right`.
pub fn assert_equals<A: std::fmt::Debug + PartialEq>(left: &A, right: &A, info: &str) -> (result:
    Result<(), ErrorKind>)
    ensures
        A::obeys_eq_spec() ==> (result is Ok <==> left.eq_spec(right)),
        result matches Err(error) ==> exists|l: Seq<char>, r: Seq<char>|
            error.message() == mismatch_text(info@, l, r),
{
    if left != right {
        let l = debug_text(left);
        let r = debug_text(right);
        Err(ErrorKind::AssertionFailed(mismatch_message(info, l.as_str(), r.as_str())))
    } else {
        Ok(())
    }
}

/// Fails with `info` unless `statement` holds.
pub fn assert_true(statement: bool, info: &str) -> (result: Result<(), ErrorKind>)
    ensures
        result is Ok <==> statement,
        result matches Err(error) ==> error.message() == info@,
{
    if !statement {
        Err(ErrorKind::AssertionFailed(String::from_str(info)))
    } else {
        Ok(())
    }
}

} // verus!
