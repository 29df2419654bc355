//! Small helpers on text.

use vstd::prelude::*;
use vstd::string::StringExecFns;

verus! {

/// What `str::replace` makes of a text: the text with every occurrence of
/// `from` replaced by `to`.
pub uninterp spec fn text_replaced(text: Seq<char>, from: Seq<char>, to: Seq<char>) -> Seq<char>;

/// `str::replace` of the standard library. The result depends on the three
/// texts alone.
#[verifier::external_body]
pub(crate) fn replace_text(text: &str, from: &str, to: &str) -> (replaced: String)
    ensures
        replaced@ == text_replaced(text@, from@, to@),
{
    text.replace(from, to)
}

/// Whether `validator::validate_email` takes a text for an email address.
pub uninterp spec fn email_accepted(text: Seq<char>) -> bool;

/// `validate_email` of the `validator` crate. The result depends on the
/// text alone.
#[verifier::external_body]
pub(crate) fn is_email(text: &str) -> (accepted: bool)
    ensures
        accepted == email_accepted(text@),
{
    validator::validate_email(text)
}

/// Whether two pieces of text are the same.
pub fn same_text(a: &str, b: &str) -> (same: bool)
    ensures
        same == (a@ == b@),
{
    String::from_str(a) == String::from_str(b)
}

/// A copy of an optional piece of text.
pub fn copy_optional_text(text: &Option<String>) -> (copy: Option<String>)
    ensures
        copy == *text,
{
    match text {
        Some(s) => Some(s.clone()),
        None => None,
    }
}

} // verus!
