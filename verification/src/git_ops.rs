//! The plain `git clone` of a URL, failing with the process's exit code.
use vstd::prelude::*;
use crate::text::{chars_of, push_signed_decimal, push_str_chars, signed_decimal, string_of};

verus! {

broadcast use vstd::string::group_string_axioms;

/// How an exit code is shown: `Some(<code>)` or `None`.
pub open spec fn exit_code_text(code: Option<i32>) -> Seq<char> {
    match code {
        Some(c) => "Some("@ + signed_decimal(c as int) + ")"@,
        None => "None"@,
    }
}

/// What a finished `git clone` means: success, or the error text with its
/// exit code.
pub fn clone_status(success: bool, code: Option<i32>) -> (r: Result<(), String>)
    ensures
        success ==> r is Ok,
        !success ==> (r matches Err(m) && m@ == "git clone failed with exit code "@ + exit_code_text(code)),
{
    if success {
        return Ok(());
    }
    let mut v = chars_of("git clone failed with exit code ");
    match code {
        Some(c) => {
            push_str_chars(&mut v, "Some(");
            push_signed_decimal(&mut v, c as i64);
            push_str_chars(&mut v, ")");
        },
        None => push_str_chars(&mut v, "None"),
    }
    Err(string_of(&v))
}

} // verus!
