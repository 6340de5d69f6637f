//! The error that the library's operations report.

use vstd::prelude::*;

use crate::network::protocol::ErrorCode;

verus! {

/// An error with its protocol code and a message for people.
#[derive(Debug)]
pub struct AppError {
    pub code: ErrorCode,
    pub message: String,
}

impl AppError {
    /// An error with `code` and `message`.
    pub fn new(code: ErrorCode, message: String) -> (e: Self)
        ensures
            e.code == code,
            e.message@ == message@,
    {
        AppError { code, message }
    }
}

impl Clone for AppError {
    fn clone(&self) -> (r: Self)
        ensures
            r.code == self.code,
            r.message@ == self.message@,
    {
        AppError { code: self.code, message: self.message.clone() }
    }
}

/// `a` followed by `b` and `c`.
pub fn join3(a: &str, b: &str, c: &str) -> (r: String)
    ensures
        r@ == a@ + b@ + c@,
{
    let mut r = a.to_owned();
    r.append(b);
    r.append(c);
    r
}

/// `a` followed by `b`.
pub fn join2(a: &str, b: &str) -> (r: String)
    ensures
        r@ == a@ + b@,
{
    let mut r = a.to_owned();
    r.append(b);
    r
}

/// The owned text of `s`.
pub fn text(s: &str) -> (r: String)
    ensures
        r@ == s@,
{
    s.to_owned()
}

} // verus!
