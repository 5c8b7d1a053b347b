//! Password-strength policy: a password is acceptable exactly when it
//! is at least eight characters long and contains a lowercase letter,
//! an uppercase letter, a digit, and one of the special characters
//! `@ $ ! % * ? &`. The check is pure and reports a single violation
//! without saying which rule failed.

use vstd::prelude::*;

use crate::errors::AppError;

verus! {

pub open spec fn is_lower_char(c: char) -> bool {
    97 <= (c as u32) && (c as u32) <= 122
}

pub open spec fn is_upper_char(c: char) -> bool {
    65 <= (c as u32) && (c as u32) <= 90
}

pub open spec fn is_digit_char(c: char) -> bool {
    48 <= (c as u32) && (c as u32) <= 57
}

pub open spec fn is_special_char(c: char) -> bool {
    c == '@' || c == '$' || c == '!' || c == '%' || c == '*' || c == '?' || c == '&'
}

/// The whole policy over the password's characters.
pub open spec fn password_ok(p: Seq<char>) -> bool {
    &&& p.len() >= 8
    &&& exists|i: int| 0 <= i < p.len() && is_lower_char(p[i])
    &&& exists|i: int| 0 <= i < p.len() && is_upper_char(p[i])
    &&& exists|i: int| 0 <= i < p.len() && is_digit_char(p[i])
    &&& exists|i: int| 0 <= i < p.len() && is_special_char(p[i])
}

/// Accepts exactly the passwords that meet the policy; any violation
/// is reported as the single `InvalidPassword` category.
pub fn validate_password(password: &str) -> (r: Result<(), AppError>)
    ensures
        r is Ok <==> password_ok(password@),
        r matches Err(e) ==> e == AppError::InvalidPassword,
{
    let n = password.unicode_len();
    let mut has_lower = false;
    let mut has_upper = false;
    let mut has_digit = false;
    let mut has_special = false;
    let mut i: usize = 0;
    while i < n
        invariant
            n == password@.len(),
            0 <= i <= n,
            has_lower <==> exists|j: int| 0 <= j < i && is_lower_char(password@[j]),
            has_upper <==> exists|j: int| 0 <= j < i && is_upper_char(password@[j]),
            has_digit <==> exists|j: int| 0 <= j < i && is_digit_char(password@[j]),
            has_special <==> exists|j: int| 0 <= j < i && is_special_char(password@[j]),
        decreases n - i,
    {
        let c = password.get_char(i);
        if c >= 'a' && c <= 'z' {
            has_lower = true;
        }
        if c >= 'A' && c <= 'Z' {
            has_upper = true;
        }
        if c >= '0' && c <= '9' {
            has_digit = true;
        }
        if c == '@' || c == '$' || c == '!' || c == '%' || c == '*' || c == '?' || c == '&' {
            has_special = true;
        }
        i = i + 1;
    }
    if n >= 8 && has_lower && has_upper && has_digit && has_special {
        Ok(())
    } else {
        Err(AppError::InvalidPassword)
    }
}

/// A candidate password together with the policy check, as the
/// registration path consumes it.
pub struct PasswordRequirements {
    pub password: String,
}

impl PasswordRequirements {
    pub fn validate(&self) -> (r: Result<(), AppError>)
        ensures
            r is Ok <==> password_ok(self.password@),
            r matches Err(e) ==> e == AppError::InvalidPassword,
    {
        validate_password(self.password.as_str())
    }
}

} // verus!
