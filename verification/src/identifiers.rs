//! Validated names for servers, profiles and signers.
use vstd::prelude::*;
use vstd::string::*;

use crate::text::{chars_of, is_digit, is_digit_char, is_lower, is_lower_char, owned};

verus! {

/// The most characters an identifier may hold.
pub const MAX_IDENTIFIER_LEN: usize = 64;

pub open spec fn is_ident_char(c: char) -> bool {
    is_lower(c) || is_digit(c) || c == '-' || c == '_'
}

pub open spec fn msg_ident_empty() -> Seq<char> {
    "identifier must not be empty"@
}

pub open spec fn msg_ident_too_long() -> Seq<char> {
    "identifier must not exceed 64 characters"@
}

pub open spec fn msg_ident_bad_start() -> Seq<char> {
    "identifier must start with a lowercase ASCII letter or digit"@
}

pub open spec fn msg_ident_bad_chars() -> Seq<char> {
    "identifier may contain only lowercase ASCII letters, digits, '-' and '_'"@
}

/// Why `s` is not an identifier, checked in this order: empty, longer than
/// 64 characters, a first character other than `[a-z0-9]`, another character
/// other than `[a-z0-9_-]`.
pub open spec fn identifier_error(s: Seq<char>) -> Option<Seq<char>> {
    if s.len() == 0 {
        Some(msg_ident_empty())
    } else if s.len() > MAX_IDENTIFIER_LEN {
        Some(msg_ident_too_long())
    } else if !(is_lower(s[0]) || is_digit(s[0])) {
        Some(msg_ident_bad_start())
    } else if exists|i: int| 1 <= i < s.len() && !is_ident_char(#[trigger] s[i]) {
        Some(msg_ident_bad_chars())
    } else {
        None
    }
}

/// `[a-z0-9][a-z0-9_-]*`, at most 64 characters long.
pub open spec fn is_identifier(s: Seq<char>) -> bool {
    identifier_error(s) is None
}

pub open spec fn identifier_result(s: Seq<char>, r: Result<(), String>) -> bool {
    match identifier_error(s) {
        None => r is Ok,
        Some(m) => r matches Err(e) && e@ == m,
    }
}

/// Checks that `value` is an identifier; the error says which rule failed.
pub fn validate_identifier(value: &str) -> (r: Result<(), String>)
    ensures
        identifier_result(value@, r),
{
    let v = chars_of(value);
    if v.len() == 0 {
        return Err(owned("identifier must not be empty"));
    }
    if v.len() > MAX_IDENTIFIER_LEN {
        return Err(owned("identifier must not exceed 64 characters"));
    }
    let first = v[0];
    if !is_lower_char(first) && !is_digit_char(first) {
        return Err(owned("identifier must start with a lowercase ASCII letter or digit"));
    }
    let mut i: usize = 1;
    while i < v.len()
        invariant
            1 <= i <= v.len(),
            v@ == value@,
            value@.len() <= MAX_IDENTIFIER_LEN,
            is_lower(value@[0]) || is_digit(value@[0]),
            forall|j: int| 1 <= j < i ==> is_ident_char(#[trigger] v@[j]),
        decreases v.len() - i,
    {
        let c = v[i];
        if !(is_lower_char(c) || is_digit_char(c) || c == '-' || c == '_') {
            assert(!is_ident_char(value@[i as int]));

            return Err(
                owned("identifier may contain only lowercase ASCII letters, digits, '-' and '_'"),
            );
        }
        i = i + 1;
    }
    Ok(())
}

/// The name of a configured server.
#[derive(Debug, Clone, PartialEq, Eq, PartialOrd, Ord, Hash)]
pub struct ServerAlias(String);

/// The name of a command profile.
#[derive(Debug, Clone, PartialEq, Eq, PartialOrd, Ord, Hash)]
pub struct ProfileName(String);

/// The name of a certificate signer.
#[derive(Debug, Clone, PartialEq, Eq, PartialOrd, Ord, Hash)]
pub struct SignerName(String);

impl View for ServerAlias {
    type V = Seq<char>;

    closed spec fn view(&self) -> Seq<char> {
        self.0@
    }
}

impl View for ProfileName {
    type V = Seq<char>;

    closed spec fn view(&self) -> Seq<char> {
        self.0@
    }
}

impl View for SignerName {
    type V = Seq<char>;

    closed spec fn view(&self) -> Seq<char> {
        self.0@
    }
}

impl ServerAlias {
    /// The alias `value`, or why it is not an identifier.
    pub fn new(value: &str) -> (r: Result<Self, String>)
        ensures
            identifier_error(value@) is None ==> (r matches Ok(a) && a@ == value@),
            identifier_error(value@) matches Some(m) ==> (r matches Err(e) && e@ == m),
    {
        match validate_identifier(value) {
            Ok(()) => Ok(ServerAlias(owned(value))),
            Err(e) => Err(e),
        }
    }

    pub fn as_str(&self) -> (r: &str)
        ensures
            r@ == self@,
    {
        self.0.as_str()
    }

    /// A copy of this alias.
    pub fn duplicate(&self) -> (r: Self)
        ensures
            r@ == self@,
    {
        ServerAlias(owned(self.0.as_str()))
    }
}

impl ProfileName {
    /// The profile name `value`, or why it is not an identifier.
    pub fn new(value: &str) -> (r: Result<Self, String>)
        ensures
            identifier_error(value@) is None ==> (r matches Ok(a) && a@ == value@),
            identifier_error(value@) matches Some(m) ==> (r matches Err(e) && e@ == m),
    {
        match validate_identifier(value) {
            Ok(()) => Ok(ProfileName(owned(value))),
            Err(e) => Err(e),
        }
    }

    pub fn as_str(&self) -> (r: &str)
        ensures
            r@ == self@,
    {
        self.0.as_str()
    }

    /// A copy of this name.
    pub fn duplicate(&self) -> (r: Self)
        ensures
            r@ == self@,
    {
        ProfileName(owned(self.0.as_str()))
    }
}

impl SignerName {
    /// The signer name `value`, or why it is not an identifier.
    pub fn new(value: &str) -> (r: Result<Self, String>)
        ensures
            identifier_error(value@) is None ==> (r matches Ok(a) && a@ == value@),
            identifier_error(value@) matches Some(m) ==> (r matches Err(e) && e@ == m),
    {
        match validate_identifier(value) {
            Ok(()) => Ok(SignerName(owned(value))),
            Err(e) => Err(e),
        }
    }

    pub fn as_str(&self) -> (r: &str)
        ensures
            r@ == self@,
    {
        self.0.as_str()
    }

    /// A copy of this name.
    pub fn duplicate(&self) -> (r: Self)
        ensures
            r@ == self@,
    {
        SignerName(owned(self.0.as_str()))
    }
}

} // verus!
