//! Identifier validation: the sole injection defense of the command gateway.
//! An operator-supplied service name or container id reaches an external
//! process only as a discrete argument, and only after it passes the
//! allow-pattern checked here.

use vstd::prelude::*;
use vstd::string::*;

verus! {

/// A character a service name may contain: letters, digits, dot, hyphen.
pub open spec fn is_service_char(c: char) -> bool {
    ('a' <= c && c <= 'z') || ('A' <= c && c <= 'Z') || ('0' <= c && c <= '9') || c == '.'
        || c == '-'
}

/// A character a container id may contain: the service-name set plus
/// underscore.
pub open spec fn is_container_char(c: char) -> bool {
    is_service_char(c) || c == '_'
}

/// A service name is accepted exactly when it is non-empty and made of
/// letters, digits, dots and hyphens.
pub open spec fn valid_service_name(s: Seq<char>) -> bool {
    s.len() > 0 && forall|i: int| 0 <= i < s.len() ==> is_service_char(#[trigger] s[i])
}

/// A container id is accepted exactly when it is non-empty and made of
/// letters, digits, dots, hyphens and underscores.
pub open spec fn valid_container_id(s: Seq<char>) -> bool {
    s.len() > 0 && forall|i: int| 0 <= i < s.len() ==> is_container_char(#[trigger] s[i])
}

fn service_char_ok(c: char) -> (r: bool)
    ensures
        r == is_service_char(c),
{
    ('a' <= c && c <= 'z') || ('A' <= c && c <= 'Z') || ('0' <= c && c <= '9') || c == '.'
        || c == '-'
}

fn container_char_ok(c: char) -> (r: bool)
    ensures
        r == is_container_char(c),
{
    service_char_ok(c) || c == '_'
}

/// Accepts a candidate service name if and only if it is non-empty and
/// every character is a letter, digit, dot or hyphen.
pub fn validate_service_name(name: &str) -> (r: bool)
    ensures
        r == valid_service_name(name@),
{
    let len = name.unicode_len();
    if len == 0 {
        return false;
    }
    let mut i: usize = 0;
    while i < len
        invariant
            0 <= i <= len,
            len == name@.len(),
            forall|j: int| 0 <= j < i ==> is_service_char(#[trigger] name@[j]),
        decreases len - i,
    {
        if !service_char_ok(name.get_char(i)) {
            return false;
        }
        i = i + 1;
    }
    true
}

/// Accepts a candidate container id if and only if it is non-empty and
/// every character is a letter, digit, dot, hyphen or underscore.
pub fn validate_container_id(id: &str) -> (r: bool)
    ensures
        r == valid_container_id(id@),
{
    let len = id.unicode_len();
    if len == 0 {
        return false;
    }
    let mut i: usize = 0;
    while i < len
        invariant
            0 <= i <= len,
            len == id@.len(),
            forall|j: int| 0 <= j < i ==> is_container_char(#[trigger] id@[j]),
        decreases len - i,
    {
        if !container_char_ok(id.get_char(i)) {
            return false;
        }
        i = i + 1;
    }
    true
}

} // verus!
