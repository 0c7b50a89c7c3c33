//! Reserved delimiter characters and ASCII case mapping.

use vstd::prelude::*;

verus! {

/// Which reserved characters a splitting pass treats as delimiters.
#[derive(Clone, Copy, PartialEq, Eq, Structural)]
pub enum DelimSet {
    /// `$`, separating the entries of the flattened line.
    Entry,
    /// `=`, separating a qualified key from its value.
    KeyValue,
    /// `~`, separating file, section and key within a qualified key.
    Qualifier,
    /// The identifier-normalizer set: space, `/`, `~`, `_`, `-`, `.`, `(`, `)`, `+`.
    Word,
    /// The qualified-path-namer set: space, `/`, `~`, `_`, `-`, `.`.
    Path,
}

pub open spec fn spec_is_delim(ds: DelimSet, c: char) -> bool {
    match ds {
        DelimSet::Entry => c == '$',
        DelimSet::KeyValue => c == '=',
        DelimSet::Qualifier => c == '~',
        DelimSet::Word => c == ' ' || c == '/' || c == '~' || c == '_' || c == '-' || c == '.'
            || c == '(' || c == ')' || c == '+',
        DelimSet::Path => c == ' ' || c == '/' || c == '~' || c == '_' || c == '-' || c == '.',
    }
}

pub fn is_delim(ds: DelimSet, c: char) -> (b: bool)
    ensures
        b == spec_is_delim(ds, c),
{
    match ds {
        DelimSet::Entry => c == '$',
        DelimSet::KeyValue => c == '=',
        DelimSet::Qualifier => c == '~',
        DelimSet::Word => c == ' ' || c == '/' || c == '~' || c == '_' || c == '-' || c == '.'
            || c == '(' || c == ')' || c == '+',
        DelimSet::Path => c == ' ' || c == '/' || c == '~' || c == '_' || c == '-' || c == '.',
    }
}

/// ASCII lowercase letters map to their uppercase partner; everything else is unchanged.
pub open spec fn spec_to_upper(c: char) -> char {
    if 97 <= c as u32 && c as u32 <= 122 {
        (c as u32 - 32) as char
    } else {
        c
    }
}

/// ASCII uppercase letters map to their lowercase partner; everything else is unchanged.
pub open spec fn spec_to_lower(c: char) -> char {
    if 65 <= c as u32 && c as u32 <= 90 {
        (c as u32 + 32) as char
    } else {
        c
    }
}

pub open spec fn spec_is_digit(c: char) -> bool {
    48 <= c as u32 && c as u32 <= 57
}

pub fn to_upper(c: char) -> (r: char)
    ensures
        r == spec_to_upper(c),
{
    let u: u32 = c as u32;
    if 97 <= u && u <= 122 {
        let b: u8 = (u - 32) as u8;
        b as char
    } else {
        c
    }
}

pub fn to_lower(c: char) -> (r: char)
    ensures
        r == spec_to_lower(c),
{
    let u: u32 = c as u32;
    if 65 <= u && u <= 90 {
        let b: u8 = (u + 32) as u8;
        b as char
    } else {
        c
    }
}

pub fn is_digit(c: char) -> (b: bool)
    ensures
        b == spec_is_digit(c),
{
    let u: u32 = c as u32;
    48 <= u && u <= 57
}

} // verus!
