//! Boolean wire fields: `'Y'`/`'N'`, with a space for "not available"
//! where the field permits it.

use vstd::prelude::*;

use crate::enums::BoolOrUnavailable;
use crate::types::ParseError;

verus! {

/// Meaning of a `'Y'`/`'N'` byte.
pub open spec fn spec_byte_to_bool(byte: u8) -> Result<bool, ParseError> {
    if byte == 89 {
        Ok(true)
    } else if byte == 78 {
        Ok(false)
    } else {
        Err(ParseError::InvalidBooleanByte { invalid_byte: byte })
    }
}

/// Meaning of a `'Y'`/`'N'`/`' '` byte.
pub open spec fn spec_byte_to_bool_space(byte: u8) -> Result<BoolOrUnavailable, ParseError> {
    if byte == 89 {
        Ok(BoolOrUnavailable::Bool(true))
    } else if byte == 78 {
        Ok(BoolOrUnavailable::Bool(false))
    } else if byte == 32 {
        Ok(BoolOrUnavailable::Str("Not Available"))
    } else {
        Err(ParseError::InvalidBooleanByte { invalid_byte: byte })
    }
}

/// Decodes a `'Y'`/`'N'` field; any other byte is an error.
pub fn byte_to_bool(byte: u8) -> (r: Result<bool, ParseError>)
    ensures
        r == spec_byte_to_bool(byte),
{
    match byte {
        89 => Ok(true),
        78 => Ok(false),
        b => Err(ParseError::InvalidBooleanByte { invalid_byte: b }),
    }
}

/// Decodes a `'Y'`/`'N'`/`' '` field; any other byte is an error.
pub fn byte_to_bool_space(byte: u8) -> (r: Result<BoolOrUnavailable, ParseError>)
    ensures
        r == spec_byte_to_bool_space(byte),
{
    match byte {
        89 => Ok(BoolOrUnavailable::Bool(true)),
        78 => Ok(BoolOrUnavailable::Bool(false)),
        32 => Ok(BoolOrUnavailable::Str("Not Available")),
        b => Err(ParseError::InvalidBooleanByte { invalid_byte: b }),
    }
}

/// The byte of a boolean field.
pub open spec fn spec_bool_code(b: bool) -> u8 {
    if b {
        89
    } else {
        78
    }
}

/// Encodes a boolean field as `'Y'` or `'N'`.
pub fn bool_code(b: bool) -> (r: u8)
    ensures
        r == spec_bool_code(b),
        spec_byte_to_bool(r) == Ok::<bool, ParseError>(b),
{
    if b {
        89
    } else {
        78
    }
}

/// The byte of a boolean-or-unavailable field.
pub open spec fn spec_bool_space_code(b: BoolOrUnavailable) -> u8 {
    match b {
        BoolOrUnavailable::Bool(true) => 89,
        BoolOrUnavailable::Bool(false) => 78,
        BoolOrUnavailable::Str(_) => 32,
    }
}

/// Encodes a boolean-or-unavailable field as `'Y'`, `'N'` or `' '`.
pub fn bool_space_code(b: &BoolOrUnavailable) -> (r: u8)
    ensures
        r == spec_bool_space_code(*b),
{
    match b {
        BoolOrUnavailable::Bool(true) => 89,
        BoolOrUnavailable::Bool(false) => 78,
        BoolOrUnavailable::Str(_) => 32,
    }
}

} // verus!
