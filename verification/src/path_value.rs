//! Reading typed values out of path parameters.
//!
//! Each parameter is text; these functions read booleans, integers and
//! characters from it the way the path deserializer does, and give the
//! messages it reports when a value does not fit.

use vstd::prelude::*;
use vstd::string::*;
use crate::num::{parse_signed, parse_signed_spec, parse_unsigned, parse_unsigned_spec};
use crate::text::str_eq;

verus! {

/// An error while deserializing path parameters; holds the message.
#[derive(Debug)]
pub struct PathDeserializeError {
    message: String,
}

impl PathDeserializeError {
    /// An error with the given message.
    pub fn custom(msg: String) -> (r: PathDeserializeError)
        ensures
            r.message_view() == msg@,
    {
        PathDeserializeError { message: msg }
    }

    /// The message.
    pub closed spec fn message_view(&self) -> Seq<char> {
        self.message@
    }

    /// The message, consuming the error.
    pub fn into_message(self) -> (r: String)
        ensures
            r@ == self.message_view(),
    {
        self.message
    }
}

/// `` invalid <what>: `<value>` ``.
pub open spec fn invalid_message(what: Seq<char>, value: Seq<char>) -> Seq<char> {
    "invalid "@ + what + ": `"@ + value + "`"@
}

fn invalid(what: &str, value: &str) -> (r: PathDeserializeError)
    ensures
        r.message_view() == invalid_message(what@, value@),
{
    let mut m = "invalid ".to_owned();
    m.append(what);
    m.append(": `");
    m.append(value);
    m.append("`");
    PathDeserializeError::custom(m)
}

/// `true`/`1` and `false`/`0`.
pub open spec fn bool_value(s: Seq<char>) -> Option<bool> {
    if s == "true"@ || s == "1"@ {
        Some(true)
    } else if s == "false"@ || s == "0"@ {
        Some(false)
    } else {
        None
    }
}

/// Read a boolean parameter.
pub fn parse_bool(s: &str) -> (r: Result<bool, PathDeserializeError>)
    ensures
        match r {
            Ok(b) => bool_value(s@) == Some(b),
            Err(e) => bool_value(s@) is None && e.message_view() == invalid_message("boolean"@, s@),
        },
{
    if str_eq(s, "true") || str_eq(s, "1") {
        Ok(true)
    } else if str_eq(s, "false") || str_eq(s, "0") {
        Ok(false)
    } else {
        Err(invalid("boolean", s))
    }
}

/// Read an unsigned parameter of at most `max`; `what` names the type in the message.
pub fn parse_unsigned_param(s: &str, max: u64, what: &str) -> (r: Result<u64, PathDeserializeError>)
    ensures
        match r {
            Ok(v) => parse_unsigned_spec(s@, max as nat) == Some(v as nat),
            Err(e) => parse_unsigned_spec(s@, max as nat) is None && e.message_view()
                == invalid_message(what@, s@),
        },
{
    match parse_unsigned(s, max) {
        Some(v) => Ok(v),
        None => Err(invalid(what, s)),
    }
}

/// Read a signed parameter in `-(neg_max) ..= pos_max`; `what` names the type in the message.
pub fn parse_signed_param(s: &str, neg_max: u64, pos_max: u64, what: &str) -> (r: Result<
    (bool, u64),
    PathDeserializeError,
>)
    ensures
        match r {
            Ok((neg, mag)) => parse_signed_spec(s@, -(neg_max as int), pos_max as int) == Some(
                if neg { -(mag as int) } else { mag as int },
            ),
            Err(e) => parse_signed_spec(s@, -(neg_max as int), pos_max as int) is None
                && e.message_view() == invalid_message(what@, s@),
        },
{
    match parse_signed(s, neg_max, pos_max) {
        Some(v) => Ok(v),
        None => Err(invalid(what, s)),
    }
}

/// Read a `u8` parameter.
pub fn parse_u8(s: &str) -> (r: Result<u8, PathDeserializeError>)
    ensures
        match r {
            Ok(v) => parse_unsigned_spec(s@, 255) == Some(v as nat),
            Err(e) => parse_unsigned_spec(s@, 255) is None && e.message_view() == invalid_message("u8"@, s@),
        },
{
    match parse_unsigned_param(s, 255, "u8") {
        Ok(v) => Ok(v as u8),
        Err(e) => Err(e),
    }
}

/// Read a `u16` parameter.
pub fn parse_u16(s: &str) -> (r: Result<u16, PathDeserializeError>)
    ensures
        match r {
            Ok(v) => parse_unsigned_spec(s@, 65535) == Some(v as nat),
            Err(e) => parse_unsigned_spec(s@, 65535) is None && e.message_view() == invalid_message("u16"@, s@),
        },
{
    match parse_unsigned_param(s, 65535, "u16") {
        Ok(v) => Ok(v as u16),
        Err(e) => Err(e),
    }
}

/// Read a `u32` parameter.
pub fn parse_u32(s: &str) -> (r: Result<u32, PathDeserializeError>)
    ensures
        match r {
            Ok(v) => parse_unsigned_spec(s@, 4294967295) == Some(v as nat),
            Err(e) => parse_unsigned_spec(s@, 4294967295) is None && e.message_view() == invalid_message("u32"@, s@),
        },
{
    match parse_unsigned_param(s, 4294967295, "u32") {
        Ok(v) => Ok(v as u32),
        Err(e) => Err(e),
    }
}

/// Read a `u64` parameter.
pub fn parse_u64(s: &str) -> (r: Result<u64, PathDeserializeError>)
    ensures
        match r {
            Ok(v) => parse_unsigned_spec(s@, 18446744073709551615) == Some(v as nat),
            Err(e) => parse_unsigned_spec(s@, 18446744073709551615) is None && e.message_view() == invalid_message("u64"@, s@),
        },
{
    parse_unsigned_param(s, 18446744073709551615, "u64")
}

/// Read an `i8` parameter.
pub fn parse_i8(s: &str) -> (r: Result<i8, PathDeserializeError>)
    ensures
        match r {
            Ok(v) => parse_signed_spec(s@, -128, 127) == Some(v as int),
            Err(e) => parse_signed_spec(s@, -128, 127) is None && e.message_view() == invalid_message("i8"@, s@),
        },
{
    match parse_signed_param(s, 128, 127, "i8") {
        Ok((neg, m)) => Ok(if neg { (0 - (m as i16)) as i8 } else { m as i8 }),
        Err(e) => Err(e),
    }
}

/// Read an `i16` parameter.
pub fn parse_i16(s: &str) -> (r: Result<i16, PathDeserializeError>)
    ensures
        match r {
            Ok(v) => parse_signed_spec(s@, -32768, 32767) == Some(v as int),
            Err(e) => parse_signed_spec(s@, -32768, 32767) is None && e.message_view() == invalid_message("i16"@, s@),
        },
{
    match parse_signed_param(s, 32768, 32767, "i16") {
        Ok((neg, m)) => Ok(if neg { (0 - (m as i32)) as i16 } else { m as i16 }),
        Err(e) => Err(e),
    }
}

/// Read an `i32` parameter.
pub fn parse_i32(s: &str) -> (r: Result<i32, PathDeserializeError>)
    ensures
        match r {
            Ok(v) => parse_signed_spec(s@, -2147483648, 2147483647) == Some(v as int),
            Err(e) => parse_signed_spec(s@, -2147483648, 2147483647) is None && e.message_view() == invalid_message("i32"@, s@),
        },
{
    match parse_signed_param(s, 2147483648, 2147483647, "i32") {
        Ok((neg, m)) => Ok(if neg { (0 - (m as i64)) as i32 } else { m as i32 }),
        Err(e) => Err(e),
    }
}

/// Read an `i64` parameter.
pub fn parse_i64(s: &str) -> (r: Result<i64, PathDeserializeError>)
    ensures
        match r {
            Ok(v) => parse_signed_spec(s@, -9223372036854775808, 9223372036854775807) == Some(v as int),
            Err(e) => parse_signed_spec(s@, -9223372036854775808, 9223372036854775807) is None && e.message_view() == invalid_message("i64"@, s@),
        },
{
    match parse_signed_param(s, 9223372036854775808, 9223372036854775807, "i64") {
        Ok((neg, m)) => Ok(if neg { (0 - (m as i128)) as i64 } else { m as i64 }),
        Err(e) => Err(e),
    }
}

/// Read a `char` parameter: exactly one character.
pub fn parse_char(s: &str) -> (r: Result<char, PathDeserializeError>)
    ensures
        match r {
            Ok(c) => s@ == seq![c],
            Err(e) => s@.len() != 1 && e.message_view() == invalid_message("char"@, s@),
        },
{
    if s.unicode_len() == 1 {
        let c = s.get_char(0);
        assert(s@ =~= seq![c]);
        Ok(c)
    } else {
        Err(invalid("char", s))
    }
}

/// The only parameter's value; `what` names the requested form in the message
/// given when there is not exactly one parameter.
pub fn single_param_value(params: &Vec<(String, String)>, what: &str) -> (r: Result<
    String,
    PathDeserializeError,
>)
    ensures
        match r {
            Ok(v) => params@.len() == 1 && v@ == params@[0].1@,
            Err(e) => params@.len() != 1 && e.message_view() == "expected single path parameter for "@
                + what@,
        },
{
    if params.len() == 1 {
        Ok(params[0].1.clone())
    } else {
        let mut m = "expected single path parameter for ".to_owned();
        m.append(what);
        Err(PathDeserializeError::custom(m))
    }
}


/// The path parameters of a request, read as one value or as a sequence.
pub struct PathDeserializer<'de> {
    params: &'de [(String, String)],
}

impl<'de> PathDeserializer<'de> {
    pub closed spec fn params_view(&self) -> Seq<(String, String)> {
        self.params@
    }

    /// Read these parameters.
    pub fn new(params: &'de [(String, String)]) -> (r: PathDeserializer<'de>)
        ensures
            r.params_view() == params@,
    {
        PathDeserializer { params }
    }

    /// The parameters.
    pub fn params(&self) -> (r: &'de [(String, String)])
        ensures
            r@ == self.params_view(),
    {
        self.params
    }

    /// The only parameter's value; `what` names the requested form in the
    /// message given when there is not exactly one parameter.
    pub fn single_value(&self, what: &str) -> (r: Result<String, PathDeserializeError>)
        ensures
            match r {
                Ok(v) => self.params_view().len() == 1 && v@ == self.params_view()[0].1@,
                Err(e) => self.params_view().len() != 1 && e.message_view()
                    == "expected single path parameter for "@ + what@,
            },
    {
        if self.params.len() == 1 {
            Ok(self.params[0].1.clone())
        } else {
            let mut m = "expected single path parameter for ".to_owned();
            m.append(what);
            Err(PathDeserializeError::custom(m))
        }
    }

    /// A map reader over the parameters (for structs and maps).
    pub fn map_access(&self) -> (r: PathMapAccess<'de>)
        ensures
            r.params_view() == self.params_view(),
            r.index_view() == 0,
    {
        PathMapAccess::new(self.params)
    }

    /// A sequence reader over the parameters (for tuples).
    pub fn seq_access(&self) -> (r: PathSeqAccess<'de>)
        ensures
            r.params_view() == self.params_view(),
            r.index_view() == 0,
    {
        PathSeqAccess::new(self.params)
    }
}

/// Reads the parameters as a map: each name, then its value.
pub struct PathMapAccess<'de> {
    params: &'de [(String, String)],
    index: usize,
}

impl<'de> PathMapAccess<'de> {
    pub closed spec fn params_view(&self) -> Seq<(String, String)> {
        self.params@
    }

    pub closed spec fn index_view(&self) -> nat {
        self.index as nat
    }

    /// Start at the first parameter.
    pub fn new(params: &'de [(String, String)]) -> (r: PathMapAccess<'de>)
        ensures
            r.params_view() == params@,
            r.index_view() == 0,
    {
        PathMapAccess { params, index: 0 }
    }

    /// The next parameter's name, or `None` when all were read.
    pub fn next_key(&self) -> (r: Option<&'de str>)
        ensures
            match r {
                Some(k) => self.index_view() < self.params_view().len() && k@
                    == self.params_view()[self.index_view() as int].0@,
                None => self.index_view() >= self.params_view().len(),
            },
    {
        if self.index >= self.params.len() {
            return None;
        }
        Some(self.params[self.index].0.as_str())
    }

    /// The current parameter's value; moves on to the next parameter.
    pub fn next_value(&mut self) -> (r: &'de str)
        requires
            old(self).index_view() < old(self).params_view().len(),
        ensures
            r@ == old(self).params_view()[old(self).index_view() as int].1@,
            final(self).params_view() == old(self).params_view(),
            final(self).index_view() == old(self).index_view() + 1,
    {
        let v = self.params[self.index].1.as_str();
        self.index = self.index + 1;
        v
    }
}

/// Reads the parameters' values as a sequence.
pub struct PathSeqAccess<'de> {
    params: &'de [(String, String)],
    index: usize,
}

impl<'de> PathSeqAccess<'de> {
    pub closed spec fn params_view(&self) -> Seq<(String, String)> {
        self.params@
    }

    pub closed spec fn index_view(&self) -> nat {
        self.index as nat
    }

    /// Start at the first parameter.
    pub fn new(params: &'de [(String, String)]) -> (r: PathSeqAccess<'de>)
        ensures
            r.params_view() == params@,
            r.index_view() == 0,
    {
        PathSeqAccess { params, index: 0 }
    }

    /// The next value, or `None` when all were read.
    pub fn next_element(&mut self) -> (r: Option<&'de str>)
        ensures
            final(self).params_view() == old(self).params_view(),
            match r {
                Some(v) => old(self).index_view() < old(self).params_view().len() && v@
                    == old(self).params_view()[old(self).index_view() as int].1@
                    && final(self).index_view() == old(self).index_view() + 1,
                None => old(self).index_view() >= old(self).params_view().len()
                    && final(self).index_view() == old(self).index_view(),
            },
    {
        if self.index >= self.params.len() {
            return None;
        }
        let v = self.params[self.index].1.as_str();
        self.index = self.index + 1;
        Some(v)
    }
}

} // verus!
