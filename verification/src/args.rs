//! The arguments of the command: `key=value` assigns, `key?` asks what the
//! schema says of a key.

use vstd::prelude::*;
use vstd::string::*;
use crate::document::toml_error_message;
use crate::editor::Edit;
use crate::scalar::{literal_value, parse_value, read_value, Scalar};
use crate::text::{
    ends_with_char, find_char, join, position, split, split_on, strip_trailing, trim_trailing,
};

verus! {

/// The character that parts a key from its value.
pub const ASSIGN: char = '=';

/// The character that parts the keys of a path.
pub const DOT: char = '.';

/// The character at the end of a key that asks for its description.
pub const MARKER: char = '?';

/// A key with the value to assign to it.
#[derive(Debug, Clone, PartialEq, Eq)]
pub struct KeyValuePair {
    pub key: String,
    pub value: Scalar,
}

/// A key whose description is asked for, without the marker.
#[derive(Debug, Clone, PartialEq, Eq)]
pub struct HintQuery {
    pub key: String,
}

/// One argument of the command.
#[derive(Debug, Clone, PartialEq, Eq)]
pub enum Argument {
    Assign(KeyValuePair),
    Hint(HintQuery),
}

/// Why a token is no argument.
#[derive(Debug, Clone, PartialEq, Eq)]
pub enum ArgumentError {
    /// The token has no `=`, or nothing before it.
    MalformedArgument,
    /// What follows the `=` is no value of the document format; the text
    /// says why.
    InvalidValueLiteral(String),
}

/// Whether the token holds an `=`.
pub open spec fn has_value(token: Seq<char>) -> bool {
    position(token, ASSIGN) < token.len()
}

/// What stands before the first `=`; the whole token where there is none.
pub open spec fn key_part(token: Seq<char>) -> Seq<char> {
    token.take(position(token, ASSIGN))
}

/// What follows the first `=`.
pub open spec fn value_part(token: Seq<char>) -> Seq<char> {
    token.skip(position(token, ASSIGN) + 1)
}

/// Whether a key asks for its description.
pub open spec fn asks(key: Seq<char>) -> bool {
    key.len() > 0 && key.last() == MARKER
}

/// Whether a literal reads as a scalar.
pub open spec fn reads_as_scalar(literal: Seq<char>) -> bool {
    literal_value(literal) matches Some(Some(_))
}

impl ArgumentError {
    /// The error in words.
    pub fn message(&self) -> (text: String)
        ensures
            self matches ArgumentError::InvalidValueLiteral(why) ==> text@ == "invalid value: "@ + why@,
    {
        match self {
            ArgumentError::MalformedArgument => String::from_str("expected `key=value` or `key?`"),
            ArgumentError::InvalidValueLiteral(why) => join("invalid value: ", why.as_str()),
        }
    }
}

impl KeyValuePair {
    /// Reads a token `key=value`, cut at the first `=`.
    pub fn from_str(s: &str) -> (r: Result<KeyValuePair, ArgumentError>)
        ensures
            match r {
                Ok(pair) => {
                    &&& has_value(s@)
                    &&& key_part(s@).len() > 0
                    &&& pair.key@ == key_part(s@)
                    &&& literal_value(value_part(s@)) == Some(Some(pair.value@))
                },
                Err(ArgumentError::MalformedArgument) => !has_value(s@) || key_part(s@).len() == 0,
                Err(ArgumentError::InvalidValueLiteral(_)) => {
                    &&& has_value(s@)
                    &&& key_part(s@).len() > 0
                    &&& !reads_as_scalar(value_part(s@))
                },
            },
    {
        let n = s.unicode_len();
        let cut = find_char(s, ASSIGN);
        proof {
            crate::text::lemma_position_bounds(s@, ASSIGN);
        }
        if cut >= n || cut == 0 {
            return Err(ArgumentError::MalformedArgument);
        }
        let key = s.substring_char(0, cut);
        let literal = s.substring_char(cut + 1, n);
        proof {
            assert(s@.subrange(0, cut as int) =~= key_part(s@));
            assert(s@.subrange(cut + 1, n as int) =~= value_part(s@));
        }
        match parse_value(literal) {
            Ok(value) => match read_value(&value) {
                Some(scalar) => Ok(KeyValuePair { key: String::from_str(key), value: scalar }),
                None => Err(
                    ArgumentError::InvalidValueLiteral(
                        String::from_str("the value is neither a string, a number, a boolean nor an array of these"),
                    ),
                ),
            },
            Err(error) => Err(ArgumentError::InvalidValueLiteral(toml_error_message(&error))),
        }
    }

    /// The edit that the pair asks for: the key cut at its dots, and the
    /// value.
    pub fn to_edit(&self) -> (edit: Edit)
        ensures
            edit@.path == split_on(self.key@, DOT),
            edit@.value == self.value@,
    {
        Edit { key_path: split(self.key.as_str(), DOT), new_value: self.value.clone() }
    }
}

impl Argument {
    /// Reads one token. A key that ends in `?` asks for its description,
    /// with or without a value behind it; any other token has to be
    /// `key=value`.
    pub fn from_str(s: &str) -> (r: Result<Argument, ArgumentError>)
        ensures
            match r {
                Ok(Argument::Hint(hint)) => {
                    &&& asks(key_part(s@))
                    &&& hint.key@ == strip_trailing(key_part(s@), MARKER)
                    &&& has_value(s@) ==> reads_as_scalar(value_part(s@))
                },
                Ok(Argument::Assign(pair)) => {
                    &&& has_value(s@)
                    &&& key_part(s@).len() > 0
                    &&& !asks(key_part(s@))
                    &&& pair.key@ == key_part(s@)
                    &&& literal_value(value_part(s@)) == Some(Some(pair.value@))
                },
                Err(ArgumentError::MalformedArgument) => key_part(s@).len() == 0 || (!has_value(s@) && !asks(
                    key_part(s@),
                )),
                Err(ArgumentError::InvalidValueLiteral(_)) => {
                    &&& has_value(s@)
                    &&& key_part(s@).len() > 0
                    &&& !reads_as_scalar(value_part(s@))
                },
            },
    {
        let n = s.unicode_len();
        let cut = find_char(s, ASSIGN);
        proof {
            crate::text::lemma_position_bounds(s@, ASSIGN);
        }
        if cut >= n {
            proof {
                assert(s@.take(n as int) =~= s@);
            }
            if ends_with_char(s, MARKER) {
                let key = trim_trailing(s, MARKER);
                return Ok(Argument::Hint(HintQuery { key: String::from_str(key) }));
            }
            return Err(ArgumentError::MalformedArgument);
        }
        match KeyValuePair::from_str(s) {
            Ok(pair) => {
                if ends_with_char(pair.key.as_str(), MARKER) {
                    let key = trim_trailing(pair.key.as_str(), MARKER);
                    Ok(Argument::Hint(HintQuery { key: String::from_str(key) }))
                } else {
                    Ok(Argument::Assign(pair))
                }
            },
            Err(error) => Err(error),
        }
    }
}

} // verus!
