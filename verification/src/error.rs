//! Errors of parsing.
use vstd::prelude::*;
use crate::text::{push, string_of};

verus! {

/// Errors met while parsing.
#[derive(Debug, Eq, PartialEq)]
pub enum ParseError {
    /// A table reference could not be parsed.
    InvalidTableReference {
        /// The reference as written.
        table_reference: String,
    },
}

impl ParseError {
    /// The error's message.
    pub open spec fn spec_message(&self) -> Seq<char> {
        match self {
            ParseError::InvalidTableReference { table_reference } =>
                "Invalid table reference: "@ + table_reference@,
        }
    }

    /// The error's message.
    pub fn to_string(&self) -> (s: String)
        ensures
            s@ == self.spec_message(),
    {
        match self {
            ParseError::InvalidTableReference { table_reference } => {
                let mut s = string_of("Invalid table reference: ");
                push(&mut s, table_reference.as_str());
                s
            },
        }
    }
}

} // verus!
