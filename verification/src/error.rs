//! The ways in which a set of annotations can fail to describe a policy.

use vstd::prelude::*;

verus! {

/// A fault in the annotations of a type or of one of its fields.
///
/// The first two variants are faults of shape: an argument was present under
/// a known key but is not of the kind that the key needs. The last two are
/// faults of syntax: an item of an annotation list is not a flag, a
/// `key = "string"` pair or a nested list.
///
/// No fault is ever replaced by a default policy: a check that was asked for
/// and cannot be set up is reported, not dropped.
#[derive(Debug, Clone, Copy, PartialEq, Eq, Structural)]
pub enum ConfigError {
    /// An argument was read as a string and is a flag or a list.
    ExpectedString,
    /// An argument was read as a list and is a flag or a string.
    ExpectedList,
    /// A `key = value` item whose value is not an ordinary string literal.
    InvalidLiteral,
    /// An item of an annotation list that is a bare literal.
    UnknownItem,
}

impl ConfigError {
    /// Whether the fault is one of shape.
    pub open spec fn is_shape(self) -> bool {
        self == ConfigError::ExpectedString || self == ConfigError::ExpectedList
    }

    /// Whether the fault is one of syntax.
    pub open spec fn is_syntax(self) -> bool {
        self == ConfigError::InvalidLiteral || self == ConfigError::UnknownItem
    }

    /// A sentence for the person who wrote the annotation.
    pub fn message(&self) -> (text: String)
        ensures
            text@ == match *self {
                ConfigError::ExpectedString => "argument expects string value"@,
                ConfigError::ExpectedList => "argument expects list value"@,
                ConfigError::InvalidLiteral => "invalid value: only string literals are accepted"@,
                ConfigError::UnknownItem => "unknown item: expected a flag, a pair or a list"@,
            },
    {
        match self {
            ConfigError::ExpectedString => "argument expects string value".to_owned(),
            ConfigError::ExpectedList => "argument expects list value".to_owned(),
            ConfigError::InvalidLiteral => "invalid value: only string literals are accepted".to_owned(),
            ConfigError::UnknownItem => "unknown item: expected a flag, a pair or a list".to_owned(),
        }
    }
}

} // verus!
