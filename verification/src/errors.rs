//! The error cases of the two argument grammars.

use vstd::prelude::*;

verus! {

/// Everything that can go wrong while reading a macro argument list.
#[derive(Clone, Copy, Debug, PartialEq, Eq, Structural)]
pub enum ArgsError {
    /// A key was expected but the next character cannot open an identifier.
    ExpectedIdent,
    /// A key must be followed by `=`.
    ExpectedEquals,
    /// Two key-value pairs must be separated by a comma.
    ExpectedComma,
    /// A key other than the recognised ones was given.
    UnknownKey,
    /// A double-quoted string literal was expected.
    ExpectedString,
    /// `true` or `false` was expected.
    ExpectedBool,
    /// A braced block `{ ... }` was expected.
    ExpectedBrace,
    /// The identifier before a `:` can only be `context`.
    ExpectedContext,
    /// A string literal ended before its closing quote.
    UnterminatedString,
    /// A backslash escape other than the recognised ones was used.
    BadEscape,
    /// A braced block ended before its closing brace.
    UnbalancedBraces,
    /// Input remained after the recognised arguments.
    TrailingInput,
    /// No `path` key was given.
    MissingPath,
    /// An inline data block is not valid TOML.
    InvalidToml,
}

/// The message that each error carries.
pub open spec fn sp_message(e: ArgsError) -> Seq<char> {
    match e {
        ArgsError::ExpectedIdent => "expected identifier"@,
        ArgsError::ExpectedEquals => "expected `=`"@,
        ArgsError::ExpectedComma => "expected `,`"@,
        ArgsError::UnknownKey => "unexpected identifier"@,
        ArgsError::ExpectedString => "expected string literal"@,
        ArgsError::ExpectedBool => "expected `true` or `false`"@,
        ArgsError::ExpectedBrace => "expected `{`"@,
        ArgsError::ExpectedContext => "expected `context`"@,
        ArgsError::UnterminatedString => "unterminated string literal"@,
        ArgsError::BadEscape => "unsupported escape sequence"@,
        ArgsError::UnbalancedBraces => "unbalanced braces"@,
        ArgsError::TrailingInput => "unexpected trailing input"@,
        ArgsError::MissingPath => "missing `path`"@,
        ArgsError::InvalidToml => "invalid inline toml"@,
    }
}

impl ArgsError {
    /// A short description of the error, for reporting at the macro call site.
    pub fn message(&self) -> (r: String)
        ensures
            r@ == sp_message(*self),
    {
        match self {
            ArgsError::ExpectedIdent => String::from_str("expected identifier"),
            ArgsError::ExpectedEquals => String::from_str("expected `=`"),
            ArgsError::ExpectedComma => String::from_str("expected `,`"),
            ArgsError::UnknownKey => String::from_str("unexpected identifier"),
            ArgsError::ExpectedString => String::from_str("expected string literal"),
            ArgsError::ExpectedBool => String::from_str("expected `true` or `false`"),
            ArgsError::ExpectedBrace => String::from_str("expected `{`"),
            ArgsError::ExpectedContext => String::from_str("expected `context`"),
            ArgsError::UnterminatedString => String::from_str("unterminated string literal"),
            ArgsError::BadEscape => String::from_str("unsupported escape sequence"),
            ArgsError::UnbalancedBraces => String::from_str("unbalanced braces"),
            ArgsError::TrailingInput => String::from_str("unexpected trailing input"),
            ArgsError::MissingPath => String::from_str("missing `path`"),
            ArgsError::InvalidToml => String::from_str("invalid inline toml"),
        }
    }
}

} // verus!
