//! Error taxonomy of the exchange layer.

use vstd::prelude::*;
use vstd::string::*;
use crate::decimal::{
    append_fixed, append_signed, append_unsigned, digits_of, fixed_text, signed_digits,
};

verus! {

/// Everything that can go wrong while talking to an exchange or keeping its
/// data consistent.
#[derive(Debug, Clone)]
pub enum ExchangeError {
    Network { message: String },
    Authentication { reason: String },
    Api { code: i32, message: String },
    RateLimit { retry_after: Option<u64> },
    Parse(String),
    /// An update batch started after the next expected update id.
    SequenceGap { expected: u64, received: u64 },
    InvalidRequest { details: String },
    OrderError { reason: String },
    /// Amounts are fixed-point with eight fractional digits.
    InsufficientBalance { required: u64, available: u64 },
    SymbolNotFound { symbol: String },
    Connection { message: String },
    Timeout { seconds: u64 },
    Internal { message: String },
}

/// Result of an exchange operation.
pub type ExchangeResult<T> = Result<T, ExchangeError>;

/// How a caller should react to an error.
#[derive(Debug, Clone, Copy, PartialEq, Eq, Structural)]
pub enum ErrorKind {
    Recoverable,
    Fatal,
    RateLimit,
}

impl ExchangeError {
    /// The reaction class of an error. Rate limiting asks for a pause. Failed
    /// authentication, an empty balance, a malformed request and a gap in an
    /// update sequence cannot be retried away: the last one needs a fresh
    /// snapshot. Everything else, transport trouble above all, is recoverable.
    pub open spec fn spec_kind(&self) -> ErrorKind {
        match self {
            ExchangeError::RateLimit { .. } => ErrorKind::RateLimit,
            ExchangeError::Authentication { .. } => ErrorKind::Fatal,
            ExchangeError::InsufficientBalance { .. } => ErrorKind::Fatal,
            ExchangeError::InvalidRequest { .. } => ErrorKind::Fatal,
            ExchangeError::SequenceGap { .. } => ErrorKind::Fatal,
            _ => ErrorKind::Recoverable,
        }
    }

    #[verifier::when_used_as_spec(spec_kind)]
    pub fn kind(&self) -> (kind: ErrorKind)
        ensures
            kind == self.spec_kind(),
    {
        match self {
            ExchangeError::RateLimit { .. } => ErrorKind::RateLimit,
            ExchangeError::Authentication { .. } => ErrorKind::Fatal,
            ExchangeError::InsufficientBalance { .. } => ErrorKind::Fatal,
            ExchangeError::InvalidRequest { .. } => ErrorKind::Fatal,
            ExchangeError::SequenceGap { .. } => ErrorKind::Fatal,
            _ => ErrorKind::Recoverable,
        }
    }

    /// The error is a parse failure that carries `text`.
    pub open spec fn is_parse_of(&self, text: Seq<char>) -> bool {
        self matches ExchangeError::Parse(message) && message@ == text
    }

    /// An error is worth retrying exactly when it is recoverable.
    pub fn should_retry(&self) -> (retry: bool)
        ensures
            retry == (self.spec_kind() == ErrorKind::Recoverable),
    {
        match self.kind() {
            ErrorKind::Recoverable => true,
            _ => false,
        }
    }

    /// What the error says, for people to read.
    pub open spec fn text(&self) -> Seq<char> {
        match *self {
            ExchangeError::Network { message } => "Network error: "@ + message@,
            ExchangeError::Authentication { reason } => "Authentication failed: "@ + reason@,
            ExchangeError::Api { code, message } => "API error "@ + signed_digits(code as int)
                + ": "@ + message@,
            ExchangeError::RateLimit { retry_after } => "Rate limit exceeded: "@ + (
            match retry_after {
                Some(seconds) => "Some("@ + digits_of(seconds as nat) + ")"@,
                None => "None"@,
            }),
            ExchangeError::Parse(text) => "Parse error: "@ + text@,
            ExchangeError::SequenceGap { expected, received } =>
                "Sequence gap detected: expected "@ + digits_of(expected as nat) + ", got "@
                    + digits_of(received as nat),
            ExchangeError::InvalidRequest { details } => "Invalid request: "@ + details@,
            ExchangeError::OrderError { reason } => "Order error: "@ + reason@,
            ExchangeError::InsufficientBalance { required, available } =>
                "Insufficient balance: required "@ + fixed_text(required) + ", available "@
                    + fixed_text(available),
            ExchangeError::SymbolNotFound { symbol } => "Symbol not found: "@ + symbol@,
            ExchangeError::Connection { message } => "Connection error: "@ + message@,
            ExchangeError::Timeout { seconds } => "Timeout after "@ + digits_of(seconds as nat)
                + " seconds"@,
            ExchangeError::Internal { message } => "Internal error: "@ + message@,
        }
    }

    /// What the error says, for people to read.
    pub fn message(&self) -> (text: String)
        ensures
            text@ == self.text(),
    {
        match self {
            ExchangeError::Network { message } => {
                let mut text = String::from_str("Network error: ");
                text.append(message.as_str());
                text
            },
            ExchangeError::Authentication { reason } => {
                let mut text = String::from_str("Authentication failed: ");
                text.append(reason.as_str());
                text
            },
            ExchangeError::Api { code, message } => {
                let mut text = String::from_str("API error ");
                append_signed(&mut text, *code as i64);
                text.append(": ");
                text.append(message.as_str());
                text
            },
            ExchangeError::RateLimit { retry_after } => {
                let mut text = String::from_str("Rate limit exceeded: ");
                match retry_after {
                    Some(seconds) => {
                        let ghost head = text@;
                        text.append("Some(");
                        append_unsigned(&mut text, *seconds);
                        text.append(")");
                        proof {
                            assert(text@ =~= head + ("Some("@ + digits_of(*seconds as nat) + ")"@));
                        }
                    },
                    None => {
                        text.append("None");
                    },
                }
                text
            },
            ExchangeError::Parse(what) => {
                let mut text = String::from_str("Parse error: ");
                text.append(what.as_str());
                text
            },
            ExchangeError::SequenceGap { expected, received } => {
                let mut text = String::from_str("Sequence gap detected: expected ");
                append_unsigned(&mut text, *expected);
                text.append(", got ");
                append_unsigned(&mut text, *received);
                text
            },
            ExchangeError::InvalidRequest { details } => {
                let mut text = String::from_str("Invalid request: ");
                text.append(details.as_str());
                text
            },
            ExchangeError::OrderError { reason } => {
                let mut text = String::from_str("Order error: ");
                text.append(reason.as_str());
                text
            },
            ExchangeError::InsufficientBalance { required, available } => {
                let mut text = String::from_str("Insufficient balance: required ");
                append_fixed(&mut text, *required);
                text.append(", available ");
                append_fixed(&mut text, *available);
                text
            },
            ExchangeError::SymbolNotFound { symbol } => {
                let mut text = String::from_str("Symbol not found: ");
                text.append(symbol.as_str());
                text
            },
            ExchangeError::Connection { message } => {
                let mut text = String::from_str("Connection error: ");
                text.append(message.as_str());
                text
            },
            ExchangeError::Timeout { seconds } => {
                let mut text = String::from_str("Timeout after ");
                append_unsigned(&mut text, *seconds);
                text.append(" seconds");
                text
            },
            ExchangeError::Internal { message } => {
                let mut text = String::from_str("Internal error: ");
                text.append(message.as_str());
                text
            },
        }
    }

    /// True for a gap in the update sequence of an order book, which only a
    /// fresh snapshot repairs.
    pub fn is_sequence_gap(&self) -> (gap: bool)
        ensures
            gap == (self is SequenceGap),
    {
        match self {
            ExchangeError::SequenceGap { .. } => true,
            _ => false,
        }
    }
}

} // verus!
