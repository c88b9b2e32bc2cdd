//! What became of one replica, and how it is shown.

use vstd::prelude::*;
use vstd::string::StringExecFns;

verus! {

/// The result of one replica attempt.
#[derive(Debug, PartialEq, Eq)]
pub enum Outcome {
    /// The relay answered with a body of `byte_length` bytes.
    Success { byte_length: usize },
    /// The attempt failed, while encapsulating or on the network.
    Failure { reason: String },
}

/// An [`Outcome`] as a mathematical value.
pub enum OutcomeView {
    Success { byte_length: nat },
    Failure { reason: Seq<char> },
}

impl View for Outcome {
    type V = OutcomeView;

    open spec fn view(&self) -> OutcomeView {
        match self {
            Outcome::Success { byte_length } => OutcomeView::Success {
                byte_length: *byte_length as nat,
            },
            Outcome::Failure { reason } => OutcomeView::Failure { reason: reason@ },
        }
    }
}

/// What the transport gave for one posted request.
#[derive(Debug, PartialEq, Eq)]
pub enum Exchange {
    /// The relay answered with `status` and the whole body came in.
    Answered { status: u16, body: Vec<u8> },
    /// There was no answer, or none that could be read to its end.
    Failed { reason: String },
}

/// An [`Exchange`] as a mathematical value.
pub enum ExchangeView {
    Answered { status: u16, body: Seq<u8> },
    Failed { reason: Seq<char> },
}

impl View for Exchange {
    type V = ExchangeView;

    open spec fn view(&self) -> ExchangeView {
        match self {
            Exchange::Answered { status, body } => ExchangeView::Answered {
                status: *status,
                body: body@,
            },
            Exchange::Failed { reason } => ExchangeView::Failed { reason: reason@ },
        }
    }
}

/// Whether a status code says that the request succeeded.
pub open spec fn is_success_status(status: u16) -> bool {
    200 <= status <= 299
}

/// The reason given for an answer whose status is no success.
pub open spec fn status_reason(status: u16) -> Seq<char> {
    "HTTP status "@ + decimal(status as nat)
}

/// The outcome that an exchange stands for: an answer with a success status
/// counts by the length of its body, any other answer fails by its status,
/// and a failed exchange by its own reason.
pub open spec fn outcome_of(exchange: ExchangeView) -> OutcomeView {
    match exchange {
        ExchangeView::Answered { status, body } => if is_success_status(status) {
            OutcomeView::Success { byte_length: body.len() }
        } else {
            OutcomeView::Failure { reason: status_reason(status) }
        },
        ExchangeView::Failed { reason } => OutcomeView::Failure { reason },
    }
}

/// The character for one decimal digit.
pub open spec fn decimal_digit(digit: nat) -> char {
    seq!['0', '1', '2', '3', '4', '5', '6', '7', '8', '9'][digit as int]
}

/// A number in decimal, without leading zeros.
pub open spec fn decimal(n: nat) -> Seq<char>
    decreases n,
{
    if n < 10 {
        seq![decimal_digit(n)]
    } else {
        decimal(n / 10).push(decimal_digit(n % 10))
    }
}

/// The line that reports an outcome.
pub open spec fn rendered(outcome: OutcomeView) -> Seq<char> {
    match outcome {
        OutcomeView::Success { byte_length } => "Got "@ + decimal(byte_length) + " bytes"@,
        OutcomeView::Failure { reason } => "Got an error: "@ + reason,
    }
}

/// `String::push`.
///
/// Trusted: the character is appended to the end of the string.
#[verifier::external_body]
fn push_char(text: &mut String, c: char)
    ensures
        final(text)@ == old(text)@.push(c),
{
    text.push(c)
}

fn digit_char(digit: usize) -> (c: char)
    requires
        digit < 10,
    ensures
        c == decimal_digit(digit as nat),
{
    if digit == 0 {
        '0'
    } else if digit == 1 {
        '1'
    } else if digit == 2 {
        '2'
    } else if digit == 3 {
        '3'
    } else if digit == 4 {
        '4'
    } else if digit == 5 {
        '5'
    } else if digit == 6 {
        '6'
    } else if digit == 7 {
        '7'
    } else if digit == 8 {
        '8'
    } else {
        '9'
    }
}

/// Appends `n` in decimal to `text`.
fn append_decimal(text: &mut String, n: usize)
    ensures
        final(text)@ == old(text)@ + decimal(n as nat),
    decreases n,
{
    if n >= 10 {
        append_decimal(text, n / 10);
    }
    push_char(text, digit_char(n % 10));
}

impl Outcome {
    /// The outcome of an attempt, from what the transport gave for it.
    pub fn from_exchange(exchange: Exchange) -> (outcome: Outcome)
        ensures
            outcome@ == outcome_of(exchange@),
    {
        match exchange {
            Exchange::Answered { status, body } => {
                if 200 <= status && status <= 299 {
                    Outcome::Success { byte_length: body.len() }
                } else {
                    let mut reason = String::from_str("HTTP status ");
                    append_decimal(&mut reason, status as usize);
                    Outcome::Failure { reason }
                }
            },
            Exchange::Failed { reason } => Outcome::Failure { reason },
        }
    }

    /// Whether the attempt failed.
    pub fn is_failure(&self) -> (failed: bool)
        ensures
            failed == (self@ is Failure),
    {
        match self {
            Outcome::Success { .. } => false,
            Outcome::Failure { .. } => true,
        }
    }

    /// The line that reports this outcome: the length of the answer, or the
    /// reason there was none.
    pub fn render(&self) -> (line: String)
        ensures
            line@ == rendered(self@),
    {
        match self {
            Outcome::Success { byte_length } => {
                let mut line = String::from_str("Got ");
                append_decimal(&mut line, *byte_length);
                line.append(" bytes");
                line
            },
            Outcome::Failure { reason } => {
                let mut line = String::from_str("Got an error: ");
                line.append(reason.as_str());
                line
            },
        }
    }
}

} // verus!
