//! What operations fail with, and what the QUIC and HTTP/3 layers report.

use vstd::prelude::*;

verus! {

/// The kinds of failures that callers tell apart.
#[derive(Debug, Clone, Copy, PartialEq, Eq, Structural)]
pub enum FailureKind {
    WouldBlock,
    BrokenPipe,
    UnexpectedEof,
    InvalidData,
    Other,
}

/// Why an operation failed.
#[derive(Debug)]
pub struct Failure {
    pub kind: FailureKind,
    /// What happened, where the kind does not say it all.
    pub message: Option<String>,
}

/// The content of a [`Failure`].
pub ghost struct FailureText {
    pub kind: FailureKind,
    pub message: Option<Seq<char>>,
}

impl View for Failure {
    type V = FailureText;

    open spec fn view(&self) -> FailureText {
        FailureText {
            kind: self.kind,
            message: match self.message {
                Some(text) => Some(text@),
                None => None,
            },
        }
    }
}

/// A failure that says `message`.
pub open spec fn failure_text(kind: FailureKind, message: Seq<char>) -> FailureText {
    FailureText { kind, message: Some(message) }
}

impl Failure {
    pub fn new(kind: FailureKind, message: String) -> (failure: Failure)
        ensures
            failure@ == failure_text(kind, message@),
    {
        Failure { kind, message: Some(message) }
    }

    /// A failure that callers do not tell apart from others.
    pub fn other(message: &str) -> (failure: Failure)
        ensures
            failure@ == failure_text(FailureKind::Other, message@),
    {
        Failure { kind: FailureKind::Other, message: Some(message.to_owned()) }
    }

    /// A failure for a reason that is known by its text.
    pub fn because(kind: FailureKind, what: &str, reason: &str) -> (failure: Failure)
        ensures
            failure@ == failure_text(kind, what@ + reason@),
    {
        let mut message = what.to_owned();
        message.append(reason);
        Failure::new(kind, message)
    }

    /// A failure that its kind says it all of.
    pub fn of_kind(kind: FailureKind) -> (failure: Failure)
        ensures
            failure@ == (FailureText { kind, message: None }),
    {
        Failure { kind, message: None }
    }
}

/// The decimal digit `d`.
pub open spec fn digit(d: int) -> char {
    (d + 48) as char
}

/// `value` in decimal.
pub open spec fn decimal(value: nat) -> Seq<char>
    decreases value,
{
    if value < 10 {
        seq![digit(value as int)]
    } else {
        decimal(value / 10).push(digit((value % 10) as int))
    }
}

/// Decimals are ASCII.
pub proof fn lemma_decimal_is_ascii(value: nat)
    ensures
        vstd::utf8::is_ascii_chars(decimal(value)),
    decreases value,
{
    if value >= 10 {
        lemma_decimal_is_ascii(value / 10);
    }
}

fn digit_text(d: u64) -> (text: &'static str)
    requires
        d < 10,
    ensures
        text@ == seq![digit(d as int)],
{
    proof {
        reveal_strlit("0");
        reveal_strlit("1");
        reveal_strlit("2");
        reveal_strlit("3");
        reveal_strlit("4");
        reveal_strlit("5");
        reveal_strlit("6");
        reveal_strlit("7");
        reveal_strlit("8");
        reveal_strlit("9");
    }
    let text = match d {
        0 => "0",
        1 => "1",
        2 => "2",
        3 => "3",
        4 => "4",
        5 => "5",
        6 => "6",
        7 => "7",
        8 => "8",
        _ => "9",
    };
    assert(text@ =~= seq![digit(d as int)]);
    text
}

/// `value` in decimal.
pub fn decimal_text(value: u64) -> (text: String)
    ensures
        text@ == decimal(value as nat),
    decreases value,
{
    if value < 10 {
        digit_text(value).to_owned()
    } else {
        let mut text = decimal_text(value / 10);
        text.append(digit_text(value % 10));
        assert(text@ =~= decimal(value as nat));
        text
    }
}

/// What a message about stream `stream_id` says: that it is about that stream, and `what`.
pub open spec fn stream_text(stream_id: u64, what: Seq<char>) -> Seq<char> {
    "H3 stream "@ + decimal(stream_id as nat) + what
}

/// A message about stream `stream_id`.
pub fn stream_message(stream_id: u64, what: &str) -> (message: String)
    ensures
        message@ == stream_text(stream_id, what@),
{
    let mut message = "H3 stream ".to_owned();
    let id = decimal_text(stream_id);
    message.append(id.as_str());
    message.append(what);
    message
}

/// What the QUIC connection reports instead of doing what it was asked to.
#[derive(Debug)]
pub enum QuicError {
    /// Nothing more to do for now.
    Done,
    /// The peer sent STOP_SENDING with this code.
    StreamStopped(u64),
    /// The final size of the stream would change.
    FinalSize,
    /// The stream is not in a state that allows it.
    InvalidStreamState(u64),
    /// Any other error, as the connection words it.
    Other(String),
}

/// How the error is worded.
pub open spec fn quic_error_text(error: QuicError) -> Seq<char> {
    match error {
        QuicError::Done => "Done"@,
        QuicError::StreamStopped(code) => "StreamStopped("@ + decimal(code as nat) + ")"@,
        QuicError::FinalSize => "FinalSize"@,
        QuicError::InvalidStreamState(id) => "InvalidStreamState("@ + decimal(id as nat) + ")"@,
        QuicError::Other(text) => text@,
    }
}

impl QuicError {
    /// How the error is worded.
    pub fn to_text(&self) -> (text: String)
        ensures
            text@ == quic_error_text(*self),
    {
        match self {
            QuicError::Done => "Done".to_owned(),
            QuicError::StreamStopped(code) => {
                let mut text = "StreamStopped(".to_owned();
                text.append(decimal_text(*code).as_str());
                text.append(")");
                text
            },
            QuicError::FinalSize => "FinalSize".to_owned(),
            QuicError::InvalidStreamState(id) => {
                let mut text = "InvalidStreamState(".to_owned();
                text.append(decimal_text(*id).as_str());
                text.append(")");
                text
            },
            QuicError::Other(text) => text.clone(),
        }
    }

    /// The failure that callers see.
    pub fn to_failure(&self) -> (failure: Failure)
        ensures
            failure@ == failure_text(FailureKind::Other, quic_error_text(*self)),
    {
        Failure::new(FailureKind::Other, self.to_text())
    }
}

/// What the HTTP/3 connection reports instead of doing what it was asked to.
#[derive(Debug)]
pub enum H3Error {
    /// Nothing more to do for now.
    Done,
    /// The stream has no room for what was to be sent.
    StreamBlocked,
    /// Any other error, as the connection words it.
    Other(String),
}

/// How the error is worded.
pub open spec fn h3_error_text(error: H3Error) -> Seq<char> {
    match error {
        H3Error::Done => "Done"@,
        H3Error::StreamBlocked => "StreamBlocked"@,
        H3Error::Other(text) => text@,
    }
}

impl H3Error {
    /// How the error is worded.
    pub fn to_text(&self) -> (text: String)
        ensures
            text@ == h3_error_text(*self),
    {
        match self {
            H3Error::Done => "Done".to_owned(),
            H3Error::StreamBlocked => "StreamBlocked".to_owned(),
            H3Error::Other(text) => text.clone(),
        }
    }
}

} // verus!
