//! Errors of the browser.

use vstd::prelude::*;

use crate::traits::error;

verus! {

/// A WebTransport error classified based on the source.
#[derive(Debug)]
pub enum Error {
    /// The session was closed, by either side.
    Session { code: u32, reason: String },
    /// A stream was reset or stopped by the peer, with a code if there is one.
    Stream(Option<u32>, String),
    /// The stream was closed by this side, so it can accept no more writes.
    Closed,
    /// Anything else.
    Unknown(String),
}

/// Where the browser says that an error comes from.
#[derive(Clone, Copy, Debug, PartialEq, Eq, Structural)]
pub enum Source {
    Stream,
    Session,
    /// Neither, or it is no error of WebTransport.
    Other,
}

impl Clone for Error {
    fn clone(&self) -> (copy: Self)
        ensures
            copy == *self,
    {
        match self {
            Error::Session { code, reason } => Error::Session { code: *code, reason: reason.clone() },
            Error::Stream(code, message) => Error::Stream(*code, message.clone()),
            Error::Closed => Error::Closed,
            Error::Unknown(text) => Error::Unknown(text.clone()),
        }
    }
}

impl Error {
    /// Classify an error by where the browser says that it comes from.
    pub fn classify(source: Source, code: Option<u32>, message: String) -> (error: Self)
        ensures
            error == match source {
                Source::Stream => Error::Stream(code, message),
                Source::Session => (Error::Session {
                    code: match code {
                        Some(code) => code,
                        None => 0,
                    },
                    reason: message,
                }),
                Source::Other => Error::Unknown(message),
            },
    {
        match source {
            Source::Stream => Error::Stream(code, message),
            Source::Session => Error::Session { code: code.unwrap_or(0), reason: message },
            Source::Other => Error::Unknown(message),
        }
    }

    /// The error that a clean close of the session is reported as.
    pub fn closed(code: Option<u32>, reason: Option<String>) -> (error: Self)
        ensures
            error matches Error::Session { code: c, reason: r } && c == (match code {
                Some(code) => code,
                None => 0,
            }) && r@ == match reason {
                Some(reason) => reason@,
                None => ""@,
            },
    {
        Error::Session {
            code: code.unwrap_or(0),
            reason: match reason {
                Some(reason) => reason,
                None => "".to_owned(),
            },
        }
    }

    /// The error code used when closing the stream or session.
    pub fn code(&self) -> (code: Option<u32>)
        ensures
            code == match *self {
                Error::Session { code, reason } => Some(code),
                Error::Stream(code, _) => code,
                _ => None,
            },
    {
        match self {
            Error::Session { code, reason: _ } => Some(*code),
            Error::Stream(code, _) => *code,
            _ => None,
        }
    }
}

impl error::Error for Error {
    /// The browser reports one numeric code either way, so the variant is the only thing
    /// saying which registry it belongs to.
    fn session_error(&self) -> (result: Option<(u32, String)>)
        ensures
            result == match *self {
                Error::Session { code, reason } => Some((code, reason)),
                _ => None,
            },
    {
        match self {
            Error::Session { code, reason } => Some((*code, reason.clone())),
            _ => None,
        }
    }

    fn stream_error(&self) -> (result: Option<u32>)
        ensures
            result == match *self {
                Error::Stream(code, _) => code,
                _ => None,
            },
    {
        match self {
            Error::Stream(code, _) => *code,
            _ => None,
        }
    }
}

/// How a stream was closed: with the code of the peer, if it ended with one, and with
/// the error otherwise.
pub fn closed_code(result: Result<(), Error>) -> (code: Result<Option<u32>, Error>)
    ensures
        code == match result {
            Ok(_) => Ok(None),
            Err(error) => match error {
                Error::Stream(Some(code), _) => Ok(Some(code)),
                _ => Err(error),
            },
        },
{
    match result {
        Ok(_) => Ok(None),
        Err(error) => {
            if let Error::Stream(Some(code), _) = &error {
                return Ok(Some(*code));
            }
            Err(error)
        },
    }
}

/// An error keeps what the browser said: where it comes from, its code and its message. The
/// code is told for a session and a stream, each in its own registry, and for nothing else.
pub proof fn law_an_error_keeps_what_the_browser_said(
    source: Source,
    code: Option<u32>,
    message: String,
    error: Error,
    told: Option<u32>,
    session: Option<(u32, String)>,
    stream: Option<u32>,
)
    requires
        call_ensures(Error::classify, (source, code, message), error),
        call_ensures(Error::code, (&error,), told),
        call_ensures(<Error as error::Error>::session_error, (&error,), session),
        call_ensures(<Error as error::Error>::stream_error, (&error,), stream),
    ensures
        source is Session <==> session is Some,
        source is Session ==> session->0 == (if code is Some { code->0 } else { 0 }, message) && stream is None
            && told == Some((session->0).0),
        source is Stream ==> stream == code && told == code && session is None && error == Error::Stream(
            code,
            message,
        ),
        source is Other ==> told is None && stream is None && error == Error::Unknown(message),
{
}

/// A session that was closed cleanly tells the code and reason that it was closed with, which
/// are zero and empty where there is none.
pub proof fn law_a_clean_close_tells_its_code(
    code: Option<u32>,
    reason: Option<String>,
    error: Error,
    session: Option<(u32, String)>,
)
    requires
        call_ensures(Error::closed, (code, reason), error),
        call_ensures(<Error as error::Error>::session_error, (&error,), session),
    ensures
        session is Some,
        code is Some ==> (session->0).0 == code->0,
        code is None ==> (session->0).0 == 0,
        reason is Some ==> (session->0).1@ == reason->0@,
        reason is None ==> (session->0).1@.len() == 0,
{
    reveal_strlit("");
}

/// A stream that ended with a code of the peer was closed, with that code; one that ended well
/// was closed with none. Any other error is an error, and the same one.
pub proof fn law_a_stream_closes_with_the_code_of_the_peer(
    result: Result<(), Error>,
    code: Result<Option<u32>, Error>,
    stream: Option<u32>,
)
    requires
        call_ensures(closed_code, (result,), code),
        result is Err ==> call_ensures(<Error as error::Error>::stream_error, (&result->Err_0,), stream),
    ensures
        result is Ok ==> code == Ok::<Option<u32>, Error>(None),
        result is Err && stream is Some ==> code == Ok::<Option<u32>, Error>(stream),
        result is Err && stream is None ==> code == Err::<Option<u32>, Error>(result->Err_0),
{
}

/// A clone of an error is the same error.
pub proof fn law_a_cloned_error_is_the_same(error: Error, copy: Error)
    requires
        call_ensures(<Error as Clone>::clone, (&error,), copy),
    ensures
        copy == error,
{
}

} // verus!
