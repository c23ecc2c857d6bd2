//! The application protocol of a session.

use vstd::prelude::*;

verus! {

/// The protocol of a session: what the server answered the request with, which may be that
/// there is none. A connection that is used as it is has no request; there it is what the
/// handshake negotiated, once it has.
pub fn protocol<'a>(answered: Option<Option<&'a str>>, negotiated: Option<&'a str>) -> (protocol: Option<&'a str>)
    ensures
        protocol == match answered {
            Some(answer) => answer,
            None => negotiated,
        },
{
    match answered {
        Some(answer) => answer,
        None => negotiated,
    }
}

/// What was negotiated counts exactly where there was no request to answer.
pub proof fn law_an_answer_comes_before_what_was_negotiated(
    answered: Option<Option<&str>>,
    negotiated: Option<&str>,
    name: Option<&str>,
)
    requires
        call_ensures(protocol, (answered, negotiated), name),
    ensures
        answered is None ==> name == negotiated,
        answered is Some ==> name == answered->0,
{
}

} // verus!
