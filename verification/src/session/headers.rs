//! The bytes in front of each stream and datagram of a session.

use bytes::Bytes;
use vstd::prelude::*;
use web_transport_proto::error_to_http3;

use crate::payload::{as_slice, from_vec, payload};
use crate::proto::{
    frame_webtransport, get_varint, http3_error, law_a_varint_is_read_back, put_varint,
    uni_webtransport, varint_at, varint_bytes, varint_len, varint_size, VARINT_LIMIT,
};

verus! {

/// The header of a unidirectional stream of a session.
pub open spec fn uni_header(session: u64) -> Seq<u8> {
    varint_bytes(0x54) + varint_bytes(session)
}

/// The header of a bidirectional stream of a session.
pub open spec fn bi_header(session: u64) -> Seq<u8> {
    varint_bytes(0x41) + varint_bytes(session)
}

/// The header of a datagram of a session.
pub open spec fn datagram_header(session: u64) -> Seq<u8> {
    varint_bytes(session)
}

/// A datagram or a stream names a session other than the one that it arrived on, or
/// none at all.
#[derive(Clone, Copy, Debug, PartialEq, Eq, Structural)]
pub struct UnknownSession;

/// The session that a connection carries, if it carries one rather than being used as
/// it is, with the headers that this implies.
pub struct Headers {
    session: Option<u64>,
    uni: Vec<u8>,
    bi: Vec<u8>,
    datagram: Vec<u8>,
}

/// What is left of a datagram once its header has been checked and removed.
pub open spec fn stripped(session: Option<u64>, datagram: Seq<u8>) -> Option<Seq<u8>> {
    match session {
        None => Some(datagram),
        Some(session) => match varint_at(datagram) {
            Some((actual, size)) => if actual == session {
                Some(datagram.skip(size as int))
            } else {
                None
            },
            None => None,
        },
    }
}

impl Headers {
    /// The session that the connection carries.
    pub closed spec fn session(&self) -> Option<u64> {
        self.session
    }

    /// The header in front of each unidirectional stream.
    pub closed spec fn uni_bytes(&self) -> Seq<u8> {
        self.uni@
    }

    /// The header in front of each bidirectional stream.
    pub closed spec fn bi_bytes(&self) -> Seq<u8> {
        self.bi@
    }

    /// The header in front of each datagram.
    pub closed spec fn datagram_bytes(&self) -> Seq<u8> {
        self.datagram@
    }

    /// The headers are those of the session; a connection without one has none.
    pub open spec fn wf(&self) -> bool {
        match self.session() {
            Some(session) => {
                &&& session < VARINT_LIMIT
                &&& self.uni_bytes() == uni_header(session)
                &&& self.bi_bytes() == bi_header(session)
                &&& self.datagram_bytes() == datagram_header(session)
            },
            None => {
                &&& self.uni_bytes() == Seq::<u8>::empty()
                &&& self.bi_bytes() == Seq::<u8>::empty()
                &&& self.datagram_bytes() == Seq::<u8>::empty()
            },
        }
    }

    /// The headers of a session, which is identified by the stream of its request.
    pub fn new(session: u64) -> (headers: Self)
        requires
            session < VARINT_LIMIT,
        ensures
            headers.wf(),
            headers.session() == Some(session),
    {
        let mut uni: Vec<u8> = Vec::new();
        put_varint(&mut uni, uni_webtransport());
        put_varint(&mut uni, session);
        let mut bi: Vec<u8> = Vec::new();
        put_varint(&mut bi, frame_webtransport());
        put_varint(&mut bi, session);
        let mut datagram: Vec<u8> = Vec::new();
        put_varint(&mut datagram, session);
        proof {
            assert(uni@ =~= uni_header(session));
            assert(bi@ =~= bi_header(session));
            assert(datagram@ =~= datagram_header(session));
        }
        Headers { session: Some(session), uni, bi, datagram }
    }

    /// The headers of a connection that is used as it is: none.
    pub fn raw() -> (headers: Self)
        ensures
            headers.wf(),
            headers.session() is None,
    {
        Headers { session: None, uni: Vec::new(), bi: Vec::new(), datagram: Vec::new() }
    }

    /// The session that the connection carries.
    pub fn session_id(&self) -> (session: Option<u64>)
        ensures
            session == self.session(),
    {
        self.session
    }

    /// The header in front of each unidirectional stream.
    pub fn uni(&self) -> (header: &[u8])
        ensures
            header@ == self.uni_bytes(),
    {
        self.uni.as_slice()
    }

    /// The header in front of each bidirectional stream.
    pub fn bi(&self) -> (header: &[u8])
        ensures
            header@ == self.bi_bytes(),
    {
        self.bi.as_slice()
    }

    /// Prepend the header to a datagram.
    pub fn frame_datagram(&self, data: &[u8]) -> (framed: Bytes)
        ensures
            payload(framed) == self.datagram_bytes() + data@,
    {
        let mut buf: Vec<u8> = Vec::new();
        buf.extend_from_slice(self.datagram.as_slice());
        buf.extend_from_slice(data);
        assert(buf@ =~= self.datagram@ + data@);
        from_vec(buf)
    }

    /// Validate and remove the header of a datagram.
    pub fn strip_datagram_header(&self, datagram: Bytes) -> (result: Result<Bytes, UnknownSession>)
        ensures
            match stripped(self.session(), payload(datagram)) {
                Some(data) => result matches Ok(left) && payload(left) == data,
                None => result is Err,
            },
    {
        let mut datagram = datagram;
        if let Some(session) = self.session {
            match get_varint(as_slice(&datagram)) {
                Some((actual, size)) => {
                    if actual != session {
                        return Err(UnknownSession);
                    }
                    Ok(datagram.split_off(size))
                },
                None => Err(UnknownSession),
            }
        } else {
            Ok(datagram)
        }
    }

    /// The largest datagram that may be sent, given the largest that the connection
    /// takes; zero if it takes none.
    pub fn max_datagram_size(&self, mtu: Option<usize>) -> (size: usize)
        ensures
            size == match mtu {
                Some(mtu) => if mtu > self.datagram_bytes().len() {
                    mtu - self.datagram_bytes().len()
                } else {
                    0
                },
                None => 0,
            },
    {
        match mtu {
            Some(mtu) => mtu.saturating_sub(self.datagram.len()),
            None => 0,
        }
    }

    /// How much of a datagram the send buffer has room for, given what room it has.
    pub fn datagram_send_buffer_space(&self, space: usize) -> (size: usize)
        ensures
            size == if space > self.datagram_bytes().len() {
                space - self.datagram_bytes().len()
            } else {
                0
            },
    {
        space.saturating_sub(self.datagram.len())
    }

    /// The code with which the connection is closed when the session is closed with
    /// one.
    pub fn close_code(&self, code: u32) -> (result: u64)
        ensures
            result == if self.session() is Some {
                http3_error(code)
            } else {
                code as u64
            },
            result < VARINT_LIMIT,
    {
        if self.session.is_some() {
            error_to_http3(code)
        } else {
            code as u64
        }
    }
}

/// What the start of a stream says.
#[derive(Clone, Copy, Debug, PartialEq, Eq, Structural)]
pub enum HeaderStep {
    /// This many more bytes have to be read.
    More(usize),
    /// The header names another session.
    Unknown,
    /// The header is complete, and tells the type of the stream.
    Complete(u64),
}

/// How many bytes are missing of the variable-length integer at the start of some.
pub open spec fn varint_missing(bytes: Seq<u8>) -> nat {
    if bytes.len() == 0 {
        1
    } else if bytes.len() < varint_size(bytes[0]) {
        (varint_size(bytes[0]) - bytes.len()) as nat
    } else {
        0
    }
}

/// What the first bytes of a stream say, where a stream of type `typ` names its session
/// and one of any other type does not.
pub open spec fn header_step(bytes: Seq<u8>, typ: u64, session: u64) -> HeaderStep {
    match varint_at(bytes) {
        None => HeaderStep::More(varint_missing(bytes) as usize),
        Some((actual, size)) => if actual != typ {
            HeaderStep::Complete(actual)
        } else {
            match varint_at(bytes.skip(size as int)) {
                None => HeaderStep::More(varint_missing(bytes.skip(size as int)) as usize),
                Some((id, _)) => if id == session {
                    HeaderStep::Complete(actual)
                } else {
                    HeaderStep::Unknown
                },
            }
        },
    }
}

/// How many more bytes the variable-length integer takes that these start.
fn missing(data: &[u8]) -> (count: usize)
    ensures
        count == varint_missing(data@),
{
    if data.len() == 0 {
        return 1;
    }
    let first: u8 = data[0];
    let size: usize = if first < 0x40 {
        1
    } else if first < 0x80 {
        2
    } else if first < 0xC0 {
        4
    } else {
        8
    };
    size.saturating_sub(data.len())
}

fn decode(data: &[u8], typ: u64, session: u64) -> (step: HeaderStep)
    ensures
        step == header_step(data@, typ, session),
{
    match get_varint(data) {
        None => HeaderStep::More(missing(data)),
        Some((actual, size)) => {
            if actual != typ {
                return HeaderStep::Complete(actual);
            }
            let rest = vstd::slice::slice_subrange(data, size, data.len());
            assert(rest@ =~= data@.skip(size as int));
            match get_varint(rest) {
                None => HeaderStep::More(missing(rest)),
                Some((id, _)) => {
                    if id == session {
                        HeaderStep::Complete(actual)
                    } else {
                        HeaderStep::Unknown
                    }
                },
            }
        },
    }
}

/// Decode the first bytes of a unidirectional stream. A stream of a session names it;
/// the type of any other stream stands alone.
pub fn decode_uni(data: &[u8], session: u64) -> (step: HeaderStep)
    ensures
        step == header_step(data@, 0x54, session),
{
    decode(data, uni_webtransport(), session)
}

/// Decode the first bytes of a bidirectional stream. A stream of a session names it;
/// the type of any other stream stands alone.
pub fn decode_bi(data: &[u8], session: u64) -> (step: HeaderStep)
    ensures
        step == header_step(data@, 0x41, session),
{
    decode(data, frame_webtransport(), session)
}

/// A datagram arrives as it was sent: removing the header that was put in front of it
/// gives it back.
pub proof fn law_a_datagram_is_read_back(headers: &Headers, data: Seq<u8>)
    requires
        headers.wf(),
    ensures
        stripped(headers.session(), headers.datagram_bytes() + data) == Some(data),
{
    let framed = headers.datagram_bytes() + data;
    match headers.session() {
        Some(session) => {
            law_a_varint_is_read_back(session, data);
            assert(framed.skip(varint_len(session) as int) =~= data);
        },
        None => {
            assert(framed =~= data);
        },
    }
}

/// A datagram of another session is refused.
pub proof fn law_a_datagram_of_another_session_is_refused(headers: &Headers, other: u64, data: Seq<u8>)
    requires
        headers.session() is Some,
        headers.session() != Some(other),
        other < VARINT_LIMIT,
    ensures
        stripped(headers.session(), datagram_header(other) + data) is None,
{
    law_a_varint_is_read_back(other, data);
}

/// The bytes missing of a variable-length integer of which only some have been read.
proof fn lemma_partial_varint(x: u64, read: int)
    requires
        x < VARINT_LIMIT,
        0 <= read < varint_len(x),
    ensures
        varint_bytes(x).len() == varint_len(x),
        varint_at(varint_bytes(x).take(read)) is None,
        0 < varint_missing(varint_bytes(x).take(read)) <= varint_len(x) - read,
{
    let bytes = varint_bytes(x);
    law_a_varint_is_read_back(x, Seq::empty());
    assert(bytes + Seq::<u8>::empty() =~= bytes);
    assert(varint_size(bytes[0]) == varint_len(x));
    if read > 0 {
        assert(bytes.take(read)[0] == bytes[0]);
    }
}

proof fn lemma_header(typ: u64, session: u64, read: int)
    requires
        typ < VARINT_LIMIT,
        session < VARINT_LIMIT,
        0 <= read <= (varint_bytes(typ) + varint_bytes(session)).len(),
    ensures
        header_is_exact(varint_bytes(typ) + varint_bytes(session), typ, session, read),
{
    let first = varint_bytes(typ);
    let second = varint_bytes(session);
    let bytes = (first + second).take(read);
    law_a_varint_is_read_back(typ, Seq::empty());
    law_a_varint_is_read_back(session, Seq::empty());
    if read < first.len() {
        assert(bytes =~= first.take(read));
        lemma_partial_varint(typ, read);
    } else {
        let rest = second.take(read - first.len());
        law_a_varint_is_read_back(typ, rest);
        assert(bytes =~= first + rest);
        assert(bytes.skip(first.len() as int) =~= rest);
        if read < first.len() + second.len() {
            lemma_partial_varint(session, read - first.len());
        } else {
            assert(rest =~= second + Seq::<u8>::empty());
        }
    }
}

/// Reading a header byte by byte: once all of it has been read it is complete, and
/// before that what is asked for never goes past it.
pub open spec fn header_is_exact(header: Seq<u8>, typ: u64, session: u64, read: int) -> bool {
    if read == header.len() {
        header_step(header.take(read), typ, session) == HeaderStep::Complete(typ)
    } else {
        header_step(header.take(read), typ, session) matches HeaderStep::More(count) && 0 < count
            && read + count <= header.len()
    }
}

/// A stream that one side opens is accepted by the other as one of the session, and the
/// header is exactly what it reads before that, so that the next byte read is the first
/// that the application wrote.
pub proof fn law_a_stream_header_is_read_back(headers: &Headers, read: int)
    requires
        headers.wf(),
        headers.session() is Some,
    ensures
        0 <= read <= headers.uni_bytes().len() ==> header_is_exact(
            headers.uni_bytes(),
            0x54,
            headers.session()->0,
            read,
        ),
        0 <= read <= headers.bi_bytes().len() ==> header_is_exact(
            headers.bi_bytes(),
            0x41,
            headers.session()->0,
            read,
        ),
{
    let session = headers.session()->0;
    if 0 <= read <= headers.uni_bytes().len() {
        lemma_header(0x54, session, read);
    }
    if 0 <= read <= headers.bi_bytes().len() {
        lemma_header(0x41, session, read);
    }
}

/// A stream of another session is refused.
pub proof fn law_a_stream_of_another_session_is_refused(headers: &Headers, other: u64)
    requires
        headers.session() is Some,
        headers.session() != Some(other),
        other < VARINT_LIMIT,
    ensures
        header_step(uni_header(other), 0x54, headers.session()->0) == HeaderStep::Unknown,
        header_step(bi_header(other), 0x41, headers.session()->0) == HeaderStep::Unknown,
{
    let id = varint_bytes(other);
    law_a_varint_is_read_back(other, Seq::empty());
    assert(id + Seq::<u8>::empty() =~= id);
    law_a_varint_is_read_back(0x54, id);
    law_a_varint_is_read_back(0x41, id);
    assert(uni_header(other).skip(varint_len(0x54) as int) =~= id);
    assert(bi_header(other).skip(varint_len(0x41) as int) =~= id);
}

/// Whatever a datagram holds, what is put on the wire for one session is what that session
/// takes off again, and no other session takes it. A connection that is used as it is puts
/// nothing in front, and takes nothing off.
pub proof fn law_a_datagram_reaches_its_session_alone()
    ensures
        forall|headers: &Headers, data: &[u8], framed: Bytes, result: Result<Bytes, UnknownSession>|
            #![trigger call_ensures(Headers::frame_datagram, (headers, data), framed), call_ensures(
                Headers::strip_datagram_header,
                (headers, framed),
                result,
            )]
            headers.wf() && call_ensures(Headers::frame_datagram, (headers, data), framed) && call_ensures(
                Headers::strip_datagram_header,
                (headers, framed),
                result,
            ) ==> result is Ok && payload(result->Ok_0) == data@,
        forall|headers: &Headers, other: &Headers, data: &[u8], framed: Bytes, result: Result<Bytes, UnknownSession>|
            #![trigger call_ensures(Headers::frame_datagram, (headers, data), framed), call_ensures(
                Headers::strip_datagram_header,
                (other, framed),
                result,
            )]
            headers.wf() && headers.session() is Some && other.session() is Some && headers.session()
                != other.session() && call_ensures(Headers::frame_datagram, (headers, data), framed)
                && call_ensures(Headers::strip_datagram_header, (other, framed), result) ==> result is Err,
        forall|headers: &Headers, data: &[u8], framed: Bytes|
            #[trigger] call_ensures(Headers::frame_datagram, (headers, data), framed) && headers.wf()
                && headers.session() is None ==> payload(framed) == data@,
        forall|headers: &Headers, datagram: Bytes, result: Result<Bytes, UnknownSession>|
            #[trigger] call_ensures(Headers::strip_datagram_header, (headers, datagram), result) ==> {
                &&& headers.session() is None ==> result is Ok && payload(result->Ok_0) == payload(datagram)
                &&& headers.session() is Some && result is Ok ==> {
                    &&& varint_at(payload(datagram)) is Some
                    &&& (varint_at(payload(datagram))->0).0 == headers.session()->0
                    &&& payload(result->Ok_0).is_suffix_of(payload(datagram))
                    &&& payload(result->Ok_0).len() + (varint_at(payload(datagram))->0).1 == payload(
                        datagram,
                    ).len()
                }
                &&& headers.session() is Some && result is Err ==> varint_at(payload(datagram)) is None || (
                varint_at(payload(datagram))->0).0 != headers.session()->0
            },
{
    assert forall|headers: &Headers, data: &[u8], framed: Bytes, result: Result<Bytes, UnknownSession>|
        #![trigger call_ensures(Headers::frame_datagram, (headers, data), framed), call_ensures(
            Headers::strip_datagram_header,
            (headers, framed),
            result,
        )]
        headers.wf() && call_ensures(Headers::frame_datagram, (headers, data), framed) && call_ensures(
            Headers::strip_datagram_header,
            (headers, framed),
            result,
        ) implies result is Ok && payload(result->Ok_0) == data@ by {
        law_a_datagram_is_read_back(headers, data@);
    }
    assert forall|headers: &Headers, other: &Headers, data: &[u8], framed: Bytes, result: Result<Bytes, UnknownSession>|
        #![trigger call_ensures(Headers::frame_datagram, (headers, data), framed), call_ensures(
            Headers::strip_datagram_header,
            (other, framed),
            result,
        )]
        headers.wf() && headers.session() is Some && other.session() is Some && headers.session()
            != other.session() && call_ensures(Headers::frame_datagram, (headers, data), framed)
            && call_ensures(Headers::strip_datagram_header, (other, framed), result) implies result is Err by {
        law_a_datagram_of_another_session_is_refused(other, headers.session()->0, data@);
    }
    assert forall|headers: &Headers, data: &[u8], framed: Bytes|
        #[trigger] call_ensures(Headers::frame_datagram, (headers, data), framed) && headers.wf()
            && headers.session() is None implies payload(framed) == data@ by {
        assert(Seq::<u8>::empty() + data@ =~= data@);
    }
}

/// What the reader of a stream's first bytes is told, byte by byte, where all of a header
/// has `len` bytes and `step` is what `read` of them say: before the end, to read some more,
/// but not past it; at the end, that it is complete and of a type.
pub open spec fn reads_to_the_end(step: HeaderStep, read: int, len: int, typ: u64) -> bool {
    if read < len {
        step matches HeaderStep::More(count) && 0 < count && read + count <= len
    } else {
        step == HeaderStep::Complete(typ)
    }
}

/// A stream that one side opens is recognised by the other, which reads exactly its header
/// and not a byte of what the application wrote; and a stream of another session is refused.
pub proof fn law_an_opened_stream_is_recognised(headers: &Headers, read: int, data: &[u8], step: HeaderStep)
    requires
        headers.wf(),
        headers.session() is Some,
    ensures
        0 <= read <= headers.uni_bytes().len() && data@ == headers.uni_bytes().take(read) && call_ensures(
            decode_uni,
            (data, headers.session()->0),
            step,
        ) ==> reads_to_the_end(step, read, headers.uni_bytes().len() as int, 0x54),
        0 <= read <= headers.bi_bytes().len() && data@ == headers.bi_bytes().take(read) && call_ensures(
            decode_bi,
            (data, headers.session()->0),
            step,
        ) ==> reads_to_the_end(step, read, headers.bi_bytes().len() as int, 0x41),
        forall|other: u64, refused: HeaderStep|
            #[trigger] call_ensures(decode_uni, (data, other), refused) && data@ == headers.uni_bytes()
                && other != headers.session()->0 ==> refused is Unknown,
        forall|other: u64, refused: HeaderStep|
            #[trigger] call_ensures(decode_bi, (data, other), refused) && data@ == headers.bi_bytes()
                && other != headers.session()->0 ==> refused is Unknown,
{
    law_a_stream_header_is_read_back(headers, read);
    let session = headers.session()->0;
    let id = varint_bytes(session);
    law_a_varint_is_read_back(session, Seq::empty());
    assert(id + Seq::<u8>::empty() =~= id);
    law_a_varint_is_read_back(0x54, id);
    law_a_varint_is_read_back(0x41, id);
    assert(uni_header(session).skip(varint_len(0x54) as int) =~= id);
    assert(bi_header(session).skip(varint_len(0x41) as int) =~= id);
}

/// A stream of any other type is recognised by its type alone, whatever follows it: it names
/// no session, so none is asked for. A stream is refused only because it names another
/// session, and accepted as one of the session only because it names that.
pub proof fn law_a_stream_is_judged_by_its_first_numbers(data: &[u8], session: u64, step: HeaderStep)
    ensures
        call_ensures(decode_uni, (data, session), step) ==> judged(step, data@, 0x54, session),
        call_ensures(decode_bi, (data, session), step) ==> judged(step, data@, 0x41, session),
{
}

pub open spec fn judged(step: HeaderStep, data: Seq<u8>, typ: u64, session: u64) -> bool {
    let first = varint_at(data);
    let second = varint_at(data.skip((first->0).1 as int));
    &&& step matches HeaderStep::Complete(actual) ==> first is Some && (first->0).0 == actual && (actual == typ
        ==> second is Some && (second->0).0 == session)
    &&& step is Unknown ==> first is Some && (first->0).0 == typ && second is Some && (second->0).0 != session
    &&& step matches HeaderStep::More(count) ==> if first is None {
        count == still_to_come(data)
    } else {
        (first->0).0 == typ && second is None && count == still_to_come(data.skip((first->0).1 as int))
    }
}

/// How many bytes are still to come of a number that has begun, as its first byte tells; or
/// that first byte.
pub open spec fn still_to_come(data: Seq<u8>) -> int {
    if data.len() == 0 {
        1
    } else {
        varint_size(data[0]) - data.len()
    }
}

/// With its header a datagram is no larger than the connection takes, and it may be as large
/// as that; so is what fits the send buffer. There is no room for one smaller than the
/// header.
pub proof fn law_a_datagram_fits_with_its_header(headers: &Headers, limit: usize, size: usize)
    ensures
        call_ensures(Headers::max_datagram_size, (headers, Some(limit)), size) || call_ensures(
            Headers::datagram_send_buffer_space,
            (headers, limit),
            size,
        ) ==> {
            &&& headers.datagram_bytes().len() <= limit ==> size + headers.datagram_bytes().len() == limit
            &&& headers.datagram_bytes().len() > limit ==> size == 0
        },
        call_ensures(Headers::max_datagram_size, (headers, None), size) ==> size == 0,
{
}

/// A session's codes are shifted into the range of HTTP/3, where no two become one; those of
/// a connection that is used as it is are left as they are.
pub proof fn law_close_codes_stay_apart(headers: &Headers, a: u32, b: u32, code_a: u64, code_b: u64)
    requires
        call_ensures(Headers::close_code, (headers, a), code_a),
        call_ensures(Headers::close_code, (headers, b), code_b),
    ensures
        a < b ==> code_a < code_b,
        headers.session() is None ==> code_a == a,
        headers.session() is Some ==> code_a == 0x52e4a40fa8db + a + a as int / 30,
{
}

/// The headers of a session begin with its own type and name it; a connection that is used
/// as it is has none.
pub proof fn law_headers_name_their_session()
    ensures
        forall|session: u64, headers: Headers|
            #[trigger] call_ensures(Headers::new, (session,), headers) && session < VARINT_LIMIT ==> {
                &&& headers.wf() && headers.session() == Some(session)
                &&& varint_at(headers.uni_bytes()) == Some((0x54u64, 2nat))
                &&& varint_at(headers.bi_bytes()) == Some((0x41u64, 2nat))
                &&& varint_at(headers.uni_bytes().skip(2)) == Some((session, varint_len(session)))
                &&& varint_at(headers.bi_bytes().skip(2)) == Some((session, varint_len(session)))
                &&& varint_at(headers.datagram_bytes()) == Some((session, varint_len(session)))
                &&& headers.uni_bytes().len() == 2 + varint_len(session)
                &&& headers.bi_bytes().len() == 2 + varint_len(session)
                &&& headers.datagram_bytes().len() == varint_len(session)
            },
        forall|headers: Headers|
            #[trigger] call_ensures(Headers::raw, (), headers) ==> headers.wf() && headers.session() is None
                && headers.uni_bytes().len() + headers.bi_bytes().len() + headers.datagram_bytes().len() == 0,
        forall|headers: &Headers, header: &[u8]|
            #[trigger] call_ensures(Headers::uni, (headers,), header) ==> header@ == headers.uni_bytes(),
        forall|headers: &Headers, header: &[u8]|
            #[trigger] call_ensures(Headers::bi, (headers,), header) ==> header@ == headers.bi_bytes(),
        forall|headers: &Headers, session: Option<u64>|
            #[trigger] call_ensures(Headers::session_id, (headers,), session) ==> session == headers.session(),
{
    assert forall|session: u64, headers: Headers|
        #[trigger] call_ensures(Headers::new, (session,), headers) && session < VARINT_LIMIT implies {
        &&& varint_at(headers.uni_bytes()) == Some((0x54u64, 2nat))
        &&& varint_at(headers.bi_bytes()) == Some((0x41u64, 2nat))
        &&& varint_at(headers.uni_bytes().skip(2)) == Some((session, varint_len(session)))
        &&& varint_at(headers.bi_bytes().skip(2)) == Some((session, varint_len(session)))
        &&& varint_at(headers.datagram_bytes()) == Some((session, varint_len(session)))
        &&& headers.uni_bytes().len() == 2 + varint_len(session)
        &&& headers.bi_bytes().len() == 2 + varint_len(session)
        &&& headers.datagram_bytes().len() == varint_len(session)
    } by {
        let id = varint_bytes(session);
        law_a_varint_is_read_back(session, Seq::empty());
        assert(id + Seq::<u8>::empty() =~= id);
        law_a_varint_is_read_back(0x54, id);
        law_a_varint_is_read_back(0x41, id);
        assert(uni_header(session).skip(2) =~= id);
        assert(bi_header(session).skip(2) =~= id);
    }
}

} // verus!
