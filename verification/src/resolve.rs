//! The one-shot resolver: one A query out, the answers of one response back.
//!
//! The caller posts the request that [`resolve_request`] returns and hands the
//! outcome to [`resolve_answers`], which yields one line per answer record in
//! response order.

use crate::codec::{
    a_query, a_query_with_id, checked_wire, decoded, domain_labels, encode_checked, valid_domain,
    wire_form, writable, CodecError,
};
use crate::message::{encoded_len, header_declares, name_fits, question_views, MessageView};
use crate::transport::{
    doh_request, payload_of, request_for, response_bytes, DohRequest, HttpOutcome,
    HttpOutcomeView, TransportError,
};
use crate::wire::{answer_line, answer_line_at, contents, parse_wire, random_id, read_from};
use trust_dns_proto::op::Message;
use vstd::prelude::*;

verus! {

/// Why a resolution gave no answers.
#[derive(Clone, Copy, Debug, PartialEq, Eq, Structural)]
pub enum ResolveError {
    /// The query could not be built or the response could not be decoded.
    Codec(CodecError),
    /// The exchange with the upstream failed.
    Transport(TransportError),
}

/// The length of the wire form of a query with one question for a name: the
/// header of twelve bytes, the encoded name, and two bytes each for type and
/// class.
pub open spec fn query_len(name: Seq<Seq<u8>>) -> nat {
    12 + encoded_len(name) + 4
}

/// The wire form of the A query for a domain: the domain is a valid name, and
/// the query has a wire form of the length that a single question gives it,
/// which decodes to the query itself.
pub open spec fn query_wire(domain: Seq<char>, id: u16) -> Option<Seq<u8>> {
    let query = a_query(domain_labels(domain), id);
    if valid_domain(domain) && checked_wire(query) is Some && checked_wire(query)->Some_0.len()
        == query_len(domain_labels(domain)) {
        checked_wire(query)
    } else {
        None
    }
}

/// The error for a domain whose A query has no wire form under an id.
pub open spec fn query_error(domain: Seq<char>, id: u16) -> CodecError {
    let query = a_query(domain_labels(domain), id);
    if !valid_domain(domain) {
        CodecError::InvalidName
    } else if wire_form(query) is Some && checked_wire(query) is None {
        CodecError::Altered
    } else {
        CodecError::Unencodable
    }
}

/// The texts of a list of strings, in order.
pub open spec fn texts(lines: Seq<String>) -> Seq<Seq<char>> {
    lines.map_values(|line: String| line@)
}

/// Whether each of the first `n` answers of a response has a line.
pub open spec fn printable(response: Seq<u8>, n: int) -> bool {
    forall|i: int| 0 <= i < n ==> (#[trigger] answer_line(response, i)) is Some
}

/// The lines of the first `n` answers of a response, in order.
pub open spec fn lines_of(response: Seq<u8>, n: int) -> Seq<Seq<char>> {
    Seq::new(n as nat, |i: int| answer_line(response, i)->Some_0)
}

/// The answer lines of a response: one line for each answer record, in
/// response order, where the response is a well-formed message and every
/// answer has a line.
pub open spec fn answers_of(response: Seq<u8>) -> Result<Seq<Seq<char>>, CodecError> {
    match decoded(response) {
        None => Err(CodecError::Malformed),
        Some(v) => if printable(response, v.answers.len() as int) {
            Ok(lines_of(response, v.answers.len() as int))
        } else {
            Err(CodecError::Unprintable)
        },
    }
}

/// What a resolution yields for an outcome of the exchange: the transport's
/// error, else the codec's, else the answer lines.
pub open spec fn resolved(outcome: HttpOutcomeView) -> Result<Seq<Seq<char>>, ResolveError> {
    match payload_of(outcome) {
        Err(e) => Err(ResolveError::Transport(e)),
        Ok(body) => match answers_of(body) {
            Ok(lines) => Ok(lines),
            Err(e) => Err(ResolveError::Codec(e)),
        },
    }
}

/// An A query for a name that keeps the rule for names is writable: the only
/// way for it to lack a wire form is that it cannot be written out.
proof fn lemma_a_query_is_writable(name: Seq<Seq<u8>>, id: u16)
    requires
        name_fits(name),
    ensures
        writable(a_query(name, id)),
{
    let v = a_query(name, id);
    assert(v.questions.len() == 1);
}

/// Builds the request that asks the upstream for the A records of a domain,
/// under a given transaction id.
///
/// Succeeds exactly where the domain is a valid name whose query has a wire
/// form. The request then carries that wire form to the upstream: bytes that
/// decode to the query itself, with one question for the domain's labels and
/// nothing else, whose header counts one question and no record, and whose
/// length is twelve bytes for the header, the encoded name, and four bytes
/// for type and class. An invalid name gives [`CodecError::InvalidName`].
pub fn resolve_request_with_id(upstream_url: &str, domain: &str, id: u16) -> (r: Result<
    DohRequest,
    CodecError,
>)
    ensures
        match r {
            Ok(request) => {
                &&& query_wire(domain@, id) == Some(request@.body)
                &&& request@ == request_for(upstream_url@, request@.body)
                &&& decoded(request@.body) == Some(a_query(domain_labels(domain@), id))
                &&& header_declares(request@.body, a_query(domain_labels(domain@), id))
                &&& request@.body.len() == query_len(domain_labels(domain@))
            },
            Err(e) => query_wire(domain@, id) is None && e == query_error(domain@, id),
        },
{
    let query = match a_query_with_id(domain, id) {
        Ok(query) => query,
        Err(e) => {
            return Err(e);
        },
    };
    proof {
        lemma_a_query_is_writable(domain_labels(domain@), id);
        assert(question_views(query.questions@).len() == 1);
        assert(question_views(query.questions@)[0] == query.questions@[0]@);
    }
    let name_len = match query.questions[0].name.wire_len() {
        Some(n) => n,
        None => {
            return Err(CodecError::InvalidName);
        },
    };
    match encode_checked(&query) {
        Ok(bytes) => {
            if bytes.len() == 12 + name_len + 4 {
                Ok(doh_request(upstream_url, bytes.as_slice()))
            } else {
                Err(CodecError::Unencodable)
            }
        },
        Err(e) => Err(e),
    }
}

/// Builds the request that asks the upstream for the A records of a domain,
/// under a freshly drawn transaction id, and returns the id with it.
///
/// Succeeds exactly where [`resolve_request_with_id`] does under the id that
/// was drawn, with the same request; it fails only where under that id the
/// query has no wire form.
pub fn resolve_request(upstream_url: &str, domain: &str) -> (r: Result<
    (u16, DohRequest),
    CodecError,
>)
    ensures
        match r {
            Ok((id, request)) => {
                &&& query_wire(domain@, id) == Some(request@.body)
                &&& request@ == request_for(upstream_url@, request@.body)
                &&& decoded(request@.body) == Some(a_query(domain_labels(domain@), id))
                &&& header_declares(request@.body, a_query(domain_labels(domain@), id))
                &&& request@.body.len() == query_len(domain_labels(domain@))
            },
            Err(e) => exists|id: u16| #[trigger]
                query_wire(domain@, id) is None && e == query_error(domain@, id),
        },
        !valid_domain(domain@) ==> r == Err::<(u16, DohRequest), CodecError>(
            CodecError::InvalidName,
        ),
{
    let id = random_id();
    match resolve_request_with_id(upstream_url, domain, id) {
        Ok(request) => Ok((id, request)),
        Err(e) => Err(e),
    }
}

fn read_answer_lines(m: &Message, Ghost(response): Ghost<Seq<u8>>) -> (r: Option<Vec<String>>)
    requires
        read_from(*m, response),
    ensures
        match r {
            Some(lines) => printable(response, contents(*m).answers.len() as int) && texts(lines@)
                == lines_of(response, contents(*m).answers.len() as int),
            None => !printable(response, contents(*m).answers.len() as int),
        },
{
    let mut out: Vec<String> = Vec::new();
    let ghost n = contents(*m).answers.len() as int;
    loop
        invariant_except_break
            read_from(*m, response),
            n == contents(*m).answers.len(),
            out@.len() <= n,
            printable(response, out@.len() as int),
            texts(out@) =~= lines_of(response, out@.len() as int),
        ensures
            out@.len() == n,
            printable(response, n),
            texts(out@) =~= lines_of(response, n),
        decreases n - out@.len(),
    {
        match answer_line_at(m, out.len()) {
            Some(Some(line)) => {
                proof {
                    let k = out@.len() as int;
                    assert(answer_line(response, k) == Some(line@));
                    assert(texts(out@.push(line)) =~= texts(out@).push(line@));
                    assert(lines_of(response, k + 1) =~= lines_of(response, k).push(line@));
                }
                out.push(line);
            },
            Some(None) => {
                return None;
            },
            None => {
                break ;
            },
        }
    }
    Some(out)
}

/// Decodes a response and yields one line per answer record, in response
/// order.
///
/// Succeeds exactly where the response is a well-formed message and every
/// answer has a line; a response without answers yields no line. A buffer
/// that is no well-formed message gives [`CodecError::Malformed`]; an answer
/// whose data has no presentation form, such as that of an OPT record, gives
/// [`CodecError::Unprintable`].
pub fn answer_lines(response: &[u8]) -> (r: Result<Vec<String>, CodecError>)
    ensures
        match r {
            Ok(lines) => answers_of(response@) == Ok::<Seq<Seq<char>>, CodecError>(texts(lines@)),
            Err(e) => answers_of(response@) == Err::<Seq<Seq<char>>, CodecError>(e),
        },
{
    match parse_wire(response) {
        Ok(m) => match read_answer_lines(&m, Ghost(response@)) {
            Some(lines) => Ok(lines),
            None => Err(CodecError::Unprintable),
        },
        Err(_) => Err(CodecError::Malformed),
    }
}

/// Reads the outcome of the exchange to its end: the answer lines of a
/// successful response, or the first failure on the way, the transport's
/// before the codec's.
pub fn resolve_answers(outcome: HttpOutcome) -> (r: Result<Vec<String>, ResolveError>)
    ensures
        match r {
            Ok(lines) => resolved(outcome@) == Ok::<Seq<Seq<char>>, ResolveError>(texts(lines@)),
            Err(e) => resolved(outcome@) == Err::<Seq<Seq<char>>, ResolveError>(e),
        },
{
    match response_bytes(outcome) {
        Err(e) => Err(ResolveError::Transport(e)),
        Ok(body) => match answer_lines(body.as_slice()) {
            Ok(lines) => Ok(lines),
            Err(e) => Err(ResolveError::Codec(e)),
        },
    }
}

/// One line for each answer. Where the upstream answers with the bytes that
/// [`encode_checked`](crate::codec::encode_checked) hands out for a message,
/// the resolution yields exactly one line for each answer record of that
/// message, in answer order, and none for its questions, authority or
/// additional records; or it fails because an answer has no line.
pub proof fn law_one_line_for_each_answer(message: MessageView, outcome: HttpOutcomeView)
    requires
        checked_wire(message) is Some,
        payload_of(outcome) == Ok::<Seq<u8>, TransportError>(checked_wire(message)->Some_0),
    ensures
        match resolved(outcome) {
            Ok(lines) => {
                &&& lines.len() == message.answers.len()
                &&& forall|i: int|
                    0 <= i < lines.len() ==> Some(#[trigger] lines[i]) == answer_line(
                        checked_wire(message)->Some_0,
                        i,
                    )
            },
            Err(e) => e == ResolveError::Codec(CodecError::Unprintable),
        },
{
}

} // verus!
