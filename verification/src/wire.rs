//! The boundary to the `trust_dns_proto` codec and to `rand`.
//!
//! Everything in this module is believed, not proved. The outside message is
//! treated as a container of questions and records: [`contents`] names what
//! it holds as plain values, and each function below says what the outside
//! call does to those contents.

use crate::message::{
    header_covers, known_class, name_fits, DomainName, Flags, MessageView, Question, Record,
    MAX_DATA, TYPE_OPT,
};
use std::fmt::Write;
use trust_dns_proto::error::ProtoError;
use trust_dns_proto::op::{Message, MessageType, OpCode, Query, ResponseCode};
use trust_dns_proto::rr::{DNSClass, Name, RData, RecordType};
use trust_dns_proto::serialize::binary::{BinDecoder, BinEncodable, Restrict};
use vstd::prelude::*;

verus! {

/// `trust_dns_proto::op::Message`, carried as an opaque value.
#[verifier::external_type_specification]
#[verifier::external_body]
pub struct ExMessage(trust_dns_proto::op::Message);

/// `trust_dns_proto::error::ProtoError`, carried as an opaque value.
#[verifier::external_type_specification]
#[verifier::external_body]
pub struct ExProtoError(trust_dns_proto::error::ProtoError);

/// What `Message::from_vec` makes of a buffer: the contents of the message it
/// returns, or `None` where it returns an error.
pub uninterp spec fn parsed(bytes: Seq<u8>) -> Option<MessageView>;

/// What an outside message holds: its id and flags, and its questions and
/// records as the accessors below hand them out. EDNS options and signature
/// records, which the outside parser keeps apart from the additional section,
/// are not part of it, and neither is the data of a record of type OPT, which
/// stands in it as empty.
pub uninterp spec fn contents(m: Message) -> MessageView;

/// Whether an outside message carries neither EDNS options nor signature
/// records, as one from `Message::new` does.
pub uninterp spec fn without_extras(m: Message) -> bool;

/// Whether an outside message is what `Message::from_vec` returns for the given
/// bytes, with nothing added to it since.
pub uninterp spec fn read_from(m: Message, bytes: Seq<u8>) -> bool;

/// The labels that `Name::from_ascii` reads from a text, escapes resolved;
/// `None` where it returns an error.
pub uninterp spec fn text_labels(text: Seq<char>) -> Option<Seq<Seq<u8>>>;

/// The data that a record holds once `RData::read` has read the given bytes as
/// data of the given type, as the record accessors below hand it out; `None`
/// where `RData::read` returns an error. It is used for every type but OPT,
/// whose data the outside codec keeps in no fixed order.
pub uninterp spec fn held_data(record_type: u16, data: Seq<u8>) -> Option<Seq<u8>>;

/// What `Message::to_vec` writes for a message without extras and with the
/// given contents; `None` where it returns an error.
pub uninterp spec fn emitted(v: MessageView) -> Option<Seq<u8>>;

/// The line that `Display` writes for the answer at the given index of the
/// message that `Message::from_vec` reads from the given bytes; `None` where
/// `Display` returns an error, as it does for data without a presentation
/// form.
pub uninterp spec fn answer_line(bytes: Seq<u8>, i: int) -> Option<Seq<char>>;

/// `Message::from_vec`. The result is named by [`parsed`]. The parser begins
/// with the twelve-byte header, whose numbers are big-endian: it takes the id
/// from it, then reads as many questions, answers, authority and additional
/// records as the header counts, or fails. The first three sections hold all
/// that was read for them; from the additional records the EDNS and signature
/// records are set apart.
#[verifier::external_body]
pub(crate) fn parse_wire(bytes: &[u8]) -> (r: Result<Message, ProtoError>)
    ensures
        match r {
            Ok(m) => parsed(bytes@) == Some(contents(m)) && read_from(m, bytes@) && header_covers(
                bytes@,
                contents(m),
            ),
            Err(_) => parsed(bytes@) is None,
        },
{
    Message::from_vec(bytes)
}

/// `Name::from_ascii`, with the labels of its result copied out. The result is
/// named by [`text_labels`].
#[verifier::external_body]
pub(crate) fn parse_name(text: &str) -> (r: Result<DomainName, ProtoError>)
    ensures
        match r {
            Ok(name) => text_labels(text@) == Some(name@),
            Err(_) => text_labels(text@) is None,
        },
{
    Name::from_ascii(text).map(|n| DomainName { labels: n.iter().map(|l| l.to_vec()).collect() })
}

/// `Message::id`: the id of the contents.
#[verifier::external_body]
pub(crate) fn message_id(m: &Message) -> (id: u16)
    ensures
        id == contents(*m).id,
{
    m.id()
}

/// The flag accessors of `Message`, from `message_type` to `response_code`:
/// the flags of the contents. The response code is the four bits that the
/// header holds.
#[verifier::external_body]
pub(crate) fn message_flags(m: &Message) -> (flags: Flags)
    ensures
        flags == contents(*m).flags,
{
    Flags {
        response: m.message_type() == MessageType::Response,
        opcode: m.op_code().into(),
        authoritative: m.authoritative(),
        truncated: m.truncated(),
        recursion_desired: m.recursion_desired(),
        recursion_available: m.recursion_available(),
        authentic_data: m.authentic_data(),
        checking_disabled: m.checking_disabled(),
        response_code: m.response_code().low(),
    }
}

/// `Message::queries`, one entry at a time: the question at index `i` as plain
/// values, or `None` past the end of the section.
#[verifier::external_body]
pub(crate) fn question_at(m: &Message, i: usize) -> (r: Option<Question>)
    ensures
        match r {
            Some(q) => i < contents(*m).questions.len() && q@ == contents(*m).questions[i as int],
            None => i >= contents(*m).questions.len(),
        },
{
    m.queries().get(i).map(|q| Question {
        name: DomainName { labels: q.name().iter().map(|l| l.to_vec()).collect() },
        record_type: q.query_type().into(),
        record_class: q.query_class().into(),
    })
}

/// `Message::answers`, one entry at a time: the record at index `i` as plain
/// values, or `None` past the end of the section. The data is what the
/// outside encoder writes for it on its own; for an OPT record it is left
/// empty.
#[verifier::external_body]
pub(crate) fn answer_at(m: &Message, i: usize) -> (r: Option<Record>)
    ensures
        match r {
            Some(rec) => i < contents(*m).answers.len() && rec@ == contents(*m).answers[i as int],
            None => i >= contents(*m).answers.len(),
        },
{
    m.answers().get(i).map(|r| Record {
        name: DomainName { labels: r.name().iter().map(|l| l.to_vec()).collect() },
        record_type: r.record_type().into(),
        record_class: r.dns_class().into(),
        ttl: r.ttl(),
        data: r.data().and_then(|d| match d {
            RData::OPT(_) => None,
            other => BinEncodable::to_bytes(other).ok(),
        }).unwrap_or_default(),
    })
}

/// `Message::name_servers`, one entry at a time: the record at index `i` as
/// plain values, or `None` past the end of the section. The data is what the
/// outside encoder writes for it on its own; for an OPT record it is left
/// empty.
#[verifier::external_body]
pub(crate) fn authority_at(m: &Message, i: usize) -> (r: Option<Record>)
    ensures
        match r {
            Some(rec) => i < contents(*m).authorities.len()
                && rec@ == contents(*m).authorities[i as int],
            None => i >= contents(*m).authorities.len(),
        },
{
    m.name_servers().get(i).map(|r| Record {
        name: DomainName { labels: r.name().iter().map(|l| l.to_vec()).collect() },
        record_type: r.record_type().into(),
        record_class: r.dns_class().into(),
        ttl: r.ttl(),
        data: r.data().and_then(|d| match d {
            RData::OPT(_) => None,
            other => BinEncodable::to_bytes(other).ok(),
        }).unwrap_or_default(),
    })
}

/// `Message::additionals`, one entry at a time: the record at index `i` as
/// plain values, or `None` past the end of the section. The data is what the
/// outside encoder writes for it on its own; for an OPT record it is left
/// empty.
#[verifier::external_body]
pub(crate) fn additional_at(m: &Message, i: usize) -> (r: Option<Record>)
    ensures
        match r {
            Some(rec) => i < contents(*m).additionals.len()
                && rec@ == contents(*m).additionals[i as int],
            None => i >= contents(*m).additionals.len(),
        },
{
    m.additionals().get(i).map(|r| Record {
        name: DomainName { labels: r.name().iter().map(|l| l.to_vec()).collect() },
        record_type: r.record_type().into(),
        record_class: r.dns_class().into(),
        ttl: r.ttl(),
        data: r.data().and_then(|d| match d {
            RData::OPT(_) => None,
            other => BinEncodable::to_bytes(other).ok(),
        }).unwrap_or_default(),
    })
}

/// `Display` for the answer at index `i`, written into a string: `None` past
/// the end of the section, else the line, or `None` in its place where
/// `Display` returns an error. For a message read from bytes the outcome is
/// named by [`answer_line`] over those bytes and the index.
#[verifier::external_body]
pub(crate) fn answer_line_at(m: &Message, i: usize) -> (r: Option<Option<String>>)
    ensures
        r is Some <==> i < contents(*m).answers.len(),
        forall|bytes: Seq<u8>| #[trigger]
            read_from(*m, bytes) && r is Some ==> match r->Some_0 {
                Some(line) => answer_line(bytes, i as int) == Some(line@),
                None => answer_line(bytes, i as int) is None,
            },
{
    m.answers().get(i).map(|r| {
        let mut line = String::new();
        write!(line, "{}", r).ok().map(|_| line)
    })
}

/// `Message::new` followed by the setters of the id and of each flag.
/// `OpCode::from_u8` accepts the known opcodes, so the call succeeds, with a
/// message that has the given id and flags, nothing in any section and no
/// extras.
#[verifier::external_body]
pub(crate) fn new_message(id: u16, flags: Flags) -> (r: Result<Message, ProtoError>)
    requires
        flags.accepted(),
    ensures
        r is Ok,
        contents(r->Ok_0) == MessageView::empty(id, flags),
        without_extras(r->Ok_0),
{
    let mut m = Message::new();
    m.set_id(id)
        .set_message_type(if flags.response { MessageType::Response } else { MessageType::Query })
        .set_op_code(OpCode::from_u8(flags.opcode)?)
        .set_authoritative(flags.authoritative)
        .set_truncated(flags.truncated)
        .set_recursion_desired(flags.recursion_desired)
        .set_recursion_available(flags.recursion_available)
        .set_authentic_data(flags.authentic_data)
        .set_checking_disabled(flags.checking_disabled)
        .set_response_code(ResponseCode::from_low(flags.response_code));
    Ok(m)
}

/// `Message::add_query` with a `Query` made from plain values.
/// `Name::from_labels` accepts labels of 1 to 63 bytes that with one byte more
/// for each come to 255 at most, which the rule for names implies, and
/// `DNSClass::from_u16` accepts the known classes; so the call succeeds. The
/// question is appended to its section as it was given and nothing else
/// changes.
#[verifier::external_body]
pub(crate) fn add_question(m: &mut Message, q: &Question) -> (r: Result<(), ProtoError>)
    requires
        name_fits(q.name@),
        known_class(q.record_class),
    ensures
        r is Ok,
        contents(*final(m)) == contents(*old(m)).push_question(q@),
        without_extras(*final(m)) == without_extras(*old(m)),
{
    let name = Name::from_labels(q.name.labels.clone())?;
    let mut query = Query::query(name, RecordType::from(q.record_type));
    query.set_query_class(DNSClass::from_u16(q.record_class)?);
    m.add_query(query);
    Ok(())
}

/// `Message::add_answer` with a `Record` made from plain values. The name and
/// the class are accepted as for a question. Where `RData::read` accepts the
/// data, the record is appended to the answer section with the data as named by
/// [`held_data`] and nothing else changes; where it refuses, the message is
/// left as it was.
#[verifier::external_body]
pub(crate) fn add_answer(m: &mut Message, r: &Record) -> (res: Result<(), ProtoError>)
    requires
        name_fits(r.name@),
        known_class(r.record_class),
        r.record_type != TYPE_OPT,
        r.data@.len() <= MAX_DATA,
    ensures
        match res {
            Ok(_) => held_data(r.record_type, r.data@) is Some && contents(*final(m)) == contents(
                *old(m),
            ).push_answer(r@.with_data(held_data(r.record_type, r.data@)->Some_0)),
            Err(_) => held_data(r.record_type, r.data@) is None && *final(m) == *old(m),
        },
        without_extras(*final(m)) == without_extras(*old(m)),
{
    let name = Name::from_labels(r.name.labels.clone())?;
    let length = Restrict::new(r.data.len() as u16);
    let mut decoder = BinDecoder::new(&r.data);
    let data = RData::read(&mut decoder, RecordType::from(r.record_type), length)?;
    let mut record = trust_dns_proto::rr::Record::from_rdata(name, r.ttl, data);
    record.set_dns_class(DNSClass::from_u16(r.record_class)?);
    m.add_answer(record);
    Ok(())
}

/// `Message::add_name_server` with a `Record` made from plain values. The name
/// and the class are accepted as for a question. Where `RData::read` accepts
/// the data, the record is appended to the authority section with the data as
/// named by [`held_data`] and nothing else changes; where it refuses, the
/// message is left as it was.
#[verifier::external_body]
pub(crate) fn add_authority(m: &mut Message, r: &Record) -> (res: Result<(), ProtoError>)
    requires
        name_fits(r.name@),
        known_class(r.record_class),
        r.record_type != TYPE_OPT,
        r.data@.len() <= MAX_DATA,
    ensures
        match res {
            Ok(_) => held_data(r.record_type, r.data@) is Some && contents(*final(m)) == contents(
                *old(m),
            ).push_authority(r@.with_data(held_data(r.record_type, r.data@)->Some_0)),
            Err(_) => held_data(r.record_type, r.data@) is None && *final(m) == *old(m),
        },
        without_extras(*final(m)) == without_extras(*old(m)),
{
    let name = Name::from_labels(r.name.labels.clone())?;
    let length = Restrict::new(r.data.len() as u16);
    let mut decoder = BinDecoder::new(&r.data);
    let data = RData::read(&mut decoder, RecordType::from(r.record_type), length)?;
    let mut record = trust_dns_proto::rr::Record::from_rdata(name, r.ttl, data);
    record.set_dns_class(DNSClass::from_u16(r.record_class)?);
    m.add_name_server(record);
    Ok(())
}

/// `Message::add_additional` with a `Record` made from plain values. The name
/// and the class are accepted as for a question. Where `RData::read` accepts
/// the data, the record is appended to the additional section with the data as
/// named by [`held_data`] and nothing else changes; where it refuses, the
/// message is left as it was.
#[verifier::external_body]
pub(crate) fn add_additional(m: &mut Message, r: &Record) -> (res: Result<(), ProtoError>)
    requires
        name_fits(r.name@),
        known_class(r.record_class),
        r.record_type != TYPE_OPT,
        r.data@.len() <= MAX_DATA,
    ensures
        match res {
            Ok(_) => held_data(r.record_type, r.data@) is Some && contents(*final(m)) == contents(
                *old(m),
            ).push_additional(r@.with_data(held_data(r.record_type, r.data@)->Some_0)),
            Err(_) => held_data(r.record_type, r.data@) is None && *final(m) == *old(m),
        },
        without_extras(*final(m)) == without_extras(*old(m)),
{
    let name = Name::from_labels(r.name.labels.clone())?;
    let length = Restrict::new(r.data.len() as u16);
    let mut decoder = BinDecoder::new(&r.data);
    let data = RData::read(&mut decoder, RecordType::from(r.record_type), length)?;
    let mut record = trust_dns_proto::rr::Record::from_rdata(name, r.ttl, data);
    record.set_dns_class(DNSClass::from_u16(r.record_class)?);
    m.add_additional(record);
    Ok(())
}

/// `Message::to_vec`, which writes the header counts from the section lengths
/// and panics where one does not fit sixteen bits. For a message without
/// extras the bytes are named by [`emitted`] over its contents.
#[verifier::external_body]
pub(crate) fn to_wire(m: &Message) -> (r: Result<Vec<u8>, ProtoError>)
    requires
        without_extras(*m),
        contents(*m).fits_header(),
    ensures
        match r {
            Ok(bytes) => emitted(contents(*m)) == Some(bytes@),
            Err(_) => emitted(contents(*m)) is None,
        },
{
    m.to_vec()
}

/// `rand::random`: sixteen bits of which nothing is known.
#[verifier::external_body]
pub(crate) fn random_id() -> u16 {
    rand::random::<u16>()
}

} // verus!
