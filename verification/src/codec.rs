//! The query codec: DNS messages to and from RFC 1035 wire format.
//!
//! The byte-level work is done by the outside codec behind [`crate::wire`];
//! this module moves messages between the plain model and that codec, one
//! entry at a time, and says for every input whether it succeeds.

use crate::message::{
    header_covers, header_declares, is_known_class, known_class, name_fits, question_views,
    record_views, DnsMessage, DomainName, Flags, MessageView, Question, QuestionView, Record,
    RecordView, CLASS_IN, MAX_DATA, MAX_SECTION, TYPE_A, TYPE_OPT,
};
use crate::wire::{
    add_additional, add_answer, add_authority, add_question, additional_at, answer_at,
    authority_at, contents, emitted, held_data, message_flags, message_id, new_message,
    parse_name, parse_wire, parsed, question_at, random_id, text_labels, to_wire, without_extras,
};
use trust_dns_proto::op::Message;
use vstd::prelude::*;

verus! {

/// Why the codec refused an input.
#[derive(Clone, Copy, Debug, PartialEq, Eq, Structural)]
pub enum CodecError {
    /// The text is not a domain name that a question can carry: it does not
    /// read as a sequence of labels, or a label or the whole name is too long.
    InvalidName,
    /// A section holds more entries than a header count can express.
    TooManyRecords,
    /// The flags cannot be written: the opcode is not a known one or the
    /// response code does not fit four bits.
    InvalidFlags,
    /// A question or record cannot be written: its name breaks the rule for
    /// names, its class is unknown, it is an OPT record, or its data is too
    /// long or unreadable.
    InvalidEntry,
    /// Every part was accepted but the message could not be written out in
    /// full.
    Unencodable,
    /// The message was written out, but what was written does not read back
    /// as the message.
    Altered,
    /// The bytes are not a well-formed DNS message.
    Malformed,
    /// An answer record has data for which there is no presentation form.
    Unprintable,
}

/// The three sections that hold resource records.
#[derive(Clone, Copy, Debug, PartialEq, Eq, Structural)]
pub enum Section {
    Answer,
    Authority,
    Additional,
}

impl MessageView {
    /// The records of one section.
    pub open spec fn section(self, s: Section) -> Seq<RecordView> {
        match s {
            Section::Answer => self.answers,
            Section::Authority => self.authorities,
            Section::Additional => self.additionals,
        }
    }

    /// This message with one more record at the end of a section.
    pub open spec fn push_record(self, s: Section, r: RecordView) -> MessageView {
        match s {
            Section::Answer => self.push_answer(r),
            Section::Authority => self.push_authority(r),
            Section::Additional => self.push_additional(r),
        }
    }

    /// This message with more questions at the end of the question section.
    pub open spec fn append_questions(self, qs: Seq<QuestionView>) -> MessageView {
        MessageView { questions: self.questions + qs, ..self }
    }

    /// This message with more records at the end of a section.
    pub open spec fn append_records(self, s: Section, rs: Seq<RecordView>) -> MessageView {
        match s {
            Section::Answer => MessageView { answers: self.answers + rs, ..self },
            Section::Authority => MessageView { authorities: self.authorities + rs, ..self },
            Section::Additional => MessageView { additionals: self.additionals + rs, ..self },
        }
    }
}

/// The message that a buffer decodes to, where it is well-formed.
pub open spec fn decoded(bytes: Seq<u8>) -> Option<MessageView> {
    parsed(bytes)
}

proof fn lemma_question_views_push(qs: Seq<Question>, q: Question)
    ensures
        question_views(qs.push(q)) == question_views(qs).push(q@),
{
    assert(question_views(qs.push(q)) =~= question_views(qs).push(q@));
}

proof fn lemma_record_views_push(rs: Seq<Record>, r: Record)
    ensures
        record_views(rs.push(r)) == record_views(rs).push(r@),
{
    assert(record_views(rs.push(r)) =~= record_views(rs).push(r@));
}

fn read_questions(m: &Message) -> (out: Vec<Question>)
    ensures
        question_views(out@) == contents(*m).questions,
{
    let mut out: Vec<Question> = Vec::new();
    let ghost all = contents(*m).questions;
    assert(question_views(out@) =~= all.take(0));
    loop
        invariant_except_break
            all == contents(*m).questions,
            out@.len() <= all.len(),
            question_views(out@) == all.take(out@.len() as int),
        ensures
            question_views(out@) == contents(*m).questions,
        decreases all.len() - out@.len(),
    {
        match question_at(m, out.len()) {
            Some(q) => {
                proof {
                    lemma_question_views_push(out@, q);
                    assert(all.take(out@.len() + 1 as int) =~= all.take(out@.len() as int).push(q@));
                }
                out.push(q);
            },
            None => {
                assert(all.take(out@.len() as int) =~= all);
                break ;
            },
        }
    }
    out
}

fn record_at(m: &Message, s: Section, i: usize) -> (r: Option<Record>)
    ensures
        match r {
            Some(rec) => i < contents(*m).section(s).len() && rec@ == contents(*m).section(s)[i as int],
            None => i >= contents(*m).section(s).len(),
        },
{
    match s {
        Section::Answer => answer_at(m, i),
        Section::Authority => authority_at(m, i),
        Section::Additional => additional_at(m, i),
    }
}

fn read_records(m: &Message, s: Section) -> (out: Vec<Record>)
    ensures
        record_views(out@) == contents(*m).section(s),
{
    let mut out: Vec<Record> = Vec::new();
    let ghost all = contents(*m).section(s);
    assert(record_views(out@) =~= all.take(0));
    loop
        invariant_except_break
            all == contents(*m).section(s),
            out@.len() <= all.len(),
            record_views(out@) == all.take(out@.len() as int),
        ensures
            record_views(out@) == contents(*m).section(s),
        decreases all.len() - out@.len(),
    {
        match record_at(m, s, out.len()) {
            Some(r) => {
                proof {
                    lemma_record_views_push(out@, r);
                    assert(all.take(out@.len() + 1 as int) =~= all.take(out@.len() as int).push(r@));
                }
                out.push(r);
            },
            None => {
                assert(all.take(out@.len() as int) =~= all);
                break ;
            },
        }
    }
    out
}

/// Parses a buffer as a DNS message.
///
/// Succeeds exactly on the buffers that the outside parser accepts, and then
/// returns the message it read: the id, the flags, and every question and
/// record in order, the data of an OPT record left empty. The message has
/// the id that the buffer's header declares
/// and as many questions, answers and authority records as it declares, and
/// no more additional records than it declares. Every other buffer, too
/// short for a header, truncated, with counts that its content does not
/// satisfy or otherwise malformed, gives [`CodecError::Malformed`].
pub fn decode(bytes: &[u8]) -> (r: Result<DnsMessage, CodecError>)
    ensures
        match r {
            Ok(msg) => decoded(bytes@) == Some(msg@) && header_covers(bytes@, msg@),
            Err(e) => decoded(bytes@) is None && e == CodecError::Malformed,
        },
{
    match parse_wire(bytes) {
        Ok(m) => {
            let msg = DnsMessage {
                id: message_id(&m),
                flags: message_flags(&m),
                questions: read_questions(&m),
                answers: read_records(&m, Section::Answer),
                authorities: read_records(&m, Section::Authority),
                additionals: read_records(&m, Section::Additional),
            };
            Ok(msg)
        },
        Err(_) => Err(CodecError::Malformed),
    }
}

/// Whether a buffer is a well-formed DNS message, without keeping what it
/// holds.
pub fn is_well_formed(bytes: &[u8]) -> (ok: bool)
    ensures
        ok == decoded(bytes@).is_some(),
        ok ==> bytes@.len() >= 12,
{
    parse_wire(bytes).is_ok()
}

/// Whether a question can be written to the wire: its name keeps the rule for
/// names and its class is a known one.
pub open spec fn question_accepted(q: QuestionView) -> bool {
    name_fits(q.name) && known_class(q.record_class)
}

/// Whether a record can be written to the wire: its name and class are
/// accepted as a question's are, it is no OPT record, and its data fits the
/// length field and is readable as data of the record's type.
pub open spec fn record_accepted(r: RecordView) -> bool {
    &&& name_fits(r.name)
    &&& known_class(r.record_class)
    &&& r.record_type != TYPE_OPT
    &&& r.data.len() <= MAX_DATA
    &&& held_data(r.record_type, r.data) is Some
}

/// Whether every question of a list can be written to the wire.
pub open spec fn questions_accepted(qs: Seq<QuestionView>) -> bool {
    forall|i: int| 0 <= i < qs.len() ==> question_accepted(#[trigger] qs[i])
}

/// Whether every record of a list can be written to the wire.
pub open spec fn records_accepted(rs: Seq<RecordView>) -> bool {
    forall|i: int| 0 <= i < rs.len() ==> record_accepted(#[trigger] rs[i])
}

/// Whether every entry of a message can be written to the wire.
pub open spec fn entries_accepted(v: MessageView) -> bool {
    &&& questions_accepted(v.questions)
    &&& records_accepted(v.answers)
    &&& records_accepted(v.authorities)
    &&& records_accepted(v.additionals)
}

/// A record as the outside codec holds it: the same fields, with the data as
/// the codec read it.
pub open spec fn record_as_held(r: RecordView) -> RecordView {
    r.with_data(held_data(r.record_type, r.data)->Some_0)
}

/// The records as the outside codec holds them.
pub open spec fn records_as_held(rs: Seq<RecordView>) -> Seq<RecordView> {
    rs.map_values(|r: RecordView| record_as_held(r))
}

/// The message as the outside codec holds it: the id, the flags and the
/// questions as they are, and each record as the codec holds it.
pub open spec fn as_held(v: MessageView) -> MessageView {
    MessageView {
        id: v.id,
        flags: v.flags,
        questions: v.questions,
        answers: records_as_held(v.answers),
        authorities: records_as_held(v.authorities),
        additionals: records_as_held(v.additionals),
    }
}

/// Whether every part of a message is accepted for writing: the sections fit
/// the header counts, the flags are accepted and so is every entry.
pub open spec fn writable(v: MessageView) -> bool {
    v.fits_header() && v.flags.accepted() && entries_accepted(v)
}

/// The wire form of a message, where it has one: what the outside codec
/// writes for it, provided that the header written declares the message's id
/// and the full length of every section.
pub open spec fn wire_form(v: MessageView) -> Option<Seq<u8>> {
    if writable(v) && emitted(as_held(v)) is Some && header_declares(
        emitted(as_held(v))->Some_0,
        v,
    ) {
        emitted(as_held(v))
    } else {
        None
    }
}

/// The error that [`encode`] reports for a message without a wire form.
pub open spec fn encode_error(v: MessageView) -> CodecError {
    if !v.fits_header() {
        CodecError::TooManyRecords
    } else if !v.flags.accepted() {
        CodecError::InvalidFlags
    } else if !entries_accepted(v) {
        CodecError::InvalidEntry
    } else {
        CodecError::Unencodable
    }
}

fn add_record(m: &mut Message, s: Section, r: &Record) -> (ok: bool)
    requires
        name_fits(r.name@),
        known_class(r.record_class),
        r.record_type != TYPE_OPT,
        r.data@.len() <= MAX_DATA,
    ensures
        ok == held_data(r.record_type, r.data@).is_some(),
        ok ==> contents(*final(m)) == contents(*old(m)).push_record(s, record_as_held(r@)),
        !ok ==> *final(m) == *old(m),
        without_extras(*final(m)) == without_extras(*old(m)),
{
    match s {
        Section::Answer => add_answer(m, r).is_ok(),
        Section::Authority => add_authority(m, r).is_ok(),
        Section::Additional => add_additional(m, r).is_ok(),
    }
}

fn write_questions(m: &mut Message, questions: &Vec<Question>) -> (ok: bool)
    ensures
        ok == questions_accepted(question_views(questions@)),
        ok ==> contents(*final(m)) == contents(*old(m)).append_questions(
            question_views(questions@),
        ),
        without_extras(*final(m)) == without_extras(*old(m)),
{
    let ghost start = contents(*m);
    let ghost all = question_views(questions@);
    let mut i: usize = 0;
    assert(start.append_questions(all.take(0)) =~= start);
    while i < questions.len()
        invariant
            i <= questions@.len(),
            all == question_views(questions@),
            questions_accepted(all.take(i as int)),
            contents(*m) == start.append_questions(all.take(i as int)),
            without_extras(*m) == without_extras(*old(m)),
        decreases questions@.len() - i,
    {
        let q = &questions[i];
        assert(q@ == all[i as int]);
        if !q.name.fits() || !is_known_class(q.record_class) {
            assert(!question_accepted(all[i as int]));
            return false;
        }
        if add_question(m, q).is_err() {
            return false;
        }
        proof {
            let before = all.take(i as int);
            let after = all.take(i + 1);
            assert(after =~= before.push(all[i as int]));
            assert(start.append_questions(after) =~= start.append_questions(
                before,
            ).push_question(all[i as int]));
            assert forall|k: int| 0 <= k < after.len() implies question_accepted(
                #[trigger] after[k],
            ) by {
                if k < i {
                    assert(after[k] == before[k]);
                }
            }
        }
        i += 1;
    }
    assert(all.take(i as int) =~= all);
    true
}

fn write_records(m: &mut Message, s: Section, records: &Vec<Record>) -> (ok: bool)
    ensures
        ok == records_accepted(record_views(records@)),
        ok ==> contents(*final(m)) == contents(*old(m)).append_records(
            s,
            records_as_held(record_views(records@)),
        ),
        without_extras(*final(m)) == without_extras(*old(m)),
{
    let ghost start = contents(*m);
    let ghost all = record_views(records@);
    let mut i: usize = 0;
    assert(start.append_records(s, records_as_held(all.take(0))) =~= start);
    while i < records.len()
        invariant
            i <= records@.len(),
            all == record_views(records@),
            records_accepted(all.take(i as int)),
            contents(*m) == start.append_records(s, records_as_held(all.take(i as int))),
            without_extras(*m) == without_extras(*old(m)),
        decreases records@.len() - i,
    {
        let r = &records[i];
        assert(r@ == all[i as int]);
        if !r.name.fits() || !is_known_class(r.record_class) || r.record_type == TYPE_OPT
            || r.data.len() > MAX_DATA {
            assert(!record_accepted(all[i as int]));
            return false;
        }
        let accepted = add_record(m, s, r);
        if !accepted {
            assert(!record_accepted(all[i as int]));
            return false;
        }
        proof {
            let before = all.take(i as int);
            let after = all.take(i + 1);
            assert(after =~= before.push(all[i as int]));
            assert(records_as_held(after) =~= records_as_held(before).push(
                record_as_held(all[i as int]),
            ));
            assert(start.append_records(s, records_as_held(after)) =~= start.append_records(
                s,
                records_as_held(before),
            ).push_record(s, record_as_held(all[i as int])));
            assert forall|k: int| 0 <= k < after.len() implies record_accepted(
                #[trigger] after[k],
            ) by {
                if k < i {
                    assert(after[k] == before[k]);
                }
            }
        }
        i += 1;
    }
    assert(all.take(i as int) =~= all);
    true
}

/// Serializes a message to wire format.
///
/// Succeeds exactly on the messages that have a wire form, and returns it; its
/// header then declares the message's id and the length of every section.
/// A section with more than 65535 entries gives
/// [`CodecError::TooManyRecords`]. Otherwise an opcode that is not known or a
/// response code over 15 gives [`CodecError::InvalidFlags`]. Otherwise a name
/// with an empty label, a label over 63 bytes or an encoding over 255 bytes, a
/// class that is not known, a record of type OPT, or record data over 65535
/// bytes or unreadable as data of its type gives
/// [`CodecError::InvalidEntry`]. Otherwise a message
/// that cannot be written out in full, such as one over 65535 bytes, gives
/// [`CodecError::Unencodable`].
pub fn encode(msg: &DnsMessage) -> (r: Result<Vec<u8>, CodecError>)
    ensures
        match r {
            Ok(bytes) => wire_form(msg@) == Some(bytes@) && header_declares(bytes@, msg@),
            Err(e) => wire_form(msg@) is None && e == encode_error(msg@),
        },
{
    if msg.questions.len() > MAX_SECTION || msg.answers.len() > MAX_SECTION
        || msg.authorities.len() > MAX_SECTION || msg.additionals.len() > MAX_SECTION {
        return Err(CodecError::TooManyRecords);
    }
    if !msg.flags.is_accepted() {
        return Err(CodecError::InvalidFlags);
    }
    let mut m = match new_message(msg.id, msg.flags) {
        Ok(m) => m,
        Err(_) => {
            return Err(CodecError::InvalidFlags);
        },
    };
    if !write_questions(&mut m, &msg.questions) {
        return Err(CodecError::InvalidEntry);
    }
    if !write_records(&mut m, Section::Answer, &msg.answers) {
        return Err(CodecError::InvalidEntry);
    }
    if !write_records(&mut m, Section::Authority, &msg.authorities) {
        return Err(CodecError::InvalidEntry);
    }
    if !write_records(&mut m, Section::Additional, &msg.additionals) {
        return Err(CodecError::InvalidEntry);
    }
    assert(contents(m) =~= as_held(msg@));
    match to_wire(&m) {
        Ok(bytes) => {
            if msg.declared_by(bytes.as_slice()) {
                Ok(bytes)
            } else {
                Err(CodecError::Unencodable)
            }
        },
        Err(_) => Err(CodecError::Unencodable),
    }
}

/// The wire form of a message that survives the round trip: the bytes decode
/// to the very message they were written for.
pub open spec fn checked_wire(v: MessageView) -> Option<Seq<u8>> {
    if wire_form(v) is Some && decoded(wire_form(v)->Some_0) == Some(v) {
        wire_form(v)
    } else {
        None
    }
}

/// The error that [`encode_checked`] reports for a message without a wire
/// form that survives the round trip.
pub open spec fn checked_error(v: MessageView) -> CodecError {
    if wire_form(v) is None {
        encode_error(v)
    } else {
        CodecError::Altered
    }
}

/// Serializes a message to wire format and reads the bytes back, so that
/// what it hands out is sure to decode to the message.
///
/// Succeeds exactly where [`encode`] succeeds and the bytes decode to a
/// message with the same id and flags and the same questions and records in
/// every section. Where [`encode`] fails its error is handed on; bytes that
/// do not decode to the message give [`CodecError::Altered`], as they do for
/// record data that the codec writes in another form than it was given in.
pub fn encode_checked(msg: &DnsMessage) -> (r: Result<Vec<u8>, CodecError>)
    ensures
        match r {
            Ok(bytes) => checked_wire(msg@) == Some(bytes@) && decoded(bytes@) == Some(msg@)
                && header_declares(bytes@, msg@),
            Err(e) => checked_wire(msg@) is None && e == checked_error(msg@),
        },
{
    let bytes = match encode(msg) {
        Ok(bytes) => bytes,
        Err(e) => {
            return Err(e);
        },
    };
    match decode(bytes.as_slice()) {
        Ok(back) => {
            if back.same_as(msg) {
                Ok(bytes)
            } else {
                Err(CodecError::Altered)
            }
        },
        Err(_) => Err(CodecError::Altered),
    }
}

/// The A query for a name: the flags of a standard query, one question of
/// type A and class IN, and no answer, authority or additional record.
pub open spec fn a_query(name: Seq<Seq<u8>>, id: u16) -> MessageView {
    MessageView::empty(id, Flags::standard_query()).push_question(
        QuestionView { name, record_type: TYPE_A, record_class: CLASS_IN },
    )
}

/// Whether a text is a domain name that a question can carry: it reads as a
/// sequence of labels, and they keep the rule for names.
pub open spec fn valid_domain(domain: Seq<char>) -> bool {
    text_labels(domain) is Some && name_fits(text_labels(domain)->Some_0)
}

/// The labels of a valid domain.
pub open spec fn domain_labels(domain: Seq<char>) -> Seq<Seq<u8>> {
    text_labels(domain)->Some_0
}

/// Builds the A query for a name under a given transaction id.
///
/// Succeeds exactly where the name keeps the rule for names, every label of
/// 1 to 63 bytes and the encoding of at most 255, and then returns a message
/// with that id, the flags of a standard query, one question for the name, of
/// type A and class IN, and no answer, authority or additional record.
pub fn a_query_for(name: DomainName, id: u16) -> (r: Result<DnsMessage, CodecError>)
    ensures
        match r {
            Ok(msg) => name_fits(name@) && msg@ == a_query(name@, id),
            Err(e) => !name_fits(name@) && e == CodecError::InvalidName,
        },
{
    if !name.fits() {
        return Err(CodecError::InvalidName);
    }
    let mut questions: Vec<Question> = Vec::new();
    questions.push(Question { name, record_type: TYPE_A, record_class: CLASS_IN });
    let msg = DnsMessage {
        id,
        flags: Flags::query(),
        questions,
        answers: Vec::new(),
        authorities: Vec::new(),
        additionals: Vec::new(),
    };
    assert(msg@.questions =~= a_query(name@, id).questions);
    assert(msg@.answers =~= Seq::empty());
    assert(msg@.authorities =~= Seq::empty());
    assert(msg@.additionals =~= Seq::empty());
    Ok(msg)
}

/// Builds the A query for a domain given as text, under a given transaction
/// id.
///
/// Succeeds exactly where the domain reads as a sequence of labels that keeps
/// the rule for names, and then returns the A query for those labels.
pub fn a_query_with_id(domain: &str, id: u16) -> (r: Result<DnsMessage, CodecError>)
    ensures
        match r {
            Ok(msg) => valid_domain(domain@) && msg@ == a_query(domain_labels(domain@), id),
            Err(e) => !valid_domain(domain@) && e == CodecError::InvalidName,
        },
{
    match parse_name(domain) {
        Ok(name) => a_query_for(name, id),
        Err(_) => Err(CodecError::InvalidName),
    }
}

/// Builds the A query for a domain under a freshly drawn transaction id.
///
/// Succeeds exactly where [`a_query_with_id`] does. The message is the A query
/// for the domain under whichever id was drawn, which the message itself
/// reports.
pub fn build_a_query(domain: &str) -> (r: Result<DnsMessage, CodecError>)
    ensures
        match r {
            Ok(msg) => valid_domain(domain@) && msg@ == a_query(domain_labels(domain@), msg.id),
            Err(e) => !valid_domain(domain@) && e == CodecError::InvalidName,
        },
{
    a_query_with_id(domain, random_id())
}

/// Round trip. The bytes that [`encode_checked`] hands out for a message
/// decode to that message: the same id and flags, the same questions and the
/// same records in every section, and so the same counts.
pub proof fn law_round_trip(written: MessageView, bytes: Seq<u8>)
    requires
        checked_wire(written) == Some(bytes),
    ensures
        decoded(bytes) == Some(written),
        header_declares(bytes, written),
{
}

/// The header survives a round trip, also where the bytes were written
/// without being read back. Where a message was written to bytes and a
/// message was read back from them, with what [`encode`] and [`decode`]
/// ensure of the header they wrote and read, the message read has the id of
/// the message written, as many questions, answers and authority records,
/// and no more additional records.
pub proof fn law_round_trip_keeps_header(written: MessageView, bytes: Seq<u8>, read: MessageView)
    requires
        wire_form(written) == Some(bytes),
        decoded(bytes) == Some(read),
        header_covers(bytes, read),
    ensures
        read.id == written.id,
        read.questions.len() == written.questions.len(),
        read.answers.len() == written.answers.len(),
        read.authorities.len() == written.authorities.len(),
        read.additionals.len() <= written.additionals.len(),
{
}

} // verus!
