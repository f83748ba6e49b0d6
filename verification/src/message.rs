//! The plain-data model of a DNS message.

use vstd::prelude::*;

verus! {

/// Record type A: an IPv4 host address.
pub const TYPE_A: u16 = 1;

/// Record type OPT: the pseudo-record that carries EDNS options.
pub const TYPE_OPT: u16 = 41;

/// Record class IN: the Internet.
pub const CLASS_IN: u16 = 1;

/// The longest label of a name, in bytes.
pub const MAX_LABEL: usize = 63;

/// The longest name, in bytes of its encoding.
pub const MAX_NAME: usize = 255;

/// The largest number of entries a section can declare in the header.
pub const MAX_SECTION: usize = 65535;

/// The largest record data a record's length field can declare, in bytes.
pub const MAX_DATA: usize = 65535;

/// A domain name as its sequence of labels, the leftmost first. The root is
/// the name without labels.
#[derive(Clone, Debug, PartialEq, Eq)]
pub struct DomainName {
    pub labels: Vec<Vec<u8>>,
}

/// The byte sequences of a list of labels, in order.
pub open spec fn label_views(labels: Seq<Vec<u8>>) -> Seq<Seq<u8>> {
    labels.map_values(|label: Vec<u8>| label@)
}

impl View for DomainName {
    type V = Seq<Seq<u8>>;

    open spec fn view(&self) -> Seq<Seq<u8>> {
        label_views(self.labels@)
    }
}

/// The length of a name's encoding: for each label one length byte and the
/// label's bytes, then the closing zero byte.
pub open spec fn encoded_len(name: Seq<Seq<u8>>) -> nat
    decreases name.len(),
{
    if name.len() == 0 {
        1
    } else {
        encoded_len(name.drop_last()) + name.last().len() + 1
    }
}

/// Every label has at least one byte and at most 63.
pub open spec fn labels_fit(name: Seq<Seq<u8>>) -> bool {
    forall|i: int| 0 <= i < name.len() ==> 1 <= (#[trigger] name[i]).len() <= MAX_LABEL
}

/// The rule for names: every label has 1 to 63 bytes and the encoded name has
/// at most 255.
pub open spec fn name_fits(name: Seq<Seq<u8>>) -> bool {
    labels_fit(name) && encoded_len(name) <= MAX_NAME
}

/// A name's encoding is at least as long as that of any of its prefixes.
pub proof fn lemma_encoded_len_grows(name: Seq<Seq<u8>>, k: int)
    requires
        0 <= k <= name.len(),
    ensures
        encoded_len(name.take(k)) <= encoded_len(name),
    decreases name.len() - k,
{
    if k == name.len() {
        assert(name.take(k) =~= name);
    } else {
        lemma_encoded_len_grows(name, k + 1);
        assert(name.take(k + 1).drop_last() =~= name.take(k));
    }
}

impl DomainName {
    /// The length of the name's encoding, where the name keeps the rule for
    /// names.
    pub fn wire_len(&self) -> (n: Option<usize>)
        ensures
            match n {
                Some(n) => name_fits(self@) && n == encoded_len(self@),
                None => !name_fits(self@),
            },
    {
        let mut total: usize = 1;
        let mut i: usize = 0;
        assert(self@.take(0) =~= Seq::<Seq<u8>>::empty());
        while i < self.labels.len()
            invariant
                i <= self.labels@.len(),
                self@.len() == self.labels@.len(),
                total == encoded_len(self@.take(i as int)),
                total <= MAX_NAME,
                labels_fit(self@.take(i as int)),
            decreases self.labels@.len() - i,
        {
            let n = self.labels[i].len();
            assert(self@[i as int].len() == n);
            proof {
                lemma_encoded_len_grows(self@, i + 1);
                assert(self@.take(i + 1).drop_last() =~= self@.take(i as int));
            }
            if n == 0 || n > MAX_LABEL {
                return None;
            }
            if total + n + 1 > MAX_NAME {
                return None;
            }
            total = total + n + 1;
            i += 1;
        }
        assert(self@.take(i as int) =~= self@);
        Some(total)
    }

    /// Whether the name keeps the rule for names.
    pub fn fits(&self) -> (b: bool)
        ensures
            b == name_fits(self@),
    {
        self.wire_len().is_some()
    }
}

/// Whether two byte strings are the same.
pub fn same_bytes(a: &Vec<u8>, b: &Vec<u8>) -> (same: bool)
    ensures
        same == (a@ == b@),
{
    if a.len() != b.len() {
        return false;
    }
    let mut i: usize = 0;
    while i < a.len()
        invariant
            i <= a@.len(),
            a@.len() == b@.len(),
            forall|k: int| 0 <= k < i ==> a@[k] == b@[k],
        decreases a@.len() - i,
    {
        if a[i] != b[i] {
            return false;
        }
        i += 1;
    }
    assert(a@ =~= b@);
    true
}

impl DomainName {
    /// Whether two names have the same labels in the same order.
    pub fn same_as(&self, other: &DomainName) -> (same: bool)
        ensures
            same == (self@ == other@),
    {
        if self.labels.len() != other.labels.len() {
            return false;
        }
        let mut i: usize = 0;
        while i < self.labels.len()
            invariant
                i <= self.labels@.len(),
                self.labels@.len() == other.labels@.len(),
                self@.len() == self.labels@.len(),
                other@.len() == other.labels@.len(),
                forall|k: int| 0 <= k < i ==> self@[k] == other@[k],
            decreases self.labels@.len() - i,
        {
            if !same_bytes(&self.labels[i], &other.labels[i]) {
                assert(self@[i as int] != other@[i as int]);
                return false;
            }
            assert(self@[i as int] == other@[i as int]);
            i += 1;
        }
        assert(self@ =~= other@);
        true
    }
}

impl Question {
    /// Whether two questions ask the same.
    pub fn same_as(&self, other: &Question) -> (same: bool)
        ensures
            same == (self@ == other@),
    {
        self.record_type == other.record_type && self.record_class == other.record_class
            && self.name.same_as(&other.name)
    }
}

impl Record {
    /// Whether two records have the same name, type, class, time to live and
    /// data.
    pub fn same_as(&self, other: &Record) -> (same: bool)
        ensures
            same == (self@ == other@),
    {
        self.record_type == other.record_type && self.record_class == other.record_class
            && self.ttl == other.ttl && self.name.same_as(&other.name) && same_bytes(
            &self.data,
            &other.data,
        )
    }
}

/// Whether two lists of questions are the same, entry by entry.
pub fn same_questions(a: &Vec<Question>, b: &Vec<Question>) -> (same: bool)
    ensures
        same == (question_views(a@) == question_views(b@)),
{
    if a.len() != b.len() {
        assert(question_views(a@).len() != question_views(b@).len());
        return false;
    }
    let mut i: usize = 0;
    while i < a.len()
        invariant
            i <= a@.len(),
            a@.len() == b@.len(),
            forall|k: int| 0 <= k < i ==> a@[k]@ == b@[k]@,
        decreases a@.len() - i,
    {
        if !a[i].same_as(&b[i]) {
            assert(question_views(a@)[i as int] != question_views(b@)[i as int]);
            return false;
        }
        i += 1;
    }
    assert(question_views(a@) =~= question_views(b@));
    true
}

/// Whether two lists of records are the same, entry by entry.
pub fn same_records(a: &Vec<Record>, b: &Vec<Record>) -> (same: bool)
    ensures
        same == (record_views(a@) == record_views(b@)),
{
    if a.len() != b.len() {
        assert(record_views(a@).len() != record_views(b@).len());
        return false;
    }
    let mut i: usize = 0;
    while i < a.len()
        invariant
            i <= a@.len(),
            a@.len() == b@.len(),
            forall|k: int| 0 <= k < i ==> a@[k]@ == b@[k]@,
        decreases a@.len() - i,
    {
        if !a[i].same_as(&b[i]) {
            assert(record_views(a@)[i as int] != record_views(b@)[i as int]);
            return false;
        }
        i += 1;
    }
    assert(record_views(a@) =~= record_views(b@));
    true
}

/// The record classes that can be written to the wire: IN, CH, HS, NONE and
/// ANY.
pub open spec fn known_class(class: u16) -> bool {
    class == 1 || class == 3 || class == 4 || class == 254 || class == 255
}

/// Whether a record class can be written to the wire.
pub fn is_known_class(class: u16) -> (b: bool)
    ensures
        b == known_class(class),
{
    class == 1 || class == 3 || class == 4 || class == 254 || class == 255
}

/// The flag bits of the header.
#[derive(Clone, Copy, Debug, PartialEq, Eq, Structural)]
pub struct Flags {
    /// QR: the message is a response.
    pub response: bool,
    /// The kind of query, four bits.
    pub opcode: u8,
    /// AA: the responding server is an authority for the name.
    pub authoritative: bool,
    /// TC: the message was cut short.
    pub truncated: bool,
    /// RD: the server is asked to pursue the query recursively.
    pub recursion_desired: bool,
    /// RA: the server offers recursion.
    pub recursion_available: bool,
    /// AD: the server holds the data to be authentic.
    pub authentic_data: bool,
    /// CD: the server is asked not to validate.
    pub checking_disabled: bool,
    /// The response code of the header, four bits.
    pub response_code: u8,
}

/// The opcodes that can be written to the wire: QUERY, STATUS, NOTIFY and
/// UPDATE.
pub open spec fn known_opcode(opcode: u8) -> bool {
    opcode == 0 || opcode == 2 || opcode == 4 || opcode == 5
}

impl Flags {
    /// The flags of a standard query: opcode QUERY and every bit clear.
    pub open spec fn standard_query() -> Flags {
        Flags {
            response: false,
            opcode: 0,
            authoritative: false,
            truncated: false,
            recursion_desired: false,
            recursion_available: false,
            authentic_data: false,
            checking_disabled: false,
            response_code: 0,
        }
    }

    /// Whether the flags can be written to the wire: the opcode is a known one
    /// and the response code fits four bits.
    pub open spec fn accepted(self) -> bool {
        known_opcode(self.opcode) && self.response_code <= 15
    }

    /// The flags of a standard query: opcode QUERY and every bit clear.
    pub fn query() -> (flags: Flags)
        ensures
            flags == Flags::standard_query(),
    {
        Flags {
            response: false,
            opcode: 0,
            authoritative: false,
            truncated: false,
            recursion_desired: false,
            recursion_available: false,
            authentic_data: false,
            checking_disabled: false,
            response_code: 0,
        }
    }

    /// Whether the flags can be written to the wire.
    pub fn is_accepted(&self) -> (b: bool)
        ensures
            b == self.accepted(),
    {
        (self.opcode == 0 || self.opcode == 2 || self.opcode == 4 || self.opcode == 5)
            && self.response_code <= 15
    }
}

/// One entry of the question section.
#[derive(Clone, Debug, PartialEq, Eq)]
pub struct Question {
    pub name: DomainName,
    pub record_type: u16,
    pub record_class: u16,
}

/// Mathematical value of a [`Question`].
pub struct QuestionView {
    pub name: Seq<Seq<u8>>,
    pub record_type: u16,
    pub record_class: u16,
}

impl View for Question {
    type V = QuestionView;

    open spec fn view(&self) -> QuestionView {
        QuestionView {
            name: self.name@,
            record_type: self.record_type,
            record_class: self.record_class,
        }
    }
}

/// One resource record of the answer, authority or additional section.
#[derive(Clone, Debug, PartialEq, Eq)]
pub struct Record {
    pub name: DomainName,
    pub record_type: u16,
    pub record_class: u16,
    pub ttl: u32,
    /// The record data in wire form, as the codec writes it when it writes the
    /// data on its own: a name inside may be shortened by a pointer that
    /// counts from the start of the data, and for some types, SRV among them,
    /// names inside are in lower case. A record without data has none here,
    /// and the data of a record of type OPT is not reported: it is empty.
    pub data: Vec<u8>,
}

/// Mathematical value of a [`Record`].
pub struct RecordView {
    pub name: Seq<Seq<u8>>,
    pub record_type: u16,
    pub record_class: u16,
    pub ttl: u32,
    pub data: Seq<u8>,
}

impl RecordView {
    /// This record with other data.
    pub open spec fn with_data(self, data: Seq<u8>) -> RecordView {
        RecordView { data, ..self }
    }
}

impl View for Record {
    type V = RecordView;

    open spec fn view(&self) -> RecordView {
        RecordView {
            name: self.name@,
            record_type: self.record_type,
            record_class: self.record_class,
            ttl: self.ttl,
            data: self.data@,
        }
    }
}

/// A DNS message: the transaction id, the flags, and the four sections in
/// order.
///
/// The header counts are not stored: each is the length of its section, so
/// they agree with the sections by construction. EDNS options are not part
/// of the model.
#[derive(Clone, Debug, PartialEq, Eq)]
pub struct DnsMessage {
    pub id: u16,
    pub flags: Flags,
    pub questions: Vec<Question>,
    pub answers: Vec<Record>,
    pub authorities: Vec<Record>,
    pub additionals: Vec<Record>,
}

/// Mathematical value of a [`DnsMessage`].
pub struct MessageView {
    pub id: u16,
    pub flags: Flags,
    pub questions: Seq<QuestionView>,
    pub answers: Seq<RecordView>,
    pub authorities: Seq<RecordView>,
    pub additionals: Seq<RecordView>,
}

/// The views of a list of questions, in order.
pub open spec fn question_views(questions: Seq<Question>) -> Seq<QuestionView> {
    questions.map_values(|q: Question| q@)
}

/// The views of a list of records, in order.
pub open spec fn record_views(records: Seq<Record>) -> Seq<RecordView> {
    records.map_values(|r: Record| r@)
}

impl View for DnsMessage {
    type V = MessageView;

    open spec fn view(&self) -> MessageView {
        MessageView {
            id: self.id,
            flags: self.flags,
            questions: question_views(self.questions@),
            answers: record_views(self.answers@),
            authorities: record_views(self.authorities@),
            additionals: record_views(self.additionals@),
        }
    }
}

impl MessageView {
    /// A message with the given id and flags and four empty sections.
    pub open spec fn empty(id: u16, flags: Flags) -> MessageView {
        MessageView {
            id,
            flags,
            questions: Seq::empty(),
            answers: Seq::empty(),
            authorities: Seq::empty(),
            additionals: Seq::empty(),
        }
    }

    /// This message with one more question at the end of its section.
    pub open spec fn push_question(self, q: QuestionView) -> MessageView {
        MessageView { questions: self.questions.push(q), ..self }
    }

    /// This message with one more record at the end of the answer section.
    pub open spec fn push_answer(self, r: RecordView) -> MessageView {
        MessageView { answers: self.answers.push(r), ..self }
    }

    /// This message with one more record at the end of the authority section.
    pub open spec fn push_authority(self, r: RecordView) -> MessageView {
        MessageView { authorities: self.authorities.push(r), ..self }
    }

    /// This message with one more record at the end of the additional section.
    pub open spec fn push_additional(self, r: RecordView) -> MessageView {
        MessageView { additionals: self.additionals.push(r), ..self }
    }

    /// Every section is short enough for its header count.
    pub open spec fn fits_header(self) -> bool {
        &&& self.questions.len() <= MAX_SECTION
        &&& self.answers.len() <= MAX_SECTION
        &&& self.authorities.len() <= MAX_SECTION
        &&& self.additionals.len() <= MAX_SECTION
    }
}

/// The number that two bytes spell, the first the more significant.
pub open spec fn be16(high: u8, low: u8) -> int {
    high * 256 + low
}

/// Whether a buffer begins with a header that declares the id of a message
/// and the lengths of its four sections.
pub open spec fn header_declares(bytes: Seq<u8>, v: MessageView) -> bool {
    &&& bytes.len() >= 12
    &&& be16(bytes[0], bytes[1]) == v.id
    &&& be16(bytes[4], bytes[5]) == v.questions.len()
    &&& be16(bytes[6], bytes[7]) == v.answers.len()
    &&& be16(bytes[8], bytes[9]) == v.authorities.len()
    &&& be16(bytes[10], bytes[11]) == v.additionals.len()
}

/// Whether a buffer begins with a header that declares the id of a message,
/// the lengths of its question, answer and authority sections, and at least
/// as many additional records as the message has. The count of additional
/// records takes in the EDNS and signature records, which the message does
/// not hold.
pub open spec fn header_covers(bytes: Seq<u8>, v: MessageView) -> bool {
    &&& bytes.len() >= 12
    &&& be16(bytes[0], bytes[1]) == v.id
    &&& be16(bytes[4], bytes[5]) == v.questions.len()
    &&& be16(bytes[6], bytes[7]) == v.answers.len()
    &&& be16(bytes[8], bytes[9]) == v.authorities.len()
    &&& be16(bytes[10], bytes[11]) >= v.additionals.len()
}

impl DnsMessage {
    /// Whether two messages have the same id and flags and the same entries in
    /// every section.
    pub fn same_as(&self, other: &DnsMessage) -> (same: bool)
        ensures
            same == (self@ == other@),
    {
        self.id == other.id && self.flags == other.flags && same_questions(
            &self.questions,
            &other.questions,
        ) && same_records(&self.answers, &other.answers) && same_records(
            &self.authorities,
            &other.authorities,
        ) && same_records(&self.additionals, &other.additionals)
    }

    /// Whether a buffer begins with a header that declares this message's id
    /// and the lengths of its four sections.
    pub fn declared_by(&self, bytes: &[u8]) -> (b: bool)
        ensures
            b == header_declares(bytes@, self@),
    {
        if bytes.len() < 12 {
            return false;
        }
        let id = (bytes[0] as usize) * 256 + (bytes[1] as usize);
        let questions = (bytes[4] as usize) * 256 + (bytes[5] as usize);
        let answers = (bytes[6] as usize) * 256 + (bytes[7] as usize);
        let authorities = (bytes[8] as usize) * 256 + (bytes[9] as usize);
        let additionals = (bytes[10] as usize) * 256 + (bytes[11] as usize);
        id == self.id as usize && questions == self.questions.len() && answers
            == self.answers.len() && authorities == self.authorities.len() && additionals
            == self.additionals.len()
    }

    /// The header's question count.
    pub fn question_count(&self) -> (n: usize)
        ensures
            n == self@.questions.len(),
    {
        self.questions.len()
    }

    /// The header's answer count.
    pub fn answer_count(&self) -> (n: usize)
        ensures
            n == self@.answers.len(),
    {
        self.answers.len()
    }

    /// The header's authority count.
    pub fn authority_count(&self) -> (n: usize)
        ensures
            n == self@.authorities.len(),
    {
        self.authorities.len()
    }

    /// The header's additional count.
    pub fn additional_count(&self) -> (n: usize)
        ensures
            n == self@.additionals.len(),
    {
        self.additionals.len()
    }
}

} // verus!
