use vstd::prelude::*;

use trust_dns_proto::error::ProtoError;
use trust_dns_proto::op::message::Message;
use trust_dns_proto::rr::{Name, RData};

verus! {

#[verifier::external_type_specification]
#[verifier::external_body]
pub struct ExMessage(Message);

#[verifier::external_type_specification]
#[verifier::external_body]
pub struct ExProtoError(ProtoError);

/// Length of the fixed DNS header that opens every message.
pub const HEADER_LEN: usize = 12;

/// The fingerprint of a question: name (lower case), record type, class.
pub type QuestionView = (Seq<char>, u16, u16);

/// One question of a message, as the cache keys it.
#[derive(Debug)]
pub struct Question {
    /// The queried name in ASCII form, folded to lower case.
    pub name: String,
    pub record_type: u16,
    pub class: u16,
}

impl View for Question {
    type V = QuestionView;

    open spec fn view(&self) -> QuestionView {
        (self.name@, self.record_type, self.class)
    }
}

impl Question {
    pub fn duplicate(&self) -> (r: Question)
        ensures
            r@ == self@,
    {
        Question { name: self.name.clone(), record_type: self.record_type, class: self.class }
    }
}

/// What a message is to the logic: its canonical encoding, its questions in
/// order, and the TTL of each answer record in order.
pub struct MessageView {
    pub wire: Seq<u8>,
    pub questions: Seq<QuestionView>,
    pub answer_ttls: Seq<u32>,
}

/// A DNS message: the encoding produced by the codec, with the questions and
/// answer TTLs that the codec read from it.
#[derive(Debug)]
pub struct DnsMessage {
    pub wire: Vec<u8>,
    pub questions: Vec<Question>,
    pub answer_ttls: Vec<u32>,
}

/// The transaction id stored big-endian in the first two header bytes.
pub open spec fn wire_id(wire: Seq<u8>) -> u16 {
    (wire[0] as int * 256 + wire[1] as int) as u16
}

/// The same encoding with its transaction id replaced.
pub open spec fn with_wire_id(wire: Seq<u8>, id: u16) -> Seq<u8> {
    wire.update(0, (id / 256) as u8).update(1, (id % 256) as u8)
}

impl View for DnsMessage {
    type V = MessageView;

    open spec fn view(&self) -> MessageView {
        MessageView {
            wire: self.wire@,
            questions: self.questions@.map_values(|q: Question| q@),
            answer_ttls: self.answer_ttls@,
        }
    }
}

impl MessageView {
    /// The encoding holds at least a full header.
    pub open spec fn wf(self) -> bool {
        self.wire.len() >= HEADER_LEN
    }

    pub open spec fn id(self) -> u16 {
        wire_id(self.wire)
    }

    /// The same message under another transaction id.
    pub open spec fn with_id(self, id: u16) -> MessageView {
        MessageView { wire: with_wire_id(self.wire, id), ..self }
    }
}

impl DnsMessage {
    pub open spec fn wf(&self) -> bool {
        self@.wf()
    }

    /// The transaction id.
    pub fn id(&self) -> (r: u16)
        requires
            self.wf(),
        ensures
            r == self@.id(),
    {
        self.wire[0] as u16 * 256 + self.wire[1] as u16
    }

    /// Rewrites the transaction id and leaves everything else as it was.
    pub fn set_id(&mut self, id: u16)
        requires
            old(self).wf(),
        ensures
            final(self)@ == old(self)@.with_id(id),
            final(self).wf(),
    {
        self.wire.set(0, (id / 256) as u8);
        self.wire.set(1, (id % 256) as u8);
        assert(self.questions@.map_values(|q: Question| q@) =~= old(self).questions@.map_values(|q: Question| q@));
    }

    /// A private copy with the same view.
    pub fn duplicate(&self) -> (r: DnsMessage)
        ensures
            r@ == self@,
    {
        let mut wire: Vec<u8> = Vec::new();
        let mut i: usize = 0;
        while i < self.wire.len()
            invariant
                i <= self.wire.len(),
                wire@ =~= self.wire@.subrange(0, i as int),
            decreases self.wire.len() - i,
        {
            wire.push(self.wire[i]);
            i += 1;
        }
        let mut questions: Vec<Question> = Vec::new();
        let mut j: usize = 0;
        while j < self.questions.len()
            invariant
                j <= self.questions.len(),
                questions.len() == j,
                forall|t: int| 0 <= t < j ==> (#[trigger] questions@[t])@ == self.questions@[t]@,
            decreases self.questions.len() - j,
        {
            questions.push(self.questions[j].duplicate());
            j += 1;
        }
        let mut ttls: Vec<u32> = Vec::new();
        let mut k: usize = 0;
        while k < self.answer_ttls.len()
            invariant
                k <= self.answer_ttls.len(),
                ttls@ =~= self.answer_ttls@.subrange(0, k as int),
            decreases self.answer_ttls.len() - k,
        {
            ttls.push(self.answer_ttls[k]);
            k += 1;
        }
        assert(wire@ =~= self.wire@);
        assert(ttls@ =~= self.answer_ttls@);
        assert(questions@.map_values(|q: Question| q@) =~= self.questions@.map_values(|q: Question| q@));
        DnsMessage { wire, questions, answer_ttls: ttls }
    }
}

} // verus!

verus! {

/// A decoding or encoding failure, with the codec's diagnostic.
#[derive(Debug)]
pub struct CodecError {
    pub text: String,
}

/// Whether the codec decodes `b` as a message.
pub uninterp spec fn decodes(b: Seq<u8>) -> bool;

/// The codec's encoding of the message decoded from `b`, when it encodes.
pub uninterp spec fn reencoded(b: Seq<u8>) -> Option<Seq<u8>>;

/// The questions of the message decoded from `b`, as the cache keys them.
pub uninterp spec fn decoded_questions(b: Seq<u8>) -> Seq<QuestionView>;

/// The TTLs of the answer records of the message decoded from `b`.
pub uninterp spec fn decoded_answer_ttls(b: Seq<u8>) -> Seq<u32>;

/// The data of the answer records of the message decoded from `b`.
pub uninterp spec fn decoded_answer_data(b: Seq<u8>) -> Seq<AnswerData>;

/// Whether the codec accepts `host` as a domain name.
pub uninterp spec fn name_parses(host: Seq<char>) -> bool;

/// Whether `b` decodes, and the decoded message encodes again.
pub open spec fn wire_decodes(b: Seq<u8>) -> bool {
    decodes(b) && reencoded(b) is Some
}

/// The message that `b` decodes to, as the logic sees it.
pub open spec fn decoded_view(b: Seq<u8>) -> MessageView {
    MessageView {
        wire: reencoded(b).unwrap(),
        questions: decoded_questions(b),
        answer_ttls: decoded_answer_ttls(b),
    }
}

/// The first answer record's data of the message decoded from `b`.
pub open spec fn first_answer(b: Seq<u8>) -> Option<AnswerData> {
    if decoded_answer_ttls(b).len() > 0 {
        Some(decoded_answer_data(b)[0])
    } else {
        None
    }
}

/// A message as the codec decoded it, with the bytes it was decoded from.
/// Only `decode_message` makes one.
pub struct Decoded {
    msg: Message,
    source: Vec<u8>,
}

impl Decoded {
    /// The bytes this message was decoded from.
    pub closed spec fn source(&self) -> Seq<u8> {
        self.source@
    }
}

/// Relies on `Message::from_vec`: decodes one message from bytes, and keeps a
/// copy of them. A successful decode has read the whole fixed header.
#[verifier::external_body]
pub(crate) fn decode_message(bytes: &[u8]) -> (r: Result<Decoded, ProtoError>)
    ensures
        r is Ok <==> decodes(bytes@),
        r is Ok ==> bytes@.len() >= HEADER_LEN,
        r matches Ok(d) ==> d.source() == bytes@,
{
    match Message::from_vec(bytes) {
        Ok(msg) => Ok(Decoded { msg, source: bytes.to_vec() }),
        Err(e) => Err(e),
    }
}

/// Relies on `Message::to_vec`: the header is always emitted first, in full.
#[verifier::external_body]
pub(crate) fn encode_message(m: &Message) -> (r: Result<Vec<u8>, ProtoError>)
    ensures
        r matches Ok(w) ==> w@.len() >= HEADER_LEN,
{
    m.to_vec()
}

/// Relies on `Message::to_vec` for a decoded message: its encoding is a
/// function of the bytes it was decoded from.
#[verifier::external_body]
fn reencode(d: &Decoded) -> (r: Result<Vec<u8>, ProtoError>)
    ensures
        r is Ok <==> reencoded(d.source()) is Some,
        r matches Ok(w) ==> w@ == reencoded(d.source()).unwrap() && w@.len() >= HEADER_LEN,
{
    d.msg.to_vec()
}

/// Relies on `ProtoError`'s `Display`: the diagnostic text.
#[verifier::external_body]
pub(crate) fn error_text(e: &ProtoError) -> String {
    e.to_string()
}

/// Relies on `Name`'s `FromStr`: parses a hostname.
#[verifier::external_body]
pub(crate) fn parse_name(host: &str) -> (r: Result<Name, ProtoError>)
    ensures
        r is Ok <==> name_parses(host@),
{
    host.parse::<Name>()
}

/// Relies on `Message::queries`: how many questions the message holds.
#[verifier::external_body]
fn question_count(d: &Decoded) -> (r: usize)
    ensures
        r == decoded_questions(d.source()).len(),
{
    d.msg.queries().len()
}

/// Relies on `Message::queries` and `Query`'s accessors: the `i`-th question,
/// its name in ASCII and folded to lower case (the codec compares names
/// ignoring case), its type and class as numbers.
#[verifier::external_body]
fn question_at(d: &Decoded, i: usize) -> (r: Option<Question>)
    ensures
        i < decoded_questions(d.source()).len() ==> r is Some && r.unwrap()@ == decoded_questions(d.source())[i as int],
        i >= decoded_questions(d.source()).len() ==> r is None,
{
    match d.msg.queries().get(i) {
        Some(q) => Some(Question {
            name: q.name().to_lowercase().to_ascii(),
            record_type: u16::from(q.query_type()),
            class: u16::from(q.query_class()),
        }),
        None => None,
    }
}

/// Relies on `Message::answers`: how many answer records the message holds.
#[verifier::external_body]
fn answer_count(d: &Decoded) -> (r: usize)
    ensures
        r == decoded_answer_ttls(d.source()).len(),
{
    d.msg.answers().len()
}

/// Relies on `Message::answers` and `Record::ttl`: the TTL of the `i`-th answer.
#[verifier::external_body]
fn answer_ttl_at(d: &Decoded, i: usize) -> (r: Option<u32>)
    ensures
        i < decoded_answer_ttls(d.source()).len() ==> r == Some(decoded_answer_ttls(d.source())[i as int]),
        i >= decoded_answer_ttls(d.source()).len() ==> r is None,
{
    match d.msg.answers().get(i) {
        Some(r) => Some(r.ttl()),
        None => None,
    }
}

/// The resource data of an answer record, as far as address resolution reads it.
#[derive(Debug)]
pub enum AnswerData {
    V4([u8; 4]),
    V6([u8; 16]),
    /// Data of another record type.
    Other,
    /// A record that carries no data.
    Missing,
}

/// Relies on `Message::answers`, `Record::data` and the `A` / `AAAA` variants of
/// `RData`: the data of the `i`-th answer, if there is one.
#[verifier::external_body]
pub(crate) fn answer_data_at(d: &Decoded, i: usize) -> (r: Option<AnswerData>)
    ensures
        i < decoded_answer_ttls(d.source()).len() ==> r == Some(decoded_answer_data(d.source())[i as int]),
        i >= decoded_answer_ttls(d.source()).len() ==> r is None,
{
    match d.msg.answers().get(i) {
        Some(r) => Some(match r.data() {
            Some(RData::A(a)) => AnswerData::V4(a.0.octets()),
            Some(RData::AAAA(a)) => AnswerData::V6(a.0.octets()),
            Some(_) => AnswerData::Other,
            None => AnswerData::Missing,
        }),
        None => None,
    }
}

impl DnsMessage {
    /// Decodes `bytes` and keeps the codec's canonical encoding of the result.
    pub fn from_wire(bytes: &[u8]) -> (r: Result<DnsMessage, CodecError>)
        ensures
            r is Ok <==> wire_decodes(bytes@),
            r matches Ok(m) ==> m.wf() && m@ == decoded_view(bytes@),
    {
        match decode_message(bytes) {
            Ok(d) => DnsMessage::from_decoded(&d),
            Err(e) => Err(CodecError { text: error_text(&e) }),
        }
    }

    /// Reads what the logic needs out of a decoded message, and encodes it.
    fn from_decoded(d: &Decoded) -> (r: Result<DnsMessage, CodecError>)
        ensures
            r is Ok <==> reencoded(d.source()) is Some,
            r matches Ok(m) ==> m.wf() && m@ == decoded_view(d.source()),
    {
        let wire = match reencode(d) {
            Ok(w) => w,
            Err(e) => {
                return Err(CodecError { text: error_text(&e) });
            },
        };
        let ghost src = d.source();
        let mut questions: Vec<Question> = Vec::new();
        let nq = question_count(d);
        let mut i: usize = 0;
        while i < nq
            invariant
                nq == decoded_questions(src).len(),
                src == d.source(),
                i <= nq,
                questions.len() == i,
                forall|t: int| 0 <= t < i ==> (#[trigger] questions@[t])@ == decoded_questions(src)[t],
            decreases nq - i,
        {
            match question_at(d, i) {
                Some(q) => questions.push(q),
                None => {},
            }
            i += 1;
        }
        let mut answer_ttls: Vec<u32> = Vec::new();
        let na = answer_count(d);
        let mut j: usize = 0;
        while j < na
            invariant
                na == decoded_answer_ttls(src).len(),
                src == d.source(),
                j <= na,
                answer_ttls@ =~= decoded_answer_ttls(src).subrange(0, j as int),
            decreases na - j,
        {
            match answer_ttl_at(d, j) {
                Some(t) => answer_ttls.push(t),
                None => {},
            }
            j += 1;
        }
        assert(answer_ttls@ =~= decoded_answer_ttls(src));
        let m = DnsMessage { wire, questions, answer_ttls };
        assert(m@.questions =~= decoded_questions(src));
        Ok(m)
    }
}

} // verus!
