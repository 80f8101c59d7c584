//! DNS messages on the wire. Decoding and encoding are the work of
//! `trust_dns_proto`; this module holds what the proxy reads from a request
//! and what it states of the replies it builds.

use trust_dns_proto::op::{Header, Message, MessageType, OpCode, Query, ResponseCode};
use trust_dns_proto::serialize::binary::{BinDecodable, BinDecoder, BinEncodable};
use vstd::prelude::*;

verus! {

/// One question of a request.
#[derive(Debug, PartialEq, Eq)]
pub struct Question {
    /// The name that is asked for, written out with dots. A name from the
    /// wire is fully qualified and ends in a dot.
    pub name: String,
    /// The question in wire format: the name label by label, then type and
    /// class.
    pub wire: Vec<u8>,
}

/// A question as a value of the model.
pub struct QuestionView {
    pub name: Seq<char>,
    pub wire: Seq<u8>,
}

impl View for Question {
    type V = QuestionView;

    open spec fn view(&self) -> QuestionView {
        QuestionView { name: self.name@, wire: self.wire@ }
    }
}

impl Clone for Question {
    fn clone(&self) -> (copy: Question)
        ensures
            copy@ == self@,
    {
        Question { name: self.name.clone(), wire: self.wire.clone() }
    }
}

/// What the proxy reads from a request.
#[derive(Debug, PartialEq, Eq)]
pub struct Request {
    /// The transaction ID.
    pub id: u16,
    /// The questions, in the order of the message.
    pub questions: Vec<Question>,
}

/// A request as a value of the model.
pub struct RequestView {
    pub id: u16,
    pub questions: Seq<QuestionView>,
}

impl View for Request {
    type V = RequestView;

    open spec fn view(&self) -> RequestView {
        RequestView { id: self.id, questions: self.questions@.map_values(|q: Question| q@) }
    }
}

/// The response codes that the proxy answers with on its own.
#[derive(Clone, Copy, Debug, PartialEq, Eq, Structural)]
pub enum ReplyCode {
    /// The resolver could not complete the request.
    ServFail,
    /// The name does not exist.
    NxDomain,
}

/// The op code of a standard query.
pub const OP_QUERY: u8 = 0;

/// The length of the header that every DNS message starts with.
pub const HEADER_LEN: usize = 12;

/// The largest datagram that the proxy takes in: the size that DNS gives a
/// message over UDP.
pub const MAX_DATAGRAM: usize = 512;

impl ReplyCode {
    /// The number of the code in the header of a message.
    pub open spec fn number(self) -> u8 {
        match self {
            ReplyCode::ServFail => 2,
            ReplyCode::NxDomain => 3,
        }
    }

    /// The number of the code in the header of a message.
    pub fn to_number(self) -> (n: u8)
        ensures
            n == self.number(),
    {
        match self {
            ReplyCode::ServFail => 2,
            ReplyCode::NxDomain => 3,
        }
    }
}

/// The header of a message that carries one question and no records, with
/// the flags for truncation and recursion and the two DNSSEC flags off.
pub open spec fn header_bytes(
    id: u16,
    response: bool,
    op_code: u8,
    authoritative: bool,
    rcode: u8,
) -> Seq<u8> {
    seq![
        (id / 256) as u8,
        (id % 256) as u8,
        ((if response { 128int } else { 0 }) + op_code * 8 + (if authoritative { 4int } else { 0 })) as u8,
        rcode,
        0u8,
        1u8,
        0u8,
        0u8,
        0u8,
        0u8,
        0u8,
        0u8,
    ]
}

/// `bytes` starts with the header that `header_bytes` describes.
pub open spec fn has_header(
    bytes: Seq<u8>,
    id: u16,
    response: bool,
    op_code: u8,
    authoritative: bool,
    rcode: u8,
) -> bool {
    bytes.len() >= HEADER_LEN && bytes.subrange(0, HEADER_LEN as int) == header_bytes(
        id,
        response,
        op_code,
        authoritative,
        rcode,
    )
}

/// What `trust_dns_proto` reads from the front of a datagram, its header
/// and its questions: `None` where it reads none.
pub uninterp spec fn decoded(data: Seq<u8>) -> Option<RequestView>;

/// The bytes that `trust_dns_proto` encodes a message to which has the
/// given header fields and the one question: `None` where it encodes none.
pub uninterp spec fn encoded(
    id: u16,
    response: bool,
    op_code: u8,
    authoritative: bool,
    rcode: u8,
    question: Seq<u8>,
) -> Option<Seq<u8>>;

/// Reads the header of a datagram with `Header::read` and, behind it, as
/// many questions as the header counts with `Message::read_queries`. Hands
/// out the transaction ID and the questions: each with its name as
/// `Name::to_utf8` writes it, and with its wire format as `Query::to_bytes`
/// gives it. `None` where the header or a question does not decode, or a
/// question does not encode.
///
/// The records that may follow the questions are not read: a datagram with
/// sound questions decodes whatever stands behind them.
///
/// The decoder follows the pointers of a compressed name by calling itself,
/// once for each pointer, so it is handed no more than `MAX_DATAGRAM` bytes:
/// a long datagram that is full of pointers would exhaust the stack.
///
/// The contract names the result: the same bytes always decode to the same
/// request.
#[verifier::external_body]
pub(crate) fn decode(data: &[u8]) -> (request: Option<Request>)
    requires
        data@.len() <= MAX_DATAGRAM,
    ensures
        match request {
            Some(request) => decoded(data@) == Some(request@),
            None => decoded(data@) is None,
        },
{
    let mut decoder = BinDecoder::new(data);
    let header = Header::read(&mut decoder).ok()?;
    let queries = Message::read_queries(&mut decoder, usize::from(header.query_count())).ok()?;
    let questions = queries.iter().map(
        |query| Some(Question { name: query.name().to_utf8(), wire: query.to_bytes().ok()? }),
    ).collect::<Option<Vec<Question>>>()?;
    Some(Request { id: header.id(), questions })
}

/// Builds a message and encodes it with `Message::to_vec`. The message
/// starts as `Message::new` gives it; the header fields go in through
/// `set_id`, `set_message_type`, `set_op_code`, `set_authoritative` and
/// `set_response_code`, the op code by way of `OpCode::from_u8` and the
/// response code by way of `ResponseCode::from_low`; the question is read
/// from its wire format by `Query::from_bytes` and goes in through
/// `add_query`. `None` where the op code is not one that `OpCode::from_u8`
/// knows, where the question does not decode, or where the encoder fails.
///
/// The contract names the result: the same arguments always encode to the
/// same bytes. Beside that it claims of the bytes what `Header::emit`
/// writes in front of every message: the ID, the flags and the response
/// code as given, one question, no records.
#[verifier::external_body]
pub(crate) fn encode(
    id: u16,
    response: bool,
    op_code: u8,
    authoritative: bool,
    rcode: u8,
    question: &[u8],
) -> (bytes: Option<Vec<u8>>)
    requires
        rcode < 16,
    ensures
        match bytes {
            Some(bytes) => {
                &&& encoded(id, response, op_code, authoritative, rcode, question@) == Some(bytes@)
                &&& has_header(bytes@, id, response, op_code, authoritative, rcode)
            },
            None => encoded(id, response, op_code, authoritative, rcode, question@) is None,
        },
{
    let mut message = Message::new();
    message.set_id(id);
    message.set_message_type(if response { MessageType::Response } else { MessageType::Query });
    message.set_op_code(OpCode::from_u8(op_code).ok()?);
    message.set_authoritative(authoritative);
    message.set_response_code(ResponseCode::from_low(rcode));
    message.add_query(Query::from_bytes(question).ok()?);
    message.to_vec().ok()
}

} // verus!
