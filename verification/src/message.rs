//! The DNS message model: a wire-encoded buffer plus the decoded view the
//! engine reads (transaction ID, QR flag, question names), and the two
//! trusted operations on the wire format — decoding a datagram and
//! building a positive A answer — both provided by the `domain` crate.

use vstd::prelude::*;

verus! {

/// A decoded DNS datagram: the verbatim wire bytes together with the
/// header fields and question names the engine dispatches on.
pub struct DnsMessage {
    pub bytes: Vec<u8>,
    pub id: u16,
    pub qr: bool,
    pub questions: Vec<Vec<u8>>,
}

/// Whether a byte string decodes as a DNS message whose questions can all
/// be read (the result of the wire decoder on those bytes).
pub uninterp spec fn wire_parses(bytes: Seq<u8>) -> bool;

/// The transaction ID the wire decoder reads from a datagram.
pub uninterp spec fn wire_id(bytes: Seq<u8>) -> u16;

/// The QR header flag the wire decoder reads from a datagram.
pub uninterp spec fn wire_qr(bytes: Seq<u8>) -> bool;

/// The question names the wire decoder reads from a datagram, each in
/// dotted display form without a trailing dot.
pub uninterp spec fn wire_questions(bytes: Seq<u8>) -> Seq<Seq<u8>>;

/// The positive answer the builder produces for a query: the query's
/// question section echoed, RA set, one A record `qname ttl IN A ip`,
/// Rcode NoError; `None` where the builder refuses the input.
pub uninterp spec fn answer_wire(
    query: Seq<u8>,
    qname: Seq<u8>,
    ttl_secs: u32,
    ip0: u8,
    ip1: u8,
    ip2: u8,
    ip3: u8,
) -> Option<Seq<u8>>;

/// Relies on `domain`'s `Message::from_octets`, `Header::id`, `Header::qr`
/// and the question section iterator: decodes a datagram and reads the
/// header fields and question names; the result depends on the bytes alone.
#[verifier::external_body]
fn parse_wire(bytes: &Vec<u8>) -> (r: Option<DnsMessage>)
    ensures
        r is Some <==> wire_parses(bytes@),
        match r {
            Some(m) => m.bytes@ == bytes@ && m.id == wire_id(bytes@) && m.qr == wire_qr(bytes@)
                && m.questions@.map_values(|q: Vec<u8>| q@) == wire_questions(bytes@),
            None => true,
        },
{
    let msg = match domain::base::Message::from_octets(bytes.clone()) {
        Ok(m) => m,
        Err(_) => return None,
    };
    let mut questions: Vec<Vec<u8>> = Vec::new();
    for q in msg.question() {
        match q {
            Ok(q) => questions.push(q.qname().to_string().into_bytes()),
            Err(_) => return None,
        }
    }
    Some(DnsMessage { bytes: bytes.clone(), id: msg.header().id(), qr: msg.header().qr(), questions })
}

/// Relies on `domain`'s `MessageBuilder`: `start_answer` with Rcode
/// NXDomain, RA set, one pushed A record (class IN) which flips the Rcode
/// to NoError; the result depends on the arguments alone.
#[verifier::external_body]
fn build_a_wire(query: &Vec<u8>, qname: &Vec<u8>, ttl_secs: u32, ip0: u8, ip1: u8, ip2: u8, ip3: u8) -> (r:
    Option<Vec<u8>>)
    ensures
        r is Some <==> answer_wire(query@, qname@, ttl_secs, ip0, ip1, ip2, ip3) is Some,
        match r {
            Some(b) => Some(b@) == answer_wire(query@, qname@, ttl_secs, ip0, ip1, ip2, ip3),
            None => true,
        },
{
    let msg = domain::base::Message::from_octets(query.clone()).ok()?;
    let mut ans = domain::base::MessageBuilder::new_vec().start_answer(&msg,
        domain::base::iana::Rcode::NXDomain).ok()?;
    ans.header_mut().set_ra(true);
    let name: domain::base::Dname<Vec<u8>> = core::str::from_utf8(qname).ok()?.parse().ok()?;
    let a = domain::rdata::A::from_octets(ip0, ip1, ip2, ip3);
    ans.push((name, domain::base::iana::Class::In, domain::base::Ttl::from_secs(ttl_secs), a)).ok()?;
    ans.header_mut().set_rcode(domain::base::iana::Rcode::NoError);
    Some(ans.into_message().into_octets())
}

impl DnsMessage {
    /// The decoded view agrees with what the wire decoder reads from the
    /// carried bytes.
    pub open spec fn wf(self) -> bool {
        &&& wire_parses(self.bytes@)
        &&& self.id == wire_id(self.bytes@)
        &&& self.qr == wire_qr(self.bytes@)
        &&& self.questions@.map_values(|q: Vec<u8>| q@) == wire_questions(self.bytes@)
    }
}

/// Decode a datagram: the verbatim bytes plus the decoded header view,
/// absent exactly when the bytes do not decode.
pub fn parse_message(bytes: &Vec<u8>) -> (r: Option<DnsMessage>)
    ensures
        r is Some <==> wire_parses(bytes@),
        match r {
            Some(m) => m.wf() && m.bytes@ == bytes@,
            None => true,
        },
{
    parse_wire(bytes)
}

/// Build the positive A answer for a query: `qname ttl_secs IN A ip`,
/// RA set, Rcode NoError; absent where the builder refuses the input.
pub fn build_a_answer(
    query: &Vec<u8>,
    qname: &Vec<u8>,
    ttl_secs: u32,
    ip0: u8,
    ip1: u8,
    ip2: u8,
    ip3: u8,
) -> (r: Option<Vec<u8>>)
    ensures
        r is Some <==> answer_wire(query@, qname@, ttl_secs, ip0, ip1, ip2, ip3) is Some,
        match r {
            Some(b) => Some(b@) == answer_wire(query@, qname@, ttl_secs, ip0, ip1, ip2, ip3),
            None => true,
        },
{
    build_a_wire(query, qname, ttl_secs, ip0, ip1, ip2, ip3)
}

} // verus!
