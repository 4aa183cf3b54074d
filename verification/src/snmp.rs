//! The SNMP probe: what is asked of the agent, and what its answer says.
//! Object identifiers are encoded by `snmp2`.

use crate::text::{chars_of, string_of, trim, trimmed};
use vstd::prelude::*;
use vstd::string::StrSliceExecFns;
use vstd::utf8::encode_utf8;

verus! {

/// The UDP port of SNMP agents.
pub const SNMP_PORT: u16 = 161;

/// The request timeout of the SNMP probe, in milliseconds.
pub const SNMP_TIMEOUT_MS: u64 = 1000;

/// The community of the SNMP request, as text.
pub open spec fn snmp_community_text() -> Seq<char> {
    "public"@
}

/// The community of the SNMP request: the bytes of "public".
pub fn snmp_community() -> (r: Vec<u8>)
    ensures
        r@ == encode_utf8(snmp_community_text()),
{
    "public".as_bytes_vec()
}

/// The object identifier of the system description, 1.3.6.1.2.1.1.1.0.
pub open spec fn sys_descr_arcs() -> Seq<u64> {
    seq![1, 3, 6, 1, 2, 1, 1, 1, 0]
}

/// The object identifier that the SNMP probe asks for.
pub fn sys_descr_oid() -> (r: Vec<u64>)
    ensures
        r@ == sys_descr_arcs(),
{
    let r: Vec<u64> = vec![1, 3, 6, 1, 2, 1, 1, 1, 0];
    assert(r@ =~= sys_descr_arcs());
    r
}

/// The contents octets with which `snmp2::Oid::from` encodes an object
/// identifier given by its arcs, where it accepts them.
pub uninterp spec fn oid_encoding(arcs: Seq<u64>) -> Option<Seq<u8>>;

/// The arcs that `snmp2::Oid::from` accepts: two or more, of which the
/// first is below 7 and the second below 40; or the single arc 0.
pub open spec fn oid_accepted(arcs: Seq<u64>) -> bool {
    (arcs.len() >= 2 && arcs[0] < 7 && arcs[1] < 40) || (arcs.len() == 1 && arcs[0] == 0)
}

/// `snmp2::Oid::from`, with `Oid::as_bytes` to take the result apart: the
/// encoding of the arcs, for exactly the arcs that are accepted.
#[verifier::external_body]
fn encode_oid(arcs: &[u64]) -> (r: Option<Vec<u8>>)
    ensures
        match r {
            Some(bytes) => oid_encoding(arcs@) == Some(bytes@),
            None => oid_encoding(arcs@) is None,
        },
        r is Some <==> oid_accepted(arcs@),
{
    match snmp2::Oid::from(arcs) {
        Ok(oid) => Some(oid.as_bytes().to_vec()),
        Err(_) => None,
    }
}

/// An SNMP v2c GET request for one object.
#[derive(Clone, Debug, PartialEq, Eq)]
pub struct SnmpRequest {
    /// The UDP port of the agent.
    pub port: u16,
    /// The community.
    pub community: Vec<u8>,
    /// The object identifier, encoded.
    pub oid: Vec<u8>,
    /// How long the answer may take, in milliseconds.
    pub timeout_ms: u64,
}

/// The request of the SNMP probe: the system description, of community
/// "public", on the SNMP port, with a second for the answer.
pub fn snmp_request() -> (r: SnmpRequest)
    ensures
        r.port == SNMP_PORT,
        r.community@ == encode_utf8(snmp_community_text()),
        Some(r.oid@) == oid_encoding(sys_descr_arcs()),
        r.timeout_ms == SNMP_TIMEOUT_MS,
{
    let arcs = sys_descr_oid();
    let oid = encode_oid(arcs.as_slice());
    SnmpRequest {
        port: SNMP_PORT,
        community: snmp_community(),
        oid: oid.unwrap(),
        timeout_ms: SNMP_TIMEOUT_MS,
    }
}

/// The value of a variable binding in an SNMP response, as far as a scan
/// reads it.
#[derive(Clone, Debug, PartialEq, Eq)]
pub enum SnmpValue {
    /// An octet string, with its bytes.
    OctetString(Vec<u8>),
    /// A value of any other type.
    Other,
}

/// What the system description of an SNMP agent says: itself, trimmed.
pub open spec fn snmp_model(text: Seq<char>) -> Seq<char> {
    trimmed(text)
}

/// Reads a system description.
pub fn read_snmp(text: &str) -> (r: String)
    ensures
        r@ == snmp_model(text@),
{
    string_of(&trim(&chars_of(text)))
}

} // verus!
