//! The invocation envelope: an immutable, signed message correlating an
//! origin entity, a target entity, an operation and a payload, carrying a
//! fresh invocation id and an inherited (or fresh) transaction id.
//!
//! The claim hash binds origin URL, target URL and payload bytes; it is a
//! pure function of those inputs, which is what makes it stable across runs
//! and hosts.

use vstd::prelude::*;
use vstd::string::StringExecFns;
use vstd::utf8::encode_utf8;

use crate::codec::string_msgpack_of;
use crate::entity::{url_chars, VinoEntity};
use crate::error::{ConversionError, InvocationError};
use crate::hash::{hex_upper, hex_upper_of, sha256, sha256_of};
use crate::signing::{encode_claims, keypair_public_key, new_invocation_id};

verus! {

/// The payload carried by an invocation: one MessagePack blob, a byte map
/// keyed by port name (insertion order preserved), or an in-band failure.
#[derive(Debug, Clone, PartialEq, Eq)]
pub enum MessagePayload {
    MessagePack(Vec<u8>),
    MultiBytes(Vec<(String, Vec<u8>)>),
    Exception(String),
    Error(String),
}

impl MessagePayload {
    /// The raw MessagePack bytes, if that is what the payload holds.
    pub fn get_bytes(self) -> (r: Result<Vec<u8>, ConversionError>)
        ensures
            self matches MessagePayload::MessagePack(b) ==> r == Ok::<Vec<u8>, ConversionError>(b),
            !(self matches MessagePayload::MessagePack(_)) ==> (r matches Err(e) && e.0@
                == "Invalid payload"@),
    {
        match self {
            MessagePayload::MessagePack(bytes) => Ok(bytes),
            _ => Err(ConversionError("Invalid payload")),
        }
    }
}

impl From<Vec<u8>> for MessagePayload {
    fn from(v: Vec<u8>) -> (r: Self) {
        MessagePayload::MessagePack(v)
    }
}

impl vstd::std_specs::convert::FromSpecImpl<Vec<u8>> for MessagePayload {
    open spec fn obeys_from_spec() -> bool {
        true
    }

    open spec fn from_spec(v: Vec<u8>) -> Self {
        MessagePayload::MessagePack(v)
    }
}

/// The bytes a byte-map payload contributes to the claim hash: each key's
/// UTF-8 text followed by its value bytes, in insertion order.
pub open spec fn multi_bytes(pairs: Seq<(String, Vec<u8>)>) -> Seq<u8>
    decreases pairs.len(),
{
    if pairs.len() == 0 {
        Seq::empty()
    } else {
        encode_utf8(pairs[0].0@) + pairs[0].1@ + multi_bytes(pairs.drop_first())
    }
}

/// The bytes a payload contributes to the claim hash.
pub open spec fn payload_bytes(m: MessagePayload) -> Seq<u8> {
    match m {
        MessagePayload::MessagePack(b) => b@,
        MessagePayload::MultiBytes(pairs) => multi_bytes(pairs@),
        MessagePayload::Exception(s) => encode_utf8(s@),
        MessagePayload::Error(s) => encode_utf8(s@),
    }
}

/// The full byte string whose digest the claims carry: origin URL, then
/// target URL, then the payload bytes.
pub open spec fn hash_input(
    origin_url: Seq<char>,
    target_url: Seq<char>,
    m: MessagePayload,
) -> Seq<u8> {
    encode_utf8(origin_url) + encode_utf8(target_url) + payload_bytes(m)
}

proof fn lemma_multi_bytes_step(pairs: Seq<(String, Vec<u8>)>, i: int)
    requires
        0 <= i < pairs.len(),
    ensures
        multi_bytes(pairs.take(i + 1)) == multi_bytes(pairs.take(i)) + encode_utf8(
            pairs[i].0@,
        ) + pairs[i].1@,
    decreases i,
{
    if i == 0 {
        assert(pairs.take(1) =~= seq![pairs[0]]);
        assert(pairs.take(1).drop_first() =~= Seq::<(String, Vec<u8>)>::empty());
        assert(pairs.take(0) =~= Seq::<(String, Vec<u8>)>::empty());
        assert(multi_bytes(pairs.take(1)) =~= encode_utf8(pairs[0].0@) + pairs[0].1@);
        assert(multi_bytes(pairs.take(0)) + encode_utf8(pairs[0].0@) + pairs[0].1@ =~= encode_utf8(
            pairs[0].0@,
        ) + pairs[0].1@);
    } else {
        let rest = pairs.drop_first();
        lemma_multi_bytes_step(rest, i - 1);
        assert(pairs.take(i + 1).drop_first() =~= rest.take(i));
        assert(pairs.take(i).drop_first() =~= rest.take(i - 1));
        assert(rest[i - 1] == pairs[i]);
        assert(multi_bytes(pairs.take(i + 1)) == encode_utf8(pairs[0].0@) + pairs[0].1@
            + multi_bytes(rest.take(i)));
        assert(multi_bytes(pairs.take(i)) == encode_utf8(pairs[0].0@) + pairs[0].1@ + multi_bytes(
            rest.take(i - 1),
        ));
        assert(multi_bytes(pairs.take(i)) + encode_utf8(pairs[i].0@) + pairs[i].1@ =~= encode_utf8(
            pairs[0].0@,
        ) + pairs[0].1@ + (multi_bytes(rest.take(i - 1)) + encode_utf8(rest[i - 1].0@) + rest[i
            - 1].1@));
    }
}

/// The hash bound into an invocation's claims: the uppercase hex SHA-256
/// digest of origin URL, target URL and payload bytes. A pure function of
/// its arguments, hence stable across runs and hosts.
pub fn invocation_hash(target_url: &str, origin_url: &str, msg: &MessagePayload) -> (r: String)
    ensures
        r@ == hex_upper_of(sha256_of(hash_input(origin_url@, target_url@, *msg))),
{
    let mut cleanbytes: Vec<u8> = Vec::new();
    cleanbytes.extend_from_slice(origin_url.as_bytes());
    cleanbytes.extend_from_slice(target_url.as_bytes());
    match msg {
        MessagePayload::MessagePack(bytes) => cleanbytes.extend_from_slice(bytes.as_slice()),
        MessagePayload::Exception(s) => cleanbytes.extend_from_slice(s.as_str().as_bytes()),
        MessagePayload::Error(s) => cleanbytes.extend_from_slice(s.as_str().as_bytes()),
        MessagePayload::MultiBytes(pairs) => {
            let ghost prefix = cleanbytes@;
            let n = pairs.len();
            for i in 0..n
                invariant
                    n == pairs.len(),
                    cleanbytes@ == prefix + multi_bytes(pairs@.take(i as int)),
            {
                proof {
                    lemma_multi_bytes_step(pairs@, i as int);
                }
                cleanbytes.extend_from_slice(pairs[i].0.as_str().as_bytes());
                cleanbytes.extend_from_slice(pairs[i].1.as_slice());
            }
            proof {
                assert(pairs@.take(n as int) =~= pairs@);
            }
        },
    }
    proof {
        assert(cleanbytes@ =~= hash_input(origin_url@, target_url@, *msg));
    }
    let digest = sha256(cleanbytes.as_slice());
    hex_upper(digest.as_slice())
}

/// Hash determinism: the invocation hash is a pure function of the origin
/// URL, the target URL and the payload, so two invocations built from equal
/// inputs carry the same claim hash, in any run and on any host.
pub proof fn lemma_hash_deterministic(
    o1: Seq<char>,
    t1: Seq<char>,
    m1: MessagePayload,
    o2: Seq<char>,
    t2: Seq<char>,
    m2: MessagePayload,
)
    requires
        o1 == o2,
        t1 == t2,
        m1 == m2,
    ensures
        hex_upper_of(sha256_of(hash_input(o1, t1, m1))) == hex_upper_of(
            sha256_of(hash_input(o2, t2, m2)),
        ),
{
}

/// An immutable, signed invocation envelope.
#[derive(Debug, Clone, PartialEq, Eq)]
pub struct Invocation {
    pub origin: VinoEntity,
    pub target: VinoEntity,
    pub operation: String,
    pub msg: MessagePayload,
    pub id: String,
    pub tx_id: String,
    pub encoded_claims: String,
    pub host_id: String,
}

impl Invocation {
    /// Creates an invocation with a specific transaction id, to correlate a
    /// chain of invocations. The envelope is signed with the host's key;
    /// signing failures are surfaced, never panicked on.
    pub fn next(
        tx_id: &str,
        hostkey: &nkeys::KeyPair,
        origin: VinoEntity,
        target: VinoEntity,
        op: &str,
        msg: MessagePayload,
    ) -> (r: Result<Invocation, InvocationError>)
        ensures
            r matches Ok(inv) ==> inv.origin == origin && inv.target == target && inv.operation@
                == op@ && inv.msg == msg && inv.tx_id@ == tx_id@ && inv.id@.len() == 36,
    {
        let subject = new_invocation_id();
        let issuer = keypair_public_key(hostkey);
        let mut target_url = target.url();
        target_url.append("/");
        target_url.append(op);
        let origin_url = origin.url();
        let hash = invocation_hash(target_url.as_str(), origin_url.as_str(), &msg);
        match encode_claims(
            hostkey,
            issuer.as_str(),
            subject.as_str(),
            target_url.as_str(),
            origin_url.as_str(),
            hash.as_str(),
        ) {
            Ok(encoded) => Ok(
                Invocation {
                    origin,
                    target,
                    operation: String::from_str(op),
                    msg,
                    id: subject,
                    tx_id: String::from_str(tx_id),
                    encoded_claims: encoded,
                    host_id: issuer,
                },
            ),
            Err(e) => Err(InvocationError(e)),
        }
    }

    /// Creates a root invocation with a fresh transaction id.
    pub fn new_root(
        hostkey: &nkeys::KeyPair,
        origin: VinoEntity,
        target: VinoEntity,
        op: &str,
        msg: MessagePayload,
    ) -> (r: Result<Invocation, InvocationError>)
        ensures
            r matches Ok(inv) ==> inv.origin == origin && inv.target == target && inv.operation@
                == op@ && inv.msg == msg && inv.tx_id@.len() == 36 && inv.id@.len() == 36,
    {
        let tx_id = new_invocation_id();
        Self::next(tx_id.as_str(), hostkey, origin, target, op, msg)
    }
}

/// The response to an invocation: the correlating transaction id and a
/// MessagePack-encoded message.
#[derive(Debug, Clone, PartialEq, Eq)]
pub struct InvocationResponse {
    pub tx_id: String,
    pub msg: Vec<u8>,
}

impl InvocationResponse {
    /// Creates a successful invocation response carrying the payload as-is.
    pub fn success(tx_id: String, payload: Vec<u8>) -> (r: InvocationResponse)
        ensures
            r.tx_id == tx_id,
            r.msg == payload,
    {
        InvocationResponse { tx_id, msg: payload }
    }

    /// Creates an error response; the message is serialised to MessagePack.
    pub fn error(tx_id: String, msg: String) -> (r: InvocationResponse)
        ensures
            r.tx_id == tx_id,
            r.msg@ == string_msgpack_of(msg@),
    {
        let payload = crate::codec::msgpack_encode_string(msg.as_str());
        InvocationResponse { tx_id, msg: payload }
    }
}

} // verus!
