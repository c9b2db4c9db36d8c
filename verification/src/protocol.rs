//! The transactions of the exchange service and the decoding of raw signed
//! messages into them.

use vstd::prelude::*;
use crate::crypto::{ed25519_accepts, verify_signature, SIGNATURE_LEN};
use crate::le::{
    i32_from_le, i32_le, lemma_i32_roundtrip, lemma_u16_roundtrip, lemma_u32_roundtrip,
    read_i32_le, read_u16_le, read_u32_le, u16_from_le, u16_le, u32_from_le, u32_le,
};
use crate::message::{length_field, Fill, Message, TxCancel, TxCreate, TxOrder, SERVICE_DATA_LEN};

verus! {

/// Identifier of the exchange service in message headers.
pub const SERVICE_ID: u16 = 1;

/// Message type of `TxCreate`.
pub const TX_CREATE: u16 = 1;

/// Message type of `TxOrder`.
pub const TX_ORDER: u16 = 2;

/// Message type of `TxCancel`.
pub const TX_CANCEL: u16 = 3;

/// Length of a header and a signature together: the shortest message.
pub const MIN_MESSAGE_LEN: usize = 74;

/// The body length of each message type, or `None` for an unknown type.
pub open spec fn body_len_of(message_type: u16) -> Option<nat> {
    if message_type == TX_CREATE {
        Some(32)
    } else if message_type == TX_ORDER {
        Some(44)
    } else if message_type == TX_CANCEL {
        Some(36)
    } else {
        None
    }
}

/// Any transaction of the service.
pub enum Transaction {
    Create(TxCreate),
    Order(TxOrder),
    Cancel(TxCancel),
}

impl Transaction {
    /// The message type that carries this transaction.
    pub open spec fn message_type(&self) -> u16 {
        match self {
            Transaction::Create(_) => TX_CREATE,
            Transaction::Order(_) => TX_ORDER,
            Transaction::Cancel(_) => TX_CANCEL,
        }
    }

    /// The public key of the account that signs this transaction.
    pub open spec fn owner(&self) -> [u8; 32] {
        match self {
            Transaction::Create(t) => t.owner,
            Transaction::Order(t) => t.owner,
            Transaction::Cancel(t) => t.owner,
        }
    }

    /// The public key of the account that signs this transaction.
    pub fn owner_key(&self) -> (r: [u8; 32])
        ensures
            r == self.owner(),
    {
        match self {
            Transaction::Create(t) => t.owner,
            Transaction::Order(t) => t.owner,
            Transaction::Cancel(t) => t.owner,
        }
    }
}

impl Fill for Transaction {
    open spec fn encoding(&self) -> Seq<u8> {
        match self {
            Transaction::Create(t) => t.encoding(),
            Transaction::Order(t) => t.encoding(),
            Transaction::Cancel(t) => t.encoding(),
        }
    }

    fn fill(&self) -> (r: Vec<u8>) {
        match self {
            Transaction::Create(t) => t.fill(),
            Transaction::Order(t) => t.fill(),
            Transaction::Cancel(t) => t.fill(),
        }
    }
}

/// The encoding of a transaction is as long as its message type says.
pub(crate) proof fn lemma_body_len(t: Transaction)
    ensures
        body_len_of(t.message_type()) == Some(t.encoding().len()),
{
    match t {
        Transaction::Create(x) => {},
        Transaction::Order(x) => {
            lemma_u32_roundtrip(x.price);
            lemma_i32_roundtrip(x.amount);
            lemma_u32_roundtrip(x.id);
        },
        Transaction::Cancel(x) => {
            lemma_u32_roundtrip(x.id);
        },
    }
}

/// A decoded message with the signature that came with it.
pub struct SignedTransaction {
    pub message: Message<Transaction>,
    pub signature: [u8; 64],
}

/// Why a raw message is refused.
#[derive(Debug, PartialEq, Eq)]
pub enum DecodeError {
    /// The message is shorter than a header and a signature.
    UnexpectedlyShortPayload { actual_size: usize, minimum_size: usize },
    /// The header names a message type of no transaction.
    IncorrectMessageType { message_type: u16 },
    /// The header's length field differs from the message's length.
    IncorrectLength { declared: u32, actual: usize },
    /// The header names another service.
    IncorrectServiceId { service_id: u16 },
    /// The body is not as long as its message type requires.
    IncorrectBodyLength { message_type: u16, expected: usize, actual: usize },
}

/// The message type in a raw message's header.
pub open spec fn raw_message_type(raw: Seq<u8>) -> u16 {
    u16_from_le(raw.subrange(2, 4))
}

/// The service identifier in a raw message's header.
pub open spec fn raw_service_id(raw: Seq<u8>) -> u16 {
    u16_from_le(raw.subrange(4, 6))
}

/// The length field in a raw message's header.
pub open spec fn raw_length_field(raw: Seq<u8>) -> u32 {
    u32_from_le(raw.subrange(6, 10))
}

/// Why `raw` is refused, checked in this order; `None` when it is a well-formed
/// message of the service.
pub open spec fn decode_error(raw: Seq<u8>) -> Option<DecodeError> {
    let n = raw.len();
    if n < MIN_MESSAGE_LEN {
        Some(DecodeError::UnexpectedlyShortPayload { actual_size: n as usize, minimum_size: MIN_MESSAGE_LEN })
    } else if body_len_of(raw_message_type(raw)) is None {
        Some(DecodeError::IncorrectMessageType { message_type: raw_message_type(raw) })
    } else if raw_length_field(raw) != n {
        Some(DecodeError::IncorrectLength { declared: raw_length_field(raw), actual: n as usize })
    } else if raw_service_id(raw) != SERVICE_ID {
        Some(DecodeError::IncorrectServiceId { service_id: raw_service_id(raw) })
    } else if n - MIN_MESSAGE_LEN != body_len_of(raw_message_type(raw)).unwrap() {
        Some(
            DecodeError::IncorrectBodyLength {
                message_type: raw_message_type(raw),
                expected: body_len_of(raw_message_type(raw)).unwrap() as usize,
                actual: (n - MIN_MESSAGE_LEN) as usize,
            },
        )
    } else {
        None
    }
}

/// A message of the service: its header names the service and the type of
/// its body.
pub open spec fn is_service_message(m: Message<Transaction>) -> bool {
    &&& m.service_id == SERVICE_ID
    &&& m.message_id == m.body.message_type()
}

proof fn lemma_u16_of_bytes(b: Seq<u8>)
    requires
        b.len() == 2,
    ensures
        u16_le(u16_from_le(b)) == b,
{
    let v = u16_from_le(b);
    assert(v == b[0] + 256 * b[1]);
    assert(v % 256 == b[0] && v / 256 == b[1]) by (nonlinear_arith)
        requires
            v == b[0] + 256 * b[1],
            0 <= b[0] < 256,
            0 <= b[1] < 256,
    ;
    assert(u16_le(v) =~= b);
}

proof fn lemma_u32_of_bytes(b: Seq<u8>)
    requires
        b.len() == 4,
    ensures
        u32_le(u32_from_le(b)) == b,
{
    let v = u32_from_le(b);
    let (b0, b1, b2, b3) = (b[0] as int, b[1] as int, b[2] as int, b[3] as int);
    assert(v == b0 + 256 * b1 + 65536 * b2 + 16777216 * b3);
    assert(v % 256 == b0 && (v / 256) % 256 == b1 && (v / 65536) % 256 == b2 && v / 16777216
        == b3) by (nonlinear_arith)
        requires
            v == b0 + 256 * b1 + 65536 * b2 + 16777216 * b3,
            0 <= b0 < 256,
            0 <= b1 < 256,
            0 <= b2 < 256,
            0 <= b3 < 256,
    ;
    assert(u32_le(v) =~= b);
}

proof fn lemma_i32_of_bytes(b: Seq<u8>)
    requires
        b.len() == 4,
    ensures
        i32_le(i32_from_le(b)) == b,
{
    lemma_u32_of_bytes(b);
}

/// Copies `N` bytes of `raw` from `pos` into an array.
pub(crate) fn read_array<const N: usize>(raw: &[u8], pos: usize) -> (r: [u8; N])
    requires
        pos + N <= raw@.len(),
    ensures
        r@ == raw@.subrange(pos as int, pos + N),
{
    let mut out: [u8; N] = [0u8; N];
    let mut i: usize = 0;
    while i < N
        invariant
            i <= N,
            pos + N <= raw.len(),
            out@.len() == N,
            forall|j: int| 0 <= j < i ==> out@[j] == raw@[pos + j],
        decreases N - i,
    {
        out[i] = raw[pos + i];
        i = i + 1;
    }
    assert(out@ =~= raw@.subrange(pos as int, pos + N));
    out
}

/// Decodes a raw signed message of the service: the header, the body of the
/// transaction that its message type names, and the trailing signature.
pub fn tx_from_raw(raw: &[u8]) -> (r: Result<SignedTransaction, DecodeError>)
    ensures
        match r {
            Ok(t) => {
                &&& decode_error(raw@) is None
                &&& is_service_message(t.message)
                &&& raw@ == t.message.encoding() + t.signature@
            },
            Err(e) => decode_error(raw@) == Some(e),
        },
{
    let n = raw.len();
    if n < MIN_MESSAGE_LEN {
        return Err(DecodeError::UnexpectedlyShortPayload { actual_size: n, minimum_size: MIN_MESSAGE_LEN });
    }
    let network_id = raw[0];
    let protocol_version = raw[1];
    let message_type = read_u16_le(raw, 2);
    let service_id = read_u16_le(raw, 4);
    let declared = read_u32_le(raw, 6);
    let expected: usize = if message_type == TX_CREATE {
        32
    } else if message_type == TX_ORDER {
        44
    } else if message_type == TX_CANCEL {
        36
    } else {
        return Err(DecodeError::IncorrectMessageType { message_type });
    };
    if (declared as u64) != (n as u64) {
        return Err(DecodeError::IncorrectLength { declared, actual: n });
    }
    if service_id != SERVICE_ID {
        return Err(DecodeError::IncorrectServiceId { service_id });
    }
    let body_len = n - MIN_MESSAGE_LEN;
    if body_len != expected {
        return Err(DecodeError::IncorrectBodyLength { message_type, expected, actual: body_len });
    }
    let owner: [u8; 32] = read_array(raw, SERVICE_DATA_LEN);
    let body = if message_type == TX_CREATE {
        Transaction::Create(TxCreate { owner })
    } else if message_type == TX_ORDER {
        let price = read_u32_le(raw, 42);
        let amount = read_i32_le(raw, 46);
        let id = read_u32_le(raw, 50);
        proof {
            lemma_u32_of_bytes(raw@.subrange(42, 46));
            lemma_i32_of_bytes(raw@.subrange(46, 50));
            lemma_u32_of_bytes(raw@.subrange(50, 54));
        }
        Transaction::Order(TxOrder { owner, price, amount, id })
    } else {
        let id = read_u32_le(raw, 42);
        proof {
            lemma_u32_of_bytes(raw@.subrange(42, 46));
        }
        Transaction::Cancel(TxCancel { owner, id })
    };
    let signature: [u8; 64] = read_array(raw, n - SIGNATURE_LEN);
    let message = Message { network_id, protocol_version, service_id, message_id: message_type, body };
    proof {
        lemma_u16_of_bytes(raw@.subrange(2, 4));
        lemma_u16_of_bytes(raw@.subrange(4, 6));
        lemma_u32_of_bytes(raw@.subrange(6, 10));
        lemma_body_len(body);
        assert(length_field(body.encoding().len()) == declared);
        assert(body.encoding() =~= raw@.subrange(10, n - 64));
        assert(raw@ =~= message.encoding() + signature@);
    }
    Ok(SignedTransaction { message, signature })
}

impl SignedTransaction {
    /// Whether the signature is accepted by the public key of the
    /// transaction's owner, over the encoded message.
    pub fn verify(&self) -> (r: bool)
        ensures
            r == ed25519_accepts(self.message.body.owner()@, self.message.encoding(), self.signature@),
    {
        proof {
            lemma_body_len(self.message.body);
        }
        let data = self.message.fill();
        let owner = self.message.body.owner_key();
        verify_signature(&owner, data.as_slice(), &self.signature)
    }
}

/// Law: a message of the service followed by any signature is accepted by
/// the decoder.
pub proof fn lemma_encoded_message_decodes(m: Message<Transaction>, signature: [u8; 64])
    requires
        is_service_message(m),
    ensures
        decode_error(m.encoding() + signature@) is None,
{
    let raw = m.encoding() + signature@;
    let b = m.body.encoding();
    lemma_body_len(m.body);
    lemma_u16_roundtrip(m.message_id);
    lemma_u16_roundtrip(m.service_id);
    lemma_u32_roundtrip(length_field(b.len()));
    assert(raw.subrange(2, 4) =~= u16_le(m.message_id));
    assert(raw.subrange(4, 6) =~= u16_le(m.service_id));
    assert(raw.subrange(6, 10) =~= u32_le(length_field(b.len())));
}

/// Law: the raw bytes of a signed message of the service determine the
/// message and the signature, so decoding gives back exactly what was
/// encoded.
pub proof fn lemma_raw_determines_message(
    m1: Message<Transaction>,
    s1: [u8; 64],
    m2: Message<Transaction>,
    s2: [u8; 64],
)
    requires
        is_service_message(m1),
        is_service_message(m2),
        m1.encoding() + s1@ == m2.encoding() + s2@,
    ensures
        m1 == m2,
        s1 == s2,
{
    let raw = m1.encoding() + s1@;
    let raw2 = m2.encoding() + s2@;
    lemma_body_len(m1.body);
    lemma_body_len(m2.body);
    lemma_u16_roundtrip(m1.message_id);
    lemma_u16_roundtrip(m2.message_id);
    assert(raw.subrange(2, 4) =~= u16_le(m1.message_id));
    assert(raw2.subrange(2, 4) =~= u16_le(m2.message_id));
    assert(m1.message_id == m2.message_id);
    assert(raw[0] == m1.network_id && raw2[0] == m2.network_id);
    assert(raw[1] == m1.protocol_version && raw2[1] == m2.protocol_version);
    let n: int = raw.len() as int;
    let b1 = m1.body.encoding();
    let b2 = m2.body.encoding();
    assert(b1 =~= raw.subrange(10, n - 64));
    assert(b2 =~= raw2.subrange(10, n - 64));
    assert(s1@ =~= raw.subrange(n - 64, n));
    assert(s2@ =~= raw2.subrange(n - 64, n));
    assert(s1 =~= s2);
    assert(m1.body.owner()@ =~= b1.subrange(0, 32));
    assert(m2.body.owner()@ =~= b2.subrange(0, 32));
    assert(m1.body.owner() =~= m2.body.owner());
    match m1.body {
        Transaction::Create(x1) => {
            assert(m1.body == m2.body);
        },
        Transaction::Order(x1) => {
            if let Transaction::Order(x2) = m2.body {
                lemma_u32_roundtrip(x1.price);
                lemma_u32_roundtrip(x2.price);
                lemma_i32_roundtrip(x1.amount);
                lemma_i32_roundtrip(x2.amount);
                lemma_u32_roundtrip(x1.id);
                lemma_u32_roundtrip(x2.id);
                assert(b1.subrange(32, 36) =~= u32_le(x1.price));
                assert(b2.subrange(32, 36) =~= u32_le(x2.price));
                assert(b1.subrange(36, 40) =~= i32_le(x1.amount));
                assert(b2.subrange(36, 40) =~= i32_le(x2.amount));
                assert(b1.subrange(40, 44) =~= u32_le(x1.id));
                assert(b2.subrange(40, 44) =~= u32_le(x2.id));
            }
        },
        Transaction::Cancel(x1) => {
            if let Transaction::Cancel(x2) = m2.body {
                lemma_u32_roundtrip(x1.id);
                lemma_u32_roundtrip(x2.id);
                assert(b1.subrange(32, 36) =~= u32_le(x1.id));
                assert(b2.subrange(32, 36) =~= u32_le(x2.id));
            }
        },
    }
    lemma_u16_roundtrip(m1.service_id);
    assert(m1.service_id == m2.service_id);
}

} // verus!
